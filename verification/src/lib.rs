//! Snake Game across shards: each shard keeps the games of its own player,
//! one authority shard keeps the statistics of every player and publishes a
//! bounded leaderboard, and the shards tell each other by one-way messages.

pub mod contract;
pub mod leaderboard;
pub mod message;
pub mod service;
pub mod session;
pub mod shard;
pub mod shard_map;
pub mod shard_set;
pub mod state;
pub mod stats;
pub mod text;

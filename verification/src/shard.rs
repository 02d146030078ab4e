//! Shard identifiers: their order, and their textual form.

use linera_base::crypto::CryptoHash;
use linera_base::identifiers::ChainId;
use std::str::FromStr;
use vstd::prelude::*;

verus! {

/// Identifier of an execution shard: a 256-bit value held as four 64-bit
/// words, most significant word first.
#[derive(Clone, Copy, Debug, PartialEq, Eq, PartialOrd, Ord, Hash, Structural)]
pub struct ShardId {
    pub part1: u64,
    pub part2: u64,
    pub part3: u64,
    pub part4: u64,
}

/// The lower-case hexadecimal digit that stands for `value`.
pub open spec fn hex_digit(value: u64) -> char {
    if value == 0 {
        '0'
    } else if value == 1 {
        '1'
    } else if value == 2 {
        '2'
    } else if value == 3 {
        '3'
    } else if value == 4 {
        '4'
    } else if value == 5 {
        '5'
    } else if value == 6 {
        '6'
    } else if value == 7 {
        '7'
    } else if value == 8 {
        '8'
    } else if value == 9 {
        '9'
    } else if value == 10 {
        'a'
    } else if value == 11 {
        'b'
    } else if value == 12 {
        'c'
    } else if value == 13 {
        'd'
    } else if value == 14 {
        'e'
    } else {
        'f'
    }
}

/// The value of a hexadecimal digit of either case, or `None` for any other
/// character.
pub open spec fn hex_value(c: char) -> Option<u64> {
    if '0' <= c <= '9' {
        Some((c as u64 - '0' as u64) as u64)
    } else if 'a' <= c <= 'f' {
        Some((c as u64 - 'a' as u64 + 10) as u64)
    } else if 'A' <= c <= 'F' {
        Some((c as u64 - 'A' as u64 + 10) as u64)
    } else {
        None
    }
}

/// The four bits of `word` at `position`, counted from the most significant
/// group of four (`position` 0) to the least significant (`position` 15).
pub open spec fn nibble(word: u64, position: int) -> u64 {
    (word >> ((60 - 4 * position) as u64)) & 0xf
}

/// Whether `text` is the textual form of some shard identifier: exactly 64
/// hexadecimal digits.
pub open spec fn is_shard_text(text: Seq<char>) -> bool {
    &&& text.len() == 64
    &&& forall|i: int| 0 <= i < 64 ==> (#[trigger] hex_value(text[i])) is Some
}

impl ShardId {
    /// The word at `index`, 0 being the most significant.
    pub open spec fn word(self, index: int) -> u64 {
        if index == 0 {
            self.part1
        } else if index == 1 {
            self.part2
        } else if index == 2 {
            self.part3
        } else {
            self.part4
        }
    }

    /// The strict order of identifiers: that of the 256-bit values, which is
    /// also the order of their textual forms.
    pub open spec fn before(self, other: ShardId) -> bool {
        ||| self.part1 < other.part1
        ||| self.part1 == other.part1 && self.part2 < other.part2
        ||| self.part1 == other.part1 && self.part2 == other.part2 && self.part3 < other.part3
        ||| self.part1 == other.part1 && self.part2 == other.part2 && self.part3 == other.part3
            && self.part4 < other.part4
    }

    /// The textual form: 64 lower-case hexadecimal digits, most significant
    /// first.
    pub open spec fn text(self) -> Seq<char> {
        Seq::new(64, |i: int| hex_digit(nibble(self.word(i / 16), i % 16)))
    }

    /// Whether `text` spells this identifier, in digits of either case.
    pub open spec fn spelled_by(self, text: Seq<char>) -> bool {
        &&& is_shard_text(text)
        &&& forall|i: int|
            0 <= i < 64 ==> hex_value(#[trigger] text[i]) == Some(
                nibble(self.word(i / 16), i % 16),
            )
    }

    pub fn new(part1: u64, part2: u64, part3: u64, part4: u64) -> (id: ShardId)
        ensures
            id == (ShardId { part1, part2, part3, part4 }),
    {
        ShardId { part1, part2, part3, part4 }
    }

    /// Decides the strict order of two identifiers.
    pub fn is_before(&self, other: &ShardId) -> (result: bool)
        ensures
            result == self.before(*other),
    {
        if self.part1 != other.part1 {
            self.part1 < other.part1
        } else if self.part2 != other.part2 {
            self.part2 < other.part2
        } else if self.part3 != other.part3 {
            self.part3 < other.part3
        } else {
            self.part4 < other.part4
        }
    }
}

/// Writes an identifier out through `linera_base`: the `Display` form of the
/// `ChainId` whose hash is made of the four words in big-endian order.
///
/// Trusted: that form is the hexadecimal encoding of the 32 bytes of the
/// hash, two lower-case digits per byte, high half first.
#[verifier::external_body]
pub(crate) fn chain_id_text(id: &ShardId) -> (text: String)
    ensures
        text@ == id.text(),
{
    ChainId(CryptoHash::from([id.part1, id.part2, id.part3, id.part4])).to_string()
}

/// Reads an identifier through `linera_base`: `ChainId::from_str`, which
/// decodes hexadecimal digits into the 32 bytes of a hash.
///
/// Trusted: the call succeeds exactly on 64 hexadecimal digits of either
/// case, and each digit gives four bits of the hash, most significant first.
#[verifier::external_body]
pub(crate) fn chain_id_from_text(text: &str) -> (parsed: Option<ShardId>)
    ensures
        parsed is Some <==> is_shard_text(text@),
        parsed matches Some(id) ==> id.spelled_by(text@),
{
    match ChainId::from_str(text) {
        Ok(chain) => {
            let parts: [u64; 4] = chain.0.into();
            Some(ShardId { part1: parts[0], part2: parts[1], part3: parts[2], part4: parts[3] })
        },
        Err(_) => None,
    }
}

/// A word is known by its sixteen groups of four bits.
pub proof fn lemma_word_by_nibbles(a: u64, b: u64)
    requires
        forall|position: int| 0 <= position < 16 ==> nibble(a, position) == nibble(b, position),
    ensures
        a == b,
{
    assert(nibble(a, 0) == (a >> 60) & 0xf && nibble(b, 0) == (b >> 60) & 0xf);
    assert(nibble(a, 1) == (a >> 56) & 0xf && nibble(b, 1) == (b >> 56) & 0xf);
    assert(nibble(a, 2) == (a >> 52) & 0xf && nibble(b, 2) == (b >> 52) & 0xf);
    assert(nibble(a, 3) == (a >> 48) & 0xf && nibble(b, 3) == (b >> 48) & 0xf);
    assert(nibble(a, 4) == (a >> 44) & 0xf && nibble(b, 4) == (b >> 44) & 0xf);
    assert(nibble(a, 5) == (a >> 40) & 0xf && nibble(b, 5) == (b >> 40) & 0xf);
    assert(nibble(a, 6) == (a >> 36) & 0xf && nibble(b, 6) == (b >> 36) & 0xf);
    assert(nibble(a, 7) == (a >> 32) & 0xf && nibble(b, 7) == (b >> 32) & 0xf);
    assert(nibble(a, 8) == (a >> 28) & 0xf && nibble(b, 8) == (b >> 28) & 0xf);
    assert(nibble(a, 9) == (a >> 24) & 0xf && nibble(b, 9) == (b >> 24) & 0xf);
    assert(nibble(a, 10) == (a >> 20) & 0xf && nibble(b, 10) == (b >> 20) & 0xf);
    assert(nibble(a, 11) == (a >> 16) & 0xf && nibble(b, 11) == (b >> 16) & 0xf);
    assert(nibble(a, 12) == (a >> 12) & 0xf && nibble(b, 12) == (b >> 12) & 0xf);
    assert(nibble(a, 13) == (a >> 8) & 0xf && nibble(b, 13) == (b >> 8) & 0xf);
    assert(nibble(a, 14) == (a >> 4) & 0xf && nibble(b, 14) == (b >> 4) & 0xf);
    assert(nibble(a, 15) == (a >> 0) & 0xf && nibble(b, 15) == (b >> 0) & 0xf);
    assert(a == b) by (bit_vector)
        requires
            (a >> 60) & 0xf == (b >> 60) & 0xf,
            (a >> 56) & 0xf == (b >> 56) & 0xf,
            (a >> 52) & 0xf == (b >> 52) & 0xf,
            (a >> 48) & 0xf == (b >> 48) & 0xf,
            (a >> 44) & 0xf == (b >> 44) & 0xf,
            (a >> 40) & 0xf == (b >> 40) & 0xf,
            (a >> 36) & 0xf == (b >> 36) & 0xf,
            (a >> 32) & 0xf == (b >> 32) & 0xf,
            (a >> 28) & 0xf == (b >> 28) & 0xf,
            (a >> 24) & 0xf == (b >> 24) & 0xf,
            (a >> 20) & 0xf == (b >> 20) & 0xf,
            (a >> 16) & 0xf == (b >> 16) & 0xf,
            (a >> 12) & 0xf == (b >> 12) & 0xf,
            (a >> 8) & 0xf == (b >> 8) & 0xf,
            (a >> 4) & 0xf == (b >> 4) & 0xf,
            (a >> 0) & 0xf == (b >> 0) & 0xf,
    ;
}

/// A group of four bits is below sixteen.
pub proof fn lemma_nibble_bound(word: u64, position: int)
    requires
        0 <= position < 16,
    ensures
        nibble(word, position) < 16,
{
    let shift = (60 - 4 * position) as u64;
    assert((word >> shift) & 0xf < 16) by (bit_vector);
}

/// An identifier is known by a text that spells it: no text spells two.
pub proof fn lemma_spelling_unique(a: ShardId, b: ShardId, text: Seq<char>)
    requires
        a.spelled_by(text),
        b.spelled_by(text),
    ensures
        a == b,
{
    assert forall|index: int| 0 <= index < 4 implies a.word(index) == b.word(index) by {
        assert forall|position: int| 0 <= position < 16 implies nibble(a.word(index), position)
            == nibble(b.word(index), position) by {
            let i = 16 * index + position;
            assert(i / 16 == index && i % 16 == position);
            assert(hex_value(text[i]) == Some(nibble(a.word(i / 16), i % 16)));
            assert(hex_value(text[i]) == Some(nibble(b.word(i / 16), i % 16)));
        }
        lemma_word_by_nibbles(a.word(index), b.word(index));
    }
    assert(a.word(0) == b.word(0));
    assert(a.word(1) == b.word(1));
    assert(a.word(2) == b.word(2));
    assert(a.word(3) == b.word(3));
}

/// The textual form of an identifier spells it, and so do no two
/// identifiers have the same textual form.
pub proof fn lemma_text_spells(id: ShardId)
    ensures
        id.spelled_by(id.text()),
{
    assert forall|i: int| 0 <= i < 64 implies hex_value(#[trigger] id.text()[i]) == Some(
        nibble(id.word(i / 16), i % 16),
    ) by {
        lemma_nibble_bound(id.word(i / 16), i % 16);
    }
}

/// Identifiers with the same textual form are the same.
pub proof fn lemma_text_injective(a: ShardId, b: ShardId)
    requires
        a.text() == b.text(),
    ensures
        a == b,
{
    lemma_text_spells(a);
    lemma_text_spells(b);
    lemma_spelling_unique(a, b, a.text());
}

} // verus!

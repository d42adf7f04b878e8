//! What a proquint is, as mathematics: the block that two bytes form, the
//! syllable that spells a block, and the text that spells a byte sequence.

use vstd::prelude::*;
use crate::alphabet::{CONSONANTS, VOWELS};
use crate::ascii::ascii_text;

verus! {

/// A byte sequence has a proquint when it is made of whole 16-bit blocks and
/// holds at least one of them.
pub open spec fn encodable(input_length: nat) -> bool {
    input_length >= 2 && input_length % 2 == 0
}

/// Length of the proquint of `input_length` bytes: five letters for every two
/// bytes and one separator between neighbouring syllables. An odd length
/// counts for the whole blocks in it. Fewer than two bytes hold no block and
/// have no proquint; the value is then 0.
pub open spec fn encoded_len(input_length: nat) -> nat {
    if input_length < 2 {
        0
    } else {
        ((input_length / 2) * 6 - 1) as nat
    }
}

/// The 16-bit block that two neighbouring bytes form, the first of them being
/// the more significant.
pub open spec fn block(high: u8, low: u8) -> u16 {
    (high as u16) << 8 | (low as u16)
}

/// The `k`-th block of `input`, counted from 0.
pub open spec fn block_at(input: Seq<u8>, k: int) -> u16 {
    block(input[2 * k], input[2 * k + 1])
}

/// The five letters that spell one block: consonant, vowel, consonant, vowel,
/// consonant, taken from the most significant bits down.
pub open spec fn syllable(b: u16) -> Seq<u8> {
    seq![
        CONSONANTS[((b >> 12) & 0xf) as int],
        VOWELS[((b >> 10) & 0x3) as int],
        CONSONANTS[((b >> 6) & 0xf) as int],
        VOWELS[((b >> 4) & 0x3) as int],
        CONSONANTS[(b & 0xf) as int],
    ]
}

/// The byte at position `i` of the proquint of `input`: every sixth byte is
/// the separator, the five before it are the syllable of one block.
pub open spec fn proquint_byte(input: Seq<u8>, separator: u8, i: int) -> u8 {
    if i % 6 == 5 {
        separator
    } else {
        syllable(block_at(input, i / 6))[i % 6]
    }
}

/// The proquint of `input` as bytes.
pub open spec fn proquint_bytes(input: Seq<u8>, separator: u8) -> Seq<u8> {
    Seq::new(encoded_len(input.len()), |i: int| proquint_byte(input, separator, i))
}

/// The proquint of `input` as text: each byte of [`proquint_bytes`] read as
/// the character with that code.
pub open spec fn proquint_text(input: Seq<u8>, separator: u8) -> Seq<char> {
    ascii_text(proquint_bytes(input, separator))
}

} // verus!

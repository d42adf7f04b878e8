//! The two symbol tables. Their order is part of the format: the position of
//! a letter in its table is the bit pattern that the letter stands for.

use vstd::prelude::*;

verus! {

/// The sixteen consonants, indexed by the four bits that each one spells.
///
/// In ASCII: `b d f g h j k l m n p r s t v z`.
pub const CONSONANTS: [u8; 16] = [
    0x62, 0x64, 0x66, 0x67, 0x68, 0x6a, 0x6b, 0x6c, 0x6d, 0x6e, 0x70, 0x72, 0x73, 0x74, 0x76, 0x7a,
];

/// The four vowels, indexed by the two bits that each one spells.
///
/// In ASCII: `a i o u`.
pub const VOWELS: [u8; 4] = [0x61, 0x69, 0x6f, 0x75];

/// `c` is one of the sixteen consonants.
pub open spec fn is_consonant(c: u8) -> bool {
    exists|k: int| 0 <= k < 16 && c == #[trigger] CONSONANTS[k]
}

/// `c` is one of the four vowels.
pub open spec fn is_vowel(c: u8) -> bool {
    exists|k: int| 0 <= k < 4 && c == #[trigger] VOWELS[k]
}

/// Every letter of both tables is a lower-case ASCII letter.
pub proof fn lemma_letters_are_ascii(k: int)
    ensures
        0 <= k < 16 ==> 0x61 <= CONSONANTS[k] <= 0x7a,
        0 <= k < 4 ==> 0x61 <= VOWELS[k] <= 0x7a,
{
}

/// No consonant occurs twice in its table.
pub proof fn lemma_consonants_distinct(j: int, k: int)
    requires
        0 <= j < 16,
        0 <= k < 16,
        CONSONANTS[j] == CONSONANTS[k],
    ensures
        j == k,
{
}

/// No vowel occurs twice in its table.
pub proof fn lemma_vowels_distinct(j: int, k: int)
    requires
        0 <= j < 4,
        0 <= k < 4,
        VOWELS[j] == VOWELS[k],
    ensures
        j == k,
{
}

/// No letter is both a consonant and a vowel.
pub proof fn lemma_consonant_is_no_vowel(c: u8)
    ensures
        !(is_consonant(c) && is_vowel(c)),
{
}

} // verus!

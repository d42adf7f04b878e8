//! What holds of every proquint, proved from the model.

use vstd::prelude::*;
use crate::alphabet::{
    is_consonant, is_vowel, lemma_consonants_distinct, lemma_letters_are_ascii,
    lemma_vowels_distinct, CONSONANTS, VOWELS,
};
use crate::ascii::is_ascii_bytes;
use crate::model::{
    block, block_at, encodable, encoded_len, proquint_byte, proquint_bytes, proquint_text,
    syllable,
};

verus! {

/// The five bit fields of a block are indices into the symbol tables.
pub proof fn lemma_fields_in_range(b: u16)
    ensures
        (b >> 12) & 0xf < 16,
        (b >> 10) & 0x3 < 4,
        (b >> 6) & 0xf < 16,
        (b >> 4) & 0x3 < 4,
        b & 0xf < 16,
{
    assert((b >> 12) & 0xf < 16) by (bit_vector);
    assert((b >> 10) & 0x3 < 4) by (bit_vector);
    assert((b >> 6) & 0xf < 16) by (bit_vector);
    assert((b >> 4) & 0x3 < 4) by (bit_vector);
    assert(b & 0xf < 16) by (bit_vector);
}

/// With an ASCII separator the whole proquint is ASCII.
pub proof fn lemma_proquint_is_ascii(input: Seq<u8>, separator: u8)
    requires
        separator < 0x80,
    ensures
        is_ascii_bytes(proquint_bytes(input, separator)),
{
    let bytes = proquint_bytes(input, separator);
    assert forall|i: int| 0 <= i < bytes.len() implies #[trigger] bytes[i] < 0x80 by {
        let b = block_at(input, i / 6);
        lemma_fields_in_range(b);
        lemma_letters_are_ascii(((b >> 12) & 0xf) as int);
        lemma_letters_are_ascii(((b >> 10) & 0x3) as int);
        lemma_letters_are_ascii(((b >> 6) & 0xf) as int);
        lemma_letters_are_ascii(((b >> 4) & 0x3) as int);
        lemma_letters_are_ascii((b & 0xf) as int);
    }
}

/// A proquint is a function of the bytes and the separator: whatever two
/// encodings of the same input return, they return the same text.
pub proof fn lemma_deterministic(
    input: Seq<u8>,
    separator: u8,
    first: Seq<char>,
    second: Seq<char>,
)
    requires
        first == proquint_text(input, separator),
        second == proquint_text(input, separator),
    ensures
        first == second,
{
}

/// The proquint of an even, positive number of bytes has six characters for
/// every two bytes, less one: the length that `output_length` computes.
pub proof fn lemma_length(input: Seq<u8>, separator: u8)
    requires
        encodable(input.len()),
    ensures
        proquint_text(input, separator).len() == encoded_len(input.len()),
        proquint_bytes(input, separator).len() == encoded_len(input.len()),
        encoded_len(input.len()) == (input.len() / 2) * 6 - 1,
{
}

/// Position by position, a proquint is consonant, vowel, consonant, vowel,
/// consonant, separator, and so on; it ends on the last consonant of a
/// syllable, never on a separator.
pub proof fn lemma_syllable_structure(input: Seq<u8>, separator: u8)
    requires
        encodable(input.len()),
    ensures
        forall|i: int|
            #![trigger proquint_bytes(input, separator)[i]]
            0 <= i < encoded_len(input.len()) ==> {
                let c = proquint_bytes(input, separator)[i];
                &&& (i % 6 == 0 || i % 6 == 2 || i % 6 == 4) ==> is_consonant(c)
                &&& (i % 6 == 1 || i % 6 == 3) ==> is_vowel(c)
                &&& i % 6 == 5 ==> c == separator
            },
        forall|i: int|
            #![trigger proquint_text(input, separator)[i]]
            0 <= i < encoded_len(input.len()) ==> proquint_text(input, separator)[i]
                == proquint_bytes(input, separator)[i] as char,
        (encoded_len(input.len()) - 1) % 6 == 4,
{
    assert forall|i: int|
        #![trigger proquint_bytes(input, separator)[i]]
        0 <= i < encoded_len(input.len()) implies {
        let c = proquint_bytes(input, separator)[i];
        &&& (i % 6 == 0 || i % 6 == 2 || i % 6 == 4) ==> is_consonant(c)
        &&& (i % 6 == 1 || i % 6 == 3) ==> is_vowel(c)
        &&& i % 6 == 5 ==> c == separator
    } by {
        lemma_syllable_letters(block_at(input, i / 6));
    }
}

/// A syllable is five letters: consonant, vowel, consonant, vowel, consonant.
pub proof fn lemma_syllable_letters(b: u16)
    ensures
        syllable(b).len() == 5,
        is_consonant(syllable(b)[0]),
        is_vowel(syllable(b)[1]),
        is_consonant(syllable(b)[2]),
        is_vowel(syllable(b)[3]),
        is_consonant(syllable(b)[4]),
{
    lemma_fields_in_range(b);
    let k0 = ((b >> 12) & 0xf) as int;
    let k1 = ((b >> 10) & 0x3) as int;
    let k2 = ((b >> 6) & 0xf) as int;
    let k3 = ((b >> 4) & 0x3) as int;
    let k4 = (b & 0xf) as int;
    assert(syllable(b)[0] == CONSONANTS[k0]);
    assert(syllable(b)[1] == VOWELS[k1]);
    assert(syllable(b)[2] == CONSONANTS[k2]);
    assert(syllable(b)[3] == VOWELS[k3]);
    assert(syllable(b)[4] == CONSONANTS[k4]);
}

/// No two blocks have the same syllable.
pub proof fn lemma_syllable_injective(a: u16, b: u16)
    requires
        syllable(a) == syllable(b),
    ensures
        a == b,
{
    lemma_fields_in_range(a);
    lemma_fields_in_range(b);
    assert(syllable(a)[0] == syllable(b)[0]);
    assert(syllable(a)[1] == syllable(b)[1]);
    assert(syllable(a)[2] == syllable(b)[2]);
    assert(syllable(a)[3] == syllable(b)[3]);
    assert(syllable(a)[4] == syllable(b)[4]);
    lemma_consonants_distinct(((a >> 12) & 0xf) as int, ((b >> 12) & 0xf) as int);
    lemma_vowels_distinct(((a >> 10) & 0x3) as int, ((b >> 10) & 0x3) as int);
    lemma_consonants_distinct(((a >> 6) & 0xf) as int, ((b >> 6) & 0xf) as int);
    lemma_vowels_distinct(((a >> 4) & 0x3) as int, ((b >> 4) & 0x3) as int);
    lemma_consonants_distinct((a & 0xf) as int, (b & 0xf) as int);
    assert(a == b) by (bit_vector)
        requires
            (a >> 12) & 0xf == (b >> 12) & 0xf,
            (a >> 10) & 0x3 == (b >> 10) & 0x3,
            (a >> 6) & 0xf == (b >> 6) & 0xf,
            (a >> 4) & 0x3 == (b >> 4) & 0x3,
            a & 0xf == b & 0xf,
    ;
}

/// Every word of the shape consonant, vowel, consonant, vowel, consonant is
/// the syllable of a block: with the law above, blocks and such words
/// correspond one to one.
pub proof fn lemma_syllable_surjective(word: Seq<u8>)
    requires
        word.len() == 5,
        is_consonant(word[0]),
        is_vowel(word[1]),
        is_consonant(word[2]),
        is_vowel(word[3]),
        is_consonant(word[4]),
    ensures
        exists|b: u16| syllable(b) == word,
{
    let k0 = choose|k: int| 0 <= k < 16 && word[0] == #[trigger] CONSONANTS[k];
    let k1 = choose|k: int| 0 <= k < 4 && word[1] == #[trigger] VOWELS[k];
    let k2 = choose|k: int| 0 <= k < 16 && word[2] == #[trigger] CONSONANTS[k];
    let k3 = choose|k: int| 0 <= k < 4 && word[3] == #[trigger] VOWELS[k];
    let k4 = choose|k: int| 0 <= k < 16 && word[4] == #[trigger] CONSONANTS[k];
    let f0 = k0 as u16;
    let f1 = k1 as u16;
    let f2 = k2 as u16;
    let f3 = k3 as u16;
    let f4 = k4 as u16;
    let b: u16 = f0 << 12 | f1 << 10 | f2 << 6 | f3 << 4 | f4;
    assert((b >> 12) & 0xf == f0 && (b >> 10) & 0x3 == f1 && (b >> 6) & 0xf == f2 && (b >> 4) & 0x3
        == f3 && b & 0xf == f4) by (bit_vector)
        requires
            b == f0 << 12 | f1 << 10 | f2 << 6 | f3 << 4 | f4,
            f0 < 16,
            f1 < 4,
            f2 < 16,
            f3 < 4,
            f4 < 16,
    ;
    assert(syllable(b) =~= word);
}

/// Two bytes are read off their block: no two pairs form the same block.
pub proof fn lemma_block_injective(high: u8, low: u8, other_high: u8, other_low: u8)
    requires
        block(high, low) == block(other_high, other_low),
    ensures
        high == other_high,
        low == other_low,
{
    assert(high == other_high && low == other_low) by (bit_vector)
        requires
            (high as u16) << 8 | (low as u16) == (other_high as u16) << 8 | (other_low as u16),
    ;
}

/// The encoding loses nothing: inputs with the same proquint are the same
/// bytes.
pub proof fn lemma_proquint_injective(first: Seq<u8>, second: Seq<u8>, separator: u8)
    requires
        encodable(first.len()),
        encodable(second.len()),
        proquint_bytes(first, separator) == proquint_bytes(second, separator),
    ensures
        first == second,
{
    let p = proquint_bytes(first, separator);
    let q = proquint_bytes(second, separator);
    assert(p.len() == q.len());
    assert(first.len() == second.len());
    assert forall|j: int| 0 <= j < first.len() implies first[j] == second[j] by {
        let k = j / 2;
        let a = block_at(first, k);
        let b = block_at(second, k);
        assert forall|t: int| 0 <= t < 5 implies syllable(a)[t] == syllable(b)[t] by {
            let i = 6 * k + t;
            assert(i / 6 == k && i % 6 == t);
            assert(p[i] == proquint_byte(first, separator, i));
            assert(q[i] == proquint_byte(second, separator, i));
        }
        assert(syllable(a) =~= syllable(b));
        lemma_syllable_injective(a, b);
        lemma_block_injective(first[2 * k], first[2 * k + 1], second[2 * k], second[2 * k + 1]);
    }
    assert(first =~= second);
}

/// The proquint of a single block is its syllable.
pub proof fn lemma_proquint_of_block(high: u8, low: u8, separator: u8)
    ensures
        proquint_bytes(seq![high, low], separator) == syllable(block(high, low)),
{
    let input = seq![high, low];
    let p = proquint_bytes(input, separator);
    assert(p.len() == 5);
    assert forall|i: int| 0 <= i < 5 implies p[i] == syllable(block(high, low))[i] by {
        assert(i / 6 == 0 && i % 6 == i);
        assert(block_at(input, 0) == block(high, low));
    }
    assert(p =~= syllable(block(high, low)));
}

/// Syllables come in the order of their blocks, joined by the separator: the
/// proquint of two inputs put together is their proquints with one separator
/// between them.
pub proof fn lemma_proquint_of_concat(first: Seq<u8>, second: Seq<u8>, separator: u8)
    requires
        encodable(first.len()),
        encodable(second.len()),
    ensures
        proquint_bytes(first + second, separator) == proquint_bytes(first, separator).push(
            separator,
        ) + proquint_bytes(second, separator),
{
    let whole = first + second;
    let p = proquint_bytes(first, separator);
    let q = proquint_bytes(second, separator);
    let r = proquint_bytes(whole, separator);
    let joined = p.push(separator) + q;
    let blocks = (first.len() / 2) as int;
    assert(p.len() == 6 * blocks - 1);
    assert(r.len() == joined.len());
    assert forall|i: int| 0 <= i < r.len() implies r[i] == joined[i] by {
        if i < p.len() {
            assert(2 * (i / 6) + 1 < first.len());
            assert(block_at(whole, i / 6) == block_at(first, i / 6));
        } else if i == p.len() {
            assert(i % 6 == 5);
        } else {
            let j = i - 6 * blocks;
            assert(joined[i] == q[j]);
            assert(j / 6 == i / 6 - blocks && j % 6 == i % 6);
            assert(whole[2 * (i / 6)] == second[2 * (j / 6)]);
            assert(whole[2 * (i / 6) + 1] == second[2 * (j / 6) + 1]);
            assert(block_at(whole, i / 6) == block_at(second, j / 6));
        }
    }
    assert(r =~= joined);
}

} // verus!

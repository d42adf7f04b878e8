//! The encoder: from bytes to their proquint.

use vstd::prelude::*;
use vstd::slice::slice_subrange;
use crate::alphabet::{CONSONANTS, VOWELS};
use crate::ascii::{ascii_str, ascii_string};
use crate::bytes::Proquint;
use crate::laws::{lemma_fields_in_range, lemma_proquint_is_ascii};
use crate::model::{
    block_at, encodable, encoded_len, proquint_byte, proquint_bytes, proquint_text,
};

verus! {

/// The separator that [`proquints`] puts between syllables: a hyphen.
pub const SEPARATOR: u8 = 0x2d;

/// Returns the output length for `input_length`.
///
/// An odd `input_length` is counted as the even length below it. Lengths
/// below 2 have no output and are not accepted.
pub fn output_length(input_length: usize) -> (n: usize)
    requires
        input_length >= 2,
        encoded_len(input_length as nat) <= usize::MAX,
    ensures
        n == encoded_len(input_length as nat),
{
    ((input_length / 2) * 6) - 1
}

/// The output length for `input_length`, where `input_length` bytes have a
/// proquint and its length can be held: `None` for an odd length, for 0, and
/// for a length whose proquint is longer than `usize::MAX`.
pub fn checked_output_length(input_length: usize) -> (n: Option<usize>)
    ensures
        n is Some <==> encodable(input_length as nat) && encoded_len(input_length as nat)
            <= usize::MAX,
        n matches Some(len) ==> len == encoded_len(input_length as nat),
{
    if input_length < 2 || input_length % 2 != 0 {
        return None;
    }
    match (input_length / 2).checked_mul(6) {
        Some(with_separators) => Some(with_separators - 1),
        None => None,
    }
}

/// Create the proquint for `input`, with a hyphen between the syllables.
pub fn proquints<T: Proquint>(input: T) -> (text: String)
    requires
        encodable(input.bytes().len()),
        encoded_len(input.bytes().len()) <= usize::MAX,
    ensures
        text@ == proquint_text(input.bytes(), SEPARATOR),
        text@.len() == encoded_len(input.bytes().len()),
{
    let bytes = input.as_bytes();
    let mut buf = vec![0u8; output_length(bytes.len())];
    proquints_buf(bytes.as_slice(), buf.as_mut_slice(), SEPARATOR);
    assert(buf@ =~= proquint_bytes(input.bytes(), SEPARATOR));
    proof {
        lemma_proquint_is_ascii(input.bytes(), SEPARATOR);
    }
    ascii_string(buf)
}

/// Writes the proquint of `input` to the front of `buf`, with `separator`
/// between the syllables, and returns it as a string slice over the bytes
/// written. The rest of `buf` is left as it was.
pub fn proquints_buf<'a>(input: &[u8], buf: &'a mut [u8], separator: u8) -> (text: &'a str)
    requires
        encodable(input@.len()),
        encoded_len(input@.len()) <= old(buf)@.len(),
        separator < 0x80,
    ensures
        text@ == proquint_text(input@, separator),
        text@.len() == encoded_len(input@.len()),
        final(buf)@ == proquint_bytes(input@, separator) + old(buf)@.skip(
            encoded_len(input@.len()) as int,
        ),
{
    let n = input.len();
    let ghost total = encoded_len(n as nat) as int;
    let mut i: usize = 0;
    let mut c: usize = 0;
    while c < n
        invariant
            n == input@.len(),
            encodable(n as nat),
            total == encoded_len(n as nat),
            total <= buf@.len(),
            buf@.len() == old(buf)@.len(),
            c % 2 == 0,
            c <= n,
            c < n ==> i == (c / 2) * 6,
            c == n ==> i == total,
            forall|j: int| 0 <= j < i ==> buf@[j] == proquint_byte(input@, separator, j),
            forall|j: int| total <= j < buf@.len() ==> buf@[j] == old(buf)@[j],
        decreases n - c,
    {
        let b: u16 = (input[c] as u16) << 8 | (input[c + 1] as u16);
        let ghost k = (c / 2) as int;
        let ghost start = i as int;
        proof {
            assert(b == block_at(input@, k));
            lemma_fields_in_range(b);
            assert(start + 5 <= total);
        }
        c += 2;
        buf[i] = CONSONANTS[((b >> 12) & 0xf) as usize];
        i += 1;
        buf[i] = VOWELS[((b >> 10) & 0x3) as usize];
        i += 1;
        buf[i] = CONSONANTS[((b >> 6) & 0xf) as usize];
        i += 1;
        buf[i] = VOWELS[((b >> 4) & 0x3) as usize];
        i += 1;
        buf[i] = CONSONANTS[(b & 0xf) as usize];
        i += 1;
        if c < n {
            buf[i] = separator;
            i += 1;
        }
        proof {
            assert forall|j: int| start <= j < i implies buf@[j] == proquint_byte(
                input@,
                separator,
                j,
            ) by {
                assert(j / 6 == k);
                assert(j % 6 == j - start);
            }
        }
    }
    proof {
        let written = buf@.subrange(0, i as int);
        assert(written =~= proquint_bytes(input@, separator));
        assert(buf@ =~= written + old(buf)@.skip(total));
        lemma_proquint_is_ascii(input@, separator);
    }
    ascii_str(slice_subrange(buf, 0, i))
}

} // verus!

use std::collections::HashSet;

use proquints::alphabet::{CONSONANTS, VOWELS};
use proquints::ascii::{ascii_str, ascii_string};
use proquints::{checked_output_length, output_length, proquints, proquints_buf, SEPARATOR};

#[test]
fn output_length_counts_five_letters_and_a_separator() {
    assert_eq!(output_length(2), 5);
    assert_eq!(output_length(4), 11);
    assert_eq!(output_length(6), 17);
    assert_eq!(output_length(8), 23);
    assert_eq!(output_length(16), 47);
}

#[test]
fn output_length_of_an_odd_length_is_that_of_the_even_length_below() {
    assert_eq!(output_length(3), 5);
    assert_eq!(output_length(5), 11);
}

#[test]
fn checked_output_length_agrees_with_output_length() {
    let mut len: usize = 2;
    while len <= 64 {
        assert_eq!(checked_output_length(len), Some(output_length(len)));
        len += 2;
    }
}

#[test]
fn checked_output_length_refuses_odd_lengths() {
    assert_eq!(checked_output_length(1), None);
    assert_eq!(checked_output_length(3), None);
    assert_eq!(checked_output_length(usize::MAX), None);
}

#[test]
fn checked_output_length_refuses_empty_input() {
    assert_eq!(checked_output_length(0), None);
}

#[test]
fn checked_output_length_refuses_what_does_not_fit() {
    let largest: usize = (usize::MAX / 6) * 2;
    assert_eq!(checked_output_length(largest), Some((usize::MAX / 6) * 6 - 1));
    assert_eq!(checked_output_length(largest + 2), None);
    assert_eq!(checked_output_length(usize::MAX - 1), None);
}

#[test]
fn a_four_byte_input_needs_eleven_bytes_of_buffer() {
    let needed = checked_output_length(4);
    assert_eq!(needed, Some(11));
    assert!(needed.unwrap() > 10);
}

#[test]
fn separator_is_a_hyphen() {
    assert_eq!(SEPARATOR, b'-');
}

#[test]
fn tables_hold_the_letters_in_order() {
    assert_eq!(&CONSONANTS, b"bdfghjklmnprstvz");
    assert_eq!(&VOWELS, b"aiou");
}

#[test]
fn one_block_is_one_syllable() {
    assert_eq!(proquints([0u8, 0u8].as_slice()), "babab");
    assert_eq!(proquints([0xffu8, 0xffu8].as_slice()), "zuzuz");
    assert_eq!(proquints([0x7fu8, 0x00u8].as_slice()), "lusab");
    assert_eq!(proquints([0x00u8, 0x01u8].as_slice()), "babad");
}

#[test]
fn each_field_picks_its_letter() {
    // consonant 1: bits 15..12
    assert_eq!(proquints([0x10u8, 0x00u8].as_slice()), "dabab");
    // vowel 1: bits 11..10
    assert_eq!(proquints([0x04u8, 0x00u8].as_slice()), "bibab");
    // consonant 2: bits 9..6
    assert_eq!(proquints([0x00u8, 0x40u8].as_slice()), "badab");
    // vowel 2: bits 5..4
    assert_eq!(proquints([0x00u8, 0x10u8].as_slice()), "babib");
    // consonant 3: bits 3..0
    assert_eq!(proquints([0x00u8, 0x0fu8].as_slice()), "babaz");
}

#[test]
fn the_first_byte_of_a_block_is_the_more_significant() {
    assert_eq!(proquints([0x12u8, 0x34u8].as_slice()), "damuh");
    assert_eq!(proquints([0x34u8, 0x12u8].as_slice()), "gibif");
}

#[test]
fn blocks_are_spelled_in_input_order() {
    let bytes: [u8; 6] = [0x7f, 0x00, 0x00, 0x01, 0xff, 0xff];
    assert_eq!(proquints(bytes.as_slice()), "lusab-babad-zuzuz");
}

#[test]
fn encoding_twice_gives_the_same_text() {
    let bytes: [u8; 8] = [1, 2, 3, 4, 250, 251, 252, 253];
    let first = proquints(bytes.as_slice());
    let second = proquints(bytes.as_slice());
    assert_eq!(first, second);
}

#[test]
fn length_of_the_text_is_the_output_length() {
    let mut bytes: Vec<u8> = Vec::new();
    let mut next: u8 = 7;
    while bytes.len() < 40 {
        bytes.push(next);
        bytes.push(next.wrapping_mul(3));
        next = next.wrapping_add(31);
        let text = proquints(bytes.as_slice());
        assert_eq!(text.len(), output_length(bytes.len()));
    }
}

#[test]
fn letters_and_separators_alternate() {
    let bytes: [u8; 10] = [0, 1, 2, 3, 127, 128, 200, 201, 254, 255];
    let text = proquints(bytes.as_slice());
    let out = text.as_bytes();
    assert_eq!(out.len(), 29);
    for (i, c) in out.iter().enumerate() {
        match i % 6 {
            0 | 2 | 4 => assert!(CONSONANTS.contains(c), "position {i}"),
            1 | 3 => assert!(VOWELS.contains(c), "position {i}"),
            _ => assert_eq!(*c, b'-', "position {i}"),
        }
    }
    assert_eq!((out.len() - 1) % 6, 4);
}

#[test]
fn no_two_blocks_share_a_syllable() {
    let mut seen: HashSet<String> = HashSet::new();
    let mut block: u32 = 0;
    while block <= 0xffff {
        let bytes: [u8; 2] = [(block >> 8) as u8, (block & 0xff) as u8];
        let text = proquints(bytes.as_slice());
        assert_eq!(text.len(), 5);
        assert!(seen.insert(text), "block {block:#06x}");
        block += 1;
    }
    assert_eq!(seen.len(), 65536);
}

#[test]
fn buffer_form_writes_the_prefix_and_returns_it() {
    let input: [u8; 4] = [127, 0, 0, 1];
    let mut buf: [u8; 11] = [0; 11];
    let text = proquints_buf(&input, &mut buf, b'-');
    assert_eq!(text, "lusab-babad");
    assert_eq!(&buf, b"lusab-babad");
}

#[test]
fn buffer_form_takes_the_separator_of_the_caller() {
    let input: [u8; 6] = [63, 84, 220, 193, 12, 110];
    let mut buf: [u8; 17] = [0; 17];
    assert_eq!(proquints_buf(&input, &mut buf, b'_'), "gutih_tugad_budov");
    assert_eq!(proquints_buf(&input, &mut buf, b' '), "gutih tugad budov");
    assert_eq!(proquints_buf(&input, &mut buf, 0), "gutih\0tugad\0budov");
    assert_eq!(proquints_buf(&input, &mut buf, 0x7f), "gutih\u{7f}tugad\u{7f}budov");
}

#[test]
fn buffer_form_leaves_the_rest_of_a_longer_buffer() {
    let input: [u8; 4] = [212, 58, 253, 68];
    let mut buf: [u8; 16] = [b'#'; 16];
    let text = proquints_buf(&input, &mut buf, b'-');
    assert_eq!(text, "tibup-zujah");
    assert_eq!(text.len(), 11);
    assert_eq!(&buf, b"tibup-zujah#####");
}

#[test]
fn buffer_form_writes_no_separator_after_one_syllable() {
    let input: [u8; 2] = [0xab, 0xcd];
    let mut buf: [u8; 8] = [b'.'; 8];
    let text = proquints_buf(&input, &mut buf, b'-');
    assert_eq!(text, "pozat");
    assert_eq!(&buf, b"pozat...");
}

#[test]
fn buffer_form_agrees_with_the_owned_form() {
    let input: [u8; 8] = [9, 8, 7, 6, 5, 4, 3, 2];
    let mut buf: Vec<u8> = vec![0; output_length(input.len())];
    let owned = proquints(input.as_slice());
    let text = proquints_buf(&input, &mut buf, SEPARATOR);
    assert_eq!(text, owned);
}

#[test]
fn ascii_bytes_read_as_text() {
    assert_eq!(ascii_str(b"lusab-babad"), "lusab-babad");
    assert_eq!(ascii_str(b""), "");
    assert_eq!(ascii_string(vec![0x67, 0x75, 0x74, 0x69, 0x68]), "gutih");
    assert_eq!(ascii_string(Vec::new()), "");
}

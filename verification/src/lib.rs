//! Proquints: pronounceable quintuplets of alternating consonants and vowels
//! that spell out 16-bit blocks of binary data.
//!
//! [`proquints`] spells a value, [`proquints_buf`] spells bytes into a buffer
//! of the caller, [`output_length`] says how long the result is. The module
//! `model` says what a proquint is, `laws` what is proved of it.

pub mod alphabet;
pub mod ascii;
pub mod bytes;
pub mod encode;
pub mod laws;
pub mod model;

pub use bytes::{Ipv4Octets, Ipv6Octets, Proquint};
pub use encode::{checked_output_length, output_length, proquints, proquints_buf, SEPARATOR};

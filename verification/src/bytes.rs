//! Values that can be spelled as a proquint, and their bytes. Integers and
//! addresses are taken most significant byte first, so that the proquint of a
//! value reads the same on every machine of one word size.

use vstd::prelude::*;
use vstd::slice::slice_to_vec;

verus! {

/// The `width` low bytes of `value`, most significant first.
pub open spec fn be_bytes(value: nat, width: nat) -> Seq<u8>
    decreases width,
{
    if width == 0 {
        Seq::empty()
    } else {
        be_bytes(value / 256, (width - 1) as nat).push((value % 256) as u8)
    }
}

/// The number that `bytes` spell when read most significant byte first.
pub open spec fn be_value(bytes: Seq<u8>) -> nat
    decreases bytes.len(),
{
    if bytes.len() == 0 {
        0
    } else {
        be_value(bytes.drop_last()) * 256 + bytes.last() as nat
    }
}

/// 256 to the power `width`: the number of values that `width` bytes tell
/// apart.
pub open spec fn radix(width: nat) -> nat
    decreases width,
{
    if width == 0 {
        1
    } else {
        256 * radix((width - 1) as nat)
    }
}

/// `be_bytes` gives as many bytes as were asked for.
pub proof fn lemma_be_bytes_len(value: nat, width: nat)
    ensures
        be_bytes(value, width).len() == width,
    decreases width,
{
    if width > 0 {
        lemma_be_bytes_len(value / 256, (width - 1) as nat);
    }
}

/// Reading back the big-endian bytes of a value that fits in them gives the
/// value.
pub proof fn lemma_be_bytes_round_trip(value: nat, width: nat)
    requires
        value < radix(width),
    ensures
        be_value(be_bytes(value, width)) == value,
    decreases width,
{
    if width > 0 {
        let rest = be_bytes(value / 256, (width - 1) as nat);
        let low = (value % 256) as u8;
        lemma_be_bytes_round_trip(value / 256, (width - 1) as nat);
        assert(rest.push(low).drop_last() =~= rest);
    }
}

/// The `width` low bytes of `value`, most significant first.
pub fn big_endian(value: u64, width: usize) -> (bytes: Vec<u8>)
    requires
        width <= 8,
    ensures
        bytes@ == be_bytes(value as nat, width as nat),
{
    let mut bytes: Vec<u8> = vec![0u8; width];
    let mut rest: u64 = value;
    let mut i: usize = width;
    while i > 0
        invariant
            i <= width,
            bytes@.len() == width,
            be_bytes(value as nat, width as nat) == be_bytes(rest as nat, i as nat)
                + bytes@.subrange(i as int, width as int),
        decreases i,
    {
        let ghost before = bytes@;
        i -= 1;
        bytes[i] = (rest % 256) as u8;
        proof {
            assert(be_bytes(rest as nat, (i + 1) as nat) + before.subrange(
                i + 1,
                width as int,
            ) =~= be_bytes((rest / 256) as nat, i as nat) + bytes@.subrange(
                i as int,
                width as int,
            ));
        }
        rest = rest / 256;
    }
    assert(bytes@ =~= be_bytes(value as nat, width as nat));
    bytes
}

/// What can be spelled as a proquint: a value with a byte representation.
///
/// The encoder needs the bytes to be whole 16-bit blocks. The integers and
/// addresses below always are; a byte slice is when its length is even.
pub trait Proquint {
    /// The bytes that stand for the value.
    spec fn bytes(&self) -> Seq<u8>;

    /// Return itself as bytes.
    fn as_bytes(&self) -> (bytes: Vec<u8>)
        ensures
            bytes@ == self.bytes(),
    ;
}

/// An IPv4 address: its four octets in network order.
pub struct Ipv4Octets(pub [u8; 4]);

/// An IPv6 address: its sixteen octets in network order.
pub struct Ipv6Octets(pub [u8; 16]);

/// A byte slice stands for itself.
impl<'a> Proquint for &'a [u8] {
    open spec fn bytes(&self) -> Seq<u8> {
        self@
    }

    fn as_bytes(&self) -> (bytes: Vec<u8>) {
        slice_to_vec(*self)
    }
}

impl Proquint for u16 {
    open spec fn bytes(&self) -> Seq<u8> {
        be_bytes(*self as nat, 2)
    }

    fn as_bytes(&self) -> (bytes: Vec<u8>) {
        big_endian(*self as u64, 2)
    }
}

impl Proquint for u32 {
    open spec fn bytes(&self) -> Seq<u8> {
        be_bytes(*self as nat, 4)
    }

    fn as_bytes(&self) -> (bytes: Vec<u8>) {
        big_endian(*self as u64, 4)
    }
}

impl Proquint for u64 {
    open spec fn bytes(&self) -> Seq<u8> {
        be_bytes(*self as nat, 8)
    }

    fn as_bytes(&self) -> (bytes: Vec<u8>) {
        big_endian(*self, 8)
    }
}

/// A `usize` has as many bytes as the machine word, so its proquint differs
/// between machines of different word size.
impl Proquint for usize {
    open spec fn bytes(&self) -> Seq<u8> {
        be_bytes(*self as nat, (usize::BITS / 8) as nat)
    }

    fn as_bytes(&self) -> (bytes: Vec<u8>) {
        big_endian(*self as u64, (usize::BITS / 8) as usize)
    }
}

impl Proquint for Ipv4Octets {
    open spec fn bytes(&self) -> Seq<u8> {
        self.0@
    }

    fn as_bytes(&self) -> (bytes: Vec<u8>) {
        slice_to_vec(self.0.as_slice())
    }
}

impl Proquint for Ipv6Octets {
    open spec fn bytes(&self) -> Seq<u8> {
        self.0@
    }

    fn as_bytes(&self) -> (bytes: Vec<u8>) {
        slice_to_vec(self.0.as_slice())
    }
}

} // verus!

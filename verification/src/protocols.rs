//! Wire-format decoders. All multi-byte header fields are big-endian.

pub mod arp;
pub mod ethernet;

use vstd::prelude::*;
use crate::address::{IPv4, MAC};
use crate::frame::ByteFrame;

verus! {

/// Failure of a decoder: the buffer is too short, or has the wrong fixed
/// length, for the format being decoded.
#[derive(Debug, PartialEq, Eq, Structural, Clone, Copy)]
pub enum DecodeError {
    Malformed,
}

/// The 16-bit value carried by two bytes in network byte order: the first
/// byte is the high octet.
pub open spec fn be16(hi: u8, lo: u8) -> u16 {
    (hi as u16 * 256 + lo as u16) as u16
}

/// Reads the big-endian 16-bit field at positions `i`, `i + 1` of the view.
pub fn read_be16(f: &ByteFrame<'_>, i: usize) -> (r: u16)
    requires
        i + 1 < f@.len(),
        f@.len() <= usize::MAX,
    ensures
        r == be16(f@[i as int], f@[i + 1]),
{
    let hi = f.byte_at(i);
    let lo = f.byte_at(i + 1);
    hi as u16 * 256 + lo as u16
}

/// Copies the 6 bytes at positions `[i, i + 6)` of the view into a MAC.
pub fn read_mac(f: &ByteFrame<'_>, i: usize) -> (r: MAC)
    requires
        i + 6 <= f@.len(),
        f@.len() <= usize::MAX,
    ensures
        r@ == f@.subrange(i as int, i + 6),
{
    let r: MAC = [
        f.byte_at(i),
        f.byte_at(i + 1),
        f.byte_at(i + 2),
        f.byte_at(i + 3),
        f.byte_at(i + 4),
        f.byte_at(i + 5),
    ];
    proof {
        assert(r@ =~= f@.subrange(i as int, i + 6));
    }
    r
}

/// Copies the 4 bytes at positions `[i, i + 4)` of the view into an IPv4
/// address.
pub fn read_ipv4(f: &ByteFrame<'_>, i: usize) -> (r: IPv4)
    requires
        i + 4 <= f@.len(),
        f@.len() <= usize::MAX,
    ensures
        r@ == f@.subrange(i as int, i + 4),
{
    let r: IPv4 = [f.byte_at(i), f.byte_at(i + 1), f.byte_at(i + 2), f.byte_at(i + 3)];
    proof {
        assert(r@ =~= f@.subrange(i as int, i + 4));
    }
    r
}

} // verus!

//! A bounds-checked view over a contiguous byte buffer.
//!
//! All higher-level decoders extract their fields exclusively through
//! `ByteFrame`, so a truncated or adversarial buffer is uniformly rejected
//! rather than read out of bounds.

use vstd::prelude::*;
use vstd::slice::{slice_index_get, slice_subrange};

verus! {

/// Failure of a sub-range extraction: the requested range does not lie
/// inside the buffer.
#[derive(Debug, PartialEq, Eq, Structural, Clone, Copy)]
pub enum RangeError {
    OutOfRange,
}

/// A view over a contiguous byte buffer with bounds-checked sub-range
/// extraction. It never copies the underlying bytes.
pub struct ByteFrame<'a> {
    data: &'a [u8],
}

impl<'a> View for ByteFrame<'a> {
    type V = Seq<u8>;

    closed spec fn view(&self) -> Seq<u8> {
        self.data@
    }
}

impl<'a> ByteFrame<'a> {
    /// Wraps a byte buffer.
    pub fn new(data: &'a [u8]) -> (r: Self)
        ensures
            r@ == data@,
    {
        ByteFrame { data }
    }

    /// The number of bytes in the view.
    pub fn length(&self) -> (n: usize)
        ensures
            n == self@.len(),
    {
        self.data.len()
    }

    /// The byte at position `i`.
    pub fn byte_at(&self, i: usize) -> (b: u8)
        requires
            i < self@.len(),
        ensures
            b == self@[i as int],
    {
        *slice_index_get(self.data, i)
    }

    /// Extracts the sub-range `[start, end)` without copying; fails with
    /// `OutOfRange` when `end` exceeds the length or `start` exceeds `end`.
    pub fn slice(&self, start: usize, end: usize) -> (r: Result<ByteFrame<'a>, RangeError>)
        ensures
            start <= end <= self@.len() ==> (r matches Ok(f) && f@ == self@.subrange(
                start as int,
                end as int,
            )),
            !(start <= end <= self@.len()) ==> (r matches Err(e) && e == RangeError::OutOfRange),
    {
        if start <= end && end <= self.data.len() {
            Ok(ByteFrame { data: slice_subrange(self.data, start, end) })
        } else {
            Err(RangeError::OutOfRange)
        }
    }

    /// The underlying bytes.
    pub fn bytes(&self) -> (r: &'a [u8])
        ensures
            r@ == self@,
    {
        self.data
    }
}

} // verus!

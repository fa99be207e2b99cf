//! Small helpers on byte strings.

use vstd::prelude::*;
use vstd::slice::{slice_subrange, slice_to_vec};

verus! {

/// Appends `src` to `dst`.
pub fn append(dst: &mut Vec<u8>, src: &[u8])
    ensures
        final(dst)@ == old(dst)@ + src@,
{
    dst.extend_from_slice(src);
    assert(dst@ =~= old(dst)@ + src@);
}

/// A copy of `src[start..end]`.
pub fn copy_range(src: &[u8], start: usize, end: usize) -> (r: Vec<u8>)
    requires
        start <= end <= src.len(),
    ensures
        r@ == src@.subrange(start as int, end as int),
{
    slice_to_vec(slice_subrange(src, start, end))
}

/// A copy of `src`.
pub fn copy_of(src: &[u8]) -> (r: Vec<u8>)
    ensures
        r@ == src@,
{
    slice_to_vec(src)
}

} // verus!

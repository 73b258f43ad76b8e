//! Boot-time memory preparation: zeroing a byte region (the model of
//! clearing the uninitialized-data segment and of defensively clearing
//! freshly discovered RAM) and computing the usable physical range left
//! over once the loaded kernel image is excluded.

use vstd::prelude::*;
use vstd::pervasive::VecAdditionalExecFns;

verus! {

/// Set every byte of `mem[start..end)` to zero, leaving the rest untouched.
///
/// This is the portable core of segment zeroing: the caller identifies the
/// bounds (for the uninitialized-data segment, the linker-provided symbols)
/// and hands the backing bytes in; afterwards every byte in the range is
/// zero no matter what garbage it held before.
pub fn clear_region(mem: &mut Vec<u8>, start: usize, end: usize)
    requires
        start <= end,
        end <= old(mem).len(),
    ensures
        final(mem).len() == old(mem).len(),
        forall|k: int| start <= k < end ==> final(mem)@[k] == 0,
        forall|k: int|
            0 <= k < old(mem).len() && !(start <= k < end) ==> final(mem)@[k] == old(mem)@[k],
{
    let mut i: usize = start;
    while i < end
        invariant
            start <= i <= end,
            end <= mem.len(),
            mem.len() == old(mem).len(),
            forall|k: int| start <= k < i ==> mem@[k] == 0,
            forall|k: int|
                0 <= k < old(mem).len() && !(start <= k < end) ==> mem@[k] == old(mem)@[k],
        decreases end - i,
    {
        mem.set(i, 0u8);
        i = i + 1;
    }
}

/// Zero an entire uninitialized-data segment, modeled as the byte vector
/// that backs it: afterwards every byte of the segment is zero, whatever
/// garbage it held before. Nothing is required of the input — the segment's
/// bounds are the vector's own.
pub fn clear_segment(mem: &mut Vec<u8>)
    ensures
        final(mem).len() == old(mem).len(),
        forall|k: int| 0 <= k < final(mem).len() ==> final(mem)@[k] == 0,
{
    let end = mem.len();
    clear_region(mem, 0, end);
}

/// Size in bytes of the loaded kernel image, from its linker-reported bounds.
pub fn kernel_image_size(kernel_start: usize, kernel_end: usize) -> (r: usize)
    requires
        kernel_start <= kernel_end,
    ensures
        r == kernel_end - kernel_start,
{
    kernel_end - kernel_start
}

/// Given a firmware-reported memory region `[region_start, region_start + region_size)`
/// whose prefix up to `kernel_end` is occupied by the loaded kernel image,
/// compute the range usable for physical-frame management:
/// `[kernel_end, region_start + region_size)`, returned as `(start, size)`.
pub fn usable_region(region_start: usize, region_size: usize, kernel_end: usize) -> (r: (
    usize,
    usize,
))
    requires
        region_start <= kernel_end,
        kernel_end <= region_start + region_size,
        region_start + region_size <= usize::MAX,
    ensures
        r.0 == kernel_end,
        r.1 == region_start + region_size - kernel_end,
        r.0 + r.1 == region_start + region_size,
{
    (kernel_end, region_size - (kernel_end - region_start))
}

} // verus!

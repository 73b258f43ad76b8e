//! Physical page-frame allocator: tracks each page-sized slot of a managed
//! range as allocated or free, hands out ownership-scoped frame handles, and
//! keeps exact accounting of the live frames.

use vstd::prelude::*;
use vstd::pervasive::VecAdditionalExecFns;
use vstd::arithmetic::div_mod::{lemma_fundamental_div_mod, lemma_mod_bound};
use vstd::arithmetic::mul::lemma_mul_inequality;

verus! {

/// Size in bytes of one physical page frame.
pub const PAGE_SIZE: usize = 0x1000;

/// Physical address of frame slot `i` of a range based at `start`.
pub open spec fn frame_addr(start: usize, i: int) -> int {
    start + i * PAGE_SIZE
}

/// Number of slots of `s` marked allocated.
pub open spec fn count_allocated(s: Seq<bool>) -> int
    decreases s.len(),
{
    if s.len() == 0 {
        0
    } else {
        count_allocated(s.drop_last()) + if s.last() {
            1int
        } else {
            0int
        }
    }
}

/// Index of the first free slot of `s` at or after `k`, `-1` if none.
pub open spec fn first_free_from(s: Seq<bool>, k: int) -> int
    decreases s.len() - k,
{
    if k < 0 || k >= s.len() {
        -1
    } else if !s[k] {
        k
    } else {
        first_free_from(s, k + 1)
    }
}

/// Index of the first free slot of `s`, `-1` if every slot is allocated.
pub open spec fn first_free(s: Seq<bool>) -> int {
    first_free_from(s, 0)
}

proof fn lemma_count_allocated_update(s: Seq<bool>, i: int, v: bool)
    requires
        0 <= i < s.len(),
    ensures
        count_allocated(s.update(i, v)) == count_allocated(s) - (if s[i] {
            1int
        } else {
            0int
        }) + (if v {
            1int
        } else {
            0int
        }),
    decreases s.len(),
{
    if i == s.len() - 1 {
        assert(s.update(i, v).drop_last() =~= s.drop_last());
    } else {
        lemma_count_allocated_update(s.drop_last(), i, v);
        assert(s.update(i, v).drop_last() =~= s.drop_last().update(i, v));
    }
}

/// The count of allocated slots is never negative and never exceeds the
/// number of slots.
pub proof fn lemma_count_allocated_bounds(s: Seq<bool>)
    ensures
        0 <= count_allocated(s) <= s.len(),
    decreases s.len(),
{
    if s.len() > 0 {
        lemma_count_allocated_bounds(s.drop_last());
    }
}

proof fn lemma_count_allocated_all_free(s: Seq<bool>)
    requires
        forall|j: int| 0 <= j < s.len() ==> !s[j],
    ensures
        count_allocated(s) == 0,
    decreases s.len(),
{
    if s.len() > 0 {
        lemma_count_allocated_all_free(s.drop_last());
    }
}

/// Distinct slots of one managed range have distinct physical addresses, so
/// no two live frame handles ever report the same address: every handle
/// comes from a slot that was free when it was handed out, and a slot stays
/// allocated until its handle is released.
pub proof fn lemma_frame_addrs_distinct(start: usize, i: int, j: int)
    requires
        0 <= i,
        0 <= j,
        i != j,
    ensures
        frame_addr(start, i) != frame_addr(start, j),
{
    if i < j {
        lemma_mul_inequality(i + 1, j, PAGE_SIZE as int);
        assert((i + 1) * PAGE_SIZE == i * PAGE_SIZE + PAGE_SIZE) by (nonlinear_arith);
    } else {
        lemma_mul_inequality(j + 1, i, PAGE_SIZE as int);
        assert((j + 1) * PAGE_SIZE == j * PAGE_SIZE + PAGE_SIZE) by (nonlinear_arith);
    }
}

/// The slot index that deallocation computes from a frame's address is
/// exactly the slot the frame was allocated from.
pub proof fn lemma_frame_addr_index_roundtrip(start: usize, i: int)
    requires
        0 <= i,
    ensures
        (frame_addr(start, i) - start) / PAGE_SIZE as int == i,
{
    assert((i * PAGE_SIZE) / PAGE_SIZE as int == i) by (nonlinear_arith);
}

proof fn lemma_first_free_from_props(s: Seq<bool>, k: int)
    requires
        0 <= k <= s.len(),
    ensures
        first_free_from(s, k) == -1 ==> forall|j: int| k <= j < s.len() ==> s[j],
        first_free_from(s, k) >= 0 ==> k <= first_free_from(s, k) < s.len() && !s[first_free_from(
            s,
            k,
        )] && (forall|j: int| k <= j < first_free_from(s, k) ==> s[j]),
    decreases s.len() - k,
{
    if k < s.len() && s[k] {
        lemma_first_free_from_props(s, k + 1);
    }
}

/// What the first-free index means: `-1` exactly when every slot is
/// allocated; otherwise the index of a free slot below which every slot is
/// allocated.
pub proof fn lemma_first_free_props(s: Seq<bool>)
    ensures
        first_free(s) == -1 ==> forall|j: int| 0 <= j < s.len() ==> s[j],
        first_free(s) >= 0 ==> 0 <= first_free(s) < s.len() && !s[first_free(s)] && (forall|j: int|
            0 <= j < first_free(s) ==> s[j]),
{
    lemma_first_free_from_props(s, 0);
}

/// One step of allocator history at the model level: what one first-fit
/// allocation, or one deallocation of slot `i`, does to the usage map. A
/// step that cannot take effect (allocation with no free slot, deallocation
/// of a slot that is out of range or free) leaves the map unchanged.
pub enum UsageOp {
    Allocate,
    Deallocate(int),
}

/// The usage map after one history step.
pub open spec fn apply_op(s: Seq<bool>, op: UsageOp) -> Seq<bool> {
    match op {
        UsageOp::Allocate => if first_free(s) >= 0 {
            s.update(first_free(s), true)
        } else {
            s
        },
        UsageOp::Deallocate(i) => if 0 <= i < s.len() && s[i] {
            s.update(i, false)
        } else {
            s
        },
    }
}

/// The usage map after a whole history of steps.
pub open spec fn apply_ops(s: Seq<bool>, ops: Seq<UsageOp>) -> Seq<bool>
    decreases ops.len(),
{
    if ops.len() == 0 {
        s
    } else {
        apply_ops(apply_op(s, ops[0]), ops.drop_first())
    }
}

/// `+1` for a history step that allocates, `-1` for one that deallocates,
/// `0` for one that takes no effect.
pub open spec fn op_delta(s: Seq<bool>, op: UsageOp) -> int {
    match op {
        UsageOp::Allocate => if first_free(s) >= 0 {
            1int
        } else {
            0int
        },
        UsageOp::Deallocate(i) => if 0 <= i < s.len() && s[i] {
            -1int
        } else {
            0int
        },
    }
}

/// Allocations completed minus deallocations completed over a history.
pub open spec fn net_allocations(s: Seq<bool>, ops: Seq<UsageOp>) -> int
    decreases ops.len(),
{
    if ops.len() == 0 {
        0
    } else {
        op_delta(s, ops[0]) + net_allocations(apply_op(s, ops[0]), ops.drop_first())
    }
}

/// Frame accounting: over any sequence of allocations and deallocations,
/// the count of allocated slots changes by exactly the number of
/// allocations completed minus the number of deallocations completed.
pub proof fn lemma_frame_accounting(s: Seq<bool>, ops: Seq<UsageOp>)
    ensures
        count_allocated(apply_ops(s, ops)) == count_allocated(s) + net_allocations(s, ops),
    decreases ops.len(),
{
    if ops.len() > 0 {
        match ops[0] {
            UsageOp::Allocate => {
                lemma_first_free_props(s);
                if first_free(s) >= 0 {
                    lemma_count_allocated_update(s, first_free(s), true);
                }
            },
            UsageOp::Deallocate(i) => {
                if 0 <= i < s.len() && s[i] {
                    lemma_count_allocated_update(s, i, false);
                }
            },
        }
        lemma_frame_accounting(apply_op(s, ops[0]), ops.drop_first());
    }
}

/// Allocate-then-release round trip: marking a free slot allocated raises
/// the allocated count by one, and releasing that slot afterwards restores
/// the count and the whole usage map — so the freed frame's address is
/// handed out again exactly as it would have been before.
pub proof fn lemma_allocate_release_roundtrip(s: Seq<bool>, i: int)
    requires
        0 <= i < s.len(),
        !s[i],
    ensures
        count_allocated(s.update(i, true)) == count_allocated(s) + 1,
        count_allocated(s.update(i, true).update(i, false)) == count_allocated(s),
        s.update(i, true).update(i, false) == s,
{
    lemma_count_allocated_update(s, i, true);
    lemma_count_allocated_update(s.update(i, true), i, false);
    assert(s.update(i, true).update(i, false) =~= s);
}

proof fn lemma_slot_in_range(size: usize, i: int)
    requires
        0 <= i < size as int / PAGE_SIZE as int,
    ensures
        i * PAGE_SIZE + PAGE_SIZE <= size,
{
    lemma_fundamental_div_mod(size as int, PAGE_SIZE as int);
    lemma_mod_bound(size as int, PAGE_SIZE as int);
    lemma_mul_inequality(i + 1, size as int / PAGE_SIZE as int, PAGE_SIZE as int);
    assert((i + 1) * PAGE_SIZE == i * PAGE_SIZE + PAGE_SIZE) by (nonlinear_arith);
}

/// The exclusive capability to use one physical page frame: wraps the frame's
/// physical address. A handle is created only by a successful allocation and
/// is never duplicated (it is neither `Copy` nor `Clone`); it is consumed,
/// exactly once, by [`FrameAllocator::release`].
pub struct TrackerFrame(pub usize);

/// Page-frame allocator over a contiguous physical range: `start` is the
/// page-aligned base, `size` the byte length, and `usage` one slot per page,
/// `true` iff that page is currently handed out.
pub struct FrameAllocator {
    start: usize,
    size: usize,
    usage: Vec<bool>,
}

impl FrameAllocator {
    /// Base physical address of the managed range.
    pub closed spec fn start(&self) -> usize {
        self.start
    }

    /// Byte length of the managed range.
    pub closed spec fn size(&self) -> usize {
        self.size
    }

    /// Per-slot allocation flags: slot `i` covers physical addresses
    /// `[start + i * PAGE_SIZE, start + (i + 1) * PAGE_SIZE)`.
    pub closed spec fn usage(&self) -> Seq<bool> {
        self.usage@
    }

    /// Well-formedness: one tracking slot per whole page of the range, a
    /// page-aligned base, and a range that fits in the address space.
    pub open spec fn wf(&self) -> bool {
        &&& self.usage().len() == self.size() as int / PAGE_SIZE as int
        &&& self.start() + self.size() <= usize::MAX
        &&& self.start() as int % PAGE_SIZE as int == 0
    }

    /// An allocator that manages nothing yet: it must be seeded through
    /// [`Self::add_memory`] before any allocation is requested.
    pub fn new() -> (r: Self)
        ensures
            r.wf(),
            r.start() == 0,
            r.size() == 0,
            r.usage().len() == 0,
    {
        FrameAllocator { start: 0, size: 0, usage: Vec::new() }
    }

    /// Seed the allocator, once, with the usable physical range: records the
    /// bounds and sets up one tracking slot per page, all initially free.
    pub fn add_memory(&mut self, start: usize, size: usize)
        requires
            old(self).size() == 0,
            old(self).usage().len() == 0,
            start as int % PAGE_SIZE as int == 0,
            start + size <= usize::MAX,
        ensures
            final(self).wf(),
            final(self).start() == start,
            final(self).size() == size,
            final(self).usage().len() == size as int / PAGE_SIZE as int,
            forall|j: int| 0 <= j < final(self).usage().len() ==> !final(self).usage()[j],
            count_allocated(final(self).usage()) == 0,
    {
        self.start = start;
        self.size = size;
        self.usage = vec![false; size / PAGE_SIZE];
        proof {
            lemma_count_allocated_all_free(self.usage@);
        }
    }

    /// How many page-sized slots the allocator tracks.
    pub fn total_frames(&self) -> (r: usize)
        ensures
            r == self.usage().len(),
    {
        self.usage.len()
    }

    /// How many frames are currently handed out. Together with the
    /// allocation and deallocation contracts this is exactly the number of
    /// allocations issued minus the number of deallocations completed.
    pub fn allocated_frames(&self) -> (r: usize)
        ensures
            r == count_allocated(self.usage()),
    {
        proof {
            lemma_count_allocated_bounds(self.usage@);
        }
        let mut count: usize = 0;
        let mut i: usize = 0;
        while i < self.usage.len()
            invariant
                0 <= i <= self.usage.len(),
                count == count_allocated(self.usage@.subrange(0, i as int)),
                count <= i,
            decreases self.usage.len() - i,
        {
            proof {
                assert(self.usage@.subrange(0, i as int + 1).drop_last() =~= self.usage@.subrange(
                    0,
                    i as int,
                ));
                assert(self.usage@.subrange(0, i as int + 1).last() == self.usage@[i as int]);
            }
            if self.usage[i] {
                count = count + 1;
            }
            i = i + 1;
        }
        proof {
            assert(self.usage@.subrange(0, self.usage@.len() as int) =~= self.usage@);
        }
        count
    }

    /// First-fit allocation: scan the slots from index 0, mark the first
    /// free one allocated, and hand out a handle to its physical address.
    /// Returns `None` exactly when every slot is allocated (or the allocator
    /// is unseeded) — the fatal exhaustion condition for the caller.
    pub fn allocate(&mut self) -> (r: Option<TrackerFrame>)
        requires
            old(self).wf(),
        ensures
            final(self).wf(),
            final(self).start() == old(self).start(),
            final(self).size() == old(self).size(),
            ({
                let s = old(self).usage();
                let i = first_free(s);
                match r {
                    Some(f) => {
                        &&& i >= 0
                        &&& !s[i]
                        &&& forall|j: int| 0 <= j < i ==> s[j]
                        &&& f.0 == frame_addr(old(self).start(), i)
                        &&& final(self).usage() == s.update(i, true)
                        &&& count_allocated(final(self).usage()) == count_allocated(s) + 1
                    },
                    None => {
                        &&& i == -1
                        &&& forall|j: int| 0 <= j < s.len() ==> s[j]
                        &&& final(self).usage() == s
                    },
                }
            }),
    {
        let ghost s = self.usage@;
        let mut i: usize = 0;
        while i < self.usage.len()
            invariant
                0 <= i <= self.usage.len(),
                self.start == old(self).start(),
                self.size == old(self).size(),
                self.usage@ == s,
                s == old(self).usage(),
                old(self).wf(),
                forall|j: int| 0 <= j < i ==> s[j],
                first_free(s) == first_free_from(s, i as int),
            decreases self.usage.len() - i,
        {
            if !self.usage[i] {
                proof {
                    assert(first_free_from(s, i as int) == i as int);
                    lemma_count_allocated_update(s, i as int, true);
                    lemma_slot_in_range(self.size, i as int);
                }
                let addr: usize = self.start + i * PAGE_SIZE;
                self.usage.set(i, true);
                return Some(TrackerFrame(addr));
            }
            proof {
                assert(first_free_from(s, i as int) == first_free_from(s, i as int + 1));
            }
            i = i + 1;
        }
        proof {
            assert(first_free_from(s, i as int) == -1);
        }
        None
    }

    /// Return the frame containing `addr` to the free pool: clears the flag
    /// of slot `(addr - start) / PAGE_SIZE`. The address must lie in the
    /// managed range, over a slot that is currently allocated — the handle
    /// ownership discipline guarantees both for addresses taken from live
    /// handles.
    pub fn dealloc(&mut self, addr: usize)
        requires
            old(self).wf(),
            old(self).start() <= addr,
            addr < old(self).start() + old(self).size(),
            ((addr - old(self).start()) as int / PAGE_SIZE as int) < old(self).usage().len(),
            old(self).usage()[(addr - old(self).start()) as int / PAGE_SIZE as int],
        ensures
            final(self).wf(),
            final(self).start() == old(self).start(),
            final(self).size() == old(self).size(),
            final(self).usage() == old(self).usage().update(
                (addr - old(self).start()) as int / PAGE_SIZE as int,
                false,
            ),
            count_allocated(final(self).usage()) == count_allocated(old(self).usage()) - 1,
    {
        let index: usize = (addr - self.start) / PAGE_SIZE;
        proof {
            lemma_count_allocated_update(self.usage@, index as int, false);
        }
        self.usage.set(index, false);
    }

    /// Consume a frame handle and return its page to the free pool. Taking
    /// the handle by value makes the release happen exactly once: the handle
    /// cannot be used, or released again, afterwards.
    pub fn release(&mut self, frame: TrackerFrame)
        requires
            old(self).wf(),
            old(self).start() <= frame.0,
            frame.0 < old(self).start() + old(self).size(),
            ((frame.0 - old(self).start()) as int / PAGE_SIZE as int) < old(self).usage().len(),
            old(self).usage()[(frame.0 - old(self).start()) as int / PAGE_SIZE as int],
        ensures
            final(self).wf(),
            final(self).start() == old(self).start(),
            final(self).size() == old(self).size(),
            final(self).usage() == old(self).usage().update(
                (frame.0 - old(self).start()) as int / PAGE_SIZE as int,
                false,
            ),
            count_allocated(final(self).usage()) == count_allocated(old(self).usage()) - 1,
    {
        self.dealloc(frame.0);
    }
}

} // verus!

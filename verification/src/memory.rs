//! The boundary memory protocol: how byte buffers are allocated in guest
//! memory and described across the call boundary.
//!
//! A buffer is identified solely by an (address, length) pair.  Allocation
//! follows a grow-only discipline: no deallocation exists in the protocol,
//! the guest's memory being reset between independent calls by the host.
//! A zero-size request returns a fixed non-null sentinel address and leaves
//! the memory untouched; exhaustion has no recoverable path and is reported
//! so the caller can terminate.

use vstd::prelude::*;

verus! {

/// An (address, length) pair describing one byte buffer in guest memory:
/// the only description that ever crosses the boundary.
#[derive(Debug, PartialEq, Eq, Structural, Clone, Copy)]
pub struct Slice {
    pub ptr: u32,
    pub len: u32,
}

/// Alignment of every returned address: the width of the largest native
/// scalar.
pub const BOUNDARY_ALIGN: u32 = 8;

/// Outcome of an allocation request.  Exhaustion is fatal by design: the
/// caller terminates rather than resuming with partial state.
#[derive(Debug, PartialEq, Eq, Structural, Clone, Copy)]
pub enum AllocResult {
    Address(u32),
    Exhausted,
}

/// The smallest multiple of the boundary alignment at or above `x`.
pub open spec fn align_up(x: int) -> int {
    ((x + BOUNDARY_ALIGN - 1) / (BOUNDARY_ALIGN as int)) * (BOUNDARY_ALIGN as int)
}

/// Model of the guest's linear memory as seen by the allocator: a frontier
/// below which all live regions lie, and the list of regions handed out.
pub struct GuestMemory {
    next_free: u32,
    regions: Ghost<Seq<(u32, u32)>>,
}

impl GuestMemory {
    /// The regions allocated so far, each an (address, size) pair with a
    /// positive size, in allocation order.
    pub closed spec fn regions(&self) -> Seq<(u32, u32)> {
        self.regions@
    }

    /// The frontier: every live region lies strictly below it.
    pub closed spec fn frontier(&self) -> int {
        self.next_free as int
    }

    /// Allocator invariant: regions are aligned, non-null, of positive size,
    /// laid out in ascending order without overlap, and below the frontier.
    pub closed spec fn wf(&self) -> bool {
        &&& self.next_free >= BOUNDARY_ALIGN
        &&& (forall|i: int|
            0 <= i < self.regions@.len() ==> {
                let (a, s) = #[trigger] self.regions@[i];
                &&& a >= BOUNDARY_ALIGN
                &&& a % BOUNDARY_ALIGN == 0
                &&& s > 0
                &&& a + s <= self.next_free
            })
        &&& (forall|i: int, j: int|
            0 <= i < j < self.regions@.len() ==> #[trigger] self.regions@[i].0
                + self.regions@[i].1 <= #[trigger] self.regions@[j].0)
    }

    /// A fresh guest memory with no live regions.
    pub fn new() -> (r: GuestMemory)
        ensures
            r.wf(),
            r.regions().len() == 0,
    {
        GuestMemory { next_free: BOUNDARY_ALIGN, regions: Ghost(Seq::empty()) }
    }

    /// Allocate `size` bytes of guest memory.
    ///
    /// A zero-size request returns the non-null sentinel address and leaves
    /// the memory untouched.  A positive request either returns a fresh
    /// aligned, non-null region lying beyond every previously allocated
    /// region, or reports exhaustion, exactly when the aligned frontier
    /// cannot accommodate `size` more bytes; exhaustion leaves the memory
    /// untouched, and the caller must terminate rather than continue.
    pub fn allocate(&mut self, size: u32) -> (r: AllocResult)
        requires
            old(self).wf(),
        ensures
            final(self).wf(),
            size == 0 ==> r == AllocResult::Address(BOUNDARY_ALIGN) && *final(self) == *old(
                self,
            ),
            size > 0 ==> match r {
                AllocResult::Address(a) => {
                    &&& a != 0
                    &&& a % BOUNDARY_ALIGN == 0
                    &&& a == align_up(old(self).frontier())
                    &&& a + size <= u32::MAX
                    &&& final(self).regions() == old(self).regions().push((a, size))
                    &&& final(self).frontier() == a + size
                    &&& forall|i: int|
                        0 <= i < old(self).regions().len()
                            ==> #[trigger] old(self).regions()[i].0 + old(
                            self,
                        ).regions()[i].1 <= a
                },
                AllocResult::Exhausted => *final(self) == *old(self),
            },
            size > 0 ==> (r is Exhausted <==> align_up(old(self).frontier()) + size
                > u32::MAX),
    {
        if size == 0 {
            return AllocResult::Address(BOUNDARY_ALIGN);
        }
        let next: u64 = self.next_free as u64;
        let rem: u64 = next % (BOUNDARY_ALIGN as u64);
        let base: u64 = if rem == 0 {
            next
        } else {
            next + ((BOUNDARY_ALIGN as u64) - rem)
        };
        proof {
            let ni = next as int;
            let bi = base as int;
            assert(bi == ((ni + 7) / 8) * 8 && bi % 8 == 0) by (nonlinear_arith)
                requires
                    (ni % 8 == 0 ==> bi == ni) && (ni % 8 != 0 ==> bi == ni + (8 - ni % 8)),
                    0 <= ni,
            {
            }
            assert(bi == align_up(old(self).frontier()));
            assert(base % (BOUNDARY_ALIGN as u64) == 0);
        }
        if base + (size as u64) > (u32::MAX as u64) {
            return AllocResult::Exhausted;
        }
        let addr: u32 = base as u32;
        let new_next: u32 = addr + size;
        proof {
            assert(addr >= BOUNDARY_ALIGN);
            assert(addr % BOUNDARY_ALIGN == 0);
        }
        self.next_free = new_next;
        let ghost new_regions = self.regions@.push((addr, size));
        proof {
            self.regions@ = new_regions;
        }
        proof {
            assert(forall|i: int|
                0 <= i < old(self).regions().len()
                    ==> #[trigger] old(self).regions()[i].0 + old(self).regions()[i].1
                    <= addr);
            assert(self.wf());
        }
        AllocResult::Address(addr)
    }
}

/// Boundary contract: the regions of a well-formed guest memory never
/// overlap; an earlier region ends at or before a later one begins.
pub proof fn lemma_regions_disjoint(m: &GuestMemory, i: int, j: int)
    requires
        m.wf(),
        0 <= i < j < m.regions().len(),
    ensures
        m.regions()[i].0 + m.regions()[i].1 <= m.regions()[j].0,
        m.regions()[i].0 != m.regions()[j].0,
{
}

} // verus!

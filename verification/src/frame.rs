//! Physical frames and the allocator that hands them out.

use vstd::prelude::*;
use crate::address::{PhysicalAddress, PhysicalPageNumber};

verus! {

/// Result of memory-management operations; the error is a message.
pub type MemoryResult<T> = Result<T, &'static str>;

/// Highest physical page number, plus one, that the kernel's linear mapping
/// reaches (physical memory below 4 GiB).
pub const PHYSICAL_PAGE_LIMIT: u64 = 0x10_0000;

/// Ownership of one physical frame.
#[derive(Debug)]
pub struct FrameTracker(pub PhysicalPageNumber);

impl FrameTracker {
    /// The frame's physical page number.
    pub fn page_number(&self) -> (p: PhysicalPageNumber)
        ensures
            p == self.0,
    {
        self.0
    }

    /// Start address of the frame.
    pub fn address(&self) -> (a: PhysicalAddress)
        requires
            self.0.0 < PHYSICAL_PAGE_LIMIT,
        ensures
            a.0 == self.0.0 * 0x1000,
    {
        PhysicalAddress::from_page_number(self.0)
    }
}

/// Hands out the physical frames `start..end`: frames that came back first,
/// most recent first, then frames never handed out, in increasing order.
pub struct FrameAllocator {
    start: u64,
    end: u64,
    next: u64,
    recycled: Vec<u64>,
}

impl FrameAllocator {
    /// Frames currently handed out.
    pub closed spec fn allocated(&self) -> Set<u64> {
        Set::new(|p: u64| self.start <= p < self.next && !self.recycled@.contains(p))
    }

    /// Frames this allocator manages.
    pub closed spec fn managed(&self) -> Set<u64> {
        Set::new(|p: u64| self.start <= p < self.end)
    }

    /// Number of frames that can still be handed out.
    pub closed spec fn available(&self) -> int {
        (self.end - self.next) + self.recycled@.len()
    }

    pub closed spec fn wf(&self) -> bool {
        &&& self.start <= self.next <= self.end <= PHYSICAL_PAGE_LIMIT
        &&& self.recycled@.no_duplicates()
        &&& forall|i: int| 0 <= i < self.recycled@.len()
            ==> self.start <= #[trigger] self.recycled@[i] < self.next
    }

    /// A well-formed allocator never has a negative number of frames left.
    pub proof fn lemma_available_nonnegative(&self)
        requires
            self.wf(),
        ensures
            self.available() >= 0,
    {
    }

    /// An allocator of the frames `start..end`, none handed out yet.
    pub fn new(start: u64, end: u64) -> (a: Self)
        requires
            start <= end <= PHYSICAL_PAGE_LIMIT,
        ensures
            a.wf(),
            a.allocated() == Set::<u64>::empty(),
            a.managed() == Set::new(|p: u64| start <= p < end),
            a.available() == end - start,
    {
        let a = FrameAllocator { start, end, next: start, recycled: Vec::new() };
        assert(a.allocated() =~= Set::<u64>::empty());
        a
    }

    /// Hands out a frame that is not handed out yet, or fails when every
    /// managed frame is in use.
    pub fn allocate(&mut self) -> (r: MemoryResult<FrameTracker>)
        requires
            old(self).wf(),
        ensures
            final(self).wf(),
            final(self).managed() == old(self).managed(),
            old(self).available() == 0 <==> r is Err,
            r is Err ==> final(self).allocated() == old(self).allocated() && final(self).available() == old(self).available(),
            r is Ok ==> {
                let p = r->Ok_0.0.0;
                &&& !old(self).allocated().contains(p)
                &&& old(self).managed().contains(p)
                &&& p < PHYSICAL_PAGE_LIMIT
                &&& final(self).allocated() == old(self).allocated().insert(p)
                &&& final(self).available() == old(self).available() - 1
            },
    {
        if let Some(p) = self.recycled.pop() {
            proof {
                let s = old(self).recycled@;
                assert(s[s.len() - 1] == p);
                assert(self.recycled@ =~= s.drop_last());
                assert forall|q: u64| #[trigger] self.allocated().contains(q)
                    <==> old(self).allocated().insert(p).contains(q) by {
                    if q == p {
                        assert(!self.recycled@.contains(p)) by {
                            if self.recycled@.contains(p) {
                                let j = choose|j: int| 0 <= j < self.recycled@.len() && self.recycled@[j] == p;
                                assert(s[j] == s[s.len() - 1]);
                            }
                        }
                    } else {
                        if s.contains(q) {
                            let j = choose|j: int| 0 <= j < s.len() && s[j] == q;
                            assert(j != s.len() - 1);
                            assert(self.recycled@[j] == q);
                        }
                        if self.recycled@.contains(q) {
                            let j = choose|j: int| 0 <= j < self.recycled@.len() && self.recycled@[j] == q;
                            assert(s[j] == q);
                        }
                    }
                }
                assert(self.allocated() =~= old(self).allocated().insert(p));
                assert(old(self).recycled@.contains(p));
            }
            Ok(FrameTracker(PhysicalPageNumber(p)))
        } else if self.next < self.end {
            let p = self.next;
            self.next = self.next + 1;
            proof {
                assert(self.allocated() =~= old(self).allocated().insert(p));
                assert(!old(self).recycled@.contains(p)) by {
                    if old(self).recycled@.contains(p) {
                        let j = choose|j: int| 0 <= j < old(self).recycled@.len() && old(self).recycled@[j] == p;
                    }
                }
            }
            Ok(FrameTracker(PhysicalPageNumber(p)))
        } else {
            Err("no available frame to allocate")
        }
    }

    /// Takes back a frame that was handed out.
    pub fn deallocate(&mut self, frame: FrameTracker)
        requires
            old(self).wf(),
            old(self).allocated().contains(frame.0.0),
        ensures
            final(self).wf(),
            final(self).managed() == old(self).managed(),
            final(self).allocated() == old(self).allocated().remove(frame.0.0),
            final(self).available() == old(self).available() + 1,
    {
        let p = frame.0.0;
        self.recycled.push(p);
        proof {
            let s = old(self).recycled@;
            assert(self.recycled@ == s.push(p));
            assert forall|i: int, j: int| 0 <= i < j < self.recycled@.len()
                implies self.recycled@[i] != self.recycled@[j] by {
                if j == s.len() {
                    assert(s[i] == self.recycled@[i]);
                    assert(s.contains(s[i]));
                }
            }
            assert forall|q: u64| #[trigger] self.allocated().contains(q)
                <==> old(self).allocated().remove(p).contains(q) by {
                if self.recycled@.contains(q) && q != p {
                    let j = choose|j: int| 0 <= j < self.recycled@.len() && self.recycled@[j] == q;
                    assert(s[j] == q);
                }
                if s.contains(q) {
                    let j = choose|j: int| 0 <= j < s.len() && s[j] == q;
                    assert(self.recycled@[j] == q);
                }
                assert(self.recycled@[s.len() as int] == p);
            }
            assert(self.allocated() =~= old(self).allocated().remove(p));
        }
    }
}

/// A frame is never handed out twice while it is held: two successive
/// `allocate` calls, with no `deallocate` between them, give different
/// frames.
pub proof fn law_allocated_frames_distinct(a0: FrameAllocator, p1: u64, a1: FrameAllocator, p2: u64)
    requires
        a0.wf(),
        !a0.allocated().contains(p1),
        a1.allocated() == a0.allocated().insert(p1),
        !a1.allocated().contains(p2),
    ensures
        p1 != p2,
{
    assert(a1.allocated().contains(p1));
}

} // verus!

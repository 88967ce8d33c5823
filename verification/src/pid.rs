//! Process ids: handed out from 1 upwards, ids that come back first.

use vstd::prelude::*;

verus! {

/// Allocator of process ids.
pub struct PidAllocator {
    max_id: usize,
    recycled: Vec<usize>,
}

impl PidAllocator {
    /// Largest id handed out so far.
    pub closed spec fn max(&self) -> nat {
        self.max_id as nat
    }

    /// Ids given back and not handed out again, most recent last.
    pub closed spec fn free(&self) -> Seq<usize> {
        self.recycled@
    }

    /// Ids currently in use: those up to the largest handed out, except the free ones.
    pub open spec fn in_use(&self) -> Set<usize> {
        Set::new(|p: usize| 1 <= p <= self.max() && !self.free().contains(p))
    }

    pub closed spec fn wf(&self) -> bool {
        &&& self.recycled@.no_duplicates()
        &&& forall|i: int| 0 <= i < self.recycled@.len() ==> #[trigger] self.recycled@[i] <= self.max_id
    }

    /// No id handed out yet.
    pub fn new() -> (a: Self)
        ensures
            a.wf(),
            a.max() == 0,
            a.free() == Seq::<usize>::empty(),
    {
        PidAllocator { max_id: 0, recycled: Vec::new() }
    }

    /// Whether an id can be handed out: one was given back, or the largest
    /// is below the limit.
    pub fn can_allocate(&self) -> (r: bool)
        ensures
            r == (self.free().len() > 0 || self.max() < usize::MAX),
    {
        self.recycled.len() > 0 || self.max_id < usize::MAX
    }

    /// Hands out the id given back most recently, or else the next new id.
    pub fn allocate(&mut self) -> (pid: usize)
        requires
            old(self).wf(),
            old(self).free().len() > 0 || old(self).max() < usize::MAX,
        ensures
            final(self).wf(),
            old(self).free().len() > 0 ==> {
                &&& pid == old(self).free().last()
                &&& final(self).free() == old(self).free().drop_last()
                &&& final(self).max() == old(self).max()
            },
            old(self).free().len() == 0 ==> {
                &&& pid == old(self).max() + 1
                &&& final(self).max() == old(self).max() + 1
                &&& final(self).free() == old(self).free()
            },
            !old(self).in_use().contains(pid),
            1 <= pid ==> final(self).in_use() == old(self).in_use().insert(pid),
            pid == 0 ==> final(self).in_use() == old(self).in_use(),
    {
        if let Some(pid) = self.recycled.pop() {
            proof {
                let s = old(self).recycled@;
                assert(s.last() == pid);
                assert(s.contains(pid));
                assert(self.recycled@ == s.drop_last());
                assert forall|p: usize| #[trigger] self.free().contains(p) <==> (s.contains(p) && p != pid) by {
                    if self.free().contains(p) {
                        let j = choose|j: int| 0 <= j < self.recycled@.len() && self.recycled@[j] == p;
                        assert(s[j] == p);
                        assert(j != s.len() - 1);
                    }
                    if s.contains(p) && p != pid {
                        let j = choose|j: int| 0 <= j < s.len() && s[j] == p;
                        assert(j != s.len() - 1);
                        assert(self.recycled@[j] == p);
                    }
                }
                if 1 <= pid {
                    assert(self.in_use() =~= old(self).in_use().insert(pid));
                } else {
                    assert(self.in_use() =~= old(self).in_use());
                }
            }
            pid
        } else {
            self.max_id = self.max_id + 1;
            proof {
                assert(self.in_use() =~= old(self).in_use().insert(self.max_id));
                assert forall|i: int| 0 <= i < self.recycled@.len() implies #[trigger] self.recycled@[i] <= self.max_id by {}
            }
            self.max_id
        }
    }

    /// Whether `dealloc` may take back `pid`: it is not above the largest id
    /// handed out and has not been given back already.
    pub fn can_dealloc(&self, pid: usize) -> (r: bool)
        ensures
            r == (pid <= self.max() && !self.free().contains(pid)),
    {
        if pid > self.max_id {
            return false;
        }
        let mut i: usize = 0;
        while i < self.recycled.len()
            invariant
                i <= self.recycled@.len(),
                forall|j: int| 0 <= j < i ==> self.recycled@[j] != pid,
            decreases self.recycled@.len() - i,
        {
            if self.recycled[i] == pid {
                proof {
                    assert(self.free()[i as int] == pid);
                }
                return false;
            }
            i = i + 1;
        }
        true
    }

    /// Takes back `pid`, which must be an id handed out and not given back yet.
    pub fn dealloc(&mut self, pid: usize)
        requires
            old(self).wf(),
            pid <= old(self).max(),
            !old(self).free().contains(pid),
        ensures
            final(self).wf(),
            final(self).max() == old(self).max(),
            final(self).free() == old(self).free().push(pid),
            final(self).in_use() == old(self).in_use().remove(pid),
    {
        self.recycled.push(pid);
        proof {
            let s = old(self).recycled@;
            assert(self.recycled@ == s.push(pid));
            assert forall|a: int, b: int| 0 <= a < b < self.recycled@.len()
                implies self.recycled@[a] != self.recycled@[b] by {
                if b == s.len() {
                    assert(s.contains(s[a]));
                }
            }
            assert forall|p: usize| #[trigger] self.free().contains(p) <==> (s.contains(p) || p == pid) by {
                if self.free().contains(p) {
                    let j = choose|j: int| 0 <= j < self.recycled@.len() && self.recycled@[j] == p;
                    if j < s.len() {
                        assert(s[j] == p);
                    }
                }
                if s.contains(p) {
                    let j = choose|j: int| 0 <= j < s.len() && s[j] == p;
                    assert(self.recycled@[j] == p);
                }
                if p == pid {
                    assert(self.recycled@[s.len() as int] == pid);
                }
            }
            assert(self.in_use() =~= old(self).in_use().remove(pid));
        }
    }
}

/// An id given back is the next one handed out, and handing it out leaves
/// the allocator as it was before the id came back: if `b` is `a` after
/// `dealloc(pid)` and `c` is `b` after an `allocate` that returned `got`,
/// then `got == pid` and `c` has the free ids and in-use ids of `a`.
pub proof fn law_dealloc_then_allocate(a: PidAllocator, pid: usize, b: PidAllocator, got: usize, c: PidAllocator)
    requires
        a.wf(),
        pid <= a.max(),
        !a.free().contains(pid),
        b.max() == a.max(),
        b.free() == a.free().push(pid),
        b.in_use() == a.in_use().remove(pid),
        got == b.free().last(),
        c.free() == b.free().drop_last(),
        c.max() == b.max(),
    ensures
        got == pid,
        c.free() == a.free(),
        c.in_use() == a.in_use(),
{
    assert(c.free() =~= a.free());
    assert(c.in_use() =~= a.in_use());
}

/// An id in use is never handed out again: whatever `allocate` returns on
/// `a` is not in `a.in_use()`.
pub proof fn law_allocated_ids_distinct(a: PidAllocator, got: usize)
    requires
        a.wf(),
        a.free().len() > 0 ==> got == a.free().last(),
        a.free().len() == 0 ==> got == a.max() + 1,
    ensures
        !a.in_use().contains(got),
{
    if a.free().len() > 0 {
        assert(a.free().contains(got));
    }
}

} // verus!

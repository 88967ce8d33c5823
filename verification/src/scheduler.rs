//! Thread schedulers: the interface every scheduler offers and two FIFO
//! implementations over a double-ended queue.

use vstd::prelude::*;
use std::collections::VecDeque;
use vstd::std_specs::cmp::PartialEqSpec;

verus! {

/// What a thread scheduler offers the kernel.
///
/// `queue` is the order in which the scheduler will hand threads out.
pub trait Scheduler<ThreadIdentifier: Clone + Eq>: Sized {
    type Priority;

    /// The threads the scheduler holds, in the order it serves them.
    spec fn queue(&self) -> Seq<ThreadIdentifier>;

    /// Whether `remove_thread` may be asked to remove `thread`.
    spec fn removable(&self, thread: ThreadIdentifier) -> bool;

    /// An empty scheduler.
    fn new_empty() -> (s: Self)
        ensures
            s.queue() == Seq::<ThreadIdentifier>::empty(),
    ;

    /// Puts `thread` at the back of the queue.
    fn add_thread(&mut self, thread: ThreadIdentifier)
        ensures
            final(self).queue() == old(self).queue().push(thread),
    ;

    /// Hands out the thread at the front of the queue, if any.
    fn get_next(&mut self) -> (r: Option<ThreadIdentifier>)
        ensures
            old(self).queue().len() == 0 <==> r is None,
            r is Some ==> r->0 == old(self).queue()[0],
            r is None ==> final(self).queue() == old(self).queue(),
    ;

    /// Takes `thread` out of the queue.
    fn remove_thread(&mut self, thread: &ThreadIdentifier)
        requires
            vstd::laws_eq::obeys_concrete_eq::<ThreadIdentifier>(),
            old(self).removable(*thread),
        ensures
            !old(self).queue().contains(*thread) ==> final(self).queue() == old(self).queue(),
            old(self).queue().contains(*thread) ==> exists|i: int|
                0 <= i < old(self).queue().len() && old(self).queue()[i] == *thread
                    && final(self).queue() == old(self).queue().remove(i),
    ;

    /// Scheduling priorities are not used by the FIFO schedulers.
    fn set_priority(&mut self, thread: ThreadIdentifier, priority: Self::Priority)
        ensures
            final(self).queue() == old(self).queue(),
    ;
}

/// Number of occurrences of `x` in `s`.
pub open spec fn occurrences<T>(s: Seq<T>, x: T) -> nat
    decreases s.len(),
{
    if s.len() == 0 {
        0
    } else {
        occurrences(s.drop_last(), x) + if s.last() == x { 1nat } else { 0nat }
    }
}

/// Index of the first element of `v` equal to `x`, or `v.len()` if there is none.
fn position<T: Eq>(v: &VecDeque<T>, x: &T) -> (i: usize)
    requires
        vstd::laws_eq::obeys_concrete_eq::<T>(),
    ensures
        i <= v@.len(),
        forall|j: int| 0 <= j < i ==> v@[j] != *x,
        i < v@.len() ==> v@[i as int] == *x,
{
    let mut i: usize = 0;
    while i < v.len()
        invariant
            i <= v@.len(),
            forall|j: int| 0 <= j < i ==> v@[j] != *x,
            vstd::laws_eq::obeys_concrete_eq::<T>(),
        decreases v@.len() - i,
    {
        proof {
            reveal(vstd::laws_eq::obeys_concrete_eq);
        }
        if v[i] == *x {
            return i;
        }
        i = i + 1;
    }
    i
}

/// FIFO scheduler that serves threads round-robin: the thread it hands out
/// goes back to the end of the queue.
pub struct FIFOScheduler<ThreadIdentifier: Clone + Eq> {
    pool: VecDeque<ThreadIdentifier>,
}

impl<ThreadIdentifier: Clone + Eq> FIFOScheduler<ThreadIdentifier> {
    pub closed spec fn view(&self) -> Seq<ThreadIdentifier> {
        self.pool@
    }

    /// An empty scheduler.
    pub fn default() -> (s: Self)
        ensures
            s@ == Seq::<ThreadIdentifier>::empty(),
    {
        FIFOScheduler { pool: VecDeque::new() }
    }

    /// Number of threads the scheduler holds.
    pub fn len(&self) -> (n: usize)
        ensures
            n == self@.len(),
    {
        self.pool.len()
    }
}

impl<ThreadIdentifier: Clone + Eq> Scheduler<ThreadIdentifier> for FIFOScheduler<ThreadIdentifier> {
    type Priority = ();

    open spec fn queue(&self) -> Seq<ThreadIdentifier> {
        self@
    }

    /// Removing asserts that exactly one queued thread equals the argument.
    open spec fn removable(&self, thread: ThreadIdentifier) -> bool {
        occurrences(self@, thread) == 1
    }

    fn new_empty() -> (s: Self) {
        Self::default()
    }

    fn add_thread(&mut self, thread: ThreadIdentifier)
        ensures
            final(self)@ == old(self)@.push(thread),
    {
        self.pool.push_back(thread);
    }

    fn get_next(&mut self) -> (r: Option<ThreadIdentifier>)
        ensures
            old(self)@.len() == 0 ==> r is None && final(self)@ == old(self)@,
            old(self)@.len() > 0 ==> r == Some(old(self)@[0])
                && final(self)@.len() == old(self)@.len()
                && final(self)@.drop_last() == old(self)@.drop_first()
                && cloned::<ThreadIdentifier>(old(self)@[0], final(self)@.last()),
    {
        if let Some(thread) = self.pool.pop_front() {
            let c = thread.clone();
            self.pool.push_back(c);
            proof {
                assert(self@.drop_last() =~= old(self)@.drop_first());
            }
            Some(thread)
        } else {
            None
        }
    }

    fn remove_thread(&mut self, thread: &ThreadIdentifier)
        ensures
            exists|i: int|
                0 <= i < old(self)@.len() && old(self)@[i] == *thread
                    && final(self)@ == old(self)@.remove(i),
    {
        let i = position(&self.pool, thread);
        proof {
            if i == self@.len() {
                lemma_no_occurrence(self@, *thread);
            }
        }
        self.pool.remove(i);
    }

    fn set_priority(&mut self, _thread: ThreadIdentifier, _priority: ()) {
    }
}

/// The queue of a round-robin scheduler after it has handed out `k` of
/// the threads of `q`: the rest of `q`, then those `k` at the back.
pub open spec fn rotated<T>(q: Seq<T>, k: int) -> Seq<T> {
    q.subrange(k, q.len() as int) + q.subrange(0, k)
}

/// Round robin: when the queue is `q` rotated by `k < q.len()` and
/// `get_next` hands out the front thread and puts it back at the end (as
/// `FIFOScheduler::get_next` does for thread ids, whose clones are equal),
/// the thread handed out is `q[k]` and the queue becomes `q` rotated by
/// `k + 1`; rotated by `q.len()`, the queue is `q` again, so every thread is
/// handed out once in queue order before any is handed out twice.
pub proof fn law_round_robin<T>(q: Seq<T>, k: int, before: Seq<T>, handed: T, after: Seq<T>)
    requires
        0 <= k < q.len(),
        before == rotated(q, k),
        handed == before[0],
        after.len() == before.len(),
        after.drop_last() == before.drop_first(),
        after.last() == handed,
    ensures
        handed == q[k],
        after == rotated(q, k + 1),
        rotated(q, q.len() as int) == q,
{
    assert(after =~= after.drop_last().push(after.last()));
    assert(after =~= rotated(q, k + 1));
    assert(rotated(q, q.len() as int) =~= q);
}

/// One round-robin `get_next`: `handed` was at the front of `before`, and
/// `after` is `before` with it moved to the back.
pub open spec fn round_robin_step<T>(before: Seq<T>, handed: T, after: Seq<T>) -> bool {
    &&& before.len() > 0
    &&& handed == before[0]
    &&& after.len() == before.len()
    &&& after.drop_last() == before.drop_first()
    &&& after.last() == handed
}

/// Round robin over a whole turn: starting from queue `q` of `n` threads,
/// `n` successive `get_next` calls (queues `states`, threads `handed`) hand
/// out every thread of `q` once, in queue order, and leave the queue as it
/// was.
pub proof fn law_round_robin_turn<T>(q: Seq<T>, states: Seq<Seq<T>>, handed: Seq<T>)
    requires
        states.len() == q.len() + 1,
        handed.len() == q.len(),
        states[0] == q,
        forall|i: int| 0 <= i < q.len() ==> round_robin_step(#[trigger] states[i], handed[i], states[i + 1]),
    ensures
        forall|i: int| 0 <= i < q.len() ==> #[trigger] handed[i] == q[i],
        states[q.len() as int] == q,
{
    lemma_round_robin_prefix(q, states, handed, q.len() as int);
    assert forall|i: int| 0 <= i < q.len() implies #[trigger] handed[i] == q[i] by {
        lemma_round_robin_prefix(q, states, handed, i);
        assert(round_robin_step(states[i], handed[i], states[i + 1]));
        law_round_robin(q, i, states[i], handed[i], states[i + 1]);
    }
    assert(rotated(q, q.len() as int) =~= q);
}

/// After `k` steps of a round-robin turn the queue is `q` rotated by `k`.
proof fn lemma_round_robin_prefix<T>(q: Seq<T>, states: Seq<Seq<T>>, handed: Seq<T>, k: int)
    requires
        0 <= k <= q.len(),
        states.len() == q.len() + 1,
        handed.len() == q.len(),
        states[0] == q,
        forall|i: int| 0 <= i < q.len() ==> round_robin_step(#[trigger] states[i], handed[i], states[i + 1]),
    ensures
        states[k] == rotated(q, k),
    decreases k,
{
    if k == 0 {
        assert(rotated(q, 0) =~= q);
    } else {
        lemma_round_robin_prefix(q, states, handed, k - 1);
        assert(round_robin_step(states[k - 1], handed[k - 1], states[k]));
        law_round_robin(q, k - 1, states[k - 1], handed[k - 1], states[k]);
    }
}

/// A sequence none of whose elements is `x` holds `x` zero times.
proof fn lemma_no_occurrence<T>(s: Seq<T>, x: T)
    requires
        forall|j: int| 0 <= j < s.len() ==> s[j] != x,
    ensures
        occurrences(s, x) == 0,
    decreases s.len(),
{
    if s.len() > 0 {
        lemma_no_occurrence(s.drop_last(), x);
    }
}

/// FIFO scheduler whose `get_next` takes the front thread out of the queue.
pub struct FifoScheduler<ThreadType: Clone + Eq> {
    pool: VecDeque<ThreadType>,
}

impl<ThreadType: Clone + Eq> FifoScheduler<ThreadType> {
    pub closed spec fn view(&self) -> Seq<ThreadType> {
        self.pool@
    }

    /// An empty scheduler.
    pub fn default() -> (s: Self)
        ensures
            s@ == Seq::<ThreadType>::empty(),
    {
        FifoScheduler { pool: VecDeque::new() }
    }

    /// Number of threads the scheduler holds.
    pub fn len(&self) -> (n: usize)
        ensures
            n == self@.len(),
    {
        self.pool.len()
    }
}

impl FifoScheduler<isize> {
    /// Takes every occurrence of `thread` out of the queue; the other
    /// threads keep their order.
    pub fn remove_all(&mut self, thread: isize)
        ensures
            final(self)@ == old(self)@.filter(|t: isize| t != thread),
    {
        let mut kept: VecDeque<isize> = VecDeque::new();
        let mut i: usize = 0;
        while i < self.pool.len()
            invariant
                i <= self.pool@.len(),
                self.pool@ == old(self).pool@,
                kept@ == self.pool@.subrange(0, i as int).filter(|t: isize| t != thread),
            decreases self.pool@.len() - i,
        {
            proof {
                reveal(Seq::filter);
                assert(self.pool@.subrange(0, i as int + 1).drop_last() =~= self.pool@.subrange(0, i as int));
            }
            let t = self.pool[i];
            if t != thread {
                kept.push_back(t);
            }
            i = i + 1;
        }
        proof {
            assert(self.pool@.subrange(0, i as int) =~= self.pool@);
        }
        self.pool = kept;
    }
}

impl<ThreadType: Clone + Eq> Scheduler<ThreadType> for FifoScheduler<ThreadType> {
    type Priority = ();

    open spec fn queue(&self) -> Seq<ThreadType> {
        self@
    }

    open spec fn removable(&self, thread: ThreadType) -> bool {
        true
    }

    fn new_empty() -> (s: Self) {
        Self::default()
    }

    fn add_thread(&mut self, thread: ThreadType)
        ensures
            final(self)@ == old(self)@.push(thread),
    {
        self.pool.push_back(thread);
    }

    fn get_next(&mut self) -> (r: Option<ThreadType>)
        ensures
            old(self)@.len() == 0 ==> r is None && final(self)@ == old(self)@,
            old(self)@.len() > 0 ==> r == Some(old(self)@[0]) && final(self)@ == old(self)@.drop_first(),
    {
        if let Some(thread) = self.pool.pop_front() {
            Some(thread)
        } else {
            None
        }
    }

    fn remove_thread(&mut self, thread: &ThreadType)
        ensures
            !old(self)@.contains(*thread) ==> final(self)@ == old(self)@,
            old(self)@.contains(*thread) ==> exists|i: int|
                0 <= i < old(self)@.len() && old(self)@[i] == *thread
                    && (forall|j: int| 0 <= j < i ==> old(self)@[j] != *thread)
                    && final(self)@ == old(self)@.remove(i),
    {
        let i = position(&self.pool, thread);
        if i < self.pool.len() {
            self.pool.remove(i);
        }
    }

    fn set_priority(&mut self, _thread: ThreadType, _priority: ()) {
    }
}

} // verus!

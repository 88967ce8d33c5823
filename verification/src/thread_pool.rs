//! Threads waiting to run and threads asleep; the processor's choice of the
//! next thread; condition variables and sleep timers over them.
//!
//! Threads are identified by their id.

use vstd::prelude::*;
use std::collections::VecDeque;
use hashbrown::HashSet;
use crate::scheduler::{FifoScheduler, Scheduler};

verus! {

/// Thread ids are signed so that negative values can report errors.
pub type ThreadID = isize;

#[verifier::external_type_specification]
#[verifier::external_body]
#[verifier::reject_recursive_types(T)]
#[verifier::reject_recursive_types(S)]
pub struct ExHashSet<T, S>(HashSet<T, S>);

/// A set of thread ids.
pub type ThreadSet = HashSet<isize>;

/// The ids a thread set holds.
pub uninterp spec fn thread_set(s: ThreadSet) -> Set<isize>;

/// `hashbrown::HashSet::new`: an empty set.
#[verifier::external_body]
fn thread_set_new() -> (r: ThreadSet)
    ensures
        thread_set(r) == Set::<isize>::empty(),
{
    HashSet::new()
}

/// `hashbrown::HashSet::insert`: adds `t`.
#[verifier::external_body]
fn thread_set_insert(s: &mut ThreadSet, t: isize)
    ensures
        thread_set(*final(s)) == thread_set(*old(s)).insert(t),
{
    s.insert(t);
}

/// `hashbrown::HashSet::remove`: takes `t` out, if present.
#[verifier::external_body]
fn thread_set_remove(s: &mut ThreadSet, t: isize)
    ensures
        thread_set(*final(s)) == thread_set(*old(s)).remove(t),
{
    s.remove(&t);
}

/// `hashbrown::HashSet::contains`: whether `t` is in the set.
#[verifier::external_body]
fn thread_set_contains(s: &ThreadSet, t: isize) -> (r: bool)
    ensures
        r == thread_set(*s).contains(t),
{
    s.contains(&t)
}

/// The threads that can run, in the scheduler, and the threads asleep.
pub struct ThreadPool {
    pub scheduler: FifoScheduler<ThreadID>,
    pub sleeping_threads: ThreadSet,
}

impl ThreadPool {
    /// Threads waiting to run, in the order they will run.
    pub open spec fn ready(&self) -> Seq<ThreadID> {
        self.scheduler@
    }

    /// Threads asleep.
    pub open spec fn sleeping(&self) -> Set<ThreadID> {
        thread_set(self.sleeping_threads)
    }

    /// No thread.
    pub fn default() -> (p: Self)
        ensures
            p.ready() == Seq::<ThreadID>::empty(),
            p.sleeping() == Set::<ThreadID>::empty(),
    {
        ThreadPool { scheduler: FifoScheduler::default(), sleeping_threads: thread_set_new() }
    }

    /// Whether `thread` is asleep.
    pub fn is_sleeping(&self, thread: ThreadID) -> (r: bool)
        ensures
            r == self.sleeping().contains(thread),
    {
        thread_set_contains(&self.sleeping_threads, thread)
    }

    /// Makes `thread` ready to run, after those already waiting.
    pub fn add_thread(&mut self, thread: ThreadID)
        ensures
            final(self).ready() == old(self).ready().push(thread),
            final(self).sleeping() == old(self).sleeping(),
    {
        self.scheduler.add_thread(thread);
    }

    /// Takes `thread` out of the threads ready to run: its first occurrence,
    /// if it is there.
    pub fn kill_thread(&mut self, thread: ThreadID)
        ensures
            !old(self).ready().contains(thread) ==> final(self).ready() == old(self).ready(),
            old(self).ready().contains(thread) ==> exists|i: int|
                0 <= i < old(self).ready().len() && old(self).ready()[i] == thread
                    && (forall|j: int| 0 <= j < i ==> old(self).ready()[j] != thread)
                    && final(self).ready() == old(self).ready().remove(i),
            final(self).sleeping() == old(self).sleeping(),
    {
        proof {
            broadcast use vstd::laws_eq::group_laws_eq;
            assert(vstd::laws_eq::obeys_concrete_eq::<isize>());
        }
        self.scheduler.remove_thread(&thread);
    }

    /// Wakes `thread`: it is no longer asleep and is ready to run, after
    /// those already waiting.
    pub fn wake_thread(&mut self, thread: ThreadID)
        ensures
            final(self).ready() == old(self).ready().push(thread),
            final(self).sleeping() == old(self).sleeping().remove(thread),
    {
        thread_set_remove(&mut self.sleeping_threads, thread);
        self.scheduler.add_thread(thread);
    }

    /// Puts `thread` to sleep: it leaves the threads ready to run and is
    /// not scheduled until it is woken.
    pub fn sleep_thread(&mut self, thread: ThreadID)
        ensures
            final(self).ready() == old(self).ready().filter(|t: ThreadID| t != thread),
            final(self).sleeping() == old(self).sleeping().insert(thread),
    {
        self.scheduler.remove_all(thread);
        thread_set_insert(&mut self.sleeping_threads, thread);
    }
}

/// Putting an awake thread to sleep and then waking it leaves the sleeping
/// threads as they were and queues the thread, once, behind the other
/// threads that were ready: `p1` is `p0` after `sleep_thread(t)` and `p2`
/// is `p1` after `wake_thread(t)`. While asleep, the thread is not ready.
pub proof fn law_sleep_then_wake(p0: ThreadPool, p1: ThreadPool, p2: ThreadPool, t: ThreadID)
    requires
        !p0.sleeping().contains(t),
        p1.ready() == p0.ready().filter(|x: ThreadID| x != t),
        p1.sleeping() == p0.sleeping().insert(t),
        p2.ready() == p1.ready().push(t),
        p2.sleeping() == p1.sleeping().remove(t),
    ensures
        !p1.ready().contains(t),
        p2.sleeping() == p0.sleeping(),
        p2.ready() == p0.ready().filter(|x: ThreadID| x != t).push(t),
        p2.ready().last() == t,
{
    assert(p0.sleeping().insert(t).remove(t) =~= p0.sleeping());
    broadcast use vstd::seq_lib::group_filter_ensures;
    if p1.ready().contains(t) {
        let i = choose|i: int| 0 <= i < p1.ready().len() && p1.ready()[i] == t;
        assert(p1.ready()[i] != t);
    }
}

/// What the processor does when it switches threads.
#[derive(Clone, Copy, PartialEq, Eq, Structural, Debug)]
pub struct Switch {
    /// The thread to run next.
    pub next: ThreadID,
    /// Whether `next` came from the scheduler, so that its trace starts a new run.
    pub scheduled: bool,
    /// The thread that was running, whose trace closes its time in the kernel.
    pub previous: Option<ThreadID>,
}

/// A hart's scheduling state: the thread it runs and the idle thread it
/// falls back to.
///
/// To switch threads in an interrupt, the kernel parks the current thread
/// and prepares the next; to end a thread, it kills the current thread and
/// prepares the next; to put one to sleep, it parks it, puts it to sleep,
/// and prepares the next.
pub struct Processor {
    current_thread: Option<ThreadID>,
    idle_thread: ThreadID,
}

impl Processor {
    pub closed spec fn current(&self) -> Option<ThreadID> {
        self.current_thread
    }

    pub closed spec fn idle(&self) -> ThreadID {
        self.idle_thread
    }

    /// A processor running nothing, with `idle_thread` to fall back to.
    pub fn new(idle_thread: ThreadID) -> (p: Self)
        ensures
            p.current() is None,
            p.idle() == idle_thread,
    {
        Processor { current_thread: None, idle_thread }
    }

    /// The thread running now, if any.
    pub fn running(&self) -> (t: Option<ThreadID>)
        ensures
            t == self.current(),
    {
        self.current_thread
    }

    /// The thread running now.
    pub fn current_thread(&self) -> (t: ThreadID)
        requires
            self.current() is Some,
        ensures
            t == self.current().unwrap(),
    {
        match self.current_thread {
            Some(t) => t,
            None => self.idle_thread,
        }
    }

    /// Makes `thread` the running thread.
    pub fn prepare_thread(&mut self, thread: ThreadID) -> (t: ThreadID)
        ensures
            t == thread,
            final(self).current() == Some(thread),
            final(self).idle() == old(self).idle(),
    {
        self.current_thread = Some(thread);
        thread
    }

    /// Starts the hart on its idle thread.
    pub fn processor_main(&mut self) -> (t: ThreadID)
        ensures
            t == old(self).idle(),
            final(self).current() == Some(old(self).idle()),
            final(self).idle() == old(self).idle(),
    {
        let idle = self.idle_thread;
        self.prepare_thread(idle)
    }

    /// Queues `thread` to run again later, unless it is the idle thread,
    /// which is never queued.
    pub fn run_thread_later(&self, pool: &mut ThreadPool, thread: ThreadID)
        ensures
            thread != self.idle() ==> final(pool).ready() == old(pool).ready().push(thread),
            thread == self.idle() ==> final(pool).ready() == old(pool).ready(),
            final(pool).sleeping() == old(pool).sleeping(),
    {
        if thread != self.idle_thread {
            pool.add_thread(thread);
        }
    }

    /// Switches to the next thread the scheduler hands out or, when none is
    /// ready, to the idle thread.
    pub fn prepare_next_thread(&mut self, pool: &mut ThreadPool) -> (s: Switch)
        ensures
            final(pool).sleeping() == old(pool).sleeping(),
            final(self).idle() == old(self).idle(),
            final(self).current() == Some(s.next),
            old(pool).ready().len() > 0 ==> {
                &&& s.next == old(pool).ready()[0]
                &&& s.scheduled
                &&& s.previous == old(self).current()
                &&& final(pool).ready() == old(pool).ready().drop_first()
            },
            old(pool).ready().len() == 0 ==> {
                &&& s.next == old(self).idle()
                &&& !s.scheduled
                &&& s.previous is None
                &&& final(pool).ready() == old(pool).ready()
            },
    {
        match pool.scheduler.get_next() {
            Some(next_thread) => {
                let previous = self.current_thread;
                let next = self.prepare_thread(next_thread);
                Switch { next, scheduled: true, previous }
            },
            None => {
                let idle = self.idle_thread;
                let next = self.prepare_thread(idle);
                Switch { next, scheduled: false, previous: None }
            },
        }
    }

    /// The running thread, whose context is to be saved.
    pub fn park_current_thread(&self) -> (t: ThreadID)
        requires
            self.current() is Some,
        ensures
            t == self.current().unwrap(),
    {
        self.current_thread()
    }

    /// Puts the running thread to sleep.
    pub fn sleep_current_thread(&self, pool: &mut ThreadPool)
        requires
            self.current() is Some,
        ensures
            final(pool).ready() == old(pool).ready().filter(|t: ThreadID| t != self.current().unwrap()),
            final(pool).sleeping() == old(pool).sleeping().insert(self.current().unwrap()),
    {
        let current_thread = self.current_thread();
        pool.sleep_thread(current_thread);
        proof {
            assert((|t: ThreadID| t != current_thread) =~= (|t: ThreadID| t != self.current().unwrap()));
        }
    }

    /// Ends the running thread: it leaves the scheduler and the hart runs nothing.
    pub fn kill_current_thread(&mut self, pool: &mut ThreadPool)
        requires
            old(self).current() is Some,
        ensures
            final(self).current() is None,
            final(self).idle() == old(self).idle(),
            final(pool).sleeping() == old(pool).sleeping(),
            ({
                let t = old(self).current().unwrap();
                &&& !old(pool).ready().contains(t) ==> final(pool).ready() == old(pool).ready()
                &&& old(pool).ready().contains(t) ==> exists|i: int|
                    0 <= i < old(pool).ready().len() && old(pool).ready()[i] == t
                        && (forall|j: int| 0 <= j < i ==> old(pool).ready()[j] != t)
                        && final(pool).ready() == old(pool).ready().remove(i)
            }),
    {
        let t = self.current_thread();
        pool.kill_thread(t);
        self.current_thread = None;
    }
}

/// A condition variable: the threads waiting on it, first come first served.
pub struct Condvar {
    pub watchers: VecDeque<ThreadID>,
}

impl Condvar {
    /// No thread waiting.
    pub fn new() -> (c: Self)
        ensures
            c.watchers@ == Seq::<ThreadID>::empty(),
    {
        Condvar { watchers: VecDeque::new() }
    }

    /// `current` waits on this variable and goes to sleep.
    pub fn wait(&mut self, pool: &mut ThreadPool, current: ThreadID)
        ensures
            final(self).watchers@ == old(self).watchers@.push(current),
            final(pool).ready() == old(pool).ready().filter(|t: ThreadID| t != current),
            final(pool).sleeping() == old(pool).sleeping().insert(current),
    {
        self.watchers.push_back(current);
        pool.sleep_thread(current);
    }

    /// Wakes the thread that has waited longest, if any, and returns it.
    pub fn notify_one(&mut self, pool: &mut ThreadPool) -> (r: Option<ThreadID>)
        ensures
            old(self).watchers@.len() == 0 ==> r is None && final(self).watchers@ == old(self).watchers@
                && final(pool).ready() == old(pool).ready() && final(pool).sleeping() == old(pool).sleeping(),
            old(self).watchers@.len() > 0 ==> {
                let t = old(self).watchers@[0];
                &&& r == Some(t)
                &&& final(self).watchers@ == old(self).watchers@.drop_first()
                &&& final(pool).ready() == old(pool).ready().push(t)
                &&& final(pool).sleeping() == old(pool).sleeping().remove(t)
            },
    {
        match self.watchers.pop_front() {
            Some(thread) => {
                pool.wake_thread(thread);
                Some(thread)
            },
            None => None,
        }
    }
}

/// A sleeping thread's alarm: the time it expires and the variable the
/// thread waits on.
pub struct SleepTrigger {
    pub expire: u64,
    pub wait: Condvar,
}

/// Puts `current` to sleep until `expire`.
pub fn add_sleep_trigger(triggers: &mut Vec<SleepTrigger>, pool: &mut ThreadPool, current: ThreadID, expire: u64)
    ensures
        final(triggers)@.len() == old(triggers)@.len() + 1,
        forall|i: int| 0 <= i < old(triggers)@.len() ==> #[trigger] final(triggers)@[i] == old(triggers)@[i],
        final(triggers)@.last().expire == expire,
        final(triggers)@.last().wait.watchers@ == seq![current],
        final(pool).ready() == old(pool).ready().filter(|t: ThreadID| t != current),
        final(pool).sleeping() == old(pool).sleeping().insert(current),
{
    let mut sleep_trigger = SleepTrigger { expire, wait: Condvar::new() };
    sleep_trigger.wait.wait(pool, current);
    triggers.push(sleep_trigger);
}

/// The triggers of `triggers` that have not expired at `now`, in order.
pub open spec fn pending(triggers: Seq<SleepTrigger>, now: u64) -> Seq<SleepTrigger>
    decreases triggers.len(),
{
    if triggers.len() == 0 {
        Seq::empty()
    } else {
        let rest = pending(triggers.drop_last(), now);
        if triggers.last().expire >= now { rest.push(triggers.last()) } else { rest }
    }
}

/// The threads woken at `now`: the first watcher of each expired trigger, in order.
pub open spec fn woken(triggers: Seq<SleepTrigger>, now: u64) -> Seq<ThreadID>
    decreases triggers.len(),
{
    if triggers.len() == 0 {
        Seq::empty()
    } else {
        let rest = woken(triggers.drop_last(), now);
        let t = triggers.last();
        if t.expire < now && t.wait.watchers@.len() > 0 { rest.push(t.wait.watchers@[0]) } else { rest }
    }
}

/// Wakes the thread behind every trigger that expired before `current_time`
/// and keeps the others, in order.
pub fn handle_sleep_trigger(triggers: &mut Vec<SleepTrigger>, pool: &mut ThreadPool, current_time: u64)
    ensures
        final(triggers)@ == pending(old(triggers)@, current_time),
        final(pool).ready() == old(pool).ready() + woken(old(triggers)@, current_time),
        final(pool).sleeping() == old(pool).sleeping().difference(woken(old(triggers)@, current_time).to_set()),
{
    let ghost all = triggers@;
    let ghost p0 = pool.ready();
    let ghost s0 = pool.sleeping();
    let mut kept: Vec<SleepTrigger> = Vec::new();
    let mut i: usize = 0;
    proof {
        assert(all.len() == triggers.len());
        assert(all.subrange(0, 0) =~= Seq::<SleepTrigger>::empty());
        assert(p0 + Seq::<ThreadID>::empty() =~= p0);
        assert(s0.difference(Seq::<ThreadID>::empty().to_set()) =~= s0);
        assert(triggers@ =~= all.subrange(0, all.len() as int));
    }
    while triggers.len() > 0
        invariant
            i <= all.len(),
            all.len() <= usize::MAX,
            triggers@ == all.subrange(i as int, all.len() as int),
            kept@ == pending(all.subrange(0, i as int), current_time),
            pool.ready() == p0 + woken(all.subrange(0, i as int), current_time),
            pool.sleeping() == s0.difference(woken(all.subrange(0, i as int), current_time).to_set()),
        decreases triggers@.len(),
    {
        proof {
            assert(triggers@.len() == all.len() - i);
        }
        let mut s = triggers.remove(0);
        proof {
            assert(s == all[i as int]);
            assert(all.subrange(0, i as int + 1).drop_last() =~= all.subrange(0, i as int));
            assert(all.subrange(0, i as int + 1).last() == s);
        }
        if s.expire < current_time {
            let ghost sb = s;
            s.wait.notify_one(pool);
            proof {
                let w = woken(all.subrange(0, i as int), current_time);
                if sb.wait.watchers@.len() > 0 {
                    let t = sb.wait.watchers@[0];
                    assert(pool.ready() =~= p0 + woken(all.subrange(0, i as int + 1), current_time));
                    assert(woken(all.subrange(0, i as int + 1), current_time) == w.push(t));
                    w.lemma_push_to_set_commute(t);
                    assert(pool.sleeping() =~= s0.difference(w.push(t).to_set()));
                } else {
                    assert(woken(all.subrange(0, i as int + 1), current_time) == w);
                }
            }
        } else {
            kept.push(s);
            proof {
                assert(woken(all.subrange(0, i as int + 1), current_time) == woken(all.subrange(0, i as int), current_time));
            }
        }
        i = i + 1;
        proof {
            assert(triggers@ =~= all.subrange(i as int, all.len() as int));
        }
    }
    proof {
        assert(all.subrange(0, i as int) =~= all);
    }
    *triggers = kept;
}

/// Handling the triggers at `now` splits them: every trigger is either kept
/// (not expired) or woken (expired), and the kept ones are exactly the
/// unexpired ones, in order.
pub proof fn law_sleep_triggers_partition(triggers: Seq<SleepTrigger>, now: u64)
    ensures
        pending(triggers, now).len() + expired_count(triggers, now) == triggers.len(),
        forall|i: int| 0 <= i < pending(triggers, now).len() ==> #[trigger] pending(triggers, now)[i].expire >= now,
    decreases triggers.len(),
{
    if triggers.len() > 0 {
        law_sleep_triggers_partition(triggers.drop_last(), now);
        let rest = pending(triggers.drop_last(), now);
        assert forall|i: int| 0 <= i < pending(triggers, now).len() implies #[trigger] pending(triggers, now)[i].expire >= now by {
            if i < rest.len() {
                assert(pending(triggers, now)[i] == rest[i]);
            }
        }
    }
}

/// Number of triggers of `triggers` expired at `now`.
pub open spec fn expired_count(triggers: Seq<SleepTrigger>, now: u64) -> int
    decreases triggers.len(),
{
    if triggers.len() == 0 {
        0
    } else {
        expired_count(triggers.drop_last(), now) + if triggers.last().expire < now { 1int } else { 0int }
    }
}

/// Threads waiting on a condition variable are woken first come, first
/// served: when `t1` and then `t2` wait on a variable nobody waited on
/// (`c1` is `c0` after `wait(t1)`, `c2` is `c1` after `wait(t2)`), the
/// next `notify_one` on `c2` wakes `t1` and leaves `t2` waiting.
pub proof fn law_condvar_first_come_first_served(
    c0: Condvar, c1: Condvar, c2: Condvar, t1: ThreadID, t2: ThreadID, r: Option<ThreadID>, c3: Condvar,
)
    requires
        c0.watchers@.len() == 0,
        c1.watchers@ == c0.watchers@.push(t1),
        c2.watchers@ == c1.watchers@.push(t2),
        c2.watchers@.len() > 0 ==> r == Some(c2.watchers@[0]) && c3.watchers@ == c2.watchers@.drop_first(),
    ensures
        r == Some(t1),
        c3.watchers@ == seq![t2],
{
    assert(c2.watchers@ =~= seq![t1, t2]);
    assert(c2.watchers@.drop_first() =~= seq![t2]);
}

} // verus!

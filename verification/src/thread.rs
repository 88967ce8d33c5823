//! Threads: their id, stack, process and the context they resume from.

use vstd::prelude::*;
use crate::address::{Range, VirtualAddress};
use crate::address::PAGE_SIZE;
use crate::context::{arguments_of, is_initial_context, Context};
use crate::frame::{FrameAllocator, MemoryResult};
use crate::mapping::{frames_needed, MemoryWrite};
use crate::process::{clears_stack_frames, stack_page_count, stack_pages, Process, STACK_SIZE};
use crate::thread_pool::{ThreadID, ThreadPool};
use crate::thread_trace::ThreadTrace;

verus! {

/// Hands out thread ids 1, 2, 3, ...
pub struct ThreadCounter {
    pub last: ThreadID,
}

impl ThreadCounter {
    /// No id handed out yet.
    pub fn new() -> (c: Self)
        ensures
            c.last == 0,
    {
        ThreadCounter { last: 0 }
    }

    /// The next id.
    pub fn next(&mut self) -> (id: ThreadID)
        requires
            0 <= old(self).last < ThreadID::MAX,
        ensures
            id == old(self).last + 1,
            final(self).last == id,
    {
        self.last = self.last + 1;
        self.last
    }
}

/// The part of a thread that changes.
pub struct ThreadInner {
    /// The saved context; present exactly while the thread is not running.
    pub context: Option<Context>,
    pub sleeping: bool,
    pub dead: bool,
    pub thread_trace: ThreadTrace,
}

/// A thread.
pub struct Thread {
    pub id: ThreadID,
    pub stack: Range<VirtualAddress>,
    /// Id of the process the thread belongs to.
    pub process: u64,
    pub inner: ThreadInner,
}

impl Thread {
    /// A thread of `process` that starts at `entry_point` with `arguments`:
    /// a new id, and a new run stack of the process, whose top it starts
    /// from. `sstatus` is the status its context is created under.
    pub fn new(
        counter: &mut ThreadCounter,
        process: &mut Process,
        allocator: &mut FrameAllocator,
        entry_point: u64,
        arguments: Option<&[u64]>,
        sstatus: u64,
    ) -> (r: MemoryResult<(Thread, Vec<MemoryWrite>)>)
        requires
            0 <= old(counter).last < ThreadID::MAX,
            arguments is Some ==> arguments.unwrap()@.len() <= 8,
            old(process).can_alloc_run_stack(old(allocator)),
        ensures
            final(process).inner.memory_set.mapping.owned_by(final(allocator)),
            final(process).pid == old(process).pid,
            final(process).is_user == old(process).is_user,
            old(allocator).available() >= 3 * stack_page_count(old(process).inner.run_stack_pointer) ==> r is Ok,
            r is Err <==> old(allocator).available() < frames_needed(old(process).inner.memory_set.mapping,
                stack_pages(old(process).inner.run_stack_pointer).0,
                stack_pages(old(process).inner.run_stack_pointer).1, true),
            r is Err ==> *final(counter) == *old(counter)
                && final(process).inner.run_stack_pointer == old(process).inner.run_stack_pointer,
            r is Ok ==> {
                let (t, writes) = r->Ok_0;
                let sp = old(process).inner.run_stack_pointer;
                &&& t.id == old(counter).last + 1
                &&& final(counter).last == t.id
                &&& t.process == old(process).pid
                &&& t.stack.start.0 == sp - STACK_SIZE
                &&& t.stack.end.0 == sp
                &&& final(process).inner.run_stack_pointer == sp - STACK_SIZE - PAGE_SIZE
                &&& t.inner.context is Some
                &&& is_initial_context(t.inner.context.unwrap(), sp, entry_point, arguments_of(arguments),
                    old(process).is_user, sstatus)
                &&& !t.inner.sleeping
                &&& !t.inner.dead
                &&& clears_stack_frames(final(process).inner.memory_set.mapping,
                    old(process).inner.memory_set.mapping.mapped().len() as int, writes@, stack_page_count(sp))
            },
    {
        let (stack, writes) = match process.alloc_run_stack(allocator) {
            Ok(s) => s,
            Err(e) => {
                return Err(e);
            },
        };
        let context = Context::thread_init_context(stack.end.0, entry_point, arguments, process.is_user, sstatus);
        Ok((Thread::with_context(counter, process.pid, stack, context), writes))
    }

    /// A thread of process `process`, with a new id, on `stack`, ready to
    /// run from `context`.
    pub fn with_context(counter: &mut ThreadCounter, process: u64, stack: Range<VirtualAddress>, context: Context) -> (t: Self)
        requires
            0 <= old(counter).last < ThreadID::MAX,
        ensures
            t.id == old(counter).last + 1,
            final(counter).last == t.id,
            t.stack == stack,
            t.process == process,
            t.inner.context == Some(context),
            !t.inner.sleeping,
            !t.inner.dead,
    {
        let id = counter.next();
        Thread {
            id,
            stack,
            process,
            inner: ThreadInner { context: Some(context), sleeping: false, dead: false, thread_trace: ThreadTrace::new() },
        }
    }

    /// The context to resume the thread from, which it no longer holds.
    pub fn retrieve_context(&mut self) -> (c: Context)
        requires
            old(self).inner.context is Some,
        ensures
            c == old(self).inner.context.unwrap(),
            final(self).inner.context is None,
            final(self).id == old(self).id,
            final(self).stack == old(self).stack,
            final(self).process == old(self).process,
            final(self).inner.sleeping == old(self).inner.sleeping,
            final(self).inner.dead == old(self).inner.dead,
    {
        match self.inner.context.take() {
            Some(c) => c,
            None => Context::default(),
        }
    }

    /// Saves the context of a thread that was running.
    pub fn store_context(&mut self, context: Context)
        requires
            old(self).inner.context is None,
        ensures
            final(self).inner.context == Some(context),
            final(self).id == old(self).id,
            final(self).stack == old(self).stack,
            final(self).process == old(self).process,
    {
        self.inner.context = Some(context);
    }

    /// A new thread, with a new id, on this thread's stack, belonging to
    /// `process` and ready to run from `context`.
    pub fn replace_context(&self, counter: &mut ThreadCounter, process: u64, context: Context) -> (t: Thread)
        requires
            0 <= old(counter).last < ThreadID::MAX,
        ensures
            t.id == old(counter).last + 1,
            final(counter).last == t.id,
            t.stack == self.stack,
            t.process == process,
            t.inner.context == Some(context),
            !t.inner.sleeping,
            !t.inner.dead,
    {
        Thread::with_context(counter, process, self.stack, context)
    }

    /// Records in the thread whether `pool` holds it asleep.
    pub fn sync_sleeping(&mut self, pool: &ThreadPool)
        ensures
            final(self).inner.sleeping == pool.sleeping().contains(old(self).id),
            final(self).id == old(self).id,
            final(self).stack == old(self).stack,
            final(self).process == old(self).process,
            final(self).inner.context == old(self).inner.context,
            final(self).inner.dead == old(self).inner.dead,
    {
        self.inner.sleeping = pool.is_sleeping(self.id);
    }

    /// Threads are the same when their ids are.
    pub fn eq(&self, other: &Thread) -> (r: bool)
        ensures
            r == (self.id == other.id),
    {
        self.id == other.id
    }
}

/// Thread ids are handed out in increasing order, so two threads created
/// one after the other never share an id.
pub proof fn law_thread_ids_distinct(c0: ThreadCounter, id1: ThreadID, c1: ThreadCounter, id2: ThreadID)
    requires
        id1 == c0.last + 1,
        c1.last == id1,
        id2 == c1.last + 1,
    ensures
        id1 != id2,
        id1 < id2,
{
}

/// A context stored into a thread is the one retrieved from it next: if
/// `stored` is `t` after `store_context(c)` and `c2` is what
/// `retrieve_context` then returns on `stored`, `c2 == c`, and the thread
/// holds no context afterwards.
pub proof fn law_store_then_retrieve(t: Thread, c: Context, stored: Thread, c2: Context, after: Thread)
    requires
        t.inner.context is None,
        stored.inner.context == Some(c),
        stored.id == t.id,
        c2 == stored.inner.context.unwrap(),
        after.inner.context is None,
        after.id == stored.id,
    ensures
        c2 == c,
        after.inner.context == t.inner.context,
        after.id == t.id,
{
}

} // verus!

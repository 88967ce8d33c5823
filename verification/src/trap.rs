//! What the kernel does with a trap: which handler an interrupt or an
//! exception goes to, and the thread switches that end a timer interrupt or
//! a system call.

use vstd::prelude::*;
use crate::context::{Context, SSTATUS_SPP};
use crate::process::{Process, TRAP_STACK_SIZE};
use crate::thread::Thread;
use crate::syscall::{kill_outcome, KillAction, Resume, SyscallResult};
use crate::thread_pool::{handle_sleep_trigger, pending, woken, Processor, SleepTrigger, Switch, ThreadID, ThreadPool};
use crate::timer::tick;

verus! {

/// The causes of a trap that the kernel tells apart.
#[derive(Clone, Copy, PartialEq, Eq, Structural, Debug)]
pub enum TrapCause {
    Breakpoint,
    UserEnvCall,
    InstructionFault,
    InstructionPageFault,
    LoadFault,
    LoadPageFault,
    StoreFault,
    StorePageFault,
    SupervisorTimer,
    SupervisorExternal,
    SupervisorSoft,
    Other,
}

/// The cause that `scause` reports: its top bit tells an interrupt from an
/// exception, the rest is the cause's number.
pub open spec fn cause_of(scause: u64) -> TrapCause {
    let interrupt = scause >= 0x8000_0000_0000_0000;
    let code = if interrupt { scause - 0x8000_0000_0000_0000 } else { scause as int };
    if !interrupt {
        if code == 1 {
            TrapCause::InstructionFault
        } else if code == 3 {
            TrapCause::Breakpoint
        } else if code == 5 {
            TrapCause::LoadFault
        } else if code == 7 {
            TrapCause::StoreFault
        } else if code == 8 {
            TrapCause::UserEnvCall
        } else if code == 12 {
            TrapCause::InstructionPageFault
        } else if code == 13 {
            TrapCause::LoadPageFault
        } else if code == 15 {
            TrapCause::StorePageFault
        } else {
            TrapCause::Other
        }
    } else if code == 1 {
        TrapCause::SupervisorSoft
    } else if code == 5 {
        TrapCause::SupervisorTimer
    } else if code == 9 {
        TrapCause::SupervisorExternal
    } else {
        TrapCause::Other
    }
}

/// Decoding `scause` follows the RISC-V privileged architecture's cause
/// codes: with the top bit clear, exception 1 is an instruction access
/// fault, 3 a breakpoint, 5 a load access fault, 7 a store access fault, 8
/// an environment call from user mode, 12 an instruction page fault, 13 a
/// load page fault and 15 a store page fault; with the top bit set,
/// interrupt 1 is the supervisor software interrupt, 5 the supervisor timer
/// interrupt and 9 the supervisor external interrupt; every other value is
/// a cause the kernel does not handle.
pub proof fn law_scause_codes(scause: u64)
    ensures
        cause_of(scause) == TrapCause::InstructionFault <==> scause == 1,
        cause_of(scause) == TrapCause::Breakpoint <==> scause == 3,
        cause_of(scause) == TrapCause::LoadFault <==> scause == 5,
        cause_of(scause) == TrapCause::StoreFault <==> scause == 7,
        cause_of(scause) == TrapCause::UserEnvCall <==> scause == 8,
        cause_of(scause) == TrapCause::InstructionPageFault <==> scause == 12,
        cause_of(scause) == TrapCause::LoadPageFault <==> scause == 13,
        cause_of(scause) == TrapCause::StorePageFault <==> scause == 15,
        cause_of(scause) == TrapCause::SupervisorSoft <==> scause == 0x8000_0000_0000_0001,
        cause_of(scause) == TrapCause::SupervisorTimer <==> scause == 0x8000_0000_0000_0005,
        cause_of(scause) == TrapCause::SupervisorExternal <==> scause == 0x8000_0000_0000_0009,
        cause_of(scause) == TrapCause::Other <==> !(scause == 1 || scause == 3 || scause == 5 || scause == 7
            || scause == 8 || scause == 12 || scause == 13 || scause == 15 || scause == 0x8000_0000_0000_0001
            || scause == 0x8000_0000_0000_0005 || scause == 0x8000_0000_0000_0009),
{
}

/// How a trap with `scause` is handled: for a live thread of a process
/// that was not killed, every exception that touches memory, and only
/// those (the access faults 1, 5, 7 and the page faults 12, 13, 15), is a
/// page fault, exception 3 a breakpoint, exception 8 a system call, and the
/// supervisor software, timer and external interrupts go to their
/// handlers; a dead thread is dropped first and a killed process ends with
/// exit code 1, whatever the cause.
pub proof fn law_memory_faults_handled(scause: u64)
    ensures
        trap_outcome(cause_of(scause), false, false) == TrapAction::PageFault <==> (scause == 1 || scause == 5
            || scause == 7 || scause == 12 || scause == 13 || scause == 15),
        trap_outcome(cause_of(scause), false, false) == TrapAction::Breakpoint <==> scause == 3,
        trap_outcome(cause_of(scause), false, false) == TrapAction::Syscall <==> scause == 8,
        trap_outcome(cause_of(scause), false, false) == TrapAction::Soft <==> scause == 0x8000_0000_0000_0001,
        trap_outcome(cause_of(scause), false, false) == TrapAction::Timer <==> scause == 0x8000_0000_0000_0005,
        trap_outcome(cause_of(scause), false, false) == TrapAction::External <==> scause == 0x8000_0000_0000_0009,
        trap_outcome(cause_of(scause), true, false) == TrapAction::KillDeadThread,
        trap_outcome(cause_of(scause), false, true) == (TrapAction::ExitKilledProcess { code: 1 }),
{
}

/// Decodes the `scause` register.
pub fn trap_cause(scause: u64) -> (c: TrapCause)
    ensures
        c == cause_of(scause),
        scause == 1 ==> c == TrapCause::InstructionFault,
        scause == 5 ==> c == TrapCause::LoadFault,
        scause == 7 ==> c == TrapCause::StoreFault,
        scause == 8 ==> c == TrapCause::UserEnvCall,
        scause == 12 ==> c == TrapCause::InstructionPageFault,
        scause == 13 ==> c == TrapCause::LoadPageFault,
        scause == 15 ==> c == TrapCause::StorePageFault,
{
    let interrupt = scause >= 0x8000_0000_0000_0000;
    let code = if interrupt { scause - 0x8000_0000_0000_0000 } else { scause };
    if !interrupt {
        match code {
            1 => TrapCause::InstructionFault,
            3 => TrapCause::Breakpoint,
            5 => TrapCause::LoadFault,
            7 => TrapCause::StoreFault,
            8 => TrapCause::UserEnvCall,
            12 => TrapCause::InstructionPageFault,
            13 => TrapCause::LoadPageFault,
            15 => TrapCause::StorePageFault,
            _ => TrapCause::Other,
        }
    } else {
        match code {
            1 => TrapCause::SupervisorSoft,
            5 => TrapCause::SupervisorTimer,
            9 => TrapCause::SupervisorExternal,
            _ => TrapCause::Other,
        }
    }
}

/// The handling a trap gets.
#[derive(Clone, Copy, PartialEq, Eq, Structural, Debug)]
pub enum TrapAction {
    /// The interrupted thread had marked itself dead: drop it.
    KillDeadThread,
    /// The interrupted thread's process was killed: it exits with `code`
    /// (always 1) and the thread is dropped.
    ExitKilledProcess { code: i32 },
    Breakpoint,
    Syscall,
    PageFault,
    Timer,
    External,
    Soft,
    /// A trap the kernel cannot handle: the thread is dropped.
    Fault,
}

/// Whether `cause` is an access fault or a page fault.
pub open spec fn is_memory_fault(cause: TrapCause) -> bool {
    matches!(cause, TrapCause::InstructionFault | TrapCause::InstructionPageFault | TrapCause::LoadFault
        | TrapCause::LoadPageFault | TrapCause::StoreFault | TrapCause::StorePageFault)
}

/// The handling of a trap with `cause`: a dead thread is dropped, a killed
/// process ends, and otherwise the cause decides.
pub open spec fn trap_outcome(cause: TrapCause, thread_dead: bool, process_killed: bool) -> TrapAction {
    if thread_dead {
        TrapAction::KillDeadThread
    } else if process_killed {
        TrapAction::ExitKilledProcess { code: 1 }
    } else {
        match cause {
            TrapCause::Breakpoint => TrapAction::Breakpoint,
            TrapCause::UserEnvCall => TrapAction::Syscall,
            TrapCause::SupervisorTimer => TrapAction::Timer,
            TrapCause::SupervisorExternal => TrapAction::External,
            TrapCause::SupervisorSoft => TrapAction::Soft,
            TrapCause::Other => TrapAction::Fault,
            _ => TrapAction::PageFault,
        }
    }
}

/// Killing another process: `kill(pid)` for a live process other than the
/// caller returns 0 and marks it (`KillAction::Mark`, which sets its killed
/// flag); the next trap of any of its live threads then ends the process
/// with exit code 1, whatever the trap's cause. For a pid with no live
/// process it returns -1, and a process that kills itself ends at once, with
/// exit code 1.
pub proof fn law_kill_ends_target(current_pid: u64, kill_pid: u64, cause: TrapCause)
    requires
        current_pid != kill_pid,
    ensures
        kill_outcome(current_pid, kill_pid, true) == (KillAction::Mark, SyscallResult::Proceed(0i64)),
        trap_outcome(cause, false, kill_outcome(current_pid, kill_pid, true).0 == KillAction::Mark)
            == (TrapAction::ExitKilledProcess { code: 1 }),
        kill_outcome(current_pid, kill_pid, false) == (KillAction::NotFound, SyscallResult::Proceed(-1i64)),
        kill_outcome(current_pid, current_pid, true) == (KillAction::ExitSelf { code: 1 }, SyscallResult::Kill),
        kill_outcome(current_pid, current_pid, false) == (KillAction::ExitSelf { code: 1 }, SyscallResult::Kill),
{
}

/// The handling of a trap with `cause` taken by a thread that is marked
/// dead when `thread_dead` holds, in a process that was killed when
/// `process_killed` holds. A dead thread is dropped first, then a killed
/// process ends; only otherwise does the cause decide.
pub fn trap_action(cause: TrapCause, thread_dead: bool, process_killed: bool) -> (a: TrapAction)
    ensures
        a == trap_outcome(cause, thread_dead, process_killed),
        !thread_dead && !process_killed && is_memory_fault(cause) ==> a == TrapAction::PageFault,
{
    if thread_dead {
        return TrapAction::KillDeadThread;
    }
    if process_killed {
        return TrapAction::ExitKilledProcess { code: 1 };
    }
    match cause {
        TrapCause::Breakpoint => TrapAction::Breakpoint,
        TrapCause::UserEnvCall => TrapAction::Syscall,
        TrapCause::InstructionFault | TrapCause::InstructionPageFault | TrapCause::LoadFault
        | TrapCause::LoadPageFault | TrapCause::StoreFault | TrapCause::StorePageFault => TrapAction::PageFault,
        TrapCause::SupervisorTimer => TrapAction::Timer,
        TrapCause::SupervisorExternal => TrapAction::External,
        TrapCause::SupervisorSoft => TrapAction::Soft,
        TrapCause::Other => TrapAction::Fault,
    }
}

/// An `ebreak`: the thread goes on after the instruction, 2 bytes on.
pub fn breakpoint(context: &mut Context)
    requires
        old(context).sepc <= u64::MAX - 2,
    ensures
        final(context).sepc == old(context).sepc + 2,
        final(context).x@ == old(context).x@,
        final(context).sstatus == old(context).sstatus,
{
    context.sepc = context.sepc + 2;
}

/// Exit code of a user process that takes a page fault.
pub const SEGMENTATION_FAULT_CODE: i32 = 2;

/// What a page fault leads to.
#[derive(Clone, Copy, PartialEq, Eq, Structural, Debug)]
pub enum PageFaultAction {
    /// The kernel itself faulted; it cannot go on.
    KernelPanic,
    /// The user process exits with this code and the thread is dropped.
    ExitProcess { code: i32 },
}

/// The handling of a page fault taken in `context`: a fault from
/// supervisor mode (the previous privilege in `sstatus`) stops the kernel;
/// a user process exits with `SEGMENTATION_FAULT_CODE`.
pub fn page_fault(context: &Context) -> (r: PageFaultAction)
    ensures
        context.sstatus & SSTATUS_SPP != 0 ==> r == PageFaultAction::KernelPanic,
        context.sstatus & SSTATUS_SPP == 0 ==> r == (PageFaultAction::ExitProcess { code: SEGMENTATION_FAULT_CODE }),
{
    if context.sstatus & SSTATUS_SPP != 0 {
        PageFaultAction::KernelPanic
    } else {
        PageFaultAction::ExitProcess { code: SEGMENTATION_FAULT_CODE }
    }
}

/// The byte that a value `c` read from the console at an external interrupt
/// puts into standard input: values up to 255 are bytes, a carriage return
/// becoming a line feed; a larger value means that no character was
/// waiting and puts nothing.
pub fn console_input(c: u64) -> (r: Option<u8>)
    ensures
        c > 255 ==> r is None,
        c == 13 ==> r == Some(10u8),
        c <= 255 && c != 13 ==> r == Some(c as u8),
{
    if c <= 255 {
        if c == 13 {
            Some(10u8)
        } else {
            Some(c as u8)
        }
    } else {
        None
    }
}

/// The timer interrupt on a hart running a thread: wakes the threads whose
/// sleep expired before `now`, switches to the next ready thread (or the
/// idle thread when none is), queues the interrupted thread to run again
/// unless it is the idle thread, and counts the tick. The result holds the
/// interrupted thread, whose context is to be saved, the switch, and
/// whether the tick is one to report.
pub fn supervisor_timer(
    processor: &mut Processor,
    pool: &mut ThreadPool,
    triggers: &mut Vec<SleepTrigger>,
    now: u64,
    ticks: &mut u64,
) -> (r: (ThreadID, Switch, bool))
    requires
        old(processor).current() is Some,
        *old(ticks) < u64::MAX,
    ensures
        ({
            let prev = old(processor).current().unwrap();
            let idle = old(processor).idle();
            let q = old(pool).ready() + woken(old(triggers)@, now);
            let requeued = if prev != idle { seq![prev] } else { Seq::<ThreadID>::empty() };
            &&& r.0 == prev
            &&& final(triggers)@ == pending(old(triggers)@, now)
            &&& final(pool).sleeping() == old(pool).sleeping().difference(woken(old(triggers)@, now).to_set())
            &&& final(processor).idle() == idle
            &&& final(processor).current() == Some(r.1.next)
            &&& q.len() > 0 ==> {
                &&& r.1.next == q[0]
                &&& r.1.scheduled
                &&& r.1.previous == Some(prev)
                &&& final(pool).ready() == q.drop_first() + requeued
            }
            &&& q.len() == 0 ==> {
                &&& r.1.next == idle
                &&& !r.1.scheduled
                &&& r.1.previous is None
                &&& final(pool).ready() == requeued
            }
            &&& r.2 == ((*old(ticks) + 1) % 100 == 0)
            &&& *final(ticks) == if r.2 { 0 } else { (*old(ticks) + 1) as u64 }
        }),
{
    handle_sleep_trigger(triggers, pool, now);
    let switched = processor.park_current_thread();
    let ghost q = pool.ready();
    let s = processor.prepare_next_thread(pool);
    let ghost mid = pool.ready();
    processor.run_thread_later(pool, switched);
    proof {
        if switched != processor.idle() {
            assert(pool.ready() =~= mid + seq![switched]);
        } else {
            assert(pool.ready() =~= mid + Seq::<ThreadID>::empty());
        }
        if q.len() == 0 {
            assert(mid =~= Seq::<ThreadID>::empty());
        }
    }
    let report = tick(ticks);
    (switched, s, report)
}

/// `r` is `s` without the first occurrence of `t`, or `s` itself when `t`
/// does not occur in it.
pub open spec fn removed_first(s: Seq<ThreadID>, t: ThreadID, r: Seq<ThreadID>) -> bool {
    ||| !s.contains(t) && r == s
    ||| exists|i: int| 0 <= i < s.len() && s[i] == t && (forall|j: int| 0 <= j < i ==> s[j] != t) && r == s.remove(i)
}

/// The thread switch that ends a system call, as the call's `resume` says:
/// none when the caller goes on; otherwise the next ready thread (or the
/// idle thread when none is) runs. A yielding caller is queued again behind
/// the other ready threads once the next one is chosen; a killed caller
/// leaves the scheduler first.
pub fn switch_after_syscall(processor: &mut Processor, pool: &mut ThreadPool, resume: Resume) -> (r: Option<Switch>)
    requires
        old(processor).current() is Some,
    ensures
        final(pool).sleeping() == old(pool).sleeping(),
        final(processor).idle() == old(processor).idle(),
        resume == Resume::Caller <==> r is None,
        resume == Resume::Caller ==> final(processor).current() == old(processor).current()
            && final(pool).ready() == old(pool).ready(),
        r is Some ==> final(processor).current() == Some(r->0.next),
        ({
            let prev = old(processor).current().unwrap();
            let idle = old(processor).idle();
            let q = old(pool).ready();
            &&& (resume == Resume::Park || resume == Resume::Yield) ==> {
                let requeued = if resume == Resume::Yield { seq![prev] } else { Seq::<ThreadID>::empty() };
                &&& q.len() > 0 ==> r->0.next == q[0] && r->0.scheduled && r->0.previous == Some(prev)
                    && final(pool).ready() == q.drop_first() + requeued
                &&& q.len() == 0 ==> r->0.next == idle && !r->0.scheduled && r->0.previous is None
                    && final(pool).ready() == requeued
            }
            &&& resume == Resume::Kill ==> exists|mid: Seq<ThreadID>| #[trigger] removed_first(q, prev, mid) && {
                &&& mid.len() > 0 ==> r->0.next == mid[0] && r->0.scheduled && r->0.previous is None
                    && final(pool).ready() == mid.drop_first()
                &&& mid.len() == 0 ==> r->0.next == idle && !r->0.scheduled && r->0.previous is None
                    && final(pool).ready() == mid
            }
        }),
{
    match resume {
        Resume::Caller => None,
        Resume::Park => Some(processor.prepare_next_thread(pool)),
        Resume::Yield => {
            let yielded = processor.park_current_thread();
            let s = processor.prepare_next_thread(pool);
            let ghost mid = pool.ready();
            pool.add_thread(yielded);
            proof {
                assert(pool.ready() =~= mid + seq![yielded]);
            }
            Some(s)
        },
        Resume::Kill => {
            let ghost q = pool.ready();
            let ghost prev = processor.current().unwrap();
            processor.kill_current_thread(pool);
            let ghost mid = pool.ready();
            let s = processor.prepare_next_thread(pool);
            proof {
                assert(removed_first(q, prev, mid));
            }
            Some(s)
        },
    }
}

/// Size in bytes of a saved context: 32 registers, `sstatus` and `sepc`,
/// 8 bytes each.
pub const CONTEXT_SIZE: u64 = 272;

/// A hart's trap stack, 16-byte aligned where it is placed.
pub struct TrapStack(pub [u8; 0x8000]);

impl TrapStack {
    /// Where a context pushed on the trap stack whose lowest address is
    /// `bottom` goes: the last `CONTEXT_SIZE` bytes below the stack's top.
    /// The result is also the new stack top.
    pub fn push_context(bottom: u64) -> (addr: u64)
        requires
            bottom <= u64::MAX - TRAP_STACK_SIZE,
        ensures
            addr == bottom + TRAP_STACK_SIZE - CONTEXT_SIZE,
            bottom <= addr,
            addr + CONTEXT_SIZE == bottom + TRAP_STACK_SIZE,
    {
        let stack_top = bottom + TRAP_STACK_SIZE;
        stack_top - CONTEXT_SIZE
    }
}

/// What starting a thread takes: the context it resumes from, the address
/// on the trap stack that context goes to, and the `satp` value that
/// switches to its process's address space.
#[derive(Clone, Copy, Debug)]
pub struct ThreadStart {
    pub context: Context,
    pub context_addr: u64,
    pub satp: u64,
}

/// Starts `thread` of `process` on the hart whose trap stack's lowest
/// address is `trap_stack_bottom`: the thread gives up its saved context,
/// which goes to the top of the trap stack, and the process's address space
/// becomes the active one.
pub fn start_thread(thread: &mut Thread, process: &Process, trap_stack_bottom: u64) -> (s: ThreadStart)
    requires
        old(thread).inner.context is Some,
        old(thread).process == process.pid,
        process.inner.memory_set.mapping.wf(),
        trap_stack_bottom <= u64::MAX - TRAP_STACK_SIZE,
    ensures
        s.context == old(thread).inner.context.unwrap(),
        s.context_addr == trap_stack_bottom + TRAP_STACK_SIZE - CONTEXT_SIZE,
        s.satp == process.inner.memory_set.mapping.root() | 0x8000_0000_0000_0000u64,
        final(thread).inner.context is None,
        final(thread).id == old(thread).id,
        final(thread).stack == old(thread).stack,
        final(thread).process == old(thread).process,
        final(thread).inner.sleeping == old(thread).inner.sleeping,
        final(thread).inner.dead == old(thread).inner.dead,
{
    let satp = process.inner.memory_set.activate();
    let context_addr = TrapStack::push_context(trap_stack_bottom);
    let context = thread.retrieve_context();
    ThreadStart { context, context_addr, satp }
}

} // verus!

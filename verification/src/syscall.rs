//! System calls: what a trap asks for, the kernel's decisions, and how the
//! answer goes back into the caller's registers.

use vstd::prelude::*;
use crate::context::{Context, REG_A0, REG_A7, REG_SP};
use crate::elf::{elf_header_valid, entry_reading, ElfHeader};

verus! {

pub const SYS_READ: u64 = 63;
pub const SYS_WRITE: u64 = 64;
pub const SYS_EXIT: u64 = 93;
pub const SYS_SLEEP: u64 = 101;
pub const SYS_YIELD: u64 = 124;
pub const SYS_KILL: u64 = 129;
pub const SYS_GETTIME: u64 = 169;
pub const SYS_GETPID: u64 = 172;
pub const SYS_FORK: u64 = 220;
pub const SYS_EXEC: u64 = 221;
pub const SYS_WAIT: u64 = 260;

/// Timer ticks between two timer interrupts; one interrupt is 10 ms.
pub const ONE_TICK: u64 = 100000;

/// A system call, decoded from a trap context.
#[derive(Clone, Copy, PartialEq, Eq, Structural, Debug)]
pub enum Syscall {
    Read { fd: u64, buffer: u64, len: u64 },
    Write { fd: u64, buffer: u64, len: u64 },
    Exit { code: i32 },
    Sleep { ticks: u64 },
    Yield,
    Kill { pid: u64 },
    GetTime,
    GetPid,
    Fork,
    Exec { path: u64 },
    Wait { pid: u64, xstate: u64 },
    Unknown { id: u64 },
}

/// The low 32 bits of `x`, read as a signed number.
pub open spec fn as_i32(x: u64) -> i32 {
    x as i32
}

/// The call that registers `id` (a7) and `a0`, `a1`, `a2` ask for.
pub open spec fn decoded(id: u64, a0: u64, a1: u64, a2: u64) -> Syscall {
    if id == SYS_READ {
        Syscall::Read { fd: a0, buffer: a1, len: a2 }
    } else if id == SYS_WRITE {
        Syscall::Write { fd: a0, buffer: a1, len: a2 }
    } else if id == SYS_EXIT {
        Syscall::Exit { code: as_i32(a0) }
    } else if id == SYS_SLEEP {
        Syscall::Sleep { ticks: a0 }
    } else if id == SYS_YIELD {
        Syscall::Yield
    } else if id == SYS_KILL {
        Syscall::Kill { pid: a0 }
    } else if id == SYS_GETTIME {
        Syscall::GetTime
    } else if id == SYS_GETPID {
        Syscall::GetPid
    } else if id == SYS_FORK {
        Syscall::Fork
    } else if id == SYS_EXEC {
        Syscall::Exec { path: a0 }
    } else if id == SYS_WAIT {
        Syscall::Wait { pid: a0, xstate: a1 }
    } else {
        Syscall::Unknown { id }
    }
}

/// The call the trapped thread asks for: its number in a7, its arguments in
/// a0, a1 and a2.
pub fn decode_syscall(context: &Context) -> (s: Syscall)
    ensures
        s == decoded(context.x@[REG_A7 as int], context.x@[REG_A0 as int], context.x@[REG_A0 + 1],
            context.x@[REG_A0 + 2]),
{
    let syscall_id = context.x[REG_A7];
    let a0 = context.x[REG_A0];
    let a1 = context.x[REG_A0 + 1];
    let a2 = context.x[REG_A0 + 2];
    if syscall_id == SYS_READ {
        Syscall::Read { fd: a0, buffer: a1, len: a2 }
    } else if syscall_id == SYS_WRITE {
        Syscall::Write { fd: a0, buffer: a1, len: a2 }
    } else if syscall_id == SYS_EXIT {
        Syscall::Exit { code: a0 as i32 }
    } else if syscall_id == SYS_SLEEP {
        Syscall::Sleep { ticks: a0 }
    } else if syscall_id == SYS_YIELD {
        Syscall::Yield
    } else if syscall_id == SYS_KILL {
        Syscall::Kill { pid: a0 }
    } else if syscall_id == SYS_GETTIME {
        Syscall::GetTime
    } else if syscall_id == SYS_GETPID {
        Syscall::GetPid
    } else if syscall_id == SYS_FORK {
        Syscall::Fork
    } else if syscall_id == SYS_EXEC {
        Syscall::Exec { path: a0 }
    } else if syscall_id == SYS_WAIT {
        Syscall::Wait { pid: a0, xstate: a1 }
    } else {
        Syscall::Unknown { id: syscall_id }
    }
}

/// What a system call returns to the kernel's trap handler.
#[derive(Clone, Copy, PartialEq, Eq, Structural, Debug)]
pub enum SyscallResult {
    /// Go on with the caller, with this return value.
    Proceed(i64),
    /// Go on with the caller's new program, whose context is already set.
    Exec,
    /// Let another thread run; the caller runs again later.
    Yield,
    /// Save the caller and run another thread; the caller waits.
    Park,
    /// Drop the caller and run another thread.
    Kill,
}

/// What the trap handler does once the call is handled.
#[derive(Clone, Copy, PartialEq, Eq, Structural, Debug)]
pub enum Resume {
    /// Return to the caller.
    Caller,
    /// Park the caller and switch threads.
    Park,
    /// Park the caller, switch threads, and queue the caller again.
    Yield,
    /// Kill the caller and switch threads.
    Kill,
}

/// Puts the call's result in the caller's registers and says how the trap
/// ends. A call that proceeds resumes after the `ecall` instruction (4 bytes
/// on) with its return value in a0.
pub fn syscall_return(context: &mut Context, result: SyscallResult) -> (r: Resume)
    requires
        result is Proceed ==> old(context).sepc <= u64::MAX - 4,
    ensures
        match result {
            SyscallResult::Proceed(ret) => {
                &&& r == Resume::Caller
                &&& final(context).sepc == old(context).sepc + 4
                &&& final(context).x@ == old(context).x@.update(REG_A0 as int, ret as u64)
                &&& final(context).sstatus == old(context).sstatus
            },
            SyscallResult::Exec => r == Resume::Caller && *final(context) == *old(context),
            SyscallResult::Park => r == Resume::Park && *final(context) == *old(context),
            SyscallResult::Yield => r == Resume::Yield && *final(context) == *old(context),
            SyscallResult::Kill => r == Resume::Kill && *final(context) == *old(context),
        },
{
    match result {
        SyscallResult::Proceed(ret) => {
            context.sepc = context.sepc + 4;
            context.x[REG_A0] = ret as u64;
            Resume::Caller
        },
        SyscallResult::Exec => Resume::Caller,
        SyscallResult::Park => Resume::Park,
        SyscallResult::Yield => Resume::Yield,
        SyscallResult::Kill => Resume::Kill,
    }
}

/// Resumes the caller after the `ecall` with 0 in a0, as `sleep` and `yield` do.
fn skip_ecall(context: &mut Context)
    requires
        old(context).sepc <= u64::MAX - 4,
    ensures
        final(context).sepc == old(context).sepc + 4,
        final(context).x@ == old(context).x@.update(REG_A0 as int, 0),
        final(context).sstatus == old(context).sstatus,
{
    context.sepc = context.sepc + 4;
    context.x[REG_A0] = 0;
}

/// `exit`: the process ends with `code` and the caller is dropped.
pub fn sys_exit(_code: i32) -> (r: SyscallResult)
    ensures
        r == SyscallResult::Kill,
{
    SyscallResult::Kill
}

/// `sleep`: the caller waits `ticks` timer interrupts from `now`; the result
/// is the time it wakes at. It resumes later after the `ecall` with 0.
pub fn sys_sleep(ticks: u64, now: u64, context: &mut Context) -> (r: (SyscallResult, u64))
    requires
        now + ticks * ONE_TICK <= u64::MAX,
        old(context).sepc <= u64::MAX - 4,
    ensures
        r.0 == SyscallResult::Park,
        r.1 == now + ticks * ONE_TICK,
        final(context).sepc == old(context).sepc + 4,
        final(context).x@ == old(context).x@.update(REG_A0 as int, 0),
        final(context).sstatus == old(context).sstatus,
{
    let expire = now + ticks * ONE_TICK;
    skip_ecall(context);
    (SyscallResult::Park, expire)
}

/// `yield`: the caller lets others run and resumes later after the `ecall` with 0.
pub fn sys_yield(context: &mut Context) -> (r: SyscallResult)
    requires
        old(context).sepc <= u64::MAX - 4,
    ensures
        r == SyscallResult::Yield,
        final(context).sepc == old(context).sepc + 4,
        final(context).x@ == old(context).x@.update(REG_A0 as int, 0),
        final(context).sstatus == old(context).sstatus,
{
    skip_ecall(context);
    SyscallResult::Yield
}

/// What `kill` does.
#[derive(Clone, Copy, PartialEq, Eq, Structural, Debug)]
pub enum KillAction {
    /// The caller kills its own process: it exits with `code` (always 1).
    ExitSelf { code: i32 },
    /// Mark the live process `kill_pid` as killed; the call returns 0.
    Mark,
    /// No such process; the call returns -1.
    NotFound,
}

/// `kill`: the caller `current_pid` asks to kill `kill_pid`, which is a live

/// What `kill(kill_pid)` from process `current_pid` does: the caller ends
/// itself, or the live target is marked and the call returns 0, or there is
/// no such live process and it returns -1.
pub open spec fn kill_outcome(current_pid: u64, kill_pid: u64, target_alive: bool) -> (KillAction, SyscallResult) {
    if current_pid == kill_pid {
        (KillAction::ExitSelf { code: 1 }, SyscallResult::Kill)
    } else if target_alive {
        (KillAction::Mark, SyscallResult::Proceed(0i64))
    } else {
        (KillAction::NotFound, SyscallResult::Proceed(-1i64))
    }
}

/// process when `target_alive` holds.
pub fn sys_kill(current_pid: u64, kill_pid: u64, target_alive: bool) -> (r: (KillAction, SyscallResult))
    ensures
        r == kill_outcome(current_pid, kill_pid, target_alive),
{
    if current_pid == kill_pid {
        return (KillAction::ExitSelf { code: 1 }, sys_exit(1));
    }
    if target_alive {
        (KillAction::Mark, SyscallResult::Proceed(0))
    } else {
        (KillAction::NotFound, SyscallResult::Proceed(-1))
    }
}

/// `get_time`: the time `now` in milliseconds, one tick interval being 10 ms.
pub fn sys_get_time_msec(now: u64) -> (r: SyscallResult)
    requires
        now * 10 <= u64::MAX,
    ensures
        r == SyscallResult::Proceed(((now * 10) as u64 / ONE_TICK) as i64),
{
    let ms = now * 10 / ONE_TICK;
    SyscallResult::Proceed(ms as i64)
}

/// Time never runs backwards through `get_time`: for timer readings
/// `now1 <= now2`, the milliseconds returned for `now1` are at most those
/// returned for `now2`.
pub proof fn law_get_time_monotone(now1: u64, now2: u64)
    requires
        now1 <= now2,
        now2 * 10 <= u64::MAX,
    ensures
        ((now1 * 10) as u64 / ONE_TICK) as i64 <= ((now2 * 10) as u64 / ONE_TICK) as i64,
{
    vstd::arithmetic::div_mod::lemma_div_is_ordered(now1 * 10, now2 * 10, ONE_TICK as int);
}

/// `getpid`: the caller's process id.
pub fn sys_getpid(pid: u64) -> (r: SyscallResult)
    requires
        pid <= i64::MAX,
    ensures
        r == SyscallResult::Proceed(pid as i64),
{
    SyscallResult::Proceed(pid as i64)
}

/// `fork`: the child's first context is the caller's, resuming after the
/// `ecall` with 0 in a0; the caller gets the child's process id.
pub fn sys_fork(context: Context, child_pid: u64) -> (r: (SyscallResult, Context))
    requires
        context.sepc <= u64::MAX - 4,
        child_pid <= i64::MAX,
    ensures
        r.0 == SyscallResult::Proceed(child_pid as i64),
        r.1.sepc == context.sepc + 4,
        r.1.x@ == context.x@.update(REG_A0 as int, 0),
        r.1.sstatus == context.sstatus,
{
    let mut child = context;
    let zero: [u64; 1] = [0];
    child.set_arguments(&zero);
    child.sepc = child.sepc + 4;
    proof {
        assert(child.x@ =~= context.x@.update(REG_A0 as int, 0));
    }
    (SyscallResult::Proceed(child_pid as i64), child)
}

/// The entry point of the program in `data`, or nothing when it is not an
/// ELF file the kernel can load. The ELF reader reads the header in the
/// machine's byte order, so the entry point is stated for one byte order.
pub fn load_entry_point(data: &[u8]) -> (r: Option<u64>)
    ensures
        data@.len() < 64 ==> r is None,
        data@.len() >= 64 ==> (r is Some <==> elf_header_valid(data@)),
        r is Some ==> exists|little: bool| r->0 as nat == #[trigger] entry_reading(data@, little),
{
    match ElfHeader::parse(data) {
        Some(h) => Some(h.entry()),
        None => None,
    }
}

/// `exec`: the caller restarts in the new program at `entry`, on the stack
/// whose top is `stack_top`, with every other general register zero; its
/// `sstatus` stays.
pub fn sys_exec(context: &mut Context, entry: u64, stack_top: u64) -> (r: SyscallResult)
    ensures
        r == SyscallResult::Exec,
        final(context).sepc == entry,
        final(context).x@[REG_SP as int] == stack_top,
        forall|i: int| 0 <= i < 32 && i != REG_SP ==> #[trigger] final(context).x@[i] == 0,
        final(context).sstatus == old(context).sstatus,
{
    let mut i: usize = 0;
    while i < 32
        invariant
            i <= 32,
            forall|j: int| 0 <= j < i ==> #[trigger] context.x@[j] == 0,
            context.sstatus == old(context).sstatus,
        decreases 32 - i,
    {
        context.x[i] = 0;
        i = i + 1;
    }
    context.sepc = entry;
    context.set_sp(stack_top);
    SyscallResult::Exec
}

/// What the kernel knows of a child process when its parent waits.
#[derive(Clone, Copy, PartialEq, Eq, Structural, Debug)]
pub struct ChildStatus {
    pub pid: u64,
    pub exited: bool,
    pub xstate: i32,
}

/// What `wait` does.
#[derive(Clone, Copy, PartialEq, Eq, Structural, Debug)]
pub enum WaitAction {
    /// The call fails with -1.
    Fail,
    /// The child at this position exited: store its exit code at the caller's
    /// address (when it is not null), drop the child, and return its pid.
    Reap { index: usize, pid: u64, xstate: i32 },
    /// No matching child has exited yet: the caller waits.
    Block,
}

/// Whether `child` is one that `wait(waitpid, ..)` waits for.
pub open spec fn wanted(waitpid: u64, child: ChildStatus) -> bool {
    waitpid == 0 || waitpid == child.pid
}

/// What `wait(waitpid, xstate)` answers for the caller's `children`: it
/// fails when there is no child to wait for or the exit code cannot be
/// stored, reaps the first matching child that has exited, and otherwise
/// blocks.
pub open spec fn wait_outcome(waitpid: u64, xstate: u64, xstate_flags: Option<u8>, ch: Seq<ChildStatus>, r: WaitAction) -> bool {
    let bad_target = ch.len() == 0 || (waitpid != 0 && !(exists|i: int| 0 <= i < ch.len() && ch[i].pid == waitpid));
    let bad_buffer = xstate != 0 && match xstate_flags {
        None => true,
        Some(f) => f & 0x15 != 0x15,
    };
    &&& bad_target || bad_buffer ==> r == WaitAction::Fail
    &&& !(bad_target || bad_buffer) ==> match r {
        WaitAction::Reap { index, pid, xstate: code } => {
            &&& 0 <= index < ch.len()
            &&& ch[index as int].exited && wanted(waitpid, ch[index as int])
            &&& forall|j: int| 0 <= j < index ==> !(ch[j].exited && wanted(waitpid, ch[j]))
            &&& pid == ch[index as int].pid
            &&& code == ch[index as int].xstate
        },
        WaitAction::Block => forall|j: int| 0 <= j < ch.len() ==> !(ch[j].exited && wanted(waitpid, ch[j])),
        WaitAction::Fail => false,
    }
}

/// What `wait` returns for `action`.
pub open spec fn wait_answer_spec(action: WaitAction) -> SyscallResult {
    match action {
        WaitAction::Fail => SyscallResult::Proceed(-1i64),
        WaitAction::Reap { pid, .. } => SyscallResult::Proceed(pid as i64),
        WaitAction::Block => SyscallResult::Park,
    }
}

/// What `wait` returns to the caller: -1 when it fails, the reaped child's
/// pid, or nothing yet (the caller waits).
pub fn wait_answer(action: WaitAction) -> (r: SyscallResult)
    ensures
        r == wait_answer_spec(action),
{
    match action {
        WaitAction::Fail => SyscallResult::Proceed(-1),
        WaitAction::Reap { pid, .. } => SyscallResult::Proceed(pid as i64),
        WaitAction::Block => SyscallResult::Park,
    }
}

/// Waiting for a child that has exited: `waitpid(pid, ..)`, with no place
/// for the code or a writable one, for the caller's only child with that
/// pid, once it has exited with `code`, reaps it and gives back `code`; once
/// that child is dropped from the list, a second `waitpid(pid, ..)` fails.
pub proof fn law_wait_reaps_exited_child(
    pid: u64,
    xstate: u64,
    flags: Option<u8>,
    ch: Seq<ChildStatus>,
    k: int,
    code: i32,
    r: WaitAction,
    again: WaitAction,
)
    requires
        pid != 0,
        xstate == 0 || (flags matches Some(f) && f & 0x15 == 0x15),
        0 <= k < ch.len(),
        ch[k] == (ChildStatus { pid, exited: true, xstate: code }),
        forall|j: int| 0 <= j < ch.len() && j != k ==> #[trigger] ch[j].pid != pid,
        wait_outcome(pid, xstate, flags, ch, r),
        wait_outcome(pid, xstate, flags, ch.remove(k), again),
    ensures
        r == (WaitAction::Reap { index: k as usize, pid, xstate: code }),
        again == WaitAction::Fail,
{
    assert(ch[k].pid == pid);
    let rest = ch.remove(k);
    assert forall|i: int| 0 <= i < rest.len() implies #[trigger] rest[i].pid != pid by {
        if i < k {
            assert(rest[i] == ch[i]);
        } else {
            assert(rest[i] == ch[i + 1]);
        }
    }
}

/// `wait`: the caller waits for child `waitpid`, or any child when it is 0,
/// and stores the exit code at `xstate` unless that is null. `xstate_flags`
/// are the page-table flags of the page holding `xstate`, if it is mapped;
/// the page must be valid, writable and accessible from user mode.
pub fn sys_wait(waitpid: u64, xstate: u64, xstate_flags: Option<u8>, children: &Vec<ChildStatus>) -> (r: WaitAction)
    ensures
        wait_outcome(waitpid, xstate, xstate_flags, children@, r),
{
    if children.len() == 0 {
        return WaitAction::Fail;
    }
    if waitpid != 0 {
        let mut found = false;
        let mut i: usize = 0;
        while i < children.len()
            invariant
                i <= children@.len(),
                found <==> exists|j: int| 0 <= j < i && children@[j].pid == waitpid,
            decreases children@.len() - i,
        {
            if children[i].pid == waitpid {
                found = true;
            }
            i = i + 1;
        }
        if !found {
            return WaitAction::Fail;
        }
    }
    if xstate != 0 {
        match xstate_flags {
            Some(flags) => {
                let expected: u8 = 0x15;
                if flags & expected != expected {
                    return WaitAction::Fail;
                }
            },
            None => {
                return WaitAction::Fail;
            },
        }
    }
    let mut i: usize = 0;
    while i < children.len()
        invariant
            i <= children@.len(),
            children@.len() > 0,
            waitpid != 0 ==> exists|j: int| 0 <= j < children@.len() && children@[j].pid == waitpid,
            xstate != 0 ==> xstate_flags is Some && xstate_flags.unwrap() & 0x15 == 0x15,
            forall|j: int| 0 <= j < i ==> !(children@[j].exited && wanted(waitpid, children@[j])),
        decreases children@.len() - i,
    {
        let c = children[i];
        if c.exited && (waitpid == 0 || waitpid == c.pid) {
            return WaitAction::Reap { index: i, pid: c.pid, xstate: c.xstate };
        }
        i = i + 1;
    }
    WaitAction::Block
}

} // verus!

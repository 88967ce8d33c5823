//! The user library's system-call wrappers: the registers each call loads
//! before `ecall`.

use vstd::prelude::*;
use crate::syscall::{
    decoded, Syscall, SYS_EXEC, SYS_EXIT, SYS_FORK, SYS_GETPID, SYS_GETTIME, SYS_KILL, SYS_READ,
    SYS_SLEEP, SYS_WAIT, SYS_WRITE,
};

verus! {

/// A system call as the caller issues it: its number (for a7) and three
/// arguments (for a0, a1, a2).
#[derive(Clone, Copy, PartialEq, Eq, Structural, Debug)]
pub struct SyscallArgs {
    pub id: u64,
    pub a0: u64,
    pub a1: u64,
    pub a2: u64,
}

impl SyscallArgs {
    /// The call the kernel sees when these registers reach it.
    pub open spec fn request(self) -> Syscall {
        decoded(self.id, self.a0, self.a1, self.a2)
    }
}

fn syscall(id: u64, a0: u64, a1: u64, a2: u64) -> (r: SyscallArgs)
    ensures
        r.id == id,
        r.a0 == a0,
        r.a1 == a1,
        r.a2 == a2,
{
    SyscallArgs { id, a0, a1, a2 }
}

/// Read up to `len` bytes from `fd` into the buffer at `buffer`.
pub fn read(fd: u64, buffer: u64, len: u64) -> (r: SyscallArgs)
    ensures
        r.request() == (Syscall::Read { fd, buffer, len }),
{
    syscall(SYS_READ, fd, buffer, len)
}

/// Write the `len` bytes at `buffer` to `fd`.
pub fn write(fd: u64, buffer: u64, len: u64) -> (r: SyscallArgs)
    ensures
        r.request() == (Syscall::Write { fd, buffer, len }),
{
    syscall(SYS_WRITE, fd, buffer, len)
}

/// End the process with `code`.
pub fn exit(code: i32) -> (r: SyscallArgs)
    ensures
        r.request() == (Syscall::Exit { code }),
{
    let a0 = code as u64;
    proof {
        assert((a0 as i32) == code) by (bit_vector)
            requires a0 == code as u64;
    }
    syscall(SYS_EXIT, a0, 0, 0)
}

/// Sleep for `ticks` timer interrupts.
pub fn sleep(ticks: u64) -> (r: SyscallArgs)
    ensures
        r.request() == (Syscall::Sleep { ticks }),
{
    syscall(SYS_SLEEP, ticks, 0, 0)
}

/// Kill process `pid`.
pub fn kill(pid: u64) -> (r: SyscallArgs)
    ensures
        r.request() == (Syscall::Kill { pid }),
{
    syscall(SYS_KILL, pid, 0, 0)
}

/// The time in milliseconds.
pub fn get_time() -> (r: SyscallArgs)
    ensures
        r.request() == Syscall::GetTime,
{
    syscall(SYS_GETTIME, 0, 0, 0)
}

/// The caller's process id.
pub fn getpid() -> (r: SyscallArgs)
    ensures
        r.request() == Syscall::GetPid,
{
    syscall(SYS_GETPID, 0, 0, 0)
}

/// Fork the process.
pub fn fork() -> (r: SyscallArgs)
    ensures
        r.request() == Syscall::Fork,
{
    syscall(SYS_FORK, 0, 0, 0)
}

/// Run the program whose null-terminated name is at `name`.
pub fn exec(name: u64) -> (r: SyscallArgs)
    ensures
        r.request() == (Syscall::Exec { path: name }),
{
    syscall(SYS_EXEC, name, 0, 0)
}

/// Wait for any child, storing its exit code at `xstate`.
pub fn wait(xstate: u64) -> (r: SyscallArgs)
    ensures
        r.request() == (Syscall::Wait { pid: 0, xstate }),
{
    syscall(SYS_WAIT, 0, xstate, 0)
}

/// Wait for child `pid`, storing its exit code at `xstate`.
pub fn waitpid(pid: u64, xstate: u64) -> (r: SyscallArgs)
    ensures
        r.request() == (Syscall::Wait { pid, xstate }),
{
    syscall(SYS_WAIT, pid, xstate, 0)
}

} // verus!

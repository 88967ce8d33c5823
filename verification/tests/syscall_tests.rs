use rcore_kernel::context::{Context, REG_A0, REG_A7, REG_SP};
use rcore_kernel::syscall::{
    decode_syscall, load_entry_point, sys_exec, sys_exit, sys_fork, sys_get_time_msec, sys_getpid, sys_kill,
    sys_sleep, sys_wait, sys_yield, syscall_return, ChildStatus, KillAction, Resume, Syscall, SyscallResult,
    WaitAction, ONE_TICK, SYS_EXIT, SYS_WRITE,
};
use rcore_kernel::user;

fn context_for(args: user::SyscallArgs) -> Context {
    let mut c = Context::default();
    c.x[REG_A7] = args.id;
    c.x[REG_A0] = args.a0;
    c.x[REG_A0 + 1] = args.a1;
    c.x[REG_A0 + 2] = args.a2;
    c
}

#[test]
fn decode_write() {
    let mut c = Context::default();
    c.x[REG_A7] = SYS_WRITE;
    c.x[REG_A0] = 1;
    c.x[REG_A0 + 1] = 0x1000;
    c.x[REG_A0 + 2] = 12;
    assert_eq!(decode_syscall(&c), Syscall::Write { fd: 1, buffer: 0x1000, len: 12 });
}

#[test]
fn decode_exit_negative_code() {
    let mut c = Context::default();
    c.x[REG_A7] = SYS_EXIT;
    c.x[REG_A0] = (-3i64) as u64;
    assert_eq!(decode_syscall(&c), Syscall::Exit { code: -3 });
}

#[test]
fn decode_unknown() {
    let mut c = Context::default();
    c.x[REG_A7] = 9999;
    assert_eq!(decode_syscall(&c), Syscall::Unknown { id: 9999 });
}

#[test]
fn user_calls_reach_kernel_as_issued() {
    assert_eq!(decode_syscall(&context_for(user::read(0, 0x10, 5))), Syscall::Read { fd: 0, buffer: 0x10, len: 5 });
    assert_eq!(decode_syscall(&context_for(user::write(1, 0x20, 6))), Syscall::Write { fd: 1, buffer: 0x20, len: 6 });
    assert_eq!(decode_syscall(&context_for(user::exit(-1))), Syscall::Exit { code: -1 });
    assert_eq!(decode_syscall(&context_for(user::sleep(3))), Syscall::Sleep { ticks: 3 });
    assert_eq!(decode_syscall(&context_for(user::kill(4))), Syscall::Kill { pid: 4 });
    assert_eq!(decode_syscall(&context_for(user::get_time())), Syscall::GetTime);
    assert_eq!(decode_syscall(&context_for(user::getpid())), Syscall::GetPid);
    assert_eq!(decode_syscall(&context_for(user::fork())), Syscall::Fork);
    assert_eq!(decode_syscall(&context_for(user::exec(0x30))), Syscall::Exec { path: 0x30 });
    assert_eq!(decode_syscall(&context_for(user::wait(0x40))), Syscall::Wait { pid: 0, xstate: 0x40 });
    assert_eq!(decode_syscall(&context_for(user::waitpid(5, 0x40))), Syscall::Wait { pid: 5, xstate: 0x40 });
}

#[test]
fn user_syscall_numbers() {
    assert_eq!(user::write(1, 2, 3).id, 64);
    assert_eq!(user::exit(0).id, 93);
    assert_eq!(user::fork().id, 220);
    assert_eq!(user::wait(0).id, 260);
    assert_eq!(user::exit(-1).a0, u64::MAX);
}

#[test]
fn return_proceed_sets_a0_and_skips_ecall() {
    let mut c = Context::default();
    c.sepc = 0x100;
    let r = syscall_return(&mut c, SyscallResult::Proceed(-1));
    assert_eq!(r, Resume::Caller);
    assert_eq!(c.sepc, 0x104);
    assert_eq!(c.x[REG_A0], u64::MAX);
}

#[test]
fn return_other_results_leave_context() {
    let mut c = Context::default();
    c.sepc = 0x100;
    assert_eq!(syscall_return(&mut c, SyscallResult::Park), Resume::Park);
    assert_eq!(syscall_return(&mut c, SyscallResult::Yield), Resume::Yield);
    assert_eq!(syscall_return(&mut c, SyscallResult::Kill), Resume::Kill);
    assert_eq!(syscall_return(&mut c, SyscallResult::Exec), Resume::Caller);
    assert_eq!(c.sepc, 0x100);
}

#[test]
fn exit_kills_caller() {
    assert_eq!(sys_exit(0), SyscallResult::Kill);
}

#[test]
fn sleep_parks_until_expiry() {
    let mut c = Context::default();
    c.sepc = 0x200;
    c.x[REG_A0] = 5;
    let (r, expire) = sys_sleep(3, 1000, &mut c);
    assert_eq!(r, SyscallResult::Park);
    assert_eq!(expire, 1000 + 3 * ONE_TICK);
    assert_eq!(c.sepc, 0x204);
    assert_eq!(c.x[REG_A0], 0);
}

#[test]
fn yield_lets_others_run() {
    let mut c = Context::default();
    c.sepc = 0x300;
    assert_eq!(sys_yield(&mut c), SyscallResult::Yield);
    assert_eq!(c.sepc, 0x304);
}

#[test]
fn kill_cases() {
    assert_eq!(sys_kill(3, 3, true), (KillAction::ExitSelf { code: 1 }, SyscallResult::Kill));
    assert_eq!(sys_kill(3, 4, true), (KillAction::Mark, SyscallResult::Proceed(0)));
    assert_eq!(sys_kill(3, 4, false), (KillAction::NotFound, SyscallResult::Proceed(-1)));
}

#[test]
fn get_time_in_milliseconds() {
    assert_eq!(sys_get_time_msec(0), SyscallResult::Proceed(0));
    assert_eq!(sys_get_time_msec(100000), SyscallResult::Proceed(10));
    assert_eq!(sys_get_time_msec(123456789), SyscallResult::Proceed(12345));
}

#[test]
fn getpid_returns_pid() {
    assert_eq!(sys_getpid(42), SyscallResult::Proceed(42));
}

#[test]
fn fork_child_context() {
    let mut c = Context::default();
    c.sepc = 0x400;
    c.x[REG_A0] = 77;
    c.x[REG_SP] = 0x9000;
    c.sstatus = 0x20;
    let (r, child) = sys_fork(c, 9);
    assert_eq!(r, SyscallResult::Proceed(9));
    assert_eq!(child.sepc, 0x404);
    assert_eq!(child.x[REG_A0], 0);
    assert_eq!(child.x[REG_SP], 0x9000);
    assert_eq!(child.sstatus, 0x20);
}

#[test]
fn exec_resets_registers() {
    let mut c = Context::default();
    c.x[5] = 55;
    c.sstatus = 0x22;
    assert_eq!(sys_exec(&mut c, 0x1_0000, 0x0C00_0000), SyscallResult::Exec);
    assert_eq!(c.sepc, 0x1_0000);
    assert_eq!(c.x[REG_SP], 0x0C00_0000);
    assert_eq!(c.x[5], 0);
    assert_eq!(c.sstatus, 0x22);
}

fn elf_header(class: u8, entry: u64) -> Vec<u8> {
    let mut h = vec![0u8; 64];
    h[0] = 0x7f;
    h[1] = b'E';
    h[2] = b'L';
    h[3] = b'F';
    h[4] = class;
    h[5] = 1;
    h[6] = 1;
    h[16] = 2;
    h[18] = 0xf3;
    h[20] = 1;
    h[24..32].copy_from_slice(&entry.to_le_bytes());
    h
}

#[test]
fn load_entry_point_of_elf() {
    let h = elf_header(2, 0x1_0000);
    assert_eq!(load_entry_point(&h), Some(0x1_0000));
}

#[test]
fn load_entry_point_rejects_bad_magic() {
    let mut h = elf_header(2, 0x1_0000);
    h[1] = b'X';
    assert_eq!(load_entry_point(&h), None);
}

#[test]
fn load_entry_point_rejects_bad_class() {
    let h = elf_header(7, 0x1_0000);
    assert_eq!(load_entry_point(&h), None);
}

#[test]
fn load_entry_point_rejects_short_input() {
    let h = elf_header(2, 0x1_0000);
    assert_eq!(load_entry_point(&h[..40]), None);
}

fn child(pid: u64, exited: bool, xstate: i32) -> ChildStatus {
    ChildStatus { pid, exited, xstate }
}

#[test]
fn wait_without_children_fails() {
    assert_eq!(sys_wait(0, 0, None, &Vec::new()), WaitAction::Fail);
}

#[test]
fn wait_for_missing_child_fails() {
    let ch = vec![child(2, true, 0)];
    assert_eq!(sys_wait(3, 0, None, &ch), WaitAction::Fail);
}

#[test]
fn wait_with_bad_buffer_fails() {
    let ch = vec![child(2, true, 0)];
    assert_eq!(sys_wait(0, 0x1000, None, &ch), WaitAction::Fail);
    // Readable and valid but not writable.
    assert_eq!(sys_wait(0, 0x1000, Some(0b10011), &ch), WaitAction::Fail);
}

#[test]
fn wait_reaps_first_exited_child() {
    let ch = vec![child(2, false, 0), child(3, true, 7), child(4, true, 8)];
    assert_eq!(sys_wait(0, 0x1000, Some(0b10111), &ch), WaitAction::Reap { index: 1, pid: 3, xstate: 7 });
    assert_eq!(sys_wait(4, 0, None, &ch), WaitAction::Reap { index: 2, pid: 4, xstate: 8 });
}

#[test]
fn wait_blocks_until_child_exits() {
    let ch = vec![child(2, false, 0), child(3, true, 7)];
    assert_eq!(sys_wait(2, 0, None, &ch), WaitAction::Block);
}

#[test]
fn wait_twice_for_reaped_child_fails() {
    let mut ch = vec![child(2, false, 0), child(5, true, 3)];
    assert_eq!(sys_wait(5, 0, None, &ch), WaitAction::Reap { index: 1, pid: 5, xstate: 3 });
    ch.remove(1);
    assert_eq!(sys_wait(5, 0, None, &ch), WaitAction::Fail);
}

#[test]
fn get_time_never_decreases() {
    let mut last = 0;
    for now in [0u64, 1, 9_999, 10_000, 10_001, 123_456, 1_000_000] {
        match sys_get_time_msec(now) {
            SyscallResult::Proceed(ms) => {
                assert!(ms >= last);
                last = ms;
            }
            _ => panic!("get_time proceeds"),
        }
    }
    assert_eq!(last, 100);
}

use rcore_kernel::context::{Context, SSTATUS_SPP};
use rcore_kernel::syscall::Resume;
use rcore_kernel::thread_pool::{add_sleep_trigger, Processor, SleepTrigger, ThreadPool};
use rcore_kernel::trap::{
    breakpoint, console_input, page_fault, supervisor_timer, switch_after_syscall, trap_action, PageFaultAction,
    TrapAction, TrapCause, TrapStack, CONTEXT_SIZE,
};

#[test]
fn trap_action_dead_thread_first() {
    assert_eq!(trap_action(TrapCause::UserEnvCall, true, true), TrapAction::KillDeadThread);
    assert_eq!(trap_action(TrapCause::UserEnvCall, false, true), TrapAction::ExitKilledProcess { code: 1 });
}

#[test]
fn trap_action_by_cause() {
    assert_eq!(trap_action(TrapCause::Breakpoint, false, false), TrapAction::Breakpoint);
    assert_eq!(trap_action(TrapCause::UserEnvCall, false, false), TrapAction::Syscall);
    assert_eq!(trap_action(TrapCause::LoadPageFault, false, false), TrapAction::PageFault);
    assert_eq!(trap_action(TrapCause::StoreFault, false, false), TrapAction::PageFault);
    assert_eq!(trap_action(TrapCause::SupervisorTimer, false, false), TrapAction::Timer);
    assert_eq!(trap_action(TrapCause::SupervisorExternal, false, false), TrapAction::External);
    assert_eq!(trap_action(TrapCause::SupervisorSoft, false, false), TrapAction::Soft);
    assert_eq!(trap_action(TrapCause::Other, false, false), TrapAction::Fault);
}

#[test]
fn breakpoint_skips_ebreak() {
    let mut c = Context::default();
    c.sepc = 0x8020_0010;
    breakpoint(&mut c);
    assert_eq!(c.sepc, 0x8020_0012);
}

#[test]
fn page_fault_kernel_or_user() {
    let mut c = Context::default();
    c.sstatus = SSTATUS_SPP;
    assert_eq!(page_fault(&c), PageFaultAction::KernelPanic);
    c.sstatus = 0x20;
    assert_eq!(page_fault(&c), PageFaultAction::ExitProcess { code: 2 });
}

#[test]
fn console_input_bytes() {
    assert_eq!(console_input(b'a' as u64), Some(b'a'));
    assert_eq!(console_input(13), Some(10));
    assert_eq!(console_input(255), Some(255));
    assert_eq!(console_input(u64::MAX), None);
    assert_eq!(console_input(256), None);
}

#[test]
fn timer_switches_and_requeues() {
    let mut pool = ThreadPool::default();
    let mut cpu = Processor::new(0);
    let mut triggers: Vec<SleepTrigger> = Vec::new();
    let mut ticks: u64 = 98;
    pool.add_thread(1);
    pool.add_thread(2);
    cpu.prepare_next_thread(&mut pool);
    add_sleep_trigger(&mut triggers, &mut pool, 5, 100);
    let (prev, s, report) = supervisor_timer(&mut cpu, &mut pool, &mut triggers, 150, &mut ticks);
    assert_eq!(prev, 1);
    assert_eq!(s.next, 2);
    assert_eq!(s.previous, Some(1));
    assert!(!report);
    assert_eq!(ticks, 99);
    assert!(triggers.is_empty());
    assert!(!pool.is_sleeping(5));
    // Ready now: the woken thread, then the interrupted one.
    assert_eq!(cpu.prepare_next_thread(&mut pool).next, 5);
    assert_eq!(cpu.prepare_next_thread(&mut pool).next, 1);
}

#[test]
fn timer_on_idle_does_not_queue_idle() {
    let mut pool = ThreadPool::default();
    let mut cpu = Processor::new(0);
    let mut triggers: Vec<SleepTrigger> = Vec::new();
    let mut ticks: u64 = 99;
    cpu.processor_main();
    let (prev, s, report) = supervisor_timer(&mut cpu, &mut pool, &mut triggers, 10, &mut ticks);
    assert_eq!(prev, 0);
    assert_eq!(s.next, 0);
    assert!(!s.scheduled);
    assert!(report);
    assert_eq!(ticks, 0);
    assert_eq!(pool.scheduler.len(), 0);
}

#[test]
fn syscall_switches() {
    let mut pool = ThreadPool::default();
    let mut cpu = Processor::new(0);
    pool.add_thread(1);
    pool.add_thread(2);
    cpu.prepare_next_thread(&mut pool);
    assert!(switch_after_syscall(&mut cpu, &mut pool, Resume::Caller).is_none());
    assert_eq!(cpu.current_thread(), 1);
    // Yield: 2 runs, 1 queued again.
    let s = switch_after_syscall(&mut cpu, &mut pool, Resume::Yield).unwrap();
    assert_eq!(s.next, 2);
    assert_eq!(pool.scheduler.len(), 1);
    // Park: 1 runs, 2 is not queued.
    let s = switch_after_syscall(&mut cpu, &mut pool, Resume::Park).unwrap();
    assert_eq!(s.next, 1);
    assert_eq!(pool.scheduler.len(), 0);
    // Kill: nothing ready, the idle thread runs.
    let s = switch_after_syscall(&mut cpu, &mut pool, Resume::Kill).unwrap();
    assert_eq!(s.next, 0);
    assert_eq!(s.previous, None);
}

#[test]
fn trap_stack_context_slot() {
    assert_eq!(CONTEXT_SIZE, 272);
    assert_eq!(std::mem::size_of::<Context>() as u64, CONTEXT_SIZE);
    assert_eq!(TrapStack::push_context(0x8040_0000), 0x8040_0000 + 0x8000 - 272);
}

#[test]
fn killed_process_ends_at_next_trap() {
    let (action, r) = rcore_kernel::syscall::sys_kill(1, 2, true);
    assert_eq!(action, rcore_kernel::syscall::KillAction::Mark);
    assert_eq!(r, rcore_kernel::syscall::SyscallResult::Proceed(0));
    for cause in [TrapCause::Breakpoint, TrapCause::UserEnvCall, TrapCause::SupervisorTimer, TrapCause::Other] {
        assert_eq!(trap_action(cause, false, true), TrapAction::ExitKilledProcess { code: 1 });
    }
}

#[test]
fn trap_cause_decoding() {
    use_cause(8, TrapCause::UserEnvCall);
    use_cause(3, TrapCause::Breakpoint);
    use_cause(13, TrapCause::LoadPageFault);
    use_cause(15, TrapCause::StorePageFault);
    use_cause(2, TrapCause::Other);
    use_cause((1u64 << 63) | 5, TrapCause::SupervisorTimer);
    use_cause((1u64 << 63) | 9, TrapCause::SupervisorExternal);
    use_cause((1u64 << 63) | 1, TrapCause::SupervisorSoft);
    use_cause((1u64 << 63) | 8, TrapCause::Other);
}

fn use_cause(scause: u64, expected: TrapCause) {
    assert_eq!(rcore_kernel::trap::trap_cause(scause), expected);
}

use rcore_kernel::context::Context;
use rcore_kernel::syscall::{sys_wait, wait_answer, SyscallResult, WaitAction};
use rcore_kernel::trap::{start_thread, CONTEXT_SIZE};
use rcore_kernel::context::{REG_A0, REG_SP, SSTATUS_SPIE, SSTATUS_SPP};
use rcore_kernel::thread::{Thread, ThreadCounter};
use rcore_kernel::address::VirtualPageNumber;
use rcore_kernel::frame::FrameAllocator;
use rcore_kernel::memory_set::KernelLayout;
use rcore_kernel::pid::PidAllocator;
use rcore_kernel::process::{user_flag, Process, STACK_SIZE};
use rcore_kernel::segment::MapType;
use rcore_kernel::thread_pool::{
    add_sleep_trigger, handle_sleep_trigger, Condvar, Processor, SleepTrigger, ThreadPool,
};
use rcore_kernel::thread_trace::ThreadTrace;

#[test]
fn pool_runs_threads_in_order() {
    let mut pool = ThreadPool::default();
    let mut cpu = Processor::new(0);
    pool.add_thread(3);
    pool.add_thread(4);
    let s = cpu.prepare_next_thread(&mut pool);
    assert_eq!(s.next, 3);
    assert!(s.scheduled);
    assert_eq!(s.previous, None);
    assert_eq!(cpu.current_thread(), 3);
    let s2 = cpu.prepare_next_thread(&mut pool);
    assert_eq!((s2.next, s2.previous), (4, Some(3)));
    // Nothing ready: the idle thread runs.
    let s3 = cpu.prepare_next_thread(&mut pool);
    assert_eq!(s3.next, 0);
    assert!(!s3.scheduled);
    assert_eq!(s3.previous, None);
}

#[test]
fn processor_main_runs_idle() {
    let mut cpu = Processor::new(9);
    assert_eq!(cpu.processor_main(), 9);
    assert_eq!(cpu.current_thread(), 9);
    assert_eq!(cpu.park_current_thread(), 9);
    assert_eq!(cpu.prepare_thread(5), 5);
    assert_eq!(cpu.current_thread(), 5);
}

#[test]
fn idle_thread_is_never_queued() {
    let mut pool = ThreadPool::default();
    let cpu = Processor::new(0);
    cpu.run_thread_later(&mut pool, 0);
    cpu.run_thread_later(&mut pool, 6);
    assert_eq!(pool.scheduler.len(), 1);
}

#[test]
fn sleep_and_wake() {
    let mut pool = ThreadPool::default();
    pool.add_thread(1);
    pool.sleep_thread(2);
    assert!(pool.is_sleeping(2));
    assert!(!pool.is_sleeping(1));
    pool.wake_thread(2);
    assert!(!pool.is_sleeping(2));
    let mut cpu = Processor::new(0);
    assert_eq!(cpu.prepare_next_thread(&mut pool).next, 1);
    assert_eq!(cpu.prepare_next_thread(&mut pool).next, 2);
}

#[test]
fn kill_thread_leaves_queue() {
    let mut pool = ThreadPool::default();
    pool.add_thread(1);
    pool.add_thread(2);
    pool.add_thread(3);
    pool.kill_thread(2);
    pool.kill_thread(42);
    let mut cpu = Processor::new(0);
    assert_eq!(cpu.prepare_next_thread(&mut pool).next, 1);
    assert_eq!(cpu.prepare_next_thread(&mut pool).next, 3);
    assert_eq!(cpu.prepare_next_thread(&mut pool).next, 0);
}

#[test]
fn kill_and_sleep_current_thread() {
    let mut pool = ThreadPool::default();
    let mut cpu = Processor::new(0);
    pool.add_thread(8);
    cpu.prepare_next_thread(&mut pool);
    cpu.sleep_current_thread(&mut pool);
    assert!(pool.is_sleeping(8));
    pool.add_thread(8);
    cpu.kill_current_thread(&mut pool);
    assert_eq!(pool.scheduler.len(), 0);
    assert!(pool.is_sleeping(8));
}

#[test]
fn condvar_wakes_longest_waiter() {
    let mut pool = ThreadPool::default();
    let mut cv = Condvar::new();
    assert_eq!(cv.notify_one(&mut pool), None);
    cv.wait(&mut pool, 5);
    cv.wait(&mut pool, 6);
    assert!(pool.is_sleeping(5) && pool.is_sleeping(6));
    assert_eq!(cv.notify_one(&mut pool), Some(5));
    assert!(!pool.is_sleeping(5));
    assert!(pool.is_sleeping(6));
    assert_eq!(cv.watchers.len(), 1);
    let mut cpu = Processor::new(0);
    assert_eq!(cpu.prepare_next_thread(&mut pool).next, 5);
}

#[test]
fn sleep_triggers_wake_expired() {
    let mut pool = ThreadPool::default();
    let mut triggers: Vec<SleepTrigger> = Vec::new();
    add_sleep_trigger(&mut triggers, &mut pool, 7, 100);
    add_sleep_trigger(&mut triggers, &mut pool, 8, 300);
    add_sleep_trigger(&mut triggers, &mut pool, 9, 150);
    assert!(pool.is_sleeping(7));
    handle_sleep_trigger(&mut triggers, &mut pool, 200);
    assert_eq!(triggers.len(), 1);
    assert_eq!(triggers[0].expire, 300);
    assert!(!pool.is_sleeping(7));
    assert!(!pool.is_sleeping(9));
    assert!(pool.is_sleeping(8));
    let mut cpu = Processor::new(0);
    assert_eq!(cpu.prepare_next_thread(&mut pool).next, 7);
    assert_eq!(cpu.prepare_next_thread(&mut pool).next, 9);
    assert_eq!(cpu.prepare_next_thread(&mut pool).next, 0);
}

#[test]
fn sleep_trigger_not_expired_at_its_time() {
    let mut pool = ThreadPool::default();
    let mut triggers: Vec<SleepTrigger> = Vec::new();
    add_sleep_trigger(&mut triggers, &mut pool, 7, 100);
    handle_sleep_trigger(&mut triggers, &mut pool, 100);
    assert_eq!(triggers.len(), 1);
    assert!(pool.is_sleeping(7));
}

#[test]
fn thread_trace_accounts_time() {
    let mut t = ThreadTrace::new();
    t.prologue(0, 100);
    t.into_kernel(0, 150, true);
    t.exit_kernel(0, 170);
    t.into_kernel(0, 200, true);
    t.into_kernel(1, 260, false);
    let (mut entries, user, kernel) = t.print_trace();
    entries.sort();
    assert_eq!(entries, vec![(0, (80, 20)), (1, (0, 60))]);
    assert_eq!(user, 80);
    assert_eq!(kernel, 80);
    t.reset();
    assert_eq!(t.print_trace(), (Vec::new(), 0, 0));
}

fn layout() -> KernelLayout {
    KernelLayout {
        text_start: 0xffff_ffff_8020_0000,
        rodata_start: 0xffff_ffff_8020_4000,
        data_start: 0xffff_ffff_8020_6000,
        bss_start: 0xffff_ffff_8020_7000,
        kernel_end: 0xffff_ffff_8020_9000,
        memory_end: 0xffff_ffff_8030_0000,
    }
}

/// A 64-bit ELF file with one loadable segment: 8 bytes of code at
/// 0x1_0000, readable and executable, 0x1800 bytes in memory.
fn program_image() -> Vec<u8> {
    let mut v = vec![0u8; 128];
    v[..8].copy_from_slice(&[0x7f, b'E', b'L', b'F', 2, 1, 1, 0]);
    v[16..18].copy_from_slice(&2u16.to_le_bytes());
    v[18..20].copy_from_slice(&0xf3u16.to_le_bytes());
    v[20..24].copy_from_slice(&1u32.to_le_bytes());
    v[24..32].copy_from_slice(&0x1_0000u64.to_le_bytes());
    v[32..40].copy_from_slice(&64u64.to_le_bytes());
    v[52..54].copy_from_slice(&64u16.to_le_bytes());
    v[54..56].copy_from_slice(&56u16.to_le_bytes());
    v[56..58].copy_from_slice(&1u16.to_le_bytes());
    v[64..68].copy_from_slice(&1u32.to_le_bytes());
    v[68..72].copy_from_slice(&5u32.to_le_bytes());
    v[72..80].copy_from_slice(&120u64.to_le_bytes());
    v[80..88].copy_from_slice(&0x1_0000u64.to_le_bytes());
    v[88..96].copy_from_slice(&0x1_0000u64.to_le_bytes());
    v[96..104].copy_from_slice(&8u64.to_le_bytes());
    v[104..112].copy_from_slice(&0x1800u64.to_le_bytes());
    v[112..120].copy_from_slice(&0x1000u64.to_le_bytes());
    v[120..128].copy_from_slice(&[0x13, 0, 0, 0, 0x73, 0, 0, 0]);
    v
}

#[test]
fn process_from_elf_maps_program() {
    let mut pids = PidAllocator::new();
    let mut frames = FrameAllocator::new(0x80400, 0x80c00);
    let (p, writes) = Process::from_elf(&mut pids, &mut frames, layout(), &program_image(), true).unwrap();
    assert_eq!(p.pid, 1);
    assert_eq!(p.inner.memory_set.segments.len(), 7);
    let seg = p.inner.memory_set.segments[6];
    assert_eq!((seg.range.start.0, seg.range.end.0), (0x1_0000, 0x1_1800));
    assert_eq!(seg.flags.bits(), 0x10 | 0x2 | 0x8);
    assert_eq!(writes.len(), 2);
    assert_eq!(&writes[0].data[..8], &[0x13, 0, 0, 0, 0x73, 0, 0, 0]);
    assert!(writes[0].data[8..].iter().all(|b| *b == 0));
    assert!(writes[1].data.iter().all(|b| *b == 0));
    let e = p.inner.memory_set.mapping.lookup(VirtualPageNumber(0x10)).unwrap();
    assert_eq!(e.flags().bits(), 0b11011);
}

#[test]
fn process_from_bad_elf_still_takes_an_id() {
    let mut pids = PidAllocator::new();
    let mut frames = FrameAllocator::new(0x80400, 0x80c00);
    let mut img = program_image();
    img[0] = 0;
    assert!(Process::from_elf(&mut pids, &mut frames, layout(), &img, true).is_err());
    assert_eq!(pids.allocate(), 2);
}

#[test]
fn exit_to_parent_records_code() {
    let mut pids = PidAllocator::new();
    let mut frames = FrameAllocator::new(0x80400, 0x80c00);
    let (mut parent, _) = Process::from_elf(&mut pids, &mut frames, layout(), &program_image(), true).unwrap();
    let ms = rcore_kernel::memory_set::MemorySet::new_kernel(&mut frames, layout()).unwrap();
    let mut child = Process::from_parent(&mut pids, &parent, ms);
    let mut pool = ThreadPool::default();
    assert_eq!(child.exit_to_parent(&mut parent, 7, &mut frames, &mut pool), None);
    assert!(child.inner.exited);
    assert_eq!(child.inner.xstate, 7);
    assert!(!parent.inner.exited);
}

#[test]
fn exit_unmaps_program_and_frees_frames() {
    let mut pids = PidAllocator::new();
    let mut frames = FrameAllocator::new(0x80400, 0x80c00);
    let (mut p, _) = Process::from_elf(&mut pids, &mut frames, layout(), &program_image(), true).unwrap();
    let f0 = p.inner.memory_set.mapping.lookup(VirtualPageNumber(0x10)).unwrap().page_number().0;
    let f1 = p.inner.memory_set.mapping.lookup(VirtualPageNumber(0x11)).unwrap().page_number().0;
    p.exit(0, &mut frames);
    let gone = p.inner.memory_set.mapping.lookup(VirtualPageNumber(0x10));
    assert!(gone.map_or(true, |e| e.0 == 0));
    assert_eq!(p.inner.memory_set.segments.len(), 6);
    // The program's two frames are the next ones handed out.
    let mut again = vec![frames.allocate().unwrap().0 .0, frames.allocate().unwrap().0 .0];
    again.sort();
    let mut freed = vec![f0, f1];
    freed.sort();
    assert_eq!(again, freed);
}

#[test]
fn run_stack_ready_until_mapped() {
    let mut pids = PidAllocator::new();
    let mut frames = FrameAllocator::new(0x80400, 0x80c00);
    assert!(pids.can_allocate());
    let (mut p, _) = Process::from_elf(&mut pids, &mut frames, layout(), &program_image(), true).unwrap();
    assert!(p.run_stack_ready(&frames));
    p.alloc_run_stack(&mut frames).unwrap();
    assert!(p.run_stack_ready(&frames));
    p.inner.run_stack_pointer = 0x0C00_0000;
    assert!(!p.run_stack_ready(&frames));
}

#[test]
fn user_flag_bits() {
    assert_eq!(user_flag(true).bits(), 0x10);
    assert_eq!(user_flag(false).bits(), 0);
}

#[test]
fn kernel_process_and_run_stacks() {
    let mut pids = PidAllocator::new();
    let mut frames = FrameAllocator::new(0x80400, 0x80c00);
    let mut p = Process::new_kernel(&mut pids, &mut frames, layout()).unwrap();
    assert_eq!(p.pid, 1);
    assert!(!p.is_user);
    assert!(p.parent.is_none());
    assert_eq!(p.inner.run_stack_pointer, 0xffff_ffff_ffff_f000);
    let (s1, w1) = p.alloc_run_stack(&mut frames).unwrap();
    assert_eq!(w1.len(), 8);
    assert!(w1.iter().all(|w| w.data.len() == 4096 && w.data.iter().all(|b| *b == 0)));
    assert_eq!(s1.end.0, 0xffff_ffff_ffff_f000);
    assert_eq!(s1.start.0, 0xffff_ffff_ffff_f000 - STACK_SIZE);
    assert_eq!(p.inner.run_stack_pointer, 0xffff_ffff_ffff_f000 - STACK_SIZE - 0x1000);
    let (s2, _) = p.alloc_run_stack(&mut frames).unwrap();
    // A guard page between the two stacks.
    assert_eq!(s2.end.0 + 0x1000, s1.start.0);
    let e = p.inner.memory_set.mapping.lookup(VirtualPageNumber(s1.start.0 >> 12)).unwrap();
    assert_eq!(e.flags().bits(), 0b111);
    let framed = p.framed_segments();
    assert_eq!(framed.len(), 2);
    assert!(framed.iter().all(|s| s.map_type == MapType::Framed));
    p.exit(3, &mut frames);
    assert!(p.inner.exited);
    assert_eq!(p.inner.xstate, 3);
    assert!(p.framed_segments().is_empty());
    assert_eq!(p.inner.memory_set.segments.len(), 6);
    let gone = p.inner.memory_set.mapping.lookup(VirtualPageNumber(s1.start.0 >> 12));
    assert!(gone.map_or(true, |e| e.0 == 0));
}

#[test]
fn kernel_process_without_frames() {
    let mut pids = PidAllocator::new();
    let mut frames = FrameAllocator::new(0x80400, 0x80401);
    assert!(Process::new_kernel(&mut pids, &mut frames, layout()).is_err());
}

#[test]
fn user_process_from_program_and_parent() {
    let mut pids = PidAllocator::new();
    let mut frames = FrameAllocator::new(0x80400, 0x80c00);
    let (mut p, _) = Process::from_elf(&mut pids, &mut frames, layout(), &program_image(), true).unwrap();
    assert_eq!(p.pid, 1);
    assert!(p.is_user);
    assert!(p.parent.is_none());
    assert_eq!(p.inner.run_stack_pointer, 0x0C00_0000);
    assert_eq!(p.inner.user_size, 0);
    assert!(!p.inner.exited && !p.inner.killed);
    let (stack, _) = p.alloc_run_stack(&mut frames).unwrap();
    assert_eq!(stack.end.0, 0x0C00_0000);
    let e = p.inner.memory_set.mapping.lookup(VirtualPageNumber(stack.start.0 >> 12)).unwrap();
    assert_eq!(e.flags().bits(), 0b10111);
    let ms2 = rcore_kernel::memory_set::MemorySet::new_kernel(&mut frames, layout()).unwrap();
    let c = Process::from_parent(&mut pids, &p, ms2);
    assert_eq!(c.pid, 2);
    assert_eq!(c.parent, Some(1));
    assert!(c.is_user);
    assert_eq!(c.inner.run_stack_pointer, 0x0C00_0000);
    assert!(c.inner.child.is_empty());
}

#[test]
fn thread_new_allocates_stack_and_context() {
    let mut pids = PidAllocator::new();
    let mut frames = FrameAllocator::new(0x80400, 0x80c00);
    let (mut p, _) = Process::from_elf(&mut pids, &mut frames, layout(), &program_image(), true).unwrap();
    let mut counter = ThreadCounter::new();
    let (t, writes) = Thread::new(&mut counter, &mut p, &mut frames, 0x1_0000, Some(&[3, 4]), SSTATUS_SPP).unwrap();
    assert_eq!(writes.len(), (STACK_SIZE / 4096) as usize);
    assert_eq!(t.id, 1);
    assert_eq!(t.process, p.pid);
    assert_eq!(t.stack.end.0, 0x0C00_0000);
    assert_eq!(t.stack.start.0, 0x0C00_0000 - STACK_SIZE);
    let c = t.inner.context.unwrap();
    assert_eq!(c.x[REG_SP], 0x0C00_0000);
    assert_eq!(c.x[REG_A0], 3);
    assert_eq!(c.x[REG_A0 + 1], 4);
    assert_eq!(c.sepc, 0x1_0000);
    assert_eq!(c.sstatus, SSTATUS_SPIE);
    let (t2, _) = Thread::new(&mut counter, &mut p, &mut frames, 0x2_0000, None, 0).unwrap();
    assert_eq!(t2.id, 2);
    assert_eq!(t2.stack.end.0 + 0x1000, t.stack.start.0);
}

#[test]
fn thread_new_without_frames_fails() {
    let mut pids = PidAllocator::new();
    let mut frames = FrameAllocator::new(0x80400, 0x80c00);
    let (mut p, _) = Process::from_elf(&mut pids, &mut frames, layout(), &program_image(), false).unwrap();
    // Use up the frames.
    while frames.allocate().is_ok() {}
    let mut counter = ThreadCounter::new();
    assert!(Thread::new(&mut counter, &mut p, &mut frames, 0x1_0000, None, 0).is_err());
    assert_eq!(counter.last, 0);
}

fn user_segment(start: u64, end: u64) -> rcore_kernel::segment::Segment {
    rcore_kernel::segment::Segment {
        map_type: MapType::Framed,
        range: rcore_kernel::address::Range {
            start: rcore_kernel::address::VirtualAddress(start),
            end: rcore_kernel::address::VirtualAddress(end),
        },
        flags: rcore_kernel::page_table_entry::Flags { bits: 0x16 },
    }
}

#[test]
fn program_segments_map_in_order_with_their_bytes() {
    let mut frames = FrameAllocator::new(0x80400, 0x80c00);
    let mut ms = rcore_kernel::memory_set::MemorySet::new_kernel(&mut frames, layout()).unwrap();
    let mut first = vec![0u8; 0x1000];
    first[0] = 7;
    let second = vec![9u8; 0x2000];
    let segs = vec![(user_segment(0x1_0000, 0x1_1000), first), (user_segment(0x2_0000, 0x2_2000), second)];
    let writes = ms.add_program_segments(&mut frames, &segs).unwrap();
    assert_eq!(writes.len(), 3);
    assert_eq!(writes[0].data[0], 7);
    assert!(writes[1].data.iter().all(|b| *b == 9));
    assert!(writes[2].data.iter().all(|b| *b == 9));
    assert_eq!(ms.segments.len(), 8);
    let f0 = ms.mapping.lookup(VirtualPageNumber(0x10)).unwrap().page_number().0;
    assert_eq!(writes[0].address.0, f0 * 0x1000 + 0xffff_ffff_0000_0000);
}

#[test]
fn program_segments_refuse_overlap_size_and_shortage() {
    let mut frames = FrameAllocator::new(0x80400, 0x80c00);
    let mut ms = rcore_kernel::memory_set::MemorySet::new_kernel(&mut frames, layout()).unwrap();
    let overlap = vec![
        (user_segment(0x1_0000, 0x1_1000), vec![0u8; 0x1000]),
        (user_segment(0x1_0800, 0x1_1800), vec![0u8; 0x1000]),
    ];
    assert!(ms.add_program_segments(&mut frames, &overlap).is_err());
    let mut ms2 = rcore_kernel::memory_set::MemorySet::new_kernel(&mut frames, layout()).unwrap();
    assert!(ms2.add_program_segments(&mut frames, &Vec::new()).is_ok());
    let mut few = FrameAllocator::new(0x80400, 0x80440);
    let mut ms3 = rcore_kernel::memory_set::MemorySet::new_kernel(&mut few, layout()).unwrap();
    let big = vec![(user_segment(0x1_0000, 0x1_0000 + 0x100 * 0x1000), vec![0u8; 0x100 * 0x1000])];
    assert!(ms3.add_program_segments(&mut few, &big).is_err());
}

#[test]
fn exec_loads_program_or_answers_minus_one() {
    let mut pids = PidAllocator::new();
    let mut frames = FrameAllocator::new(0x80400, 0x80c00);
    let (mut p, _) = Process::from_elf(&mut pids, &mut frames, layout(), &program_image(), true).unwrap();
    let mut c = Context::default();
    c.x[5] = 42;
    let (r, stack, writes) = p.exec(&mut frames, layout(), None, &mut c);
    assert_eq!(r, SyscallResult::Proceed(-1));
    assert!(stack.is_none() && writes.is_empty());
    assert_eq!(c.x[5], 42);
    let (r, _, _) = p.exec(&mut frames, layout(), Some(&[1, 2, 3]), &mut c);
    assert_eq!(r, SyscallResult::Proceed(-1));
    let (r, stack, writes) = p.exec(&mut frames, layout(), Some(&program_image()), &mut c);
    assert_eq!(r, SyscallResult::Exec);
    let stack = stack.unwrap();
    assert_eq!((stack.start.0, stack.end.0), (0x0C00_0000 - STACK_SIZE, 0x0C00_0000));
    assert_eq!(c.sepc, 0x1_0000);
    assert_eq!(c.x[REG_SP], 0x0C00_0000);
    assert_eq!(c.x[5], 0);
    assert_eq!(writes.len(), 2 + (STACK_SIZE / 0x1000) as usize);
    assert_eq!(&writes[0].data[..8], &[0x13, 0, 0, 0, 0x73, 0, 0, 0]);
    assert_eq!(p.inner.memory_set.segments.len(), 8);
}

#[test]
fn run_stack_below_unaligned_pointer() {
    let mut pids = PidAllocator::new();
    let mut frames = FrameAllocator::new(0x80400, 0x80c00);
    let (mut p, _) = Process::from_elf(&mut pids, &mut frames, layout(), &program_image(), true).unwrap();
    p.inner.run_stack_pointer = 0x0C00_0800;
    assert!(p.run_stack_ready(&frames));
    let (s, writes) = p.alloc_run_stack(&mut frames).unwrap();
    assert_eq!((s.start.0, s.end.0), (0x0C00_0800 - STACK_SIZE, 0x0C00_0800));
    assert_eq!(writes.len(), (STACK_SIZE / 0x1000) as usize + 1);
    assert_eq!(p.inner.run_stack_pointer, 0x0C00_0800 - STACK_SIZE - 0x1000);
}

#[test]
fn child_list_and_status() {
    let mut pids = PidAllocator::new();
    let mut frames = FrameAllocator::new(0x80400, 0x80c00);
    let (mut parent, _) = Process::from_elf(&mut pids, &mut frames, layout(), &program_image(), true).unwrap();
    let ms = rcore_kernel::memory_set::MemorySet::new_kernel(&mut frames, layout()).unwrap();
    let mut child = Process::from_parent(&mut pids, &parent, ms);
    parent.add_child(child.pid);
    assert_eq!(parent.inner.child, vec![2]);
    let mut pool = ThreadPool::default();
    child.exit_to_parent(&mut parent, 5, &mut frames, &mut pool);
    let statuses = vec![child.status()];
    let action = sys_wait(2, 0, None, &statuses);
    assert_eq!(action, WaitAction::Reap { index: 0, pid: 2, xstate: 5 });
    assert_eq!(wait_answer(action), SyscallResult::Proceed(2));
    parent.reap_child(0);
    assert!(parent.inner.child.is_empty());
    assert_eq!(wait_answer(sys_wait(2, 0, None, &Vec::new())), SyscallResult::Proceed(-1));
    assert_eq!(wait_answer(WaitAction::Block), SyscallResult::Park);
}

#[test]
fn start_thread_places_context_and_activates() {
    let mut pids = PidAllocator::new();
    let mut frames = FrameAllocator::new(0x80400, 0x80c00);
    let (mut p, _) = Process::from_elf(&mut pids, &mut frames, layout(), &program_image(), true).unwrap();
    let mut counter = ThreadCounter::new();
    let (mut t, _) = Thread::new(&mut counter, &mut p, &mut frames, 0x1_0000, None, 0).unwrap();
    let saved = t.inner.context.unwrap();
    let s = start_thread(&mut t, &p, 0x8040_0000);
    assert_eq!(s.context.sepc, saved.sepc);
    assert_eq!(s.context_addr, 0x8040_0000 + 0x8000 - CONTEXT_SIZE);
    assert_eq!(s.satp, p.inner.memory_set.activate());
    assert!(t.inner.context.is_none());
}

#[test]
fn copy_parent_maps_the_parents_segments() {
    let mut pids = PidAllocator::new();
    let mut frames = FrameAllocator::new(0x80400, 0x80c00);
    let (parent, _) = Process::from_elf(&mut pids, &mut frames, layout(), &program_image(), true).unwrap();
    let framed = parent.framed_segments();
    assert_eq!(framed.len(), 1);
    let mut bytes = vec![0u8; 0x1800];
    bytes[0] = 0x55;
    let copies = vec![(framed[0], bytes)];
    let ms = rcore_kernel::memory_set::MemorySet::new_kernel(&mut frames, layout()).unwrap();
    let (child, writes) = Process::copy_parent(&mut pids, &mut frames, ms, &parent, &copies).unwrap();
    assert_eq!(child.pid, 2);
    assert_eq!(child.parent, Some(1));
    assert_eq!(child.inner.memory_set.segments.len(), 7);
    assert_eq!(child.inner.memory_set.segments[6].range.start.0, 0x1_0000);
    assert_eq!(writes.len(), 2);
    assert_eq!(writes[0].data[0], 0x55);
    let pf = parent.inner.memory_set.mapping.lookup(VirtualPageNumber(0x10)).unwrap().page_number();
    let cf = child.inner.memory_set.mapping.lookup(VirtualPageNumber(0x10)).unwrap().page_number();
    assert_ne!(pf, cf);
}

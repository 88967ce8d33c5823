use rcore_kernel::address::{Range, VirtualAddress};
use rcore_kernel::context::{Context, REG_A0, REG_RA, REG_SP, SSTATUS_SPIE, SSTATUS_SPP};
use rcore_kernel::pid::PidAllocator;
use rcore_kernel::thread::{Thread, ThreadCounter};
use rcore_kernel::timer::{next_timeout, tick, INTERVAL};

#[test]
fn pid_allocator_counts_up_from_one() {
    let mut a = PidAllocator::new();
    assert_eq!(a.allocate(), 1);
    assert_eq!(a.allocate(), 2);
    assert_eq!(a.allocate(), 3);
}

#[test]
fn pid_allocator_reuses_latest_freed() {
    let mut a = PidAllocator::new();
    let p1 = a.allocate();
    let p2 = a.allocate();
    let p3 = a.allocate();
    a.dealloc(p1);
    a.dealloc(p3);
    // The id given back last comes out first.
    assert_eq!(a.allocate(), p3);
    assert_eq!(a.allocate(), p1);
    assert_eq!(a.allocate(), 4);
    assert_ne!(p2, 4);
}

#[test]
fn pid_dealloc_then_allocate_gives_same_id() {
    let mut a = PidAllocator::new();
    let p = a.allocate();
    a.dealloc(p);
    assert_eq!(a.allocate(), p);
}

#[test]
fn context_default_is_zero() {
    let c = Context::default();
    assert!(c.x.iter().all(|r| *r == 0));
    assert_eq!(c.sstatus, 0);
    assert_eq!(c.sepc, 0);
}

#[test]
fn context_sp_ra() {
    let mut c = Context::default();
    c.set_sp(0x8000_1000);
    c.set_ra(0x8020_0040);
    assert_eq!(c.sp(), 0x8000_1000);
    assert_eq!(c.ra(), 0x8020_0040);
    assert_eq!(c.x[REG_SP], 0x8000_1000);
    assert_eq!(c.x[REG_RA], 0x8020_0040);
    assert_eq!(c.x[0], 0);
}

#[test]
fn context_set_arguments() {
    let mut c = Context::default();
    c.x[REG_A0 + 3] = 99;
    c.set_arguments(&[7, 8, 9]);
    assert_eq!(c.x[REG_A0], 7);
    assert_eq!(c.x[REG_A0 + 1], 8);
    assert_eq!(c.x[REG_A0 + 2], 9);
    // Registers past the arguments are left alone.
    assert_eq!(c.x[REG_A0 + 3], 99);
}

#[test]
fn context_thread_init_user() {
    let sstatus = SSTATUS_SPP | 0x2;
    let c = Context::thread_init_context(0x1000, 0x2000, Some(&[1, 2]), true, sstatus);
    assert_eq!(c.sp(), 0x1000);
    assert_eq!(c.sepc, 0x2000);
    assert_eq!(c.x[REG_A0], 1);
    assert_eq!(c.x[REG_A0 + 1], 2);
    assert_eq!(c.x[REG_A0 + 2], 0);
    // User mode: previous privilege cleared, interrupts on after sret.
    assert_eq!(c.sstatus, 0x2 | SSTATUS_SPIE);
}

#[test]
fn context_thread_init_kernel() {
    let c = Context::thread_init_context(0xffff_ffff_8100_0000, 0xffff_ffff_8020_0000, None, false, 0);
    assert_eq!(c.sstatus, SSTATUS_SPP | SSTATUS_SPIE);
    assert_eq!(c.sstatus, 0x120);
    assert_eq!(c.x[REG_A0], 0);
    assert_eq!(c.sp(), 0xffff_ffff_8100_0000);
}

#[test]
fn timer_next_timeout() {
    assert_eq!(INTERVAL, 100000);
    assert_eq!(next_timeout(5), 100005);
}

#[test]
fn timer_tick_reports_every_hundred() {
    let mut ticks: u64 = 0;
    let mut reports = 0;
    for _ in 0..250 {
        if tick(&mut ticks) {
            reports += 1;
        }
        assert!(ticks < 100);
    }
    assert_eq!(reports, 2);
    assert_eq!(ticks, 50);
}

#[test]
fn timer_tick_at_ninety_nine() {
    let mut ticks: u64 = 99;
    assert!(tick(&mut ticks));
    assert_eq!(ticks, 0);
    let mut t2: u64 = 41;
    assert!(!tick(&mut t2));
    assert_eq!(t2, 42);
}

fn stack() -> Range<VirtualAddress> {
    Range { start: VirtualAddress(0x1000), end: VirtualAddress(0x9000) }
}

#[test]
fn thread_ids_increase() {
    let mut counter = ThreadCounter::new();
    let t1 = Thread::with_context(&mut counter, 1, stack(), Context::default());
    let t2 = Thread::with_context(&mut counter, 1, stack(), Context::default());
    assert_eq!(t1.id, 1);
    assert_eq!(t2.id, 2);
    assert!(!t1.eq(&t2));
    assert!(t1.eq(&t1));
    assert_eq!(counter.next(), 3);
}

#[test]
fn thread_context_round_trip() {
    let mut counter = ThreadCounter::new();
    let mut ctx = Context::default();
    ctx.set_sp(0x4242);
    let mut t = Thread::with_context(&mut counter, 7, stack(), ctx);
    assert_eq!(t.process, 7);
    assert!(!t.inner.sleeping && !t.inner.dead);
    let c = t.retrieve_context();
    assert_eq!(c.sp(), 0x4242);
    assert!(t.inner.context.is_none());
    let mut c2 = c;
    c2.sepc = 0x88;
    t.store_context(c2);
    let back = t.retrieve_context();
    assert_eq!(back.sepc, 0x88);
    assert_eq!(back.sp(), 0x4242);
}

#[test]
fn thread_replace_context_keeps_stack() {
    let mut counter = ThreadCounter::new();
    let t = Thread::with_context(&mut counter, 1, stack(), Context::default());
    let mut ctx = Context::default();
    ctx.sepc = 0x10;
    let n = t.replace_context(&mut counter, 2, ctx);
    assert_eq!(n.id, 2);
    assert_eq!(n.process, 2);
    assert_eq!(n.stack.start.0, 0x1000);
    assert_eq!(n.stack.end.0, 0x9000);
    assert_eq!(n.inner.context.unwrap().sepc, 0x10);
}

#[test]
fn pid_can_dealloc() {
    let mut a = PidAllocator::new();
    let p = a.allocate();
    assert!(a.can_dealloc(p));
    assert!(!a.can_dealloc(p + 1));
    a.dealloc(p);
    assert!(!a.can_dealloc(p));
}

use rcore_kernel::plic::{self, get_intr_source_priority_ptr, get_target_threshold_ptr, PLICIntrSource, PLICTarget};
use rcore_kernel::sysctl::{
    sysctl_clock_bus_en, sysctl_clock_device_en, sysctl_clock_enable, sysctl_reset, sysctl_reset_ctl,
    SYSCTLClock, SYSCTLClockEnableCent, SYSCTLClockEnablePeri, SYSCTLPeriReset, SYSCTLReset, SYSCTLSoftReset,
    SysctlRegisters,
};
use rcore_kernel::uart::{self, UARTRegister};

fn regs() -> SysctlRegisters {
    SysctlRegisters { clk_en_cent: 0x1, clk_en_peri: 0x0, soft_reset: 0, peri_reset: 0 }
}

#[test]
fn sysctl_register_addresses() {
    assert_eq!(SYSCTLClockEnableCent::get_ptr(), 0x5044_0028);
    assert_eq!(SYSCTLClockEnablePeri::get_ptr(), 0x5044_002c);
    assert_eq!(SYSCTLSoftReset::get_ptr(), 0x5044_0030);
    assert_eq!(SYSCTLPeriReset::get_ptr(), 0x5044_0034);
}

#[test]
fn sysctl_from_bits() {
    assert_eq!(SYSCTLClockEnableCent::from_bits(0x3f).map(|f| f.bits), Some(0x3f));
    assert!(SYSCTLClockEnableCent::from_bits(0x40).is_none());
    assert_eq!(SYSCTLClockEnablePeri::from_bits(0x1_0000).map(|f| f.bits), Some(0x1_0000));
    assert!(SYSCTLClockEnablePeri::from_bits(0x1000_0000).is_none());
}

#[test]
fn sysctl_cent_bits() {
    assert_eq!(SYSCTLClockEnableCent::set_cpu_clock_enable(0, true), 1);
    assert_eq!(SYSCTLClockEnableCent::set_cpu_clock_enable(0x3f, false), 0x3e);
    assert_eq!(SYSCTLClockEnableCent::set_sram_clock_enable(0, 0, true), 2);
    assert_eq!(SYSCTLClockEnableCent::set_sram_clock_enable(0, 1, true), 4);
    assert_eq!(SYSCTLClockEnableCent::set_apb_clock_enable(0, 0, true), 8);
    assert_eq!(SYSCTLClockEnableCent::set_apb_clock_enable(0, 1, true), 16);
    assert_eq!(SYSCTLClockEnableCent::set_apb_clock_enable(0x3f, 2, false), 0x1f);
}

#[test]
fn sysctl_peri_bits() {
    assert_eq!(SYSCTLClockEnablePeri::set_uart_clock_enable(0, 1, true), 0x1_0000);
    assert_eq!(SYSCTLClockEnablePeri::set_uart_clock_enable(0, 3, true), 0x4_0000);
    assert_eq!(SYSCTLPeriReset::set_uart_reset(0x2_0000, 2, false), 0);
    assert_eq!(SYSCTLSoftReset::set_soft_reset(0, true), 1);
}

#[test]
fn sysctl_clock_numbers() {
    assert_eq!(SYSCTLClock::SYSCTLClockUART1.number(), 25);
    assert_eq!(SYSCTLClock::SYSCTLClockACLK.number(), 40);
    assert_eq!(SYSCTLReset::SYSCTLResetUART3.number(), 19);
}

#[test]
fn sysctl_bus_enable() {
    let mut r = regs();
    assert_eq!(sysctl_clock_bus_en(&mut r, SYSCTLClock::SYSCTLClockUART1, true), 0);
    assert_eq!(r.clk_en_cent, 0x1 | 8);
    let mut r2 = regs();
    assert_eq!(sysctl_clock_bus_en(&mut r2, SYSCTLClock::SYSCTLClockRTC, true), 0);
    assert_eq!(r2.clk_en_cent, 0x1 | 16);
    let mut r3 = regs();
    sysctl_clock_bus_en(&mut r3, SYSCTLClock::SYSCTLClockSPI0, true);
    assert_eq!(r3.clk_en_cent, 0x1 | 32);
    let mut r4 = regs();
    sysctl_clock_bus_en(&mut r4, SYSCTLClock::SYSCTLClockCPU, false);
    assert_eq!(r4, regs());
}

#[test]
fn sysctl_device_enable() {
    let mut r = regs();
    sysctl_clock_device_en(&mut r, SYSCTLClock::SYSCTLClockUART2, true);
    assert_eq!(r.clk_en_peri, 0x2_0000);
    sysctl_clock_device_en(&mut r, SYSCTLClock::SYSCTLClockUART2, false);
    assert_eq!(r.clk_en_peri, 0);
}

#[test]
fn sysctl_uart1_clock_enable() {
    let mut r = regs();
    sysctl_clock_enable(&mut r, SYSCTLClock::SYSCTLClockUART1);
    assert_eq!(r.clk_en_cent, 0x9);
    assert_eq!(r.clk_en_peri, 0x1_0000);
    assert_eq!(r.soft_reset, 0);
    assert_eq!(r.peri_reset, 0);
}

#[test]
fn sysctl_reset_pulse() {
    let mut r = regs();
    let asserted = sysctl_reset(&mut r, SYSCTLReset::SYSCTLResetUART1);
    assert_eq!(asserted.peri_reset, 0x1_0000);
    assert_eq!(r.peri_reset, 0);
    let mut s = regs();
    sysctl_reset_ctl(&mut s, SYSCTLReset::SYSCTLResetSOC, true);
    assert_eq!(s.soft_reset, 1);
}

#[test]
fn uart_register_addresses() {
    assert_eq!(UARTRegister::THR.get_offset(), 0);
    assert_eq!(UARTRegister::LSR.get_offset(), 0x14);
    assert_eq!(UARTRegister::DLF.get_ptr(), 0x5021_00c0);
    assert_eq!(UARTRegister::LCR.get_ptr(), 0x5021_000c);
}

#[test]
fn uart_init_115200() {
    let c = uart::config(115200);
    assert_eq!(c.divisor, 1692);
    assert_eq!(c.dlh, 0);
    assert_eq!(c.dll, 0x69);
    assert_eq!(c.dlf, 0xc);
    assert_eq!(c.lcr, 3);
    assert_eq!(c.ier, 0x81);
    assert_eq!(c.fcr, 0x79);
}

#[test]
fn uart_init_writes_in_order() {
    let w = uart::init(115200, 0x13);
    assert_eq!(
        w,
        vec![
            (0x5021_000c, 0x93),
            (0x5021_0004, 0),
            (0x5021_0000, 0x69),
            (0x5021_00c0, 0xc),
            (0x5021_000c, 0),
            (0x5021_000c, 3),
            (0x5021_0004, 0x81),
            (0x5021_0008, 0x79),
        ]
    );
}

#[test]
fn plic_addresses() {
    assert_eq!(PLICIntrSource::UARTHSIntr.number(), 33);
    assert_eq!(PLICIntrSource::UART1Intr.number(), 11);
    assert_eq!(PLICTarget::Hart1SIntr.number(), 3);
    assert_eq!(get_intr_source_priority_ptr(PLICIntrSource::UART1Intr), 0x0C00_0000 + 4 * 11);
    assert_eq!(get_target_threshold_ptr(PLICTarget::Hart0SIntr), 0x0C20_1000);
}

#[test]
fn plic_init_thresholds() {
    let w = plic::init();
    assert_eq!(w, vec![(0x0C20_0000, 0), (0x0C20_2000, 1)]);
}

//! K210 system controller: clock-enable and reset registers.
//!
//! Each register is read, its new value computed here, and written back.

use vstd::prelude::*;

verus! {

/// Base address of the system controller's registers.
pub const SYSCTL_BASE_ADDR: u64 = 0x5044_0000;

pub const SYSCTL_CLK_EN_CENT_OFFSET: u64 = 0x28;
pub const SYSCTL_CLK_EN_PERI_OFFSET: u64 = 0x2c;
pub const SYSCTL_SOFT_RESET_OFFSET: u64 = 0x30;
pub const SYSCTL_PERI_RESET_OFFSET: u64 = 0x34;

/// The value with bit `bit` set when `enable` holds and cleared otherwise.
pub open spec fn with_bit(value: u32, bit: u32, enable: bool) -> u32 {
    if enable { value | bit } else { value & !bit }
}

fn set_flag(value: u32, bit: u32, enable: bool) -> (r: u32)
    ensures
        r == with_bit(value, bit, enable),
{
    if enable { value | bit } else { value & !bit }
}

/// Central clock-enable register: CPU, SRAM0/1, APB0/1/2 in bits 0..6.
#[derive(Clone, Copy, PartialEq, Eq, Structural, Debug)]
pub struct SYSCTLClockEnableCent {
    pub bits: u32,
}

/// Bits of the central clock-enable register that name a clock.
pub const CLOCK_ENABLE_CENT_ALL: u32 = 0x3f;

impl SYSCTLClockEnableCent {
    pub fn get_ptr() -> (addr: u64)
        ensures
            addr == SYSCTL_BASE_ADDR + SYSCTL_CLK_EN_CENT_OFFSET,
    {
        SYSCTL_BASE_ADDR + SYSCTL_CLK_EN_CENT_OFFSET
    }

    /// The register value as flags; `None` when it has a bit that names no clock.
    pub fn from_bits(bits: u32) -> (r: Option<Self>)
        ensures
            r == if bits & !CLOCK_ENABLE_CENT_ALL == 0 { Some(SYSCTLClockEnableCent { bits }) } else { None },
    {
        if bits & !CLOCK_ENABLE_CENT_ALL == 0 {
            Some(SYSCTLClockEnableCent { bits })
        } else {
            None
        }
    }

    /// New register value with the CPU clock switched on or off.
    pub fn set_cpu_clock_enable(reg: u32, enable: bool) -> (r: u32)
        requires
            reg & !CLOCK_ENABLE_CENT_ALL == 0,
        ensures
            r == with_bit(reg, 1, enable),
    {
        let flags = match Self::from_bits(reg) {
            Some(f) => f,
            None => SYSCTLClockEnableCent { bits: 0 },
        };
        set_flag(flags.bits, 1, enable)
    }

    /// New register value with the clock of SRAM `sram_id` (0 or 1) switched on or off.
    pub fn set_sram_clock_enable(reg: u32, sram_id: i32, enable: bool) -> (r: u32)
        requires
            reg & !CLOCK_ENABLE_CENT_ALL == 0,
            0 <= sram_id <= 1,
        ensures
            r == with_bit(reg, if sram_id == 0 { 2u32 } else { 4u32 }, enable),
    {
        let flags = match Self::from_bits(reg) {
            Some(f) => f,
            None => SYSCTLClockEnableCent { bits: 0 },
        };
        let bit: u32 = if sram_id == 0 { 2 } else { 4 };
        set_flag(flags.bits, bit, enable)
    }

    /// New register value with the clock of bus APB `apb_id` (0, 1 or 2) switched on or off.
    pub fn set_apb_clock_enable(reg: u32, apb_id: i32, enable: bool) -> (r: u32)
        requires
            reg & !CLOCK_ENABLE_CENT_ALL == 0,
            0 <= apb_id <= 2,
        ensures
            r == with_bit(reg, apb_bit(apb_id), enable),
    {
        let flags = match Self::from_bits(reg) {
            Some(f) => f,
            None => SYSCTLClockEnableCent { bits: 0 },
        };
        let bit: u32 = if apb_id == 0 { 8 } else if apb_id == 1 { 16 } else { 32 };
        set_flag(flags.bits, bit, enable)
    }
}

/// Bit of the clock of bus APB `apb_id` in the central clock-enable register.
pub open spec fn apb_bit(apb_id: i32) -> u32 {
    if apb_id == 0 { 8 } else if apb_id == 1 { 16 } else { 32 }
}

/// Peripheral clock-enable register.
#[derive(Clone, Copy, PartialEq, Eq, Structural, Debug)]
pub struct SYSCTLClockEnablePeri {
    pub bits: u32,
}

/// Bits of the peripheral clock-enable register that name a clock: 0..28 and 29.
pub const CLOCK_ENABLE_PERI_ALL: u32 = 0x2fff_ffff;

/// Bit of UART `uart_id` (1, 2 or 3) in the peripheral clock-enable and
/// reset registers.
pub open spec fn uart_bit(uart_id: int) -> u32 {
    if uart_id == 1 { 0x1_0000 } else if uart_id == 2 { 0x2_0000 } else { 0x4_0000 }
}

fn uart_flag(uart_id: i32) -> (b: u32)
    requires
        1 <= uart_id <= 3,
    ensures
        b == uart_bit(uart_id as int),
{
    if uart_id == 1 { 0x1_0000 } else if uart_id == 2 { 0x2_0000 } else { 0x4_0000 }
}

impl SYSCTLClockEnablePeri {
    pub fn get_ptr() -> (addr: u64)
        ensures
            addr == SYSCTL_BASE_ADDR + SYSCTL_CLK_EN_PERI_OFFSET,
    {
        SYSCTL_BASE_ADDR + SYSCTL_CLK_EN_PERI_OFFSET
    }

    /// The register value as flags; `None` when it has a bit that names no clock.
    pub fn from_bits(bits: u32) -> (r: Option<Self>)
        ensures
            r == if bits & !CLOCK_ENABLE_PERI_ALL == 0 { Some(SYSCTLClockEnablePeri { bits }) } else { None },
    {
        if bits & !CLOCK_ENABLE_PERI_ALL == 0 {
            Some(SYSCTLClockEnablePeri { bits })
        } else {
            None
        }
    }

    /// New register value with the clock of UART `uart_id` (1, 2 or 3) switched on or off.
    pub fn set_uart_clock_enable(reg: u32, uart_id: i32, enable: bool) -> (r: u32)
        requires
            reg & !CLOCK_ENABLE_PERI_ALL == 0,
            1 <= uart_id <= 3,
        ensures
            r == with_bit(reg, uart_bit(uart_id as int), enable),
    {
        let flags = match Self::from_bits(reg) {
            Some(f) => f,
            None => SYSCTLClockEnablePeri { bits: 0 },
        };
        set_flag(flags.bits, uart_flag(uart_id), enable)
    }
}

/// Soft-reset register: bit 0 resets the whole chip.
#[derive(Clone, Copy, PartialEq, Eq, Structural, Debug)]
pub struct SYSCTLSoftReset {
    pub bits: u32,
}

impl SYSCTLSoftReset {
    pub fn get_ptr() -> (addr: u64)
        ensures
            addr == SYSCTL_BASE_ADDR + SYSCTL_SOFT_RESET_OFFSET,
    {
        SYSCTL_BASE_ADDR + SYSCTL_SOFT_RESET_OFFSET
    }

    /// New register value with the chip reset asserted or released.
    pub fn set_soft_reset(reg: u32, value: bool) -> (r: u32)
        requires
            reg & !1u32 == 0,
        ensures
            r == with_bit(reg, 1, value),
    {
        set_flag(reg, 1, value)
    }
}

/// Peripheral reset register.
#[derive(Clone, Copy, PartialEq, Eq, Structural, Debug)]
pub struct SYSCTLPeriReset {
    pub bits: u32,
}

/// Bits of the peripheral reset register that name a peripheral: 0..27 and 29.
pub const PERI_RESET_ALL: u32 = 0x27ff_ffff;

impl SYSCTLPeriReset {
    pub fn get_ptr() -> (addr: u64)
        ensures
            addr == SYSCTL_BASE_ADDR + SYSCTL_PERI_RESET_OFFSET,
    {
        SYSCTL_BASE_ADDR + SYSCTL_PERI_RESET_OFFSET
    }

    /// New register value with the reset of UART `uart_id` (1, 2 or 3) asserted or released.
    pub fn set_uart_reset(reg: u32, uart_id: i32, value: bool) -> (r: u32)
        requires
            reg & !PERI_RESET_ALL == 0,
            1 <= uart_id <= 3,
        ensures
            r == with_bit(reg, uart_bit(uart_id as int), value),
    {
        set_flag(reg, uart_flag(uart_id), value)
    }
}

/// Snapshot of the system controller registers that the driver changes.
#[derive(Clone, Copy, PartialEq, Eq, Structural, Debug)]
pub struct SysctlRegisters {
    pub clk_en_cent: u32,
    pub clk_en_peri: u32,
    pub soft_reset: u32,
    pub peri_reset: u32,
}

impl SysctlRegisters {
    /// Every register holds only bits that name something.
    pub open spec fn valid(self) -> bool {
        &&& self.clk_en_cent & !CLOCK_ENABLE_CENT_ALL == 0
        &&& self.clk_en_peri & !CLOCK_ENABLE_PERI_ALL == 0
        &&& self.soft_reset & !1u32 == 0
        &&& self.peri_reset & !PERI_RESET_ALL == 0
    }
}

/// Clocks of the chip, numbered in the order listed, with the last four
/// numbered from 40.
#[derive(Clone, Copy, PartialEq, Eq, Structural, Debug)]
pub enum SYSCTLClock {
    SYSCTLClockPLL0,
    SYSCTLClockPLL1,
    SYSCTLClockPLL2,
    SYSCTLClockCPU,
    SYSCTLClockSRAM0,
    SYSCTLClockSRAM1,
    SYSCTLClockAPB0,
    SYSCTLClockAPB1,
    SYSCTLClockAPB2,
    SYSCTLClockROM,
    SYSCTLClockDMA,
    SYSCTLClockAI,
    SYSCTLClockDVP,
    SYSCTLClockFFT,
    SYSCTLClockGPI0,
    SYSCTLClockSPI0,
    SYSCTlClockSPI1,
    SYSCTLClockSPI2,
    SYSCTLClockSPI3,
    SYSCTLClockI2S0,
    SYSCTLClockI2S1,
    SYSCTLClockI2S2,
    SYSCTLClockI2C0,
    SYSCTLClockI2C1,
    SYSCTLClockI2C2,
    SYSCTLClockUART1,
    SYSCTLClockUART2,
    SYSCTLClockUART3,
    SYSCTLClockAES,
    SYSCTLClockFPIOA,
    SYSCTLClockTimer0,
    SYSCTLClockTimer1,
    SYSCTLClockTimer2,
    SYSCTLClockWDT0,
    SYSCTLClockWDT1,
    SYSCTLClockSHA,
    SYSCTLClockOTP,
    SYSCTLClockRTC,
    SYSCTLClockACLK,
    SYSCTLClockHCLK,
    SYSCTLClockIn0,
    SYSCTLClockMax,
}

/// The number of a clock.
pub open spec fn clock_number(c: SYSCTLClock) -> i32 {
    match c {
        SYSCTLClock::SYSCTLClockPLL0 => 0,
        SYSCTLClock::SYSCTLClockPLL1 => 1,
        SYSCTLClock::SYSCTLClockPLL2 => 2,
        SYSCTLClock::SYSCTLClockCPU => 3,
        SYSCTLClock::SYSCTLClockSRAM0 => 4,
        SYSCTLClock::SYSCTLClockSRAM1 => 5,
        SYSCTLClock::SYSCTLClockAPB0 => 6,
        SYSCTLClock::SYSCTLClockAPB1 => 7,
        SYSCTLClock::SYSCTLClockAPB2 => 8,
        SYSCTLClock::SYSCTLClockROM => 9,
        SYSCTLClock::SYSCTLClockDMA => 10,
        SYSCTLClock::SYSCTLClockAI => 11,
        SYSCTLClock::SYSCTLClockDVP => 12,
        SYSCTLClock::SYSCTLClockFFT => 13,
        SYSCTLClock::SYSCTLClockGPI0 => 14,
        SYSCTLClock::SYSCTLClockSPI0 => 15,
        SYSCTLClock::SYSCTlClockSPI1 => 16,
        SYSCTLClock::SYSCTLClockSPI2 => 17,
        SYSCTLClock::SYSCTLClockSPI3 => 18,
        SYSCTLClock::SYSCTLClockI2S0 => 19,
        SYSCTLClock::SYSCTLClockI2S1 => 20,
        SYSCTLClock::SYSCTLClockI2S2 => 21,
        SYSCTLClock::SYSCTLClockI2C0 => 22,
        SYSCTLClock::SYSCTLClockI2C1 => 23,
        SYSCTLClock::SYSCTLClockI2C2 => 24,
        SYSCTLClock::SYSCTLClockUART1 => 25,
        SYSCTLClock::SYSCTLClockUART2 => 26,
        SYSCTLClock::SYSCTLClockUART3 => 27,
        SYSCTLClock::SYSCTLClockAES => 28,
        SYSCTLClock::SYSCTLClockFPIOA => 29,
        SYSCTLClock::SYSCTLClockTimer0 => 30,
        SYSCTLClock::SYSCTLClockTimer1 => 31,
        SYSCTLClock::SYSCTLClockTimer2 => 32,
        SYSCTLClock::SYSCTLClockWDT0 => 33,
        SYSCTLClock::SYSCTLClockWDT1 => 34,
        SYSCTLClock::SYSCTLClockSHA => 35,
        SYSCTLClock::SYSCTLClockOTP => 36,
        SYSCTLClock::SYSCTLClockRTC => 37,
        SYSCTLClock::SYSCTLClockACLK => 40,
        SYSCTLClock::SYSCTLClockHCLK => 41,
        SYSCTLClock::SYSCTLClockIn0 => 42,
        SYSCTLClock::SYSCTLClockMax => 43,
    }
}

impl SYSCTLClock {
    /// The number of this clock.
    pub fn number(&self) -> (n: i32)
        ensures
            n == clock_number(*self),
    {
        match self {
            SYSCTLClock::SYSCTLClockPLL0 => 0,
            SYSCTLClock::SYSCTLClockPLL1 => 1,
            SYSCTLClock::SYSCTLClockPLL2 => 2,
            SYSCTLClock::SYSCTLClockCPU => 3,
            SYSCTLClock::SYSCTLClockSRAM0 => 4,
            SYSCTLClock::SYSCTLClockSRAM1 => 5,
            SYSCTLClock::SYSCTLClockAPB0 => 6,
            SYSCTLClock::SYSCTLClockAPB1 => 7,
            SYSCTLClock::SYSCTLClockAPB2 => 8,
            SYSCTLClock::SYSCTLClockROM => 9,
            SYSCTLClock::SYSCTLClockDMA => 10,
            SYSCTLClock::SYSCTLClockAI => 11,
            SYSCTLClock::SYSCTLClockDVP => 12,
            SYSCTLClock::SYSCTLClockFFT => 13,
            SYSCTLClock::SYSCTLClockGPI0 => 14,
            SYSCTLClock::SYSCTLClockSPI0 => 15,
            SYSCTLClock::SYSCTlClockSPI1 => 16,
            SYSCTLClock::SYSCTLClockSPI2 => 17,
            SYSCTLClock::SYSCTLClockSPI3 => 18,
            SYSCTLClock::SYSCTLClockI2S0 => 19,
            SYSCTLClock::SYSCTLClockI2S1 => 20,
            SYSCTLClock::SYSCTLClockI2S2 => 21,
            SYSCTLClock::SYSCTLClockI2C0 => 22,
            SYSCTLClock::SYSCTLClockI2C1 => 23,
            SYSCTLClock::SYSCTLClockI2C2 => 24,
            SYSCTLClock::SYSCTLClockUART1 => 25,
            SYSCTLClock::SYSCTLClockUART2 => 26,
            SYSCTLClock::SYSCTLClockUART3 => 27,
            SYSCTLClock::SYSCTLClockAES => 28,
            SYSCTLClock::SYSCTLClockFPIOA => 29,
            SYSCTLClock::SYSCTLClockTimer0 => 30,
            SYSCTLClock::SYSCTLClockTimer1 => 31,
            SYSCTLClock::SYSCTLClockTimer2 => 32,
            SYSCTLClock::SYSCTLClockWDT0 => 33,
            SYSCTLClock::SYSCTLClockWDT1 => 34,
            SYSCTLClock::SYSCTLClockSHA => 35,
            SYSCTLClock::SYSCTLClockOTP => 36,
            SYSCTLClock::SYSCTLClockRTC => 37,
            SYSCTLClock::SYSCTLClockACLK => 40,
            SYSCTLClock::SYSCTLClockHCLK => 41,
            SYSCTLClock::SYSCTLClockIn0 => 42,
            SYSCTLClock::SYSCTLClockMax => 43,
        }
    }
}

/// Clocks fed from bus APB0.
pub open spec fn on_apb0(c: SYSCTLClock) -> bool {
    matches!(c, SYSCTLClock::SYSCTLClockGPI0 | SYSCTLClock::SYSCTLClockSPI2 | SYSCTLClock::SYSCTLClockI2S0
        | SYSCTLClock::SYSCTLClockI2S1 | SYSCTLClock::SYSCTLClockI2S2 | SYSCTLClock::SYSCTLClockI2C0
        | SYSCTLClock::SYSCTLClockI2C1 | SYSCTLClock::SYSCTLClockI2C2 | SYSCTLClock::SYSCTLClockUART1
        | SYSCTLClock::SYSCTLClockUART2 | SYSCTLClock::SYSCTLClockUART3 | SYSCTLClock::SYSCTLClockFPIOA
        | SYSCTLClock::SYSCTLClockTimer0 | SYSCTLClock::SYSCTLClockTimer1 | SYSCTLClock::SYSCTLClockTimer2
        | SYSCTLClock::SYSCTLClockSHA)
}

/// Clocks fed from bus APB1.
pub open spec fn on_apb1(c: SYSCTLClock) -> bool {
    matches!(c, SYSCTLClock::SYSCTLClockAES | SYSCTLClock::SYSCTLClockWDT0 | SYSCTLClock::SYSCTLClockWDT1
        | SYSCTLClock::SYSCTLClockOTP | SYSCTLClock::SYSCTLClockRTC)
}

/// Clocks fed from bus APB2.
pub open spec fn on_apb2(c: SYSCTLClock) -> bool {
    matches!(c, SYSCTLClock::SYSCTLClockSPI0 | SYSCTLClock::SYSCTlClockSPI1)
}

/// The K210's buses: GPIO, SPI2, I2S0-2, I2C0-2, UART1-3, FPIOA, TIMER0-2
/// and SHA hang off APB0; AES, WDT0-1, OTP and RTC off APB1; SPI0 and SPI1
/// off APB2; every other clock off none of them, and no clock off two.
pub proof fn law_clock_buses(c: SYSCTLClock)
    ensures
        on_apb0(c) <==> (c == SYSCTLClock::SYSCTLClockGPI0 || c == SYSCTLClock::SYSCTLClockSPI2
            || c == SYSCTLClock::SYSCTLClockI2S0 || c == SYSCTLClock::SYSCTLClockI2S1
            || c == SYSCTLClock::SYSCTLClockI2S2 || c == SYSCTLClock::SYSCTLClockI2C0
            || c == SYSCTLClock::SYSCTLClockI2C1 || c == SYSCTLClock::SYSCTLClockI2C2
            || c == SYSCTLClock::SYSCTLClockUART1 || c == SYSCTLClock::SYSCTLClockUART2
            || c == SYSCTLClock::SYSCTLClockUART3 || c == SYSCTLClock::SYSCTLClockFPIOA
            || c == SYSCTLClock::SYSCTLClockTimer0 || c == SYSCTLClock::SYSCTLClockTimer1
            || c == SYSCTLClock::SYSCTLClockTimer2 || c == SYSCTLClock::SYSCTLClockSHA),
        on_apb1(c) <==> (c == SYSCTLClock::SYSCTLClockAES || c == SYSCTLClock::SYSCTLClockWDT0
            || c == SYSCTLClock::SYSCTLClockWDT1 || c == SYSCTLClock::SYSCTLClockOTP
            || c == SYSCTLClock::SYSCTLClockRTC),
        on_apb2(c) <==> (c == SYSCTLClock::SYSCTLClockSPI0 || c == SYSCTLClock::SYSCTlClockSPI1),
        !(on_apb0(c) && on_apb1(c)) && !(on_apb0(c) && on_apb2(c)) && !(on_apb1(c) && on_apb2(c)),
{
}

/// The UART clocks, the only ones whose device clock the driver can switch.
pub open spec fn is_uart_clock(c: SYSCTLClock) -> bool {
    matches!(c, SYSCTLClock::SYSCTLClockUART1 | SYSCTLClock::SYSCTLClockUART2 | SYSCTLClock::SYSCTLClockUART3)
}

/// Switches on the bus that feeds `sysctl_clock`: APB0, APB1 or APB2.
/// Switching off is left to the caller and changes nothing. Returns 0.
pub fn sysctl_clock_bus_en(regs: &mut SysctlRegisters, sysctl_clock: SYSCTLClock, enable: bool) -> (r: i32)
    requires
        old(regs).clk_en_cent & !CLOCK_ENABLE_CENT_ALL == 0,
        enable ==> on_apb0(sysctl_clock) || on_apb1(sysctl_clock) || on_apb2(sysctl_clock),
    ensures
        r == 0,
        old(regs).valid() ==> final(regs).valid(),
        !enable ==> *final(regs) == *old(regs),
        enable && (sysctl_clock == SYSCTLClock::SYSCTLClockGPI0 || sysctl_clock == SYSCTLClock::SYSCTLClockSPI2
            || sysctl_clock == SYSCTLClock::SYSCTLClockI2S0 || sysctl_clock == SYSCTLClock::SYSCTLClockI2S1
            || sysctl_clock == SYSCTLClock::SYSCTLClockI2S2 || sysctl_clock == SYSCTLClock::SYSCTLClockI2C0
            || sysctl_clock == SYSCTLClock::SYSCTLClockI2C1 || sysctl_clock == SYSCTLClock::SYSCTLClockI2C2
            || sysctl_clock == SYSCTLClock::SYSCTLClockUART1 || sysctl_clock == SYSCTLClock::SYSCTLClockUART2
            || sysctl_clock == SYSCTLClock::SYSCTLClockUART3 || sysctl_clock == SYSCTLClock::SYSCTLClockFPIOA
            || sysctl_clock == SYSCTLClock::SYSCTLClockTimer0 || sysctl_clock == SYSCTLClock::SYSCTLClockTimer1
            || sysctl_clock == SYSCTLClock::SYSCTLClockTimer2 || sysctl_clock == SYSCTLClock::SYSCTLClockSHA)
            ==> final(regs).clk_en_cent == old(regs).clk_en_cent | 8,
        enable && (sysctl_clock == SYSCTLClock::SYSCTLClockAES || sysctl_clock == SYSCTLClock::SYSCTLClockWDT0
            || sysctl_clock == SYSCTLClock::SYSCTLClockWDT1 || sysctl_clock == SYSCTLClock::SYSCTLClockOTP
            || sysctl_clock == SYSCTLClock::SYSCTLClockRTC) ==> final(regs).clk_en_cent == old(regs).clk_en_cent | 16,
        enable && (sysctl_clock == SYSCTLClock::SYSCTLClockSPI0 || sysctl_clock == SYSCTLClock::SYSCTlClockSPI1)
            ==> final(regs).clk_en_cent == old(regs).clk_en_cent | 32,
        enable ==> *final(regs) == (SysctlRegisters {
            clk_en_cent: with_bit(old(regs).clk_en_cent,
                if on_apb0(sysctl_clock) { 8u32 } else if on_apb1(sysctl_clock) { 16u32 } else { 32u32 }, true),
            ..*old(regs)
        }),
{
    if !enable {
        return 0;
    }
    let apb: i32 = match sysctl_clock {
        SYSCTLClock::SYSCTLClockGPI0 | SYSCTLClock::SYSCTLClockSPI2 | SYSCTLClock::SYSCTLClockI2S0
        | SYSCTLClock::SYSCTLClockI2S1 | SYSCTLClock::SYSCTLClockI2S2 | SYSCTLClock::SYSCTLClockI2C0
        | SYSCTLClock::SYSCTLClockI2C1 | SYSCTLClock::SYSCTLClockI2C2 | SYSCTLClock::SYSCTLClockUART1
        | SYSCTLClock::SYSCTLClockUART2 | SYSCTLClock::SYSCTLClockUART3 | SYSCTLClock::SYSCTLClockFPIOA
        | SYSCTLClock::SYSCTLClockTimer0 | SYSCTLClock::SYSCTLClockTimer1 | SYSCTLClock::SYSCTLClockTimer2
        | SYSCTLClock::SYSCTLClockSHA => 0,
        SYSCTLClock::SYSCTLClockAES | SYSCTLClock::SYSCTLClockWDT0 | SYSCTLClock::SYSCTLClockWDT1
        | SYSCTLClock::SYSCTLClockOTP | SYSCTLClock::SYSCTLClockRTC => 1,
        _ => 2,
    };
    let v = SYSCTLClockEnableCent::set_apb_clock_enable(regs.clk_en_cent, apb, true);
    proof {
        let old_v = old(regs).clk_en_cent;
        let b = apb_bit(apb);
        assert(b & !CLOCK_ENABLE_CENT_ALL == 0 && (old_v | b) & !CLOCK_ENABLE_CENT_ALL == 0) by (bit_vector)
            requires old_v & !0x3fu32 == 0, b == 8u32 || b == 16u32 || b == 32u32;
    }
    regs.clk_en_cent = v;
    0
}

/// Switches the device clock of UART clock `sysctl_clock` on or off.
pub fn sysctl_clock_device_en(regs: &mut SysctlRegisters, sysctl_clock: SYSCTLClock, enable: bool)
    requires
        old(regs).clk_en_peri & !CLOCK_ENABLE_PERI_ALL == 0,
        is_uart_clock(sysctl_clock),
    ensures
        old(regs).valid() ==> final(regs).valid(),
        *final(regs) == (SysctlRegisters {
            clk_en_peri: with_bit(old(regs).clk_en_peri,
                uart_bit(clock_number(sysctl_clock) - clock_number(SYSCTLClock::SYSCTLClockUART1) + 1), enable),
            ..*old(regs)
        }),
{
    let id = sysctl_clock.number() - SYSCTLClock::SYSCTLClockUART1.number() + 1;
    let v = SYSCTLClockEnablePeri::set_uart_clock_enable(regs.clk_en_peri, id, enable);
    proof {
        let old_v = old(regs).clk_en_peri;
        let b = uart_bit(id as int);
        assert((old_v | b) & !0x2fff_ffffu32 == 0 && (old_v & !b) & !0x2fff_ffffu32 == 0) by (bit_vector)
            requires old_v & !0x2fff_ffffu32 == 0, b == 0x1_0000u32 || b == 0x2_0000u32 || b == 0x4_0000u32;
    }
    regs.clk_en_peri = v;
}

/// Switches on clock `sysctl_clock`: its bus clock, then its device clock.
/// The driver handles the UART clocks only.
pub fn sysctl_clock_enable(regs: &mut SysctlRegisters, sysctl_clock: SYSCTLClock)
    requires
        old(regs).clk_en_cent & !CLOCK_ENABLE_CENT_ALL == 0,
        old(regs).clk_en_peri & !CLOCK_ENABLE_PERI_ALL == 0,
        is_uart_clock(sysctl_clock),
    ensures
        old(regs).valid() ==> final(regs).valid(),
        *final(regs) == (SysctlRegisters {
            clk_en_cent: old(regs).clk_en_cent | 8u32,
            clk_en_peri: old(regs).clk_en_peri
                | uart_bit(clock_number(sysctl_clock) - clock_number(SYSCTLClock::SYSCTLClockUART1) + 1),
            ..*old(regs)
        }),
{
    if sysctl_clock.number() >= SYSCTLClock::SYSCTLClockMax.number() {
        return;
    }
    sysctl_clock_bus_en(regs, sysctl_clock, true);
    sysctl_clock_device_en(regs, sysctl_clock, true);
}

/// Reset lines of the chip, numbered in the order listed.
#[derive(Clone, Copy, PartialEq, Eq, Structural, Debug)]
pub enum SYSCTLReset {
    SYSCTLResetSOC,
    SYSCTLResetROM,
    YSCTLResetDMA,
    SYSCTLResetAI,
    SYSCTLResetDVP,
    SYSCTLResetFFT,
    SYSCTLResetGPIO,
    SYSCTLResetSPI0,
    SYSCTLResetSPI1,
    SYSCTLResetSPI2,
    SYSCTLResetSPI3,
    SYSCTLResetI2S0,
    SYSCTLResetI2S1,
    SYSCTLResetI2S2,
    SYSCTLResetI2C0,
    SYSCTLResetI2C1,
    SYSCTLResetI2C2,
    SYSCTLResetUART1,
    SYSCTLResetUART2,
    SYSCTLResetUART3,
    SYSCTLResetAES,
    SYSCTLResetFPIOA,
    SYSCTLResetTimer0,
    SYSCTLResetTimer1,
    SYSCTLResetTimer2,
    SYSCTLResetWDT0,
    SYSCTLResetWDT1,
    SYSCTLResetSHA,
    SYSCTLResetRTC,
    SYSCTLResetMax,
}

/// The number of a reset line.
pub open spec fn reset_number(r: SYSCTLReset) -> i32 {
    match r {
        SYSCTLReset::SYSCTLResetSOC => 0,
        SYSCTLReset::SYSCTLResetROM => 1,
        SYSCTLReset::YSCTLResetDMA => 2,
        SYSCTLReset::SYSCTLResetAI => 3,
        SYSCTLReset::SYSCTLResetDVP => 4,
        SYSCTLReset::SYSCTLResetFFT => 5,
        SYSCTLReset::SYSCTLResetGPIO => 6,
        SYSCTLReset::SYSCTLResetSPI0 => 7,
        SYSCTLReset::SYSCTLResetSPI1 => 8,
        SYSCTLReset::SYSCTLResetSPI2 => 9,
        SYSCTLReset::SYSCTLResetSPI3 => 10,
        SYSCTLReset::SYSCTLResetI2S0 => 11,
        SYSCTLReset::SYSCTLResetI2S1 => 12,
        SYSCTLReset::SYSCTLResetI2S2 => 13,
        SYSCTLReset::SYSCTLResetI2C0 => 14,
        SYSCTLReset::SYSCTLResetI2C1 => 15,
        SYSCTLReset::SYSCTLResetI2C2 => 16,
        SYSCTLReset::SYSCTLResetUART1 => 17,
        SYSCTLReset::SYSCTLResetUART2 => 18,
        SYSCTLReset::SYSCTLResetUART3 => 19,
        SYSCTLReset::SYSCTLResetAES => 20,
        SYSCTLReset::SYSCTLResetFPIOA => 21,
        SYSCTLReset::SYSCTLResetTimer0 => 22,
        SYSCTLReset::SYSCTLResetTimer1 => 23,
        SYSCTLReset::SYSCTLResetTimer2 => 24,
        SYSCTLReset::SYSCTLResetWDT0 => 25,
        SYSCTLReset::SYSCTLResetWDT1 => 26,
        SYSCTLReset::SYSCTLResetSHA => 27,
        SYSCTLReset::SYSCTLResetRTC => 28,
        SYSCTLReset::SYSCTLResetMax => 29,
    }
}

impl SYSCTLReset {
    /// The number of this reset line.
    pub fn number(&self) -> (n: i32)
        ensures
            n == reset_number(*self),
    {
        match self {
            SYSCTLReset::SYSCTLResetSOC => 0,
            SYSCTLReset::SYSCTLResetROM => 1,
            SYSCTLReset::YSCTLResetDMA => 2,
            SYSCTLReset::SYSCTLResetAI => 3,
            SYSCTLReset::SYSCTLResetDVP => 4,
            SYSCTLReset::SYSCTLResetFFT => 5,
            SYSCTLReset::SYSCTLResetGPIO => 6,
            SYSCTLReset::SYSCTLResetSPI0 => 7,
            SYSCTLReset::SYSCTLResetSPI1 => 8,
            SYSCTLReset::SYSCTLResetSPI2 => 9,
            SYSCTLReset::SYSCTLResetSPI3 => 10,
            SYSCTLReset::SYSCTLResetI2S0 => 11,
            SYSCTLReset::SYSCTLResetI2S1 => 12,
            SYSCTLReset::SYSCTLResetI2S2 => 13,
            SYSCTLReset::SYSCTLResetI2C0 => 14,
            SYSCTLReset::SYSCTLResetI2C1 => 15,
            SYSCTLReset::SYSCTLResetI2C2 => 16,
            SYSCTLReset::SYSCTLResetUART1 => 17,
            SYSCTLReset::SYSCTLResetUART2 => 18,
            SYSCTLReset::SYSCTLResetUART3 => 19,
            SYSCTLReset::SYSCTLResetAES => 20,
            SYSCTLReset::SYSCTLResetFPIOA => 21,
            SYSCTLReset::SYSCTLResetTimer0 => 22,
            SYSCTLReset::SYSCTLResetTimer1 => 23,
            SYSCTLReset::SYSCTLResetTimer2 => 24,
            SYSCTLReset::SYSCTLResetWDT0 => 25,
            SYSCTLReset::SYSCTLResetWDT1 => 26,
            SYSCTLReset::SYSCTLResetSHA => 27,
            SYSCTLReset::SYSCTLResetRTC => 28,
            SYSCTLReset::SYSCTLResetMax => 29,
        }
    }
}

/// The reset lines the driver handles: the whole chip and the UARTs.
pub open spec fn handled_reset(r: SYSCTLReset) -> bool {
    matches!(r, SYSCTLReset::SYSCTLResetSOC | SYSCTLReset::SYSCTLResetUART1 | SYSCTLReset::SYSCTLResetUART2
        | SYSCTLReset::SYSCTLResetUART3)
}

/// The registers with reset line `reset` asserted (`value`) or released.
pub open spec fn reset_applied(regs: SysctlRegisters, reset: SYSCTLReset, value: bool) -> SysctlRegisters {
    if reset == SYSCTLReset::SYSCTLResetSOC {
        SysctlRegisters { soft_reset: with_bit(regs.soft_reset, 1, value), ..regs }
    } else {
        SysctlRegisters {
            peri_reset: with_bit(regs.peri_reset,
                uart_bit(reset_number(reset) - reset_number(SYSCTLReset::SYSCTLResetUART1) + 1), value),
            ..regs
        }
    }
}

/// The register that reset line `reset` lives in holds no undefined bits:
/// the soft-reset register for the whole chip, the peripheral-reset
/// register otherwise.
pub open spec fn reset_register_ok(regs: SysctlRegisters, reset: SYSCTLReset) -> bool {
    if reset == SYSCTLReset::SYSCTLResetSOC {
        regs.soft_reset & !1u32 == 0
    } else {
        regs.peri_reset & !PERI_RESET_ALL == 0
    }
}

/// Asserts (`value`) or releases reset line `sysctl_reset`.
pub fn sysctl_reset_ctl(regs: &mut SysctlRegisters, sysctl_reset: SYSCTLReset, value: bool)
    requires
        reset_register_ok(*old(regs), sysctl_reset),
        handled_reset(sysctl_reset),
    ensures
        reset_register_ok(*final(regs), sysctl_reset),
        old(regs).valid() ==> final(regs).valid(),
        *final(regs) == reset_applied(*old(regs), sysctl_reset, value),
{
    match sysctl_reset {
        SYSCTLReset::SYSCTLResetSOC => {
            let v = SYSCTLSoftReset::set_soft_reset(regs.soft_reset, value);
            proof {
                let old_v = old(regs).soft_reset;
                assert((old_v | 1u32) & !1u32 == 0 && (old_v & !1u32) & !1u32 == 0) by (bit_vector)
                    requires old_v & !1u32 == 0;
            }
            regs.soft_reset = v;
        },
        _ => {
            let id = sysctl_reset.number() - SYSCTLReset::SYSCTLResetUART1.number() + 1;
            let v = SYSCTLPeriReset::set_uart_reset(regs.peri_reset, id, value);
            proof {
                let old_v = old(regs).peri_reset;
                let b = uart_bit(id as int);
                assert((old_v | b) & !0x27ff_ffffu32 == 0 && (old_v & !b) & !0x27ff_ffffu32 == 0) by (bit_vector)
                    requires old_v & !0x27ff_ffffu32 == 0, b == 0x1_0000u32 || b == 0x2_0000u32 || b == 0x4_0000u32;
            }
            regs.peri_reset = v;
        },
    }
}

/// Pulses reset line `sysctl_reset`: the result is the register state to
/// write while the line is asserted, for 100 microseconds; `regs` ends with
/// it released again.
pub fn sysctl_reset(regs: &mut SysctlRegisters, reset: SYSCTLReset) -> (asserted: SysctlRegisters)
    requires
        reset_register_ok(*old(regs), reset),
        handled_reset(reset),
    ensures
        old(regs).valid() ==> asserted.valid(),
        asserted == reset_applied(*old(regs), reset, true),
        old(regs).valid() ==> final(regs).valid(),
        *final(regs) == reset_applied(asserted, reset, false),
{
    sysctl_reset_ctl(regs, reset, true);
    let asserted = *regs;
    sysctl_reset_ctl(regs, reset, false);
    asserted
}

/// Pulsing a reset line that is released leaves the registers as they were:
/// the line is asserted, then released again.
pub proof fn law_reset_pulse_restores(regs: SysctlRegisters, reset: SYSCTLReset)
    requires
        regs.valid(),
        handled_reset(reset),
        reset == SYSCTLReset::SYSCTLResetSOC ==> regs.soft_reset & 1 == 0,
        reset != SYSCTLReset::SYSCTLResetSOC ==> regs.peri_reset
            & uart_bit(reset_number(reset) - reset_number(SYSCTLReset::SYSCTLResetUART1) + 1) == 0,
    ensures
        reset_applied(reset_applied(regs, reset, true), reset, false) == regs,
{
    if reset == SYSCTLReset::SYSCTLResetSOC {
        let v = regs.soft_reset;
        assert((v | 1u32) & !1u32 == v) by (bit_vector)
            requires v & 1u32 == 0u32;
    } else {
        let v = regs.peri_reset;
        let b = uart_bit(reset_number(reset) - reset_number(SYSCTLReset::SYSCTLResetUART1) + 1);
        assert((v | b) & !b == v) by (bit_vector)
            requires v & b == 0u32;
    }
}

/// The K210's UART bits: UART1, UART2 and UART3 have device-clock enable
/// bits 16, 17 and 18 of the peripheral clock-enable register and reset
/// bits 16, 17 and 18 of the peripheral reset register; the whole chip's
/// reset is bit 0 of the soft-reset register. Asserting or releasing a
/// line changes that bit alone.
pub proof fn law_uart_bits(regs: SysctlRegisters, value: bool)
    ensures
        uart_bit(clock_number(SYSCTLClock::SYSCTLClockUART1) - clock_number(SYSCTLClock::SYSCTLClockUART1) + 1)
            == 0x1_0000,
        uart_bit(clock_number(SYSCTLClock::SYSCTLClockUART2) - clock_number(SYSCTLClock::SYSCTLClockUART1) + 1)
            == 0x2_0000,
        uart_bit(clock_number(SYSCTLClock::SYSCTLClockUART3) - clock_number(SYSCTLClock::SYSCTLClockUART1) + 1)
            == 0x4_0000,
        reset_applied(regs, SYSCTLReset::SYSCTLResetUART1, value) == (SysctlRegisters {
            peri_reset: with_bit(regs.peri_reset, 0x1_0000, value),
            ..regs
        }),
        reset_applied(regs, SYSCTLReset::SYSCTLResetUART2, value) == (SysctlRegisters {
            peri_reset: with_bit(regs.peri_reset, 0x2_0000, value),
            ..regs
        }),
        reset_applied(regs, SYSCTLReset::SYSCTLResetUART3, value) == (SysctlRegisters {
            peri_reset: with_bit(regs.peri_reset, 0x4_0000, value),
            ..regs
        }),
        reset_applied(regs, SYSCTLReset::SYSCTLResetSOC, value) == (SysctlRegisters {
            soft_reset: with_bit(regs.soft_reset, 1, value),
            ..regs
        }),
{
}

} // verus!

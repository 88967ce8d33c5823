//! Platform-level interrupt controller: register addresses.

use vstd::prelude::*;

verus! {

/// Base address of the interrupt controller's registers.
pub const PLIC_BASE_ADDR: u64 = 0x0C00_0000;
pub const PLIC_PRIORITY_OFFSET: u64 = 0x0;
pub const PLIC_PRIORITY_STRIDE: u64 = 0x4;
pub const PLIC_IP_OFFSET: u64 = 0x1000;
pub const PLIC_IE_OFFSET: u64 = 0x2000;
pub const PLIC_IE_STRIDE_PER_TARGET: u64 = 0x80;
pub const PLIC_THRESHOLD_OFFSET: u64 = 0x20_0000;
pub const PLIC_THRESHOLD_STRIDE_PER_TARGET: u64 = 0x1000;
pub const PLIC_CLAIM_COMPLETE_OFFSET: u64 = 0x20_0004;

/// Interrupt sources of the controller, numbered from 0 (no interrupt) in
/// the order listed.
#[derive(Clone, Copy, PartialEq, Eq, Structural, Debug)]
pub enum PLICIntrSource {
    NoIntr,
    SPI0Intr,
    SPI1Intr,
    SPISlaveIntr,
    SPI3Intr,
    I2S0Intr,
    I2S1Intr,
    I2S2Intr,
    I2C0Intr,
    I2C1Intr,
    I2C2Intr,
    UART1Intr,
    UART2Intr,
    UART3Intr,
    Timer0AIntr,
    Timer0BIntr,
    Timer1AIntr,
    Timer1BIntr,
    Timer2AIntr,
    Timer2BIntr,
    RTCIntr,
    WDT0Intr,
    WDT1Intr,
    APBGPIOIntr,
    DVPIntr,
    AIIntr,
    FFTIntr,
    DMA0Intr,
    DMA1Intr,
    DMA2Intr,
    DMA3Intr,
    DMA4Intr,
    DMA5Intr,
    UARTHSIntr,
    GPIO0Intr,
    GPIO1Intr,
    GPIO2Intr,
    GPIO3Intr,
    GPIO4Intr,
    GPIO5Intr,
    GPIO6Intr,
    GPIO7Intr,
    GPIO8Intr,
    GPIO9Intr,
    GPIO10Intr,
    GPIO11Intr,
    GPIO12Intr,
    GPIO13Intr,
    GPIO14Intr,
    GPIO15Intr,
    GPIO16Intr,
    GPIO17Intr,
    GPIO18Intr,
    GPIO19Intr,
    GPIO20Intr,
    GPIO21Intr,
    GPIO22Intr,
    GPIO23Intr,
    GPIO24Intr,
    GPIO25Intr,
    GPIO26Intr,
    GPIO27Intr,
    GPIO28Intr,
    GPIO29Intr,
    GPIO30Intr,
    GPIO31Intr,
}

/// The number of an interrupt source.
pub open spec fn source_number(source: PLICIntrSource) -> u64 {
    match source {
        PLICIntrSource::NoIntr => 0,
        PLICIntrSource::SPI0Intr => 1,
        PLICIntrSource::SPI1Intr => 2,
        PLICIntrSource::SPISlaveIntr => 3,
        PLICIntrSource::SPI3Intr => 4,
        PLICIntrSource::I2S0Intr => 5,
        PLICIntrSource::I2S1Intr => 6,
        PLICIntrSource::I2S2Intr => 7,
        PLICIntrSource::I2C0Intr => 8,
        PLICIntrSource::I2C1Intr => 9,
        PLICIntrSource::I2C2Intr => 10,
        PLICIntrSource::UART1Intr => 11,
        PLICIntrSource::UART2Intr => 12,
        PLICIntrSource::UART3Intr => 13,
        PLICIntrSource::Timer0AIntr => 14,
        PLICIntrSource::Timer0BIntr => 15,
        PLICIntrSource::Timer1AIntr => 16,
        PLICIntrSource::Timer1BIntr => 17,
        PLICIntrSource::Timer2AIntr => 18,
        PLICIntrSource::Timer2BIntr => 19,
        PLICIntrSource::RTCIntr => 20,
        PLICIntrSource::WDT0Intr => 21,
        PLICIntrSource::WDT1Intr => 22,
        PLICIntrSource::APBGPIOIntr => 23,
        PLICIntrSource::DVPIntr => 24,
        PLICIntrSource::AIIntr => 25,
        PLICIntrSource::FFTIntr => 26,
        PLICIntrSource::DMA0Intr => 27,
        PLICIntrSource::DMA1Intr => 28,
        PLICIntrSource::DMA2Intr => 29,
        PLICIntrSource::DMA3Intr => 30,
        PLICIntrSource::DMA4Intr => 31,
        PLICIntrSource::DMA5Intr => 32,
        PLICIntrSource::UARTHSIntr => 33,
        PLICIntrSource::GPIO0Intr => 34,
        PLICIntrSource::GPIO1Intr => 35,
        PLICIntrSource::GPIO2Intr => 36,
        PLICIntrSource::GPIO3Intr => 37,
        PLICIntrSource::GPIO4Intr => 38,
        PLICIntrSource::GPIO5Intr => 39,
        PLICIntrSource::GPIO6Intr => 40,
        PLICIntrSource::GPIO7Intr => 41,
        PLICIntrSource::GPIO8Intr => 42,
        PLICIntrSource::GPIO9Intr => 43,
        PLICIntrSource::GPIO10Intr => 44,
        PLICIntrSource::GPIO11Intr => 45,
        PLICIntrSource::GPIO12Intr => 46,
        PLICIntrSource::GPIO13Intr => 47,
        PLICIntrSource::GPIO14Intr => 48,
        PLICIntrSource::GPIO15Intr => 49,
        PLICIntrSource::GPIO16Intr => 50,
        PLICIntrSource::GPIO17Intr => 51,
        PLICIntrSource::GPIO18Intr => 52,
        PLICIntrSource::GPIO19Intr => 53,
        PLICIntrSource::GPIO20Intr => 54,
        PLICIntrSource::GPIO21Intr => 55,
        PLICIntrSource::GPIO22Intr => 56,
        PLICIntrSource::GPIO23Intr => 57,
        PLICIntrSource::GPIO24Intr => 58,
        PLICIntrSource::GPIO25Intr => 59,
        PLICIntrSource::GPIO26Intr => 60,
        PLICIntrSource::GPIO27Intr => 61,
        PLICIntrSource::GPIO28Intr => 62,
        PLICIntrSource::GPIO29Intr => 63,
        PLICIntrSource::GPIO30Intr => 64,
        PLICIntrSource::GPIO31Intr => 65,
    }
}

/// The interrupt sources in the order the K210's interrupt controller
/// numbers them (the order of the declaration above).
pub open spec fn sources_in_order() -> Seq<PLICIntrSource> {
    seq![
        PLICIntrSource::NoIntr,
        PLICIntrSource::SPI0Intr,
        PLICIntrSource::SPI1Intr,
        PLICIntrSource::SPISlaveIntr,
        PLICIntrSource::SPI3Intr,
        PLICIntrSource::I2S0Intr,
        PLICIntrSource::I2S1Intr,
        PLICIntrSource::I2S2Intr,
        PLICIntrSource::I2C0Intr,
        PLICIntrSource::I2C1Intr,
        PLICIntrSource::I2C2Intr,
        PLICIntrSource::UART1Intr,
        PLICIntrSource::UART2Intr,
        PLICIntrSource::UART3Intr,
        PLICIntrSource::Timer0AIntr,
        PLICIntrSource::Timer0BIntr,
        PLICIntrSource::Timer1AIntr,
        PLICIntrSource::Timer1BIntr,
        PLICIntrSource::Timer2AIntr,
        PLICIntrSource::Timer2BIntr,
        PLICIntrSource::RTCIntr,
        PLICIntrSource::WDT0Intr,
        PLICIntrSource::WDT1Intr,
        PLICIntrSource::APBGPIOIntr,
        PLICIntrSource::DVPIntr,
        PLICIntrSource::AIIntr,
        PLICIntrSource::FFTIntr,
        PLICIntrSource::DMA0Intr,
        PLICIntrSource::DMA1Intr,
        PLICIntrSource::DMA2Intr,
        PLICIntrSource::DMA3Intr,
        PLICIntrSource::DMA4Intr,
        PLICIntrSource::DMA5Intr,
        PLICIntrSource::UARTHSIntr,
        PLICIntrSource::GPIO0Intr,
        PLICIntrSource::GPIO1Intr,
        PLICIntrSource::GPIO2Intr,
        PLICIntrSource::GPIO3Intr,
        PLICIntrSource::GPIO4Intr,
        PLICIntrSource::GPIO5Intr,
        PLICIntrSource::GPIO6Intr,
        PLICIntrSource::GPIO7Intr,
        PLICIntrSource::GPIO8Intr,
        PLICIntrSource::GPIO9Intr,
        PLICIntrSource::GPIO10Intr,
        PLICIntrSource::GPIO11Intr,
        PLICIntrSource::GPIO12Intr,
        PLICIntrSource::GPIO13Intr,
        PLICIntrSource::GPIO14Intr,
        PLICIntrSource::GPIO15Intr,
        PLICIntrSource::GPIO16Intr,
        PLICIntrSource::GPIO17Intr,
        PLICIntrSource::GPIO18Intr,
        PLICIntrSource::GPIO19Intr,
        PLICIntrSource::GPIO20Intr,
        PLICIntrSource::GPIO21Intr,
        PLICIntrSource::GPIO22Intr,
        PLICIntrSource::GPIO23Intr,
        PLICIntrSource::GPIO24Intr,
        PLICIntrSource::GPIO25Intr,
        PLICIntrSource::GPIO26Intr,
        PLICIntrSource::GPIO27Intr,
        PLICIntrSource::GPIO28Intr,
        PLICIntrSource::GPIO29Intr,
        PLICIntrSource::GPIO30Intr,
        PLICIntrSource::GPIO31Intr,
    ]
}

/// The K210's source numbers: the source at position `i` of the
/// controller's list has number `i`, so the three UARTs are 11, 12 and 13,
/// the high-speed UART 33 and the GPIO pins 34 up to 65; every source is
/// in the list, and no two sources share a number.
pub proof fn law_source_numbers(s: PLICIntrSource, t: PLICIntrSource, i: int)
    ensures
        sources_in_order().len() == 66,
        0 <= i < 66 ==> source_number(sources_in_order()[i]) == i,
        sources_in_order().contains(s),
        source_number(s) == source_number(t) ==> s == t,
        source_number(PLICIntrSource::UART1Intr) == 11,
        source_number(PLICIntrSource::UART2Intr) == 12,
        source_number(PLICIntrSource::UART3Intr) == 13,
{
    let l = sources_in_order();
    assert(l[source_number(s) as int] == s);
    assert(l[source_number(t) as int] == t);
}

impl PLICIntrSource {
    /// The number of this interrupt source.
    pub fn number(&self) -> (n: u64)
        ensures
            n == source_number(*self),
            n <= 65,
            *self == PLICIntrSource::UART1Intr ==> n == 11,
            *self == PLICIntrSource::UART2Intr ==> n == 12,
            *self == PLICIntrSource::UART3Intr ==> n == 13,
            *self == PLICIntrSource::UARTHSIntr ==> n == 33,
    {
        match self {
            PLICIntrSource::NoIntr => 0,
            PLICIntrSource::SPI0Intr => 1,
            PLICIntrSource::SPI1Intr => 2,
            PLICIntrSource::SPISlaveIntr => 3,
            PLICIntrSource::SPI3Intr => 4,
            PLICIntrSource::I2S0Intr => 5,
            PLICIntrSource::I2S1Intr => 6,
            PLICIntrSource::I2S2Intr => 7,
            PLICIntrSource::I2C0Intr => 8,
            PLICIntrSource::I2C1Intr => 9,
            PLICIntrSource::I2C2Intr => 10,
            PLICIntrSource::UART1Intr => 11,
            PLICIntrSource::UART2Intr => 12,
            PLICIntrSource::UART3Intr => 13,
            PLICIntrSource::Timer0AIntr => 14,
            PLICIntrSource::Timer0BIntr => 15,
            PLICIntrSource::Timer1AIntr => 16,
            PLICIntrSource::Timer1BIntr => 17,
            PLICIntrSource::Timer2AIntr => 18,
            PLICIntrSource::Timer2BIntr => 19,
            PLICIntrSource::RTCIntr => 20,
            PLICIntrSource::WDT0Intr => 21,
            PLICIntrSource::WDT1Intr => 22,
            PLICIntrSource::APBGPIOIntr => 23,
            PLICIntrSource::DVPIntr => 24,
            PLICIntrSource::AIIntr => 25,
            PLICIntrSource::FFTIntr => 26,
            PLICIntrSource::DMA0Intr => 27,
            PLICIntrSource::DMA1Intr => 28,
            PLICIntrSource::DMA2Intr => 29,
            PLICIntrSource::DMA3Intr => 30,
            PLICIntrSource::DMA4Intr => 31,
            PLICIntrSource::DMA5Intr => 32,
            PLICIntrSource::UARTHSIntr => 33,
            PLICIntrSource::GPIO0Intr => 34,
            PLICIntrSource::GPIO1Intr => 35,
            PLICIntrSource::GPIO2Intr => 36,
            PLICIntrSource::GPIO3Intr => 37,
            PLICIntrSource::GPIO4Intr => 38,
            PLICIntrSource::GPIO5Intr => 39,
            PLICIntrSource::GPIO6Intr => 40,
            PLICIntrSource::GPIO7Intr => 41,
            PLICIntrSource::GPIO8Intr => 42,
            PLICIntrSource::GPIO9Intr => 43,
            PLICIntrSource::GPIO10Intr => 44,
            PLICIntrSource::GPIO11Intr => 45,
            PLICIntrSource::GPIO12Intr => 46,
            PLICIntrSource::GPIO13Intr => 47,
            PLICIntrSource::GPIO14Intr => 48,
            PLICIntrSource::GPIO15Intr => 49,
            PLICIntrSource::GPIO16Intr => 50,
            PLICIntrSource::GPIO17Intr => 51,
            PLICIntrSource::GPIO18Intr => 52,
            PLICIntrSource::GPIO19Intr => 53,
            PLICIntrSource::GPIO20Intr => 54,
            PLICIntrSource::GPIO21Intr => 55,
            PLICIntrSource::GPIO22Intr => 56,
            PLICIntrSource::GPIO23Intr => 57,
            PLICIntrSource::GPIO24Intr => 58,
            PLICIntrSource::GPIO25Intr => 59,
            PLICIntrSource::GPIO26Intr => 60,
            PLICIntrSource::GPIO27Intr => 61,
            PLICIntrSource::GPIO28Intr => 62,
            PLICIntrSource::GPIO29Intr => 63,
            PLICIntrSource::GPIO30Intr => 64,
            PLICIntrSource::GPIO31Intr => 65,
        }
    }
}

/// Interrupt targets: machine and supervisor mode of the two harts.
#[derive(Clone, Copy, PartialEq, Eq, Structural, Debug)]
pub enum PLICTarget {
    Hart0MIntr,
    Hart0SIntr,
    Hart1MIntr,
    Hart1SIntr,
}

/// The number of an interrupt target.
pub open spec fn target_number(target: PLICTarget) -> u64 {
    match target {
        PLICTarget::Hart0MIntr => 0,
        PLICTarget::Hart0SIntr => 1,
        PLICTarget::Hart1MIntr => 2,
        PLICTarget::Hart1SIntr => 3,
    }
}

impl PLICTarget {
    /// The number of this target.
    pub fn number(&self) -> (n: u64)
        ensures
            n == target_number(*self),
    {
        match self {
            PLICTarget::Hart0MIntr => 0,
            PLICTarget::Hart0SIntr => 1,
            PLICTarget::Hart1MIntr => 2,
            PLICTarget::Hart1SIntr => 3,
        }
    }
}

/// Address of the priority-threshold register of `target`.
pub fn get_target_threshold_ptr(target: PLICTarget) -> (addr: u64)
    ensures
        addr == PLIC_BASE_ADDR + PLIC_THRESHOLD_OFFSET + PLIC_THRESHOLD_STRIDE_PER_TARGET * target_number(target),
{
    let mut addr = PLIC_BASE_ADDR;
    addr = addr + PLIC_THRESHOLD_OFFSET;
    addr = addr + PLIC_THRESHOLD_STRIDE_PER_TARGET * target.number();
    addr
}

/// Address of the priority register of `source`.
pub fn get_intr_source_priority_ptr(source: PLICIntrSource) -> (addr: u64)
    ensures
        addr == PLIC_BASE_ADDR + PLIC_PRIORITY_OFFSET + PLIC_PRIORITY_STRIDE * source_number(source),
{
    let mut addr = PLIC_BASE_ADDR;
    addr = addr + PLIC_PRIORITY_OFFSET;
    addr = addr + PLIC_PRIORITY_STRIDE * source.number();
    addr
}

/// Threshold writes that set up the controller: hart 0's machine-mode target
/// takes every interrupt (threshold 0), hart 1's takes none above priority 1.
pub fn init() -> (writes: Vec<(u64, u32)>)
    ensures
        writes@.len() == 2,
        writes@[0].0 == PLIC_BASE_ADDR + PLIC_THRESHOLD_OFFSET,
        writes@[0].1 == 0,
        writes@[1].0 == PLIC_BASE_ADDR + PLIC_THRESHOLD_OFFSET + 2 * PLIC_THRESHOLD_STRIDE_PER_TARGET,
        writes@[1].1 == 1,
{
    let hart0_m_threshold = get_target_threshold_ptr(PLICTarget::Hart0MIntr);
    let hart1_m_threshold = get_target_threshold_ptr(PLICTarget::Hart1MIntr);
    let mut writes: Vec<(u64, u32)> = Vec::new();
    writes.push((hart0_m_threshold, 0u32));
    writes.push((hart1_m_threshold, 1u32));
    writes
}

} // verus!

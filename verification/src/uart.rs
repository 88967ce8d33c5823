//! K210 UART1: register addresses and the values that configure it.

use vstd::prelude::*;

verus! {

/// Base address of UART1's registers.
pub const UART_BASE_ADDR: u64 = 0x5021_0000;

/// Receive FIFO trigger levels.
pub const UART_RECEIVE_FIFO_1: u32 = 0;
pub const UART_RECEIVE_FIFO_4: u32 = 1;
pub const UART_RECEIVE_FIFO_8: u32 = 2;
pub const UART_RECEIVE_FIFO_14: u32 = 3;

/// Send FIFO trigger levels.
pub const UART_SEND_FIFO_0: u32 = 0;
pub const UART_SEND_FIFO_2: u32 = 1;
pub const UART_SEND_FIFO_4: u32 = 2;
pub const UART_SEND_FIFO_8: u32 = 3;

/// Frequency of the clock that drives the UART, in hertz.
pub const UART_CLOCK: u32 = 195_000_000;

/// UART registers.
#[derive(Clone, Copy, PartialEq, Eq, Structural, Debug)]
pub enum UARTRegister {
    RBR,
    DLL,
    THR,
    DLH,
    IER,
    FCR,
    IIR,
    LCR,
    LSR,
    DLF,
}

/// Offset of a register from the UART's base address.
pub open spec fn register_offset(r: UARTRegister) -> u64 {
    match r {
        UARTRegister::RBR | UARTRegister::DLL | UARTRegister::THR => 0x0,
        UARTRegister::DLH | UARTRegister::IER => 0x4,
        UARTRegister::FCR | UARTRegister::IIR => 0x8,
        UARTRegister::LCR => 0x0c,
        UARTRegister::LSR => 0x14,
        UARTRegister::DLF => 0xc0,
    }
}

/// Address of register `r`.
pub open spec fn register_address(r: UARTRegister) -> u64 {
    (UART_BASE_ADDR + register_offset(r)) as u64
}

impl UARTRegister {
    /// Offset of this register from the UART's base address.
    pub fn get_offset(&self) -> (o: u64)
        ensures
            o == register_offset(*self),
    {
        match self {
            UARTRegister::RBR | UARTRegister::DLL | UARTRegister::THR => 0x0,
            UARTRegister::DLH | UARTRegister::IER => 0x4,
            UARTRegister::FCR | UARTRegister::IIR => 0x8,
            UARTRegister::LCR => 0x0c,
            UARTRegister::LSR => 0x14,
            UARTRegister::DLF => 0xc0,
        }
    }

    /// Address of this register.
    pub fn get_ptr(&self) -> (a: u64)
        ensures
            a == UART_BASE_ADDR + register_offset(*self),
    {
        UART_BASE_ADDR + self.get_offset()
    }
}

/// Register values that configure the UART for a baud rate.
#[derive(Clone, Copy, PartialEq, Eq, Structural, Debug)]
pub struct UartConfig {
    /// Clock divisor: the UART clock over the baud rate.
    pub divisor: u32,
    /// Divisor bits 12..20.
    pub dlh: u8,
    /// Divisor bits 4..12.
    pub dll: u8,
    /// Divisor bits 0..4, the fractional part.
    pub dlf: u8,
    /// Line control: 8 data bits, one stop bit, no parity.
    pub lcr: u32,
    /// Interrupt enable.
    pub ier: u32,
    /// FIFO control: receive trigger at 4 bytes, send trigger at 8, DMA mode, FIFOs on.
    pub fcr: u32,
}

/// The configuration for baud rate `baud_rate`.
pub fn config(baud_rate: u32) -> (c: UartConfig)
    requires
        baud_rate > 0,
    ensures
        c.divisor == UART_CLOCK / baud_rate,
        c.dlh == (c.divisor >> 12u32) & 0xff,
        c.dll == (c.divisor >> 4u32) & 0xff,
        c.dlf == c.divisor & 0xf,
        c.lcr == 3,
        c.ier == 0x81,
        c.fcr == 0x79,
{
    let data_width: u32 = 8;
    let stopbit_val: u32 = 0;
    let parity_val: u32 = 0;
    let divisor = UART_CLOCK / baud_rate;
    let dlh = ((divisor >> 12u32) & 0xff) as u8;
    let dll = ((divisor >> 4u32) & 0xff) as u8;
    let dlf = (divisor & 0xf) as u8;
    proof {
        assert((divisor >> 12u32) & 0xff <= 0xff) by (bit_vector);
        assert((divisor >> 4u32) & 0xff <= 0xff) by (bit_vector);
        assert(divisor & 0xf <= 0xf) by (bit_vector);
    }
    let lcr = (data_width - 5) | (stopbit_val << 2u32) | (parity_val << 3u32);
    let fcr = UART_RECEIVE_FIFO_4 << 6u32 | UART_SEND_FIFO_8 << 4u32 | 0x1 << 3u32 | 0x1;
    proof {
        assert((3u32 | (0u32 << 2u32) | (0u32 << 3u32)) == 3) by (bit_vector);
        assert((1u32 << 6u32 | 3u32 << 4u32 | 1u32 << 3u32 | 1u32) == 0x79) by (bit_vector);
    }
    UartConfig { divisor, dlh, dll, dlf, lcr, ier: 0x81, fcr }
}

/// The register writes that configure the UART for `baud_rate`, in order,
/// as (address, value), given the value `lcr` read from the line-control
/// register: open the divisor latch (bit 7 of line control), write the
/// divisor's high, low and fractional parts, close the latch, set 8 data
/// bits, one stop bit and no parity, enable interrupts, set up the FIFOs.
pub fn init(baud_rate: u32, lcr: u32) -> (writes: Vec<(u64, u32)>)
    requires
        baud_rate > 0,
    ensures
        ({
            let divisor = UART_CLOCK / baud_rate;
            let lcr_at = register_address(UARTRegister::LCR);
            writes@ == seq![
                (lcr_at, lcr | 0x80u32),
                (register_address(UARTRegister::DLH), (divisor >> 12u32) & 0xff),
                (register_address(UARTRegister::DLL), (divisor >> 4u32) & 0xff),
                (register_address(UARTRegister::DLF), divisor & 0xf),
                (lcr_at, 0u32),
                (lcr_at, 3u32),
                (register_address(UARTRegister::IER), 0x81u32),
                (register_address(UARTRegister::FCR), 0x79u32),
            ]
        }),
{
    let c = config(baud_rate);
    let lcr_at = UARTRegister::LCR.get_ptr();
    let mut writes: Vec<(u64, u32)> = Vec::new();
    writes.push((lcr_at, lcr | (1u32 << 7u32)));
    writes.push((UARTRegister::DLH.get_ptr(), c.dlh as u32));
    writes.push((UARTRegister::DLL.get_ptr(), c.dll as u32));
    writes.push((UARTRegister::DLF.get_ptr(), c.dlf as u32));
    writes.push((lcr_at, 0));
    writes.push((lcr_at, c.lcr));
    writes.push((UARTRegister::IER.get_ptr(), c.ier));
    writes.push((UARTRegister::FCR.get_ptr(), c.fcr));
    proof {
        assert((1u32 << 7u32) == 0x80u32) by (bit_vector);
        assert(writes@ =~= seq![
            (lcr_at, lcr | 0x80u32),
            (register_address(UARTRegister::DLH), (c.divisor >> 12u32) & 0xff),
            (register_address(UARTRegister::DLL), (c.divisor >> 4u32) & 0xff),
            (register_address(UARTRegister::DLF), c.divisor & 0xf),
            (lcr_at, 0u32),
            (lcr_at, 3u32),
            (register_address(UARTRegister::IER), 0x81u32),
            (register_address(UARTRegister::FCR), 0x79u32),
        ]);
    }
    writes
}

} // verus!

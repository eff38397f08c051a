//! What the PL011 UART driver computes; the register accesses themselves
//! are memory-mapped I/O and happen outside the library.
//!
//! ```text
//! Offset  Name              Type Reset        Bits    Description
//! 0x000   UARTDR            RW   0x---        12/8    Data Register
//! 0x004   UARTRSR/UARTECR   RW   0x0          4/0     Receive Status/Error Clear
//! 0x018   UARTFR            RO   0b-10010---  9       Flag Register
//! 0x024   UARTIBRD          RW   0x0000       16      Integer Baud Rate Register
//! 0x028   UARTFBRD          RW   0x00         6       Fractional Baud Rate Register
//! 0x02C   UARTLCR_H         RW   0x00         8       Line Control Register
//! 0x030   UARTCR            RW   0x0300       16      Control Register
//! 0x038   UARTIMSC          RW   0x000        11      Interrupt Mask Set/Clear
//! 0x044   UARTICR           WO   -            11      Interrupt Clear Register
//! 0x048   UARTDMACR         RW   0x00         3       DMA Control Register
//! 0xFE0   UARTPeriphID0..3  RO                8       Peripheral identification
//! 0xFF0   UARTPCellID0..3   RO                8       PrimeCell identification
//! ```

use vstd::prelude::*;

verus! {

/// The registers the driver uses.
#[derive(Debug, Clone, Copy, PartialEq, Eq, Structural)]
pub enum Pl011Register {
    /// Data Register
    Dr,
    /// Receive Status Register/Error Clear Register
    RsrOrEcr,
    /// Flag register
    Fr,
    /// Integer Baud Rate Register
    Ibrd,
    /// Fractional Baud Rate Register
    Fbrd,
    /// Line Control Register
    LcrHigh,
    /// Control Register
    Cr,
    /// Interrupt Mask Set/Clear Register
    Imsc,
    /// Interrupt Clear Register
    Icr,
    /// DMA Control Register
    DmaCr,
    PeriphID0,
    PeriphID1,
    PeriphID2,
    PeriphID3,
    PCellID0,
    PCellID1,
    PCellID2,
    PCellID3,
}

impl Pl011Register {
    /// Offset of the register from the UART's base address.
    pub open spec fn spec_offset(self) -> u64 {
        match self {
            Pl011Register::Dr => 0x000,
            Pl011Register::RsrOrEcr => 0x004,
            Pl011Register::Fr => 0x018,
            Pl011Register::Ibrd => 0x024,
            Pl011Register::Fbrd => 0x028,
            Pl011Register::LcrHigh => 0x02c,
            Pl011Register::Cr => 0x030,
            Pl011Register::Imsc => 0x038,
            Pl011Register::Icr => 0x044,
            Pl011Register::DmaCr => 0x048,
            Pl011Register::PeriphID0 => 0xfe0,
            Pl011Register::PeriphID1 => 0xfe4,
            Pl011Register::PeriphID2 => 0xfe8,
            Pl011Register::PeriphID3 => 0xfec,
            Pl011Register::PCellID0 => 0xff0,
            Pl011Register::PCellID1 => 0xff4,
            Pl011Register::PCellID2 => 0xff8,
            Pl011Register::PCellID3 => 0xffc,
        }
    }

    /// Offset of the register from the UART's base address.
    pub fn offset(self) -> (r: u64)
        ensures
            r == self.spec_offset(),
    {
        match self {
            Pl011Register::Dr => 0x000,
            Pl011Register::RsrOrEcr => 0x004,
            Pl011Register::Fr => 0x018,
            Pl011Register::Ibrd => 0x024,
            Pl011Register::Fbrd => 0x028,
            Pl011Register::LcrHigh => 0x02c,
            Pl011Register::Cr => 0x030,
            Pl011Register::Imsc => 0x038,
            Pl011Register::Icr => 0x044,
            Pl011Register::DmaCr => 0x048,
            Pl011Register::PeriphID0 => 0xfe0,
            Pl011Register::PeriphID1 => 0xfe4,
            Pl011Register::PeriphID2 => 0xfe8,
            Pl011Register::PeriphID3 => 0xfec,
            Pl011Register::PCellID0 => 0xff0,
            Pl011Register::PCellID1 => 0xff4,
            Pl011Register::PCellID2 => 0xff8,
            Pl011Register::PCellID3 => 0xffc,
        }
    }
}

/// Receive enable in the control register.
pub const CR_RX_ENABLE: u32 = 0x200;

/// Transmit enable in the control register.
pub const CR_TX_ENABLE: u32 = 0x100;

/// UART enable in the control register.
pub const CR_UART_ENABLE: u32 = 1;

/// FIFOs enabled in the line control register.
pub const LCR_H_FIFO_EN: u32 = 0x10;

/// Eight data bits in the line control register.
pub const LCR_H_8BITS: u32 = 0x60;

/// Transmit FIFO full in the flag register.
pub const FR_TX_FULL: u32 = 0x020;

/// UART busy in the flag register.
pub const FR_BUSY: u32 = 0x008;

/// The identification registers, in the order their low bytes make up the
/// peripheral's identification, most significant first.
pub open spec fn id_registers() -> Seq<Pl011Register> {
    seq![
        Pl011Register::PeriphID0,
        Pl011Register::PeriphID1,
        Pl011Register::PeriphID2,
        Pl011Register::PeriphID3,
        Pl011Register::PCellID0,
        Pl011Register::PCellID1,
        Pl011Register::PCellID2,
        Pl011Register::PCellID3,
    ]
}

/// The identification from the values of the first `n` identification
/// registers: their low bytes, the first one most significant.
pub open spec fn id_of(values: Seq<u32>, n: int) -> u64
    decreases n,
{
    if n <= 0 {
        0
    } else {
        ((id_of(values, n - 1) << 8u64) | ((values[n - 1] as u8) as u64)) as u64
    }
}

/// The identification registers, in order.
pub fn id_register(i: usize) -> (r: Pl011Register)
    requires
        i < 8,
    ensures
        r == id_registers()[i as int],
{
    if i == 0 {
        Pl011Register::PeriphID0
    } else if i == 1 {
        Pl011Register::PeriphID1
    } else if i == 2 {
        Pl011Register::PeriphID2
    } else if i == 3 {
        Pl011Register::PeriphID3
    } else if i == 4 {
        Pl011Register::PCellID0
    } else if i == 5 {
        Pl011Register::PCellID1
    } else if i == 6 {
        Pl011Register::PCellID2
    } else {
        Pl011Register::PCellID3
    }
}

/// The peripheral's identification from the values read from its eight
/// identification registers, in the order of `id_register`.
pub fn pl011_id(values: &[u32; 8]) -> (r: u64)
    ensures
        r == id_of(values@, 8),
{
    let mut id: u64 = 0;
    let mut i: usize = 0;
    while i < 8
        invariant
            i <= 8,
            id == id_of(values@, i as int),
        decreases 8 - i,
    {
        id = id.wrapping_shl(8) | (values[i] as u8 as u64);
        i += 1;
    }
    id
}

/// The transmit FIFO can take a byte.
pub fn tx_ready(flags: u32) -> (r: bool)
    ensures
        r == (flags & FR_TX_FULL == 0),
{
    flags & FR_TX_FULL == 0
}

/// The UART has finished sending.
pub fn idle(flags: u32) -> (r: bool)
    ensures
        r == (flags & FR_BUSY == 0),
{
    flags & FR_BUSY == 0
}

} // verus!

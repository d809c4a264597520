//! The PL011 UART driver, stated over a plain-data model of the device's
//! register file.
//!
//! On the board the register block sits at a fixed memory-mapped address and
//! is reached through a raw-pointer dereference; that access, and the
//! busy-waits on the device's flag bits, belong to the unverified hardware
//! layer. The driver logic here reads and writes a [`RegisterBlock`] value
//! whose fields carry what the logic observes: the configuration registers
//! it programs, the two flag bits it polls, and the byte stream the transmit
//! line has carried. A hardware wait ("spin until the transmit FIFO has
//! room") appears in the model as the flag clearing, which is the state the
//! real wait ends in.
//!
//! Register names, offsets and field values follow the PrimeCell UART
//! (PL011) Technical Reference Manual r1p5.

use core::marker::PhantomData;
use vstd::prelude::*;

verus! {

/// Memory-mapped I/O base of the target board.
pub const MMIO_BASE: usize = 0xFE00_0000;

/// Base address of the console UART's register block.
pub const UART0_BASE: usize = MMIO_BASE + 0x201000;

/// Base address of the train-controller UART's register block.
pub const UART3_BASE: usize = MMIO_BASE + 0x201600;

/// Line number of the console.
pub const CONSOLE: usize = 1;

/// Line number of the train controller.
pub const MARKLIN: usize = 2;

/// Flag register bit: transmit FIFO full.
pub const FR_TXFF: u32 = 0x20;

/// Flag register bit: receive FIFO empty.
pub const FR_RXFE: u32 = 0x10;

/// Line control value: eight data bits, FIFOs enabled, parity disabled.
pub const LCR_H_8N_FIFO: u32 = 0x70;

/// Line control bit: two stop bits.
pub const LCR_H_STP2: u32 = 0x8;

/// Control register value: UART enabled, transmit and receive enabled.
pub const CR_ENABLED: u32 = 0x301;

/// The register-block base address of a line number, the console by default.
pub fn line_uarts(line: usize) -> (r: usize)
    ensures
        r == if line == CONSOLE {
            UART0_BASE
        } else {
            UART3_BASE
        },
{
    if line == 1 {
        UART0_BASE
    } else {
        UART3_BASE
    }
}

/// A plain-data model of one PL011 register file, together with the byte
/// stream its transmit line has carried. All values start at zero: flags
/// clear, so the transmitter has room and a received byte is pending.
#[derive(Debug)]
pub struct RegisterBlock {
    /// Data register: the last byte written for transmission, and the byte
    /// a read receives.
    pub dr: u32,
    /// Flag register; the driver polls [`FR_TXFF`] and [`FR_RXFE`].
    pub fr: u32,
    /// Integer baud rate divisor.
    pub ibrd: u32,
    /// Fractional baud rate divisor.
    pub fbrd: u32,
    /// Line control register.
    pub lcr_h: u32,
    /// Control register.
    pub cr: u32,
    /// Interrupt clear register.
    pub icr: u32,
    /// Every byte handed to the transmit line, oldest first: the observable
    /// output of this UART.
    pub tx_log: Vec<u8>,
}

impl RegisterBlock {
    /// A register file in its reset state, with nothing transmitted yet.
    pub fn new() -> (r: RegisterBlock)
        ensures
            r.dr == 0,
            r.fr == 0,
            r.ibrd == 0,
            r.fbrd == 0,
            r.lcr_h == 0,
            r.cr == 0,
            r.icr == 0,
            r.tx_log@ == Seq::<u8>::empty(),
    {
        RegisterBlock {
            dr: 0,
            fr: 0,
            ibrd: 0,
            fbrd: 0,
            lcr_h: 0,
            cr: 0,
            icr: 0,
            tx_log: Vec::new(),
        }
    }
}

/// The transmit FIFO has no room.
pub open spec fn tx_full(fr: u32) -> bool {
    fr & FR_TXFF != 0
}

/// The receive FIFO holds nothing.
pub open spec fn rx_empty(fr: u32) -> bool {
    fr & FR_RXFE != 0
}

/// Clearing the transmit-full bit leaves the receive-empty bit alone, leaves
/// a cleared flag register unchanged, and indeed clears the bit.
pub proof fn lemma_fr_clear_txff(fr: u32)
    ensures
        rx_empty(fr & !FR_TXFF) == rx_empty(fr),
        !tx_full(fr & !FR_TXFF),
        !tx_full(fr) ==> fr & !FR_TXFF == fr,
{
    assert((fr & !0x20u32) & 0x10u32 == fr & 0x10u32) by (bit_vector);
    assert((fr & !0x20u32) & 0x20u32 == 0) by (bit_vector);
    assert(fr & 0x20u32 == 0 ==> fr & !0x20u32 == fr) by (bit_vector);
}

/// Address record for a memory-mapped register block. Turning the address
/// into the live block is a raw-pointer dereference that belongs to the
/// unverified hardware layer; the verified driver works on the register-file
/// model instead.
pub struct MMIODeRefWrapper<T> {
    start_addr: usize,
    phantom: PhantomData<T>,
}

impl<T> MMIODeRefWrapper<T> {
    /// The recorded base address.
    pub closed spec fn addr_spec(&self) -> usize {
        self.start_addr
    }

    pub fn new(start_addr: usize) -> (r: Self)
        ensures
            r.addr_spec() == start_addr,
    {
        MMIODeRefWrapper { start_addr, phantom: PhantomData }
    }
}

/// Which UART line a driver instance talks to.
#[derive(Clone, Copy, Debug, PartialEq, Eq, Structural)]
pub enum UARTLine {
    Console,
    Marklin,
}

impl UARTLine {
    /// The register-block base address of this line.
    pub fn addr(&self) -> (r: usize)
        ensures
            r == match *self {
                UARTLine::Console => UART0_BASE,
                UARTLine::Marklin => UART3_BASE,
            },
    {
        match self {
            UARTLine::Console => UART0_BASE,
            UARTLine::Marklin => UART3_BASE,
        }
    }
}

/// One UART driver instance: the register-file model it reads and writes,
/// and the line it serves.
pub struct UART {
    pub registers: RegisterBlock,
    pub line: UARTLine,
}

impl UART {
    /// A driver on the given line, its registers at reset.
    pub fn new(line: UARTLine) -> (r: UART)
        ensures
            r.line == line,
            r.registers.dr == 0,
            r.registers.fr == 0,
            r.registers.ibrd == 0,
            r.registers.fbrd == 0,
            r.registers.lcr_h == 0,
            r.registers.cr == 0,
            r.registers.icr == 0,
            r.registers.tx_log@ == Seq::<u8>::empty(),
    {
        UART { registers: RegisterBlock::new(), line }
    }

    /// Program the line: disable the UART, clear pending interrupts, set the
    /// line's baud divisors and frame format (two stop bits on the console
    /// line), then enable transmit and receive.
    pub fn init(&mut self)
        ensures
            final(self).line == old(self).line,
            final(self).registers.cr == CR_ENABLED,
            final(self).registers.icr == 0,
            final(self).registers.ibrd == match old(self).line {
                UARTLine::Console => 26u32,
                UARTLine::Marklin => 1250u32,
            },
            final(self).registers.fbrd == match old(self).line {
                UARTLine::Console => 2u32,
                UARTLine::Marklin => 1u32,
            },
            final(self).registers.lcr_h == match old(self).line {
                UARTLine::Console => LCR_H_8N_FIFO | LCR_H_STP2,
                UARTLine::Marklin => LCR_H_8N_FIFO,
            },
            final(self).registers.dr == old(self).registers.dr,
            final(self).registers.fr == old(self).registers.fr,
            final(self).registers.tx_log@ == old(self).registers.tx_log@,
    {
        let baud_ival: u32;
        let baud_fval: u32;
        match self.line {
            UARTLine::Console => {
                baud_ival = 26;
                baud_fval = 2;
            },
            UARTLine::Marklin => {
                baud_ival = 1250;
                baud_fval = 1;
            },
        }
        self.registers.cr = 0;
        self.registers.icr = 0;
        self.registers.ibrd = baud_ival;
        self.registers.fbrd = baud_fval;
        self.registers.lcr_h = match self.line {
            UARTLine::Console => LCR_H_8N_FIFO | LCR_H_STP2,
            UARTLine::Marklin => LCR_H_8N_FIFO,
        };
        self.registers.cr = CR_ENABLED;
    }

    /// The console driver, initialized.
    pub fn console() -> (r: UART)
        ensures
            r.line == UARTLine::Console,
            r.registers.cr == CR_ENABLED,
            r.registers.icr == 0,
            r.registers.ibrd == 26,
            r.registers.fbrd == 2,
            r.registers.lcr_h == LCR_H_8N_FIFO | LCR_H_STP2,
            r.registers.dr == 0,
            r.registers.fr == 0,
            r.registers.tx_log@ == Seq::<u8>::empty(),
    {
        let mut uart = UART::new(UARTLine::Console);
        uart.init();
        uart
    }

    /// The train-controller driver, initialized.
    pub fn train() -> (r: UART)
        ensures
            r.line == UARTLine::Marklin,
            r.registers.cr == CR_ENABLED,
            r.registers.icr == 0,
            r.registers.ibrd == 1250,
            r.registers.fbrd == 1,
            r.registers.lcr_h == LCR_H_8N_FIFO,
            r.registers.dr == 0,
            r.registers.fr == 0,
            r.registers.tx_log@ == Seq::<u8>::empty(),
    {
        let mut uart = UART::new(UARTLine::Marklin);
        uart.init();
        uart
    }

    /// Read the data register without waiting.
    pub fn getc_no_wait(&self) -> (r: char)
        ensures
            r == (self.registers.dr as u8) as char,
    {
        self.registers.dr as u8 as char
    }

    /// Whether a read would have to wait: the receive FIFO is empty.
    pub fn rxwaiting(&self) -> (r: bool)
        ensures
            r == rx_empty(self.registers.fr),
    {
        self.registers.fr & FR_RXFE != 0
    }

    /// Read a byte. On hardware this waits for the receive FIFO to fill;
    /// the model requires the byte to have arrived.
    pub fn getc(&self) -> (r: char)
        requires
            !rx_empty(self.registers.fr),
        ensures
            r == (self.registers.dr as u8) as char,
    {
        self.getc_no_wait()
    }

    /// Whether a write would have to wait: the transmit FIFO is full.
    pub fn txwaiting(&self) -> (r: bool)
        ensures
            r == tx_full(self.registers.fr),
    {
        self.registers.fr & FR_TXFF != 0
    }

    /// Hand a byte to the transmit line without checking for room.
    pub fn putc_nowait(&mut self, ch: u8)
        ensures
            final(self).line == old(self).line,
            final(self).registers == (RegisterBlock {
                dr: ch as u32,
                tx_log: final(self).registers.tx_log,
                ..old(self).registers
            }),
            final(self).registers.tx_log@ == old(self).registers.tx_log@.push(ch),
    {
        self.registers.dr = ch as u32;
        self.registers.tx_log.push(ch);
    }

    /// Transmit a byte. On hardware this spins until the transmit FIFO has
    /// room; the model's flag clears, which is the state that wait ends in.
    pub fn putc(&mut self, ch: u8)
        ensures
            final(self).line == old(self).line,
            final(self).registers == (RegisterBlock {
                dr: ch as u32,
                fr: old(self).registers.fr & !FR_TXFF,
                tx_log: final(self).registers.tx_log,
                ..old(self).registers
            }),
            final(self).registers.tx_log@ == old(self).registers.tx_log@.push(ch),
    {
        proof {
            lemma_fr_clear_txff(self.registers.fr);
        }
        if self.txwaiting() {
            self.registers.fr = self.registers.fr & !FR_TXFF;
        }
        self.putc_nowait(ch);
    }

    /// Transmit a slice, byte by byte, in order.
    pub fn put_slice(&mut self, slice: &[u8])
        ensures
            final(self).line == old(self).line,
            final(self).registers.tx_log@ == old(self).registers.tx_log@ + slice@,
            final(self).registers.cr == old(self).registers.cr,
            final(self).registers.icr == old(self).registers.icr,
            final(self).registers.ibrd == old(self).registers.ibrd,
            final(self).registers.fbrd == old(self).registers.fbrd,
            final(self).registers.lcr_h == old(self).registers.lcr_h,
            rx_empty(final(self).registers.fr) == rx_empty(old(self).registers.fr),
            slice@.len() > 0 ==> !tx_full(final(self).registers.fr),
            slice@.len() == 0 ==> final(self).registers == old(self).registers,
    {
        let mut i: usize = 0;
        while i < slice.len()
            invariant
                i <= slice@.len(),
                self.line == old(self).line,
                self.registers.tx_log@ == old(self).registers.tx_log@ + slice@.subrange(
                    0,
                    i as int,
                ),
                self.registers.cr == old(self).registers.cr,
                self.registers.icr == old(self).registers.icr,
                self.registers.ibrd == old(self).registers.ibrd,
                self.registers.fbrd == old(self).registers.fbrd,
                self.registers.lcr_h == old(self).registers.lcr_h,
                rx_empty(self.registers.fr) == rx_empty(old(self).registers.fr),
                i > 0 ==> !tx_full(self.registers.fr),
                i == 0 ==> self.registers == old(self).registers,
            decreases slice@.len() - i,
        {
            let ghost fr_pre = self.registers.fr;
            self.putc(slice[i]);
            proof {
                assert(slice@.subrange(0, i + 1) =~= slice@.subrange(0, i as int).push(
                    slice@[i as int],
                ));
                lemma_fr_clear_txff(fr_pre);
            }
            i = i + 1;
        }
        proof {
            assert(slice@.subrange(0, slice@.len() as int) =~= slice@);
        }
    }

    /// Transmit a slice followed by a line feed.
    pub fn println(&mut self, str: &[u8])
        ensures
            final(self).line == old(self).line,
            final(self).registers.tx_log@ == old(self).registers.tx_log@ + str@ + seq![10u8],
            final(self).registers.cr == old(self).registers.cr,
            final(self).registers.icr == old(self).registers.icr,
            final(self).registers.ibrd == old(self).registers.ibrd,
            final(self).registers.fbrd == old(self).registers.fbrd,
            final(self).registers.lcr_h == old(self).registers.lcr_h,
            rx_empty(final(self).registers.fr) == rx_empty(old(self).registers.fr),
            !tx_full(final(self).registers.fr),
    {
        self.put_slice(str);
        let ghost fr_pre = self.registers.fr;
        self.putc(10u8);
        proof {
            lemma_fr_clear_txff(fr_pre);
        }
    }
}

} // verus!

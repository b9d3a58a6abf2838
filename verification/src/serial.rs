//! The serial port: where its registers lie and how it is set up.

use vstd::prelude::*;

verus! {

/// Base of the first serial port.
pub const COM1: u16 = 0x3F8;

/// Bit of the line status that says the transmitter can take a byte.
pub const TRANSMIT_EMPTY: u8 = 0x20;

/// The ports of a serial interface.
#[derive(Debug, Clone, Copy, PartialEq, Eq, Structural)]
pub struct SerialPort {
    pub data: u16,
    pub int_en: u16,
    pub fifo_ctrl: u16,
    pub line_ctrl: u16,
    pub modem_ctrl: u16,
    pub line_sts: u16,
}

/// A value to write to a port.
#[derive(Debug, Clone, Copy, PartialEq, Eq, Structural)]
pub struct PortWrite {
    pub port: u16,
    pub value: u8,
}

impl SerialPort {
    /// The writes that set the interface up, in order: interrupts off,
    /// divisor 3 for 38400 baud, eight bits without parity and one stop
    /// bit, FIFOs on and cleared, and the modem lines set.
    pub open spec fn setup(self) -> Seq<PortWrite> {
        seq![
            PortWrite { port: self.int_en, value: 0x00 },
            PortWrite { port: self.line_ctrl, value: 0x80 },
            PortWrite { port: self.data, value: 0x03 },
            PortWrite { port: self.int_en, value: 0x00 },
            PortWrite { port: self.line_ctrl, value: 0x03 },
            PortWrite { port: self.fifo_ctrl, value: 0xC7 },
            PortWrite { port: self.modem_ctrl, value: 0x0B },
        ]
    }

    /// The interface whose registers start at port `base`.
    pub fn new(base: u16) -> (r: SerialPort)
        requires
            base + 5 <= u16::MAX,
        ensures
            r == (SerialPort {
                data: base,
                int_en: (base + 1) as u16,
                fifo_ctrl: (base + 2) as u16,
                line_ctrl: (base + 3) as u16,
                modem_ctrl: (base + 4) as u16,
                line_sts: (base + 5) as u16,
            }),
    {
        SerialPort {
            data: base,
            int_en: base + 1,
            fifo_ctrl: base + 2,
            line_ctrl: base + 3,
            modem_ctrl: base + 4,
            line_sts: base + 5,
        }
    }

    /// The writes that set the interface up.
    pub fn init(&self) -> (writes: Vec<PortWrite>)
        ensures
            writes@ == self.setup(),
    {
        let mut writes: Vec<PortWrite> = Vec::new();
        writes.push(PortWrite { port: self.int_en, value: 0x00 });
        writes.push(PortWrite { port: self.line_ctrl, value: 0x80 });
        writes.push(PortWrite { port: self.data, value: 0x03 });
        writes.push(PortWrite { port: self.int_en, value: 0x00 });
        writes.push(PortWrite { port: self.line_ctrl, value: 0x03 });
        writes.push(PortWrite { port: self.fifo_ctrl, value: 0xC7 });
        writes.push(PortWrite { port: self.modem_ctrl, value: 0x0B });
        proof {
            assert(writes@ =~= self.setup());
        }
        writes
    }

    /// Tells from the line status whether the transmitter can take a
    /// byte.
    pub fn is_transmit_empty(&self, line_status: u8) -> (r: bool)
        ensures
            r == (line_status & TRANSMIT_EMPTY != 0),
    {
        line_status & TRANSMIT_EMPTY != 0
    }

    /// The write that sends a byte once the transmitter can take it.
    pub fn send(&self, data: u8) -> (write: PortWrite)
        ensures
            write == (PortWrite { port: self.data, value: data }),
    {
        PortWrite { port: self.data, value: data }
    }
}

} // verus!

//! The serial console: the port-register programming sequence for
//! 38400 baud, 8 data bits, no parity, one stop bit, FIFO on with a 14-byte
//! threshold. The port writes themselves are I/O done outside this crate,
//! in exactly this order.

use vstd::prelude::*;

verus! {

/// A UART identified by its base I/O port.
pub struct SerialPort {
    pub port: u16,
}

impl SerialPort {
    /// A driver for the UART at `port`.
    pub fn new(port: u16) -> (r: SerialPort)
        ensures
            r.port == port,
    {
        SerialPort { port }
    }

    /// The register writes, as (port offset, value) pairs in order, that
    /// initialise the UART: interrupts off, divisor 3 for 38400 baud, 8N1
    /// framing, FIFO enabled and cleared with a 14-byte threshold, and
    /// IRQs/RTS/DSR set.
    pub fn init_sequence(&self) -> (r: Vec<(u16, u8)>)
        ensures
            r@ == seq![
                (1u16, 0x00u8),
                (3u16, 0x80u8),
                (0u16, 0x03u8),
                (1u16, 0x00u8),
                (3u16, 0x03u8),
                (2u16, 0xC7u8),
                (4u16, 0x0Bu8),
            ],
    {
        let mut v: Vec<(u16, u8)> = Vec::new();
        v.push((1, 0x00));
        v.push((3, 0x80));
        v.push((0, 0x03));
        v.push((1, 0x00));
        v.push((3, 0x03));
        v.push((2, 0xC7));
        v.push((4, 0x0B));
        proof {
            assert(v@ =~= seq![
                (1u16, 0x00u8),
                (3u16, 0x80u8),
                (0u16, 0x03u8),
                (1u16, 0x00u8),
                (3u16, 0x03u8),
                (2u16, 0xC7u8),
                (4u16, 0x0Bu8),
            ]);
        }
        v
    }

    /// The scratch-register offset and probe byte of the existence test: the
    /// port exists when the byte written to the scratch register reads back.
    pub fn exists_probe(&self) -> (r: (u16, u8))
        ensures
            r == (7u16, 0x55u8),
    {
        (7, 0x55)
    }
}

} // verus!

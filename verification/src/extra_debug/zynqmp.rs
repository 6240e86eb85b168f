//! The debug output of the ZynqMP platforms, through UART0.
use vstd::prelude::*;
use vstd::string::StringSliceAdditionalSpecFns;

use crate::extra_debug::DaedalusDebugWriter;

verus! {

/// The base address of UART0 on the ZynqMP platforms.
pub const UART0_BASE: usize = 0xFF00_0000;

/// The status register, which tells whether UART0 can take a byte.
pub const UART_SR: usize = 0xFF00_002C;

/// The FIFO register the debug bytes are written to.
pub const UART_FIFO: usize = 0xFF00_0030;

/// The status bit that says the transmit FIFO is full.
pub const SR_TXFULL: u32 = 0x10;

/// A writer that uses UART0 of the ZynqMP platforms.
pub struct Uart0;

/// The bytes sent for `text`: each newline is preceded by a carriage
/// return.
pub open spec fn crlf(text: Seq<u8>) -> Seq<u8>
    decreases text.len(),
{
    if text.len() == 0 {
        Seq::empty()
    } else {
        crlf(text.drop_last()) + if text.last() == 10 {
            seq![13u8, 10u8]
        } else {
            seq![text.last()]
        }
    }
}

impl Uart0 {
    /// Sends the byte `c` when UART0, whose status register reads `status`,
    /// can take it: the value to write to the FIFO register, or `None` if
    /// the transmit FIFO is full and the status must be read again.
    pub fn putc(&mut self, status: u32, c: u8) -> (write: Option<u32>)
        ensures
            status & SR_TXFULL != 0 ==> write is None,
            status & SR_TXFULL == 0 ==> write == Some(c as u32),
    {
        if status & SR_TXFULL != 0 {
            None
        } else {
            Some(c as u32)
        }
    }

    /// The bytes sent through `putc` for the bytes `text`: a carriage
    /// return goes before each newline.
    pub fn put_bytes(&mut self, text: &[u8]) -> (wire: Vec<u8>)
        ensures
            wire@ == crlf(text@),
    {
        let mut wire: Vec<u8> = Vec::new();
        let mut i: usize = 0;
        while i < text.len()
            invariant
                i <= text@.len(),
                wire@ == crlf(text@.subrange(0, i as int)),
            decreases text@.len() - i,
        {
            let byte = text[i];
            if byte == 10 {
                wire.push(13);
            }
            wire.push(byte);
            proof {
                assert(text@.subrange(0, i + 1).drop_last() =~= text@.subrange(0, i as int));
                if byte == 10 {
                    assert(wire@ =~= crlf(text@.subrange(0, i as int)) + seq![13u8, 10u8]);
                } else {
                    assert(wire@ =~= crlf(text@.subrange(0, i as int)) + seq![byte]);
                }
            }
            i = i + 1;
        }
        proof {
            assert(text@.subrange(0, text@.len() as int) =~= text@);
        }
        wire
    }

    /// The bytes sent through `putc` for the string `s`: a carriage return
    /// goes before each newline.
    pub fn puts(&mut self, s: &str) -> (wire: Vec<u8>)
        ensures
            wire@ == crlf(s.spec_bytes()),
    {
        self.put_bytes(s.as_bytes())
    }
}

impl DaedalusDebugWriter for Uart0 {
    fn new() -> Self {
        Uart0
    }

    fn init(&mut self) {
    }
}

} // verus!

//! The debug output of `Daedalus`: the banners it prints at start and at
//! handoff, written through the platform's debug writer.
use vstd::prelude::*;
use vstd::string::StringSliceAdditionalSpecFns;

pub mod zynqmp;

use crate::extra_debug::zynqmp::{Uart0, crlf};

verus! {

/// A debug writer of a platform.
pub trait DaedalusDebugWriter: Sized {
    /// A new handle on this writer.
    fn new() -> Self;

    /// Everything the writer needs before the first byte is written.
    fn init(&mut self);
}

/// Appends `bytes` to `out`.
pub fn append_bytes(out: &mut Vec<u8>, bytes: &[u8])
    ensures
        final(out)@ == old(out)@ + bytes@,
{
    let mut i: usize = 0;
    while i < bytes.len()
        invariant
            i <= bytes@.len(),
            out@ == old(out)@ + bytes@.subrange(0, i as int),
        decreases bytes@.len() - i,
    {
        out.push(bytes[i]);
        i = i + 1;
        proof {
            assert(out@ =~= old(out)@ + bytes@.subrange(0, i as int));
        }
    }
    proof {
        assert(bytes@.subrange(0, bytes@.len() as int) =~= bytes@);
    }
}

/// The text of the start banner for the given version, build target,
/// build profile and build time.
pub open spec fn start_banner(version: &str, target: &str, profile: &str, build_time: &str) -> Seq<u8> {
    "\n=^..^=  DAEDALUS DEBUG  =^..^=\n".spec_bytes() + "Daedalus Version: ".spec_bytes()
        + version.spec_bytes() + "\n".spec_bytes() + "Built for ".spec_bytes() + target.spec_bytes()
        + " in ".spec_bytes() + profile.spec_bytes() + " mode\n".spec_bytes()
        + "Build time: ".spec_bytes() + build_time.spec_bytes() + "\n".spec_bytes()
        + "=^..^=  =^..^=  =^..^=  =^..^=\n\n".spec_bytes()
}

/// The bytes that the start banner sends through the debug writer: the
/// banner about this build (its version, target, profile and time), each
/// newline preceded by a carriage return.
pub fn debug_start(version: &str, target: &str, profile: &str, build_time: &str) -> (wire: Vec<u8>)
    ensures
        wire@ == crlf(start_banner(version, target, profile, build_time)),
{
    let mut writer = Uart0::new();
    writer.init();
    let mut text: Vec<u8> = Vec::new();
    append_bytes(&mut text, "\n=^..^=  DAEDALUS DEBUG  =^..^=\n".as_bytes());
    append_bytes(&mut text, "Daedalus Version: ".as_bytes());
    append_bytes(&mut text, version.as_bytes());
    append_bytes(&mut text, "\n".as_bytes());
    append_bytes(&mut text, "Built for ".as_bytes());
    append_bytes(&mut text, target.as_bytes());
    append_bytes(&mut text, " in ".as_bytes());
    append_bytes(&mut text, profile.as_bytes());
    append_bytes(&mut text, " mode\n".as_bytes());
    append_bytes(&mut text, "Build time: ".as_bytes());
    append_bytes(&mut text, build_time.as_bytes());
    append_bytes(&mut text, "\n".as_bytes());
    append_bytes(&mut text, "=^..^=  =^..^=  =^..^=  =^..^=\n\n".as_bytes());
    proof {
        assert(text@ =~= start_banner(version, target, profile, build_time));
    }
    writer.put_bytes(text.as_slice())
}

/// The ASCII hexadecimal digit of `d`, lower case.
pub open spec fn hex_char(d: nat) -> u8 {
    if d < 10 {
        (48 + d) as u8
    } else {
        (87 + d) as u8
    }
}

/// The lower-case hexadecimal digits of `n`, most significant first,
/// without leading zeros (`0` for zero).
pub open spec fn hex_digits(n: nat) -> Seq<u8>
    decreases n,
{
    if n < 16 {
        seq![hex_char(n)]
    } else {
        hex_digits(n / 16) + seq![hex_char(n % 16)]
    }
}

/// Appends the hexadecimal digits of `n` to `out`.
pub fn push_hex(n: usize, out: &mut Vec<u8>)
    ensures
        final(out)@ == old(out)@ + hex_digits(n as nat),
    decreases n,
{
    if n >= 16 {
        push_hex(n / 16, out);
    }
    let d = n % 16;
    let digit: u8 = if d < 10 {
        48 + d as u8
    } else {
        87 + d as u8
    };
    out.push(digit);
    proof {
        if n >= 16 {
            assert(old(out)@ + hex_digits(n as nat) =~= old(out)@ + hex_digits((n / 16) as nat) + seq![
                hex_char((n % 16) as nat),
            ]);
        } else {
            assert(hex_digits(n as nat) == seq![hex_char(n as nat)]);
        }
    }
}

/// The text of the handoff banner for a handoff to `address`.
pub open spec fn handoff_banner(address: usize) -> Seq<u8> {
    "\n=^..^= DAEDALUS HANDOFF TO 0x".spec_bytes() + hex_digits(address as nat)
        + " =^..^=\n\n".spec_bytes()
}

/// The bytes that the handoff banner sends through the debug writer: the
/// final barrier before handing off to `address` (in hexadecimal), each
/// newline preceded by a carriage return.
pub fn debug_handoff(address: usize) -> (wire: Vec<u8>)
    ensures
        wire@ == crlf(handoff_banner(address)),
{
    let mut writer = Uart0::new();
    writer.init();
    let mut text: Vec<u8> = Vec::new();
    append_bytes(&mut text, "\n=^..^= DAEDALUS HANDOFF TO 0x".as_bytes());
    push_hex(address, &mut text);
    append_bytes(&mut text, " =^..^=\n\n".as_bytes());
    proof {
        assert(text@ =~= handoff_banner(address));
    }
    writer.put_bytes(text.as_slice())
}

/// The ASCII decimal digits of `n`, most significant first, without
/// leading zeros (`0` for zero).
pub open spec fn decimal_digits(n: nat) -> Seq<u8>
    decreases n,
{
    if n < 10 {
        seq![(48 + n) as u8]
    } else {
        decimal_digits(n / 10) + seq![(48 + n % 10) as u8]
    }
}

/// Appends the decimal digits of `n` to `out`.
pub fn push_decimal_bytes(n: u32, out: &mut Vec<u8>)
    ensures
        final(out)@ == old(out)@ + decimal_digits(n as nat),
    decreases n,
{
    if n >= 10 {
        push_decimal_bytes(n / 10, out);
    }
    let digit: u8 = 48 + (n % 10) as u8;
    out.push(digit);
    proof {
        if n >= 10 {
            assert(old(out)@ + decimal_digits(n as nat) =~= old(out)@ + decimal_digits((n / 10) as nat)
                + seq![(48 + n % 10) as u8]);
        } else {
            assert(decimal_digits(n as nat) == seq![(48 + n) as u8]);
        }
    }
}

/// Where a panic happened: the file, line and column.
pub struct PanicLocation<'a> {
    pub file: &'a str,
    pub line: u32,
    pub column: u32,
}

/// The location line of a panic report.
pub open spec fn location_text(location: Option<PanicLocation>) -> Seq<u8> {
    match location {
        Some(at) => "\nLocation: ".spec_bytes() + at.file.spec_bytes() + ":".spec_bytes()
            + decimal_digits(at.line as nat) + ":".spec_bytes() + decimal_digits(at.column as nat)
            + "\n".spec_bytes(),
        None => "\nLocation: unknown\n".spec_bytes(),
    }
}

/// The report of a panic with `message` at `location`; with `highlight`
/// its banner lines are coloured for a terminal.
pub open spec fn panic_report(message: &str, location: Option<PanicLocation>, highlight: bool) -> Seq<u8> {
    (if highlight {
        "\n\n\x1b[95m=^..^=   =^..^=   =^..^=    ERROR!    =^..^=    =^..^=    =^..^=\x1b[0m\n\n".spec_bytes()
    } else {
        "\n\n=^..^=   =^..^=   =^..^=    ERROR!    =^..^=    =^..^=    =^..^=\n\n".spec_bytes()
    }) + "Message: ".spec_bytes() + message.spec_bytes() + "\n".spec_bytes() + location_text(location)
        + if highlight {
        "\n\x1b[95m=^..^=   =^..^=   =^..^=    =^..^=    =^..^=    =^..^=    =^..^=\x1b[0m\n".spec_bytes()
    } else {
        "\n=^..^=   =^..^=   =^..^=    =^..^=    =^..^=    =^..^=    =^..^=\n".spec_bytes()
    }
}

/// The report of a panic with `message` at `location` (see
/// `panic_report`).
pub fn panic_report_text(message: &str, location: Option<PanicLocation>, highlight: bool) -> (text: Vec<u8>)
    ensures
        text@ == panic_report(message, location, highlight),
{
    let mut text: Vec<u8> = Vec::new();
    if highlight {
        append_bytes(
            &mut text,
            "\n\n\x1b[95m=^..^=   =^..^=   =^..^=    ERROR!    =^..^=    =^..^=    =^..^=\x1b[0m\n\n".as_bytes(),
        );
    } else {
        append_bytes(
            &mut text,
            "\n\n=^..^=   =^..^=   =^..^=    ERROR!    =^..^=    =^..^=    =^..^=\n\n".as_bytes(),
        );
    }
    append_bytes(&mut text, "Message: ".as_bytes());
    append_bytes(&mut text, message.as_bytes());
    append_bytes(&mut text, "\n".as_bytes());
    let ghost before_location = text@;
    match location {
        Some(at) => {
            append_bytes(&mut text, "\nLocation: ".as_bytes());
            append_bytes(&mut text, at.file.as_bytes());
            append_bytes(&mut text, ":".as_bytes());
            push_decimal_bytes(at.line, &mut text);
            append_bytes(&mut text, ":".as_bytes());
            push_decimal_bytes(at.column, &mut text);
            append_bytes(&mut text, "\n".as_bytes());
        },
        None => {
            append_bytes(&mut text, "\nLocation: unknown\n".as_bytes());
        },
    }
    proof {
        assert(text@ =~= before_location + location_text(location));
    }
    if highlight {
        append_bytes(
            &mut text,
            "\n\x1b[95m=^..^=   =^..^=   =^..^=    =^..^=    =^..^=    =^..^=    =^..^=\x1b[0m\n".as_bytes(),
        );
    } else {
        append_bytes(
            &mut text,
            "\n=^..^=   =^..^=   =^..^=    =^..^=    =^..^=    =^..^=    =^..^=\n".as_bytes(),
        );
    }
    proof {
        assert(text@ =~= panic_report(message, location, highlight));
    }
    text
}

/// The bytes that the panic report of `message` at `location` sends
/// through the debug writer: the highlighted report, each newline preceded
/// by a carriage return.
pub fn debug_panic(message: &str, location: Option<PanicLocation>) -> (wire: Vec<u8>)
    ensures
        wire@ == crlf(panic_report(message, location, true)),
{
    let mut writer = Uart0::new();
    writer.init();
    let text = panic_report_text(message, location, true);
    writer.put_bytes(text.as_slice())
}

} // verus!

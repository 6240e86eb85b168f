use daedalus_caps::extra_debug::zynqmp::{Uart0, SR_TXFULL};
use daedalus_caps::extra_debug::{
    append_bytes, debug_handoff, debug_panic, debug_start, panic_report_text, push_decimal_bytes,
    push_hex, PanicLocation,
};

#[test]
fn putc_waits_while_fifo_full() {
    let mut uart = Uart0;
    assert_eq!(uart.putc(SR_TXFULL, b'a'), None);
    assert_eq!(uart.putc(SR_TXFULL | 0x1, b'a'), None);
}

#[test]
fn putc_writes_byte_when_fifo_has_room() {
    let mut uart = Uart0;
    assert_eq!(uart.putc(0, b'a'), Some(0x61));
    assert_eq!(uart.putc(0x8, 0xff), Some(0xff));
}

#[test]
fn puts_prefixes_newlines_with_carriage_return() {
    let mut uart = Uart0;
    assert_eq!(uart.puts("a\nb\n"), b"a\r\nb\r\n".to_vec());
    assert_eq!(uart.puts(""), Vec::<u8>::new());
    assert_eq!(uart.puts("plain"), b"plain".to_vec());
}

#[test]
fn hex_digits_without_leading_zeros() {
    let mut out = b"0x".to_vec();
    push_hex(0, &mut out);
    assert_eq!(out, b"0x0".to_vec());
    let mut out = Vec::new();
    push_hex(0xdead_beef, &mut out);
    assert_eq!(out, b"deadbeef".to_vec());
    let mut out = Vec::new();
    push_hex(16, &mut out);
    assert_eq!(out, b"10".to_vec());
}

#[test]
fn append_bytes_appends() {
    let mut out = b"ab".to_vec();
    append_bytes(&mut out, b"cd");
    assert_eq!(out, b"abcd".to_vec());
}

#[test]
fn handoff_banner_bytes() {
    assert_eq!(
        debug_handoff(0x4000_0000),
        b"\r\n=^..^= DAEDALUS HANDOFF TO 0x40000000 =^..^=\r\n\r\n".to_vec()
    );
}

#[test]
fn start_banner_bytes() {
    let expected = "\r\n=^..^=  DAEDALUS DEBUG  =^..^=\r\n\
                    Daedalus Version: 0.1.0\r\n\
                    Built for zynqmp in release mode\r\n\
                    Build time: 2024-01-01\r\n\
                    =^..^=  =^..^=  =^..^=  =^..^=\r\n\r\n";
    assert_eq!(
        debug_start("0.1.0", "zynqmp", "release", "2024-01-01"),
        expected.as_bytes().to_vec()
    );
}

#[test]
fn panic_report_with_location() {
    let text = panic_report_text(
        "boom",
        Some(PanicLocation { file: "src/run.rs", line: 120, column: 9 }),
        false,
    );
    let expected = "\n\n=^..^=   =^..^=   =^..^=    ERROR!    =^..^=    =^..^=    =^..^=\n\n\
                    Message: boom\n\
                    \nLocation: src/run.rs:120:9\n\
                    \n=^..^=   =^..^=   =^..^=    =^..^=    =^..^=    =^..^=    =^..^=\n";
    assert_eq!(String::from_utf8(text).unwrap(), expected);
}

#[test]
fn highlighted_panic_report_without_location() {
    let wire = debug_panic("oops", None);
    let expected = "\r\n\r\n\x1b[95m=^..^=   =^..^=   =^..^=    ERROR!    =^..^=    =^..^=    =^..^=\x1b[0m\r\n\r\n\
                    Message: oops\r\n\
                    \r\nLocation: unknown\r\n\
                    \r\n\x1b[95m=^..^=   =^..^=   =^..^=    =^..^=    =^..^=    =^..^=    =^..^=\x1b[0m\r\n";
    assert_eq!(String::from_utf8(wire).unwrap(), expected);
}

#[test]
fn decimal_bytes() {
    let mut out = Vec::new();
    push_decimal_bytes(0, &mut out);
    push_decimal_bytes(u32::MAX, &mut out);
    assert_eq!(out, b"04294967295".to_vec());
}

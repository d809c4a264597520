use microkern::setup::{line_uarts, UARTLine, CONSOLE, MARKLIN, UART};
use microkern::term::{create_slice, to_str, u_to_str, Cursor, Term};

#[test]
fn line_addresses() {
    assert_eq!(line_uarts(CONSOLE), 0xFE20_1000);
    assert_eq!(line_uarts(MARKLIN), 0xFE20_1600);
    assert_eq!(UARTLine::Console.addr(), 0xFE20_1000);
    assert_eq!(UARTLine::Marklin.addr(), 0xFE20_1600);
}

#[test]
fn console_programs_its_line() {
    let u = UART::console();
    assert_eq!(u.registers.cr, 0x301);
    assert_eq!(u.registers.icr, 0);
    assert_eq!(u.registers.ibrd, 26);
    assert_eq!(u.registers.fbrd, 2);
    assert_eq!(u.registers.lcr_h, 0x78);
    assert!(u.registers.tx_log.is_empty());
}

#[test]
fn train_programs_its_line() {
    let u = UART::train();
    assert_eq!(u.registers.cr, 0x301);
    assert_eq!(u.registers.ibrd, 1250);
    assert_eq!(u.registers.fbrd, 1);
    assert_eq!(u.registers.lcr_h, 0x70);
}

#[test]
fn putc_and_put_slice_carry_bytes_in_order() {
    let mut u = UART::console();
    u.putc(b'a');
    u.put_slice(b"bc");
    u.println(b"d");
    assert_eq!(u.registers.tx_log, vec![b'a', b'b', b'c', b'd', b'\n']);
    assert_eq!(u.registers.dr, b'\n' as u32);
}

#[test]
fn putc_drains_a_full_transmit_fifo() {
    let mut u = UART::console();
    u.registers.fr = 0x20;
    assert!(u.txwaiting());
    u.putc(b'x');
    assert!(!u.txwaiting());
    assert_eq!(u.registers.tx_log, vec![b'x']);
}

#[test]
fn getc_reads_the_data_register() {
    let mut u = UART::console();
    u.registers.dr = 0x41;
    assert!(!u.rxwaiting());
    assert_eq!(u.getc(), 'A');
    assert_eq!(u.getc_no_wait(), 'A');
}

#[test]
fn rx_flag_reports_empty_fifo() {
    let mut u = UART::console();
    u.registers.fr = 0x10;
    assert!(u.rxwaiting());
    u.registers.fr = 0;
    assert!(!u.rxwaiting());
}

#[test]
fn term_init_stages_the_line_feed_command() {
    let mut t = Term::init();
    assert_eq!(t.width, 140);
    assert_eq!(t.height, 90);
    assert_eq!(t.cursor, Cursor { x: 0, y: 0, on: false });
    assert!(t.uart.registers.tx_log.is_empty());
    t.flush_all();
    assert_eq!(t.uart.registers.tx_log, vec![0x1b, b'[', b'2', b'0', b'h']);
}

#[test]
fn put_slice_flush_appends_exactly() {
    let mut t = Term::init();
    t.put_slice_flush(b"hello");
    let mut expected = vec![0x1b, b'[', b'2', b'0', b'h'];
    expected.extend_from_slice(b"hello");
    assert_eq!(t.uart.registers.tx_log, expected);
}

#[test]
fn decimal_output_is_exact() {
    let mut t = Term::init();
    t.flush_all();
    let before = t.uart.registers.tx_log.len();
    t.put_u_dec_flush(12345);
    assert_eq!(&t.uart.registers.tx_log[before..], b"12345");
    let before = t.uart.registers.tx_log.len();
    t.put_u_dec_flush(0);
    assert_eq!(&t.uart.registers.tx_log[before..], b"0");
}

#[test]
fn hexadecimal_output_is_exact() {
    let mut t = Term::init();
    t.flush_all();
    let before = t.uart.registers.tx_log.len();
    t.put_u_hex(0xBEEF);
    t.flush_all();
    assert_eq!(&t.uart.registers.tx_log[before..], b"BEEF");
}

#[test]
fn signed_output_is_exact() {
    let mut t = Term::init();
    t.flush_all();
    let before = t.uart.registers.tx_log.len();
    t.put_int_flush(-5);
    assert_eq!(&t.uart.registers.tx_log[before..], b"-5");
    let before = t.uart.registers.tx_log.len();
    t.put_int_flush(127);
    assert_eq!(&t.uart.registers.tx_log[before..], b"127");
    let before = t.uart.registers.tx_log.len();
    t.put_int_flush(-128);
    assert_eq!(&t.uart.registers.tx_log[before..], b"-128");
}

#[test]
fn long_output_drains_through_the_buffer() {
    let mut t = Term::init();
    let payload = vec![b'x'; 2048];
    t.put_slice(payload.as_slice());
    t.flush_all();
    let mut expected = vec![0x1b, b'[', b'2', b'0', b'h'];
    expected.extend_from_slice(payload.as_slice());
    assert_eq!(t.uart.registers.tx_log, expected);
}

#[test]
fn u_to_str_writes_least_significant_digit_first() {
    let mut buf = create_slice();
    assert_eq!(buf, [0u8; 10]);
    let cnt = u_to_str(1234, &mut buf);
    assert_eq!(cnt, 4);
    assert_eq!(&buf[..4], b"4321");
    let mut buf = create_slice();
    let cnt = u_to_str(0, &mut buf);
    assert_eq!(cnt, 1);
    assert_eq!(&buf[..1], b"0");
}

#[test]
fn to_str_writes_only_negative_magnitudes() {
    let mut buf = create_slice();
    to_str(-56, &mut buf);
    assert_eq!(&buf[..2], b"65");
    let mut buf = [9u8; 10];
    to_str(7, &mut buf);
    assert_eq!(buf, [9u8; 10]);
}

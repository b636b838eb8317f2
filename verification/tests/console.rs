use aspeed_rot::console::{
    decimal_digits, expand_newlines, format_count, format_nibble, format_tick, hex32, hex_byte,
};

#[test]
fn tick_lines() {
    let mut buf = [0u8; 32];
    let n = format_tick(&mut buf, 0);
    assert_eq!(&buf[..n], b"tick: 0\r\n");
    let n = format_tick(&mut buf, 42);
    assert_eq!(&buf[..n], b"tick: 42\r\n");
    let n = format_tick(&mut buf, u32::MAX);
    assert_eq!(&buf[..n], b"tick: 4294967295\r\n");
}

#[test]
fn count_lines() {
    let mut buf = [0u8; 32];
    let n = format_count(&mut buf, 7);
    assert_eq!(&buf[..n], b"count = 7\r\n");
    let n = format_count(&mut buf, 1_000_000);
    assert_eq!(&buf[..n], b"count = 1000000\r\n");
    let n = format_count(&mut buf, u32::MAX);
    assert_eq!(n, 20);
    assert_eq!(&buf[..n], b"count = 4294967295\r\n");
}

#[test]
fn decimal_digits_right_aligned() {
    let mut buf = [0u8; 10];
    let start = decimal_digits(90210, &mut buf);
    assert_eq!(start, 5);
    assert_eq!(&buf[start..], b"90210");
    let start = decimal_digits(0, &mut buf);
    assert_eq!(&buf[start..], b"0");
    let start = decimal_digits(1_000_000_000, &mut buf);
    assert_eq!(start, 0);
    assert_eq!(&buf[..], b"1000000000");
}

#[test]
fn nibble_characters() {
    let mut buf = [0xEEu8; 16];
    assert_eq!(format_nibble(5, &mut buf), 1);
    assert_eq!(buf[0], b'5');
    assert_eq!(&buf[1..], &[0xEE; 15]);
    format_nibble(0x1A, &mut buf);
    assert_eq!(buf[0], b':');
    format_nibble(0xF3, &mut buf);
    assert_eq!(buf[0], b'3');
}

#[test]
fn hex_digits() {
    assert_eq!(&hex32(0xDEAD_BEEF), b"deadbeef");
    assert_eq!(&hex32(0), b"00000000");
    assert_eq!(&hex32(0x0123_4567), b"01234567");
    assert_eq!(&hex_byte(0xA5), b"a5");
    assert_eq!(&hex_byte(0x0F), b"0f");
}

#[test]
fn newlines_become_crlf() {
    assert_eq!(expand_newlines(b"hi\nthere\n"), b"hi\r\nthere\r\n".to_vec());
    assert_eq!(expand_newlines(b""), Vec::<u8>::new());
    assert_eq!(expand_newlines(b"\n\n"), b"\r\n\r\n".to_vec());
    assert_eq!(expand_newlines(b"no newline"), b"no newline".to_vec());
}

#[test]
fn formatting_leaves_rest_of_buffer() {
    let mut buf = [0xAAu8; 32];
    let n = format_tick(&mut buf, 5);
    assert_eq!(&buf[..n], b"tick: 5\r\n");
    assert!(buf[n..].iter().all(|b| *b == 0xAA));
    let mut digits = [0xBBu8; 10];
    let start = decimal_digits(123, &mut digits);
    assert_eq!(&digits[..start], &[0xBB; 7]);
}

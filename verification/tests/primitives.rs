use blackbox_events::error::ParseError;
use blackbox_events::varint::take_varint;
use blackbox_events::zigzag::zigzag_decode;

#[test]
fn zigzag_decode_small_values() {
    assert_eq!(zigzag_decode(0), 0);
    assert_eq!(zigzag_decode(1), -1);
    assert_eq!(zigzag_decode(2), 1);
    assert_eq!(zigzag_decode(3), -2);
}

#[test]
fn zigzag_decode_extremes() {
    assert_eq!(zigzag_decode(4294967294), 2147483647);
    assert_eq!(zigzag_decode(4294967295), -2147483648);
}

#[test]
fn varint_single_zero_byte() {
    assert_eq!(take_varint(&[0x00]), Ok((0, 1)));
}

#[test]
fn varint_two_bytes() {
    assert_eq!(take_varint(&[0x96, 0x01]), Ok((150, 2)));
}

#[test]
fn varint_five_bytes_max_value() {
    assert_eq!(take_varint(&[0xff, 0xff, 0xff, 0xff, 0x0f]), Ok((4294967295, 5)));
}

#[test]
fn varint_five_continuation_bytes_malformed() {
    assert_eq!(take_varint(&[0x80, 0x80, 0x80, 0x80, 0x80]), Err(ParseError::Malformed));
}

#[test]
fn varint_runs_out_of_bytes_incomplete() {
    assert_eq!(take_varint(&[]), Err(ParseError::Incomplete));
    assert_eq!(take_varint(&[0x80, 0x80]), Err(ParseError::Incomplete));
}

#[test]
fn varint_stops_at_first_terminator() {
    assert_eq!(take_varint(&[0x01, 0x02]), Ok((1, 1)));
}

#[test]
fn varint_fifth_byte_truncates_to_32_bits() {
    // The fifth byte's high groups overflow 32 bits; the value is kept
    // modulo 2^32.
    assert_eq!(take_varint(&[0xff, 0xff, 0xff, 0xff, 0x7f]), Ok((4294967295, 5)));
}

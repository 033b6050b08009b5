use blackbox_events::error::ParseError;
use blackbox_events::event::parse_event;
use blackbox_events::event::Adjustment;
use blackbox_events::event::Disarm;
use blackbox_events::event::FlightMode;
use blackbox_events::event::Frame;
use blackbox_events::event::IMUFailure;
use blackbox_events::event::InFlightAdjustment;
use blackbox_events::event::LoggingResume;
use blackbox_events::event::SyncBeep;

#[test]
fn sync_beep_leaves_trailing_bytes() {
    // "E", code 0, varint(1000) = [0xE8, 0x07], then two unrelated bytes.
    let buf = [0x45, 0x00, 0xe8, 0x07, 0xaa, 0xbb];
    let (frame, used) = parse_event(&buf).unwrap();
    assert_eq!(frame, Frame::SyncBeep(SyncBeep { time: 1000 }));
    assert_eq!(used, 4);
    assert_eq!(&buf[used..], &[0xaa, 0xbb]);
}

#[test]
fn adjustment_float_variant() {
    // Code 13 with the flag bit set: function 5, then the four
    // little-endian bytes of the IEEE-754 value 1.5.
    let half = 1.5f32.to_le_bytes();
    let buf = [0x45, 13, 0x85, half[0], half[1], half[2], half[3]];
    let (frame, used) = parse_event(&buf).unwrap();
    match frame {
        Frame::InFlightAdjustment(InFlightAdjustment { function, adjustment }) => {
            assert_eq!(function, 5);
            match adjustment {
                Adjustment::Float(bits) => assert_eq!(f32::from_bits(bits), 1.5),
                Adjustment::Int(_) => panic!("expected the float variant"),
            }
        }
        other => panic!("expected an in-flight adjustment, got {:?}", other),
    }
    assert_eq!(used, 7);
}

#[test]
fn adjustment_int_variant() {
    // Code 13 with the flag bit clear: function 5, then the varint of
    // zigzag(-3) = 5.
    let buf = [0x45, 13, 0x05, 0x05];
    let (frame, used) = parse_event(&buf).unwrap();
    assert_eq!(
        frame,
        Frame::InFlightAdjustment(InFlightAdjustment {
            function: 5,
            adjustment: Adjustment::Int(-3),
        })
    );
    assert_eq!(used, 4);
}

#[test]
fn end_of_log_consumes_whole_buffer() {
    let mut buf = vec![0x45, 255];
    buf.extend_from_slice(b"End of log\0");
    let (frame, used) = parse_event(&buf).unwrap();
    assert_eq!(frame, Frame::EndOfLog);
    assert_eq!(used, buf.len());
}

#[test]
fn unknown_event_code_is_malformed() {
    let buf = [0x45, 99];
    assert_eq!(parse_event(&buf), Err(ParseError::Malformed));
}

#[test]
fn incomplete_then_retry_succeeds() {
    // Only the tag and code arrived: incomplete, not an error.  Retrying
    // from the same start position once the varint bytes arrive succeeds.
    let short = [0x45, 0x00];
    assert_eq!(parse_event(&short), Err(ParseError::Incomplete));
    let full = [0x45, 0x00, 0xe8, 0x07];
    assert_eq!(parse_event(&full), Ok((Frame::SyncBeep(SyncBeep { time: 1000 }), 4)));
}

#[test]
fn wrong_tag_byte_is_malformed() {
    assert_eq!(parse_event(&[0x46, 0x00]), Err(ParseError::Malformed));
}

#[test]
fn empty_and_tag_only_are_incomplete() {
    assert_eq!(parse_event(&[]), Err(ParseError::Incomplete));
    assert_eq!(parse_event(&[0x45]), Err(ParseError::Incomplete));
}

#[test]
fn logging_resume_two_varints() {
    let buf = [0x45, 14, 0x96, 0x01, 0xe8, 0x07];
    assert_eq!(
        parse_event(&buf),
        Ok((Frame::LoggingResume(LoggingResume { iteration: 150, time: 1000 }), 6))
    );
}

#[test]
fn disarm_single_varint() {
    let buf = [0x45, 15, 0x07];
    assert_eq!(parse_event(&buf), Ok((Frame::Disarm(Disarm { reason: 7 }), 3)));
}

#[test]
fn flight_mode_two_varints() {
    let buf = [0x45, 30, 0x03, 0x81, 0x01];
    assert_eq!(
        parse_event(&buf),
        Ok((Frame::FlightMode(FlightMode { flags: 3, old_flags: 129 }), 5))
    );
}

#[test]
fn imu_failure_single_varint() {
    let buf = [0x45, 40, 0x2a];
    assert_eq!(parse_event(&buf), Ok((Frame::IMUFailure(IMUFailure { error_code: 42 }), 3)));
}

#[test]
fn end_of_log_mismatch_is_malformed() {
    let mut buf = vec![0x45, 255];
    buf.extend_from_slice(b"End of dog\0");
    assert_eq!(parse_event(&buf), Err(ParseError::Malformed));
}

#[test]
fn end_of_log_matching_prefix_is_incomplete() {
    let mut buf = vec![0x45, 255];
    buf.extend_from_slice(b"End of");
    assert_eq!(parse_event(&buf), Err(ParseError::Incomplete));
}

#[test]
fn adjustment_missing_function_byte_is_incomplete() {
    assert_eq!(parse_event(&[0x45, 13]), Err(ParseError::Incomplete));
}

#[test]
fn adjustment_float_short_payload_is_incomplete() {
    assert_eq!(parse_event(&[0x45, 13, 0x85, 0x00, 0x00]), Err(ParseError::Incomplete));
}

#[test]
fn sync_beep_overlong_varint_is_malformed() {
    let buf = [0x45, 0x00, 0x80, 0x80, 0x80, 0x80, 0x80];
    assert_eq!(parse_event(&buf), Err(ParseError::Malformed));
}

#[test]
fn second_varint_incomplete_reported() {
    // Code 30 needs two varints; only the first arrived in full.
    let buf = [0x45, 30, 0x03, 0x81];
    assert_eq!(parse_event(&buf), Err(ParseError::Incomplete));
}

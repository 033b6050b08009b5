//! Event-record decoding: the tag/code dispatcher and the typed frames it
//! produces.
//!
//! One record is the tag byte `'E'` (0x45), a one-byte event code, and a
//! code-specific payload.  [`spec_parse_event`] is the byte-exact model of
//! the format; [`parse_event`] is the decoder, proved to agree with it on
//! every input.

use vstd::prelude::*;

use crate::error::ParseError;
use crate::varint::spec_varint;
use crate::varint::take_varint;
use crate::zigzag::zigzag_decode;
use crate::zigzag::zigzag_decode_spec;
use vstd::slice::slice_subrange;

verus! {

/// Periodic timing marker.
#[derive(Debug, Clone, Copy, PartialEq, Eq, Structural)]
pub struct SyncBeep {
    pub time: u32,
}

/// Bitmask mode state before and after a transition.
#[derive(Debug, Clone, Copy, PartialEq, Eq, Structural)]
pub struct FlightMode {
    pub flags: u32,
    pub old_flags: u32,
}

/// Disarm cause code.
#[derive(Debug, Clone, Copy, PartialEq, Eq, Structural)]
pub struct Disarm {
    pub reason: u32,
}

/// The value of a live tuning-parameter change.  A flag bit in the byte
/// preceding the value — not the event code — selects which variant was
/// encoded.
#[derive(Debug, Clone, Copy, PartialEq, Eq, Structural)]
pub enum Adjustment {
    /// The raw bits of a little-endian IEEE-754 single-precision value.
    /// The decoder owns no floating-point arithmetic; interpreting the bit
    /// pattern is the caller's business.
    Float(u32),
    /// A zigzag-decoded signed value.
    Int(i32),
}

/// A live tuning-parameter change: which parameter (7 significant bits)
/// and its new value.
#[derive(Debug, Clone, Copy, PartialEq, Eq, Structural)]
pub struct InFlightAdjustment {
    pub function: u8,
    pub adjustment: Adjustment,
}

/// Marks that sampled-frame logging resumed after a gap.
#[derive(Debug, Clone, Copy, PartialEq, Eq, Structural)]
pub struct LoggingResume {
    pub iteration: u32,
    pub time: u32,
}

/// Inertial-sensor fault code.
#[derive(Debug, Clone, Copy, PartialEq, Eq, Structural)]
pub struct IMUFailure {
    pub error_code: u32,
}

/// One decoded event record.  The variant set is closed: every event code
/// the format knows maps to exactly one of these.
#[derive(Debug, Clone, Copy, PartialEq, Eq, Structural)]
pub enum Frame {
    SyncBeep(SyncBeep),
    FlightMode(FlightMode),
    IMUFailure(IMUFailure),
    Disarm(Disarm),
    InFlightAdjustment(InFlightAdjustment),
    LoggingResume(LoggingResume),
    /// Sentinel with no payload: the record stream is exhausted.
    EndOfLog,
}

/// The unsigned value of four bytes read little-endian.
pub open spec fn le32(b0: u8, b1: u8, b2: u8, b3: u8) -> u32 {
    (b0 + b1 * 0x100 + b2 * 0x1_0000 + b3 * 0x100_0000) as u32
}

/// The 11-byte end-of-log sentinel: ASCII "End of log" plus a trailing NUL.
pub open spec fn eol_literal() -> Seq<u8> {
    seq![0x45u8, 0x6eu8, 0x64u8, 0x20u8, 0x6fu8, 0x66u8, 0x20u8, 0x6cu8, 0x6fu8, 0x67u8, 0x00u8]
}

/// What decoding the end-of-log payload from `s` yields: the next 11 bytes
/// must equal the sentinel literal.  A byte that differs is malformed; bytes
/// that merely have not arrived yet are incomplete.
pub open spec fn spec_end_of_log(s: Seq<u8>) -> Result<(Frame, int), ParseError> {
    if exists|j: int| 0 <= j < s.len() && j < 11 && (#[trigger] s[j]) != eol_literal()[j] {
        Err(ParseError::Malformed)
    } else if s.len() < 11 {
        Err(ParseError::Incomplete)
    } else {
        Ok((Frame::EndOfLog, 11))
    }
}

/// What decoding an in-flight-adjustment payload from `s` yields.  The
/// first byte carries the function id; its high bit selects the value
/// encoding: set means four raw bytes of a little-endian IEEE-754 value,
/// clear means a zigzag-encoded varint.
pub open spec fn spec_adjustment(s: Seq<u8>) -> Result<(Frame, int), ParseError> {
    if s.len() == 0 {
        Err(ParseError::Incomplete)
    } else if s[0] & 0x80 != 0 {
        if s.len() < 5 {
            Err(ParseError::Incomplete)
        } else {
            Ok(
                (
                    Frame::InFlightAdjustment(
                        InFlightAdjustment {
                            function: s[0] & 0x7f,
                            adjustment: Adjustment::Float(le32(s[1], s[2], s[3], s[4])),
                        },
                    ),
                    5,
                ),
            )
        }
    } else {
        match spec_varint(s.skip(1)) {
            Ok((v, n)) => Ok(
                (
                    Frame::InFlightAdjustment(
                        InFlightAdjustment {
                            function: s[0],
                            adjustment: Adjustment::Int(zigzag_decode_spec(v) as i32),
                        },
                    ),
                    1 + n,
                ),
            ),
            Err(e) => Err(e),
        }
    }
}

/// What decoding two consecutive varints from the front of `s` yields.
pub open spec fn spec_two_varints(s: Seq<u8>) -> Result<(u32, u32, int), ParseError> {
    match spec_varint(s) {
        Ok((a, n1)) => match spec_varint(s.skip(n1)) {
            Ok((b, n2)) => Ok((a, b, n1 + n2)),
            Err(e) => Err(e),
        },
        Err(e) => Err(e),
    }
}

/// What decoding the payload for `code` from `s` yields: the frame and the
/// number of payload bytes consumed.  An event code outside the closed set
/// is malformed — its payload length is unknowable, so the stream has no
/// resynchronization point.
pub open spec fn spec_payload(code: u8, s: Seq<u8>) -> Result<(Frame, int), ParseError> {
    if code == 0 {
        match spec_varint(s) {
            Ok((v, n)) => Ok((Frame::SyncBeep(SyncBeep { time: v }), n)),
            Err(e) => Err(e),
        }
    } else if code == 13 {
        spec_adjustment(s)
    } else if code == 14 {
        match spec_two_varints(s) {
            Ok((a, b, n)) => Ok((Frame::LoggingResume(LoggingResume { iteration: a, time: b }), n)),
            Err(e) => Err(e),
        }
    } else if code == 15 {
        match spec_varint(s) {
            Ok((v, n)) => Ok((Frame::Disarm(Disarm { reason: v }), n)),
            Err(e) => Err(e),
        }
    } else if code == 30 {
        match spec_two_varints(s) {
            Ok((a, b, n)) => Ok((Frame::FlightMode(FlightMode { flags: a, old_flags: b }), n)),
            Err(e) => Err(e),
        }
    } else if code == 40 {
        match spec_varint(s) {
            Ok((v, n)) => Ok((Frame::IMUFailure(IMUFailure { error_code: v }), n)),
            Err(e) => Err(e),
        }
    } else if code == 255 {
        spec_end_of_log(s)
    } else {
        Err(ParseError::Malformed)
    }
}

/// The byte-exact model of one event record: tag byte `'E'`, event code,
/// payload.  On success the `int` is the total number of bytes the record
/// occupies.
pub open spec fn spec_parse_event(s: Seq<u8>) -> Result<(Frame, int), ParseError> {
    if s.len() == 0 {
        Err(ParseError::Incomplete)
    } else if s[0] != 0x45 {
        Err(ParseError::Malformed)
    } else if s.len() == 1 {
        Err(ParseError::Incomplete)
    } else {
        match spec_payload(s[1], s.skip(2)) {
            Ok((f, n)) => Ok((f, 2 + n)),
            Err(e) => Err(e),
        }
    }
}

/// The byte of the end-of-log sentinel at index `j`.
fn eol_byte(j: usize) -> (b: u8)
    requires
        j < 11,
    ensures
        b == eol_literal()[j as int],
{
    match j {
        0 => 0x45,
        1 => 0x6e,
        2 => 0x64,
        3 => 0x20,
        4 => 0x6f,
        5 => 0x66,
        6 => 0x20,
        7 => 0x6c,
        8 => 0x6f,
        9 => 0x67,
        _ => 0x00,
    }
}

/// Checks the end-of-log sentinel at the front of `rest` and returns how
/// many bytes it occupies, classifying shortfalls and mismatches exactly as
/// [`spec_end_of_log`] does.
fn parse_end_of_log(rest: &[u8]) -> (r: Result<usize, ParseError>)
    ensures
        (match r {
            Ok(n) => spec_end_of_log(rest@) == Ok::<(Frame, int), ParseError>(
                (Frame::EndOfLog, n as int),
            ) && n == 11,
            Err(e) => spec_end_of_log(rest@) == Err::<(Frame, int), ParseError>(e),
        }),
{
    let len: usize = rest.len();
    let mut j: usize = 0;
    while j < 11
        invariant
            j <= 11,
            j <= len,
            len == rest@.len(),
            forall|k: int| 0 <= k < j ==> rest@[k] == eol_literal()[k],
        decreases 11 - j,
    {
        if j >= len {
            return Err(ParseError::Incomplete);
        }
        let expected: u8 = eol_byte(j);
        if rest[j] != expected {
            assert(0 <= j < rest@.len() && (j as int) < 11 && rest@[j as int] != eol_literal()[
                j as int
            ]);
            return Err(ParseError::Malformed);
        }
        j = j + 1;
    }
    Ok(11)
}

/// Reads four bytes little-endian into the 32-bit value they spell.
fn le_u32(b0: u8, b1: u8, b2: u8, b3: u8) -> (r: u32)
    ensures
        r == le32(b0, b1, b2, b3),
{
    proof {
        assert((b0 as u32) | ((b1 as u32) << 8) | ((b2 as u32) << 16) | ((b3 as u32) << 24) == (b0
            + b1 * 0x100 + b2 * 0x1_0000 + b3 * 0x100_0000)) by (bit_vector);
    }
    (b0 as u32) | ((b1 as u32) << 8) | ((b2 as u32) << 16) | ((b3 as u32) << 24)
}

/// Decodes one event record from the front of `input`.
///
/// On success returns the typed frame and how many bytes the record
/// occupied; bytes past that count belong to the next record and are left
/// untouched.  `Incomplete` means the caller may buffer more bytes and
/// retry the identical call; `Malformed` means the bytes present violate
/// the format.  The outcome is exactly what [`spec_parse_event`] assigns to
/// the input bytes — a total, deterministic function of them.
pub fn parse_event(input: &[u8]) -> (r: Result<(Frame, usize), ParseError>)
    ensures
        (match r {
            Ok((f, n)) => spec_parse_event(input@) == Ok::<(Frame, int), ParseError>(
                (f, n as int),
            ),
            Err(e) => spec_parse_event(input@) == Err::<(Frame, int), ParseError>(e),
        }),
        r matches Ok((f, n)) ==> 2 <= n <= input@.len(),
{
    let len: usize = input.len();
    if len == 0 {
        return Err(ParseError::Incomplete);
    }
    if input[0] != 0x45 {
        return Err(ParseError::Malformed);
    }
    if len == 1 {
        return Err(ParseError::Incomplete);
    }
    let code: u8 = input[1];
    let rest: &[u8] = slice_subrange(input, 2, len);
    match code {
        0 => match take_varint(rest) {
            Ok((v, n)) => Ok((Frame::SyncBeep(SyncBeep { time: v }), 2 + n)),
            Err(e) => Err(e),
        },
        13 => {
            if rest.len() == 0 {
                return Err(ParseError::Incomplete);
            }
            let b: u8 = rest[0];
            if b & 0x80 != 0 {
                if rest.len() < 5 {
                    return Err(ParseError::Incomplete);
                }
                let bits: u32 = le_u32(rest[1], rest[2], rest[3], rest[4]);
                Ok(
                    (
                        Frame::InFlightAdjustment(
                            InFlightAdjustment {
                                function: b & 0x7f,
                                adjustment: Adjustment::Float(bits),
                            },
                        ),
                        7,
                    ),
                )
            } else {
                match take_varint(slice_subrange(rest, 1, rest.len())) {
                    Ok((v, n)) => {
                        proof {
                            assert(-0x8000_0000 <= zigzag_decode_spec(v) < 0x8000_0000);
                        }
                        Ok(
                            (
                                Frame::InFlightAdjustment(
                                    InFlightAdjustment {
                                        function: b,
                                        adjustment: Adjustment::Int(zigzag_decode(v)),
                                    },
                                ),
                                3 + n,
                            ),
                        )
                    },
                    Err(e) => Err(e),
                }
            }
        },
        14 => match take_varint(rest) {
            Ok((iteration, n1)) => {
                match take_varint(slice_subrange(rest, n1, rest.len())) {
                    Ok((time, n2)) => Ok(
                        (Frame::LoggingResume(LoggingResume { iteration, time }), 2 + n1 + n2),
                    ),
                    Err(e) => Err(e),
                }
            },
            Err(e) => Err(e),
        },
        15 => match take_varint(rest) {
            Ok((v, n)) => Ok((Frame::Disarm(Disarm { reason: v }), 2 + n)),
            Err(e) => Err(e),
        },
        30 => match take_varint(rest) {
            Ok((flags, n1)) => {
                match take_varint(slice_subrange(rest, n1, rest.len())) {
                    Ok((old_flags, n2)) => Ok(
                        (Frame::FlightMode(FlightMode { flags, old_flags }), 2 + n1 + n2),
                    ),
                    Err(e) => Err(e),
                }
            },
            Err(e) => Err(e),
        },
        40 => match take_varint(rest) {
            Ok((v, n)) => Ok((Frame::IMUFailure(IMUFailure { error_code: v }), 2 + n)),
            Err(e) => Err(e),
        },
        255 => match parse_end_of_log(rest) {
            Ok(n) => Ok((Frame::EndOfLog, 2 + n)),
            Err(e) => Err(e),
        },
        _ => Err(ParseError::Malformed),
    }
}

} // verus!

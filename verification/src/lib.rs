//! Decoder for the sparse event records of a flight-controller black-box
//! telemetry log.
//!
//! An event record starts with the tag byte `'E'`, followed by a one-byte
//! event code and a code-specific payload.  Payloads are built from two
//! shared primitives: a little-endian base-128 variable-length unsigned
//! integer ("varint") and the zigzag mapping between signed and unsigned
//! integers.  The decoder distinguishes "not enough bytes yet" from
//! "malformed input", so a streaming caller can buffer more bytes and retry.

pub mod error;
pub mod event;
pub mod varint;
pub mod zigzag;

//! Error types for header decoding.
//!
//! Two disjoint kinds are distinguished so that callers can tell a
//! malformed header from a truncated or unavailable input: a transport
//! failure ([`IoError`]) and a format failure ([`FormatError`], raised only
//! for a wrong magic signature). Unknown compression-method or
//! operating-system codes are never errors.

use vstd::prelude::*;

verus! {

/// A format-level failure: the two-byte magic signature did not match.
/// The payload carries the byte that was actually read.
#[derive(Clone, Copy, Debug, PartialEq, Eq, Structural)]
pub enum FormatError {
    InvalidMagic1(u8),
    InvalidMagic2(u8),
}

/// A transport-level failure of the underlying byte source.
#[derive(Clone, Copy, Debug, PartialEq, Eq, Structural)]
pub enum IoError {
    UnexpectedEof,
}

/// Everything a decode can fail with: transport or format, never both.
#[derive(Clone, Copy, Debug, PartialEq, Eq, Structural)]
pub enum Error {
    Io(IoError),
    Format(FormatError),
}

} // verus!

//! Decoder for the header of one member of a gzip stream.
//!
//! The header is a tagged, variable-length structure: a fixed ten-byte
//! prefix whose flags byte determines which optional fields (extra block,
//! file name, comment, header checksum) follow, in a fixed order. The
//! decoder consumes bytes from a [`reader::Reader`] cursor and either
//! returns a fully populated [`member::Member`] or fails, leaving the
//! cursor exactly where the failure was discovered; on success the cursor
//! sits on the first byte of the compressed payload.

pub mod error;
pub mod member;
pub mod properties;
pub mod reader;

//! Decoder for a recorded match-replay byte stream.
//!
//! The stream is a framed container: a fixed file header followed by a run of
//! variable-length, optionally snappy-compressed frames.  Frames of the packet
//! kind embed a second, bit-packed framing layer of sub-frames.  This crate
//! verifies the decoding engine: the two variable-width integer encodings, the
//! byte-aligned top-level frame reader, the bit-level nested frame reader, and
//! the command-to-message-kind resolution tables.

use vstd::prelude::*;

pub mod bits;
pub mod ubitvar;
pub mod varint;
pub mod commands;
pub mod packet;
pub mod bytes;
pub mod frames;

verus! {

/// Everything that can interrupt a decode.
///
/// `EndOfStream` is the expected terminal condition of the top-level loop, not
/// a failure.  `UnknownKind` is only returned where a caller asks for a
/// message shell of a kind that has none; unresolved command ids inside the
/// stream are carried as data instead.
#[derive(Clone, Copy, Debug, PartialEq, Eq, Structural)]
pub enum DemoError {
    /// Clean end of the byte source at a frame boundary.
    EndOfStream,
    /// A byte-aligned varint ran past the end of the source.
    TruncatedVarint,
    /// A frame header or payload was shorter than declared.
    TruncatedFrame,
    /// A sub-frame payload was shorter than declared.
    TruncatedSubFrame,
    /// A variable-width integer did not fit its 32-bit accumulator.
    VarintOverflow,
    /// A bit-cursor read asked for more bits than remain.
    CursorUnderflow,
    /// Decompression of a compressed frame payload failed.
    PayloadCorrupt,
    /// No message shell exists for the requested command kind.
    UnknownKind,
}

} // verus!

//! The byte-aligned top-level frame reader.
//!
//! After the fixed file header the stream is a run of frames, each a header
//! of three byte-aligned varints — raw command id, tick, declared size —
//! followed by exactly that many stored bytes, decompressed when the
//! command's reserved bit says so.  A clean end of the source at a frame
//! boundary ends the stream; a decompression failure spends only its own
//! frame, whose byte boundary is already known.

use vstd::prelude::*;
use crate::DemoError;
use crate::bytes::ByteReader;
use crate::bytes::copy_bytes;
use crate::bytes::le32;
use crate::bits::bits_of;
use crate::varint::VarintOutcome;
use crate::varint::varint_dec;
use crate::varint::lemma_varint_dec_bound;
use crate::commands::DemoCommand;
use crate::commands::TopCommand;
use crate::commands::DemoMessage;
use crate::commands::is_packet_kind;
use crate::commands::new_message_from_command;
use crate::commands::resolve_top;
use crate::commands::resolve_top_spec;
use crate::packet::PacketRecords;
use crate::packet::SubFrameSpec;
use crate::packet::subframes_dec;
use crate::packet::packet_records_match;
use crate::packet::read_data_messages_from_packet;

verus! {

/// What the block decompressor yields for a given input, if it succeeds:
/// block decompression is a function of the bytes alone.
pub uninterp spec fn snappy_inflate(s: Seq<u8>) -> Option<Seq<u8>>;

/// Relies on snap::raw::Decoder::decompress_vec: deterministic block
/// decompression of the whole input, failing exactly on inputs that are not
/// well-formed compressed blocks.
#[verifier::external_body]
fn decompress(data: &Vec<u8>) -> (r: Result<Vec<u8>, DemoError>)
    ensures
        match r {
            Ok(out) => snappy_inflate(data@) == Some(out@),
            Err(e) => e == DemoError::PayloadCorrupt && snappy_inflate(data@) is None,
        },
{
    match snap::raw::Decoder::new().decompress_vec(data.as_slice()) {
        Ok(v) => Ok(v),
        Err(_) => Err(DemoError::PayloadCorrupt),
    }
}

/// The stream-front header: an eight-byte identifying tag and two advisory
/// little-endian offsets, random-access hints the sequential decode does not
/// follow.
pub struct FileHeader {
    pub tag: Vec<u8>,
    pub file_info_offset: u32,
    pub spawn_groups_offset: u32,
}

/// Read the file header off the front of the stream.  On a shortfall nothing
/// is consumed.
pub fn read_file_header(r: &mut ByteReader) -> (h: Result<FileHeader, DemoError>)
    requires
        old(r).wf(),
    ensures
        final(r).wf(),
        match h {
            Ok(fh) => {
                &&& old(r)@.len() >= 16
                &&& fh.tag@ == old(r)@.take(8)
                &&& fh.file_info_offset as nat == le32(old(r)@.skip(8))
                &&& fh.spawn_groups_offset as nat == le32(old(r)@.skip(12))
                &&& final(r)@ == old(r)@.skip(16)
            },
            Err(e) => e == DemoError::TruncatedFrame && old(r)@.len() < 16 && final(r)@ == old(
                r,
            )@,
        },
{
    if r.remaining() < 16 {
        return Err(DemoError::TruncatedFrame);
    }
    let ghost s0 = r@;
    let tag = match r.read_exact(8) {
        Some(t) => t,
        None => vstd::pervasive::unreached(),
    };
    let file_info_offset = match r.read_u32_le() {
        Some(v) => v,
        None => vstd::pervasive::unreached(),
    };
    let spawn_groups_offset = match r.read_u32_le() {
        Some(v) => v,
        None => vstd::pervasive::unreached(),
    };
    proof {
        assert(s0.skip(8).skip(4) =~= s0.skip(12));
        assert(s0.skip(8).skip(4).skip(4) =~= s0.skip(16));
    }
    Ok(FileHeader { tag, file_info_offset, spawn_groups_offset })
}

/// The compression flag of a raw command id: its reserved bit six.
pub open spec fn is_compressed_of(raw: nat) -> bool {
    (raw / 64) % 2 == 1
}

/// The command id with the compression bit cleared.
pub open spec fn command_of(raw: nat) -> nat {
    if is_compressed_of(raw) {
        (raw - 64) as nat
    } else {
        raw
    }
}

/// One parsed top-level frame header at the ghost level: the three varint
/// fields and the bytes they occupied.
pub struct FrameHeaderSpec {
    pub raw: nat,
    pub tick: nat,
    pub size: nat,
    pub used: nat,
}

/// Outcome of parsing a top-level frame header.
pub enum HeaderOutcome {
    Header(FrameHeaderSpec),
    Eos,
    Truncated,
    Overflow,
}

/// Parse a top-level frame header: three byte-aligned varints — raw command
/// id, tick, declared size.  An empty source is the clean end of the stream;
/// any other shortfall is truncation.
pub open spec fn header_dec(s: Seq<u8>) -> HeaderOutcome {
    if s.len() == 0 {
        HeaderOutcome::Eos
    } else {
        match varint_dec(s, 0) {
            VarintOutcome::Truncated => HeaderOutcome::Truncated,
            VarintOutcome::Overflow => HeaderOutcome::Overflow,
            VarintOutcome::Value(raw, n1) => match varint_dec(s.skip(n1 as int), 0) {
                VarintOutcome::Truncated => HeaderOutcome::Truncated,
                VarintOutcome::Overflow => HeaderOutcome::Overflow,
                VarintOutcome::Value(tick, n2) => match varint_dec(
                    s.skip((n1 + n2) as int),
                    0,
                ) {
                    VarintOutcome::Truncated => HeaderOutcome::Truncated,
                    VarintOutcome::Overflow => HeaderOutcome::Overflow,
                    VarintOutcome::Value(size, n3) => HeaderOutcome::Header(
                        FrameHeaderSpec { raw, tick, size, used: n1 + n2 + n3 },
                    ),
                },
            },
        }
    }
}

/// The header of one top-level frame: the resolved kind, the compression
/// flag, the tick, and the declared byte count of the stored — still
/// compressed — payload.
pub struct CDemoPacketMetadata {
    pub kind: DemoCommand,
    pub compressed: bool,
    pub tick: u32,
    pub size: usize,
}

impl CDemoPacketMetadata {
    /// Whether this header carries exactly the fields of a parsed ghost-level
    /// header.
    pub open spec fn agrees(self, h: FrameHeaderSpec) -> bool {
        &&& self.kind == resolve_top_spec(command_of(h.raw) as u32)
        &&& self.compressed == is_compressed_of(h.raw)
        &&& self.tick as nat == h.tick
        &&& self.size as nat == h.size
    }

    /// Parse one frame header at the cursor without consuming anything: the
    /// header and the bytes it occupies.  A clean end of the source before
    /// its first byte is the expected terminal condition; truncation
    /// anywhere inside the header is a frame fault.
    pub fn peek_from(r: &ByteReader) -> (res: Result<(CDemoPacketMetadata, usize), DemoError>)
        requires
            r.wf(),
        ensures
            match res {
                Ok((md, used)) => {
                    &&& header_dec(r@) matches HeaderOutcome::Header(h) && md.agrees(h)
                        && used as nat == h.used && used <= r@.len() && used <= 15
                },
                Err(e) => {
                    ||| (e == DemoError::EndOfStream && header_dec(r@) is Eos)
                    ||| (e == DemoError::TruncatedFrame && header_dec(r@) is Truncated)
                    ||| (e == DemoError::VarintOverflow && header_dec(r@) is Overflow)
                },
            },
    {
        if r.remaining() == 0 {
            return Err(DemoError::EndOfStream);
        }
        proof {
            assert(r@.skip(0) =~= r@);
        }
        let (raw, n1) = match r.peek_varint_at(0) {
            Ok(x) => x,
            Err(DemoError::TruncatedVarint) => {
                return Err(DemoError::TruncatedFrame);
            },
            Err(_) => {
                return Err(DemoError::VarintOverflow);
            },
        };
        let (tick, n2) = match r.peek_varint_at(n1) {
            Ok(x) => x,
            Err(DemoError::TruncatedVarint) => {
                return Err(DemoError::TruncatedFrame);
            },
            Err(_) => {
                return Err(DemoError::VarintOverflow);
            },
        };
        let (size, n3) = match r.peek_varint_at(n1 + n2) {
            Ok(x) => x,
            Err(DemoError::TruncatedVarint) => {
                return Err(DemoError::TruncatedFrame);
            },
            Err(_) => {
                return Err(DemoError::VarintOverflow);
            },
        };
        let compressed = (raw / 64) % 2 == 1;
        let command_id = if compressed {
            raw - 64
        } else {
            raw
        };
        let kind = resolve_top(command_id);
        Ok((CDemoPacketMetadata { kind, compressed, tick, size: size as usize }, n1 + n2 + n3))
    }

    /// Read one frame header, consuming it.  On any failure nothing is
    /// consumed.
    pub fn read_from(r: &mut ByteReader) -> (res: Result<CDemoPacketMetadata, DemoError>)
        requires
            old(r).wf(),
        ensures
            final(r).wf(),
            match res {
                Ok(md) => {
                    &&& header_dec(old(r)@) matches HeaderOutcome::Header(h) && md.agrees(h)
                        && final(r)@ == old(r)@.skip(h.used as int)
                },
                Err(e) => final(r)@ == old(r)@ && {
                    ||| (e == DemoError::EndOfStream && header_dec(old(r)@) is Eos)
                    ||| (e == DemoError::TruncatedFrame && header_dec(old(r)@) is Truncated)
                    ||| (e == DemoError::VarintOverflow && header_dec(old(r)@) is Overflow)
                },
            },
    {
        match Self::peek_from(r) {
            Ok((md, used)) => {
                r.advance(used);
                Ok(md)
            },
            Err(e) => Err(e),
        }
    }
}

/// Read a frame's stored bytes and undo its compression.  A shortfall
/// consumes nothing; a decompression failure consumes exactly the frame's
/// declared bytes, so the caller may step to the next frame.
pub fn read_message_data(r: &mut ByteReader, size: usize, compressed: bool) -> (res: Result<
    Vec<u8>,
    DemoError,
>)
    requires
        old(r).wf(),
    ensures
        final(r).wf(),
        match res {
            Ok(d) => {
                &&& old(r)@.len() >= size
                &&& final(r)@ == old(r)@.skip(size as int)
                &&& if compressed {
                    snappy_inflate(old(r)@.take(size as int)) == Some(d@)
                } else {
                    d@ == old(r)@.take(size as int)
                }
            },
            Err(e) => {
                ||| (e == DemoError::TruncatedFrame && old(r)@.len() < size && final(r)@ == old(
                    r,
                )@)
                ||| (e == DemoError::PayloadCorrupt && compressed && old(r)@.len() >= size
                    && snappy_inflate(old(r)@.take(size as int)) is None && final(r)@ == old(
                    r,
                )@.skip(size as int))
            },
        },
{
    let data = match r.read_exact(size) {
        Some(d) => d,
        None => {
            return Err(DemoError::TruncatedFrame);
        },
    };
    if compressed {
        decompress(&data)
    } else {
        Ok(data)
    }
}

/// Whether the fixed table builds a message shell for a kind: every known
/// top-level command but the save-game and spawn-group snapshots.
pub open spec fn has_shell(kind: DemoCommand) -> bool {
    match kind {
        DemoCommand::EDemo(t) => t != TopCommand::SaveGame && t != TopCommand::SpawnGroups,
        _ => false,
    }
}

/// The frame payload the message layer sees: the stored bytes, inflated when
/// the compression flag is set.
pub open spec fn payload_of(stored: Seq<u8>, compressed: bool) -> Option<Seq<u8>> {
    if compressed {
        snappy_inflate(stored)
    } else {
        Some(stored)
    }
}

/// Whether a decoded message is what a command calls for on a payload:
/// packet kinds walk the nested layer, the full packet stays opaque, and
/// everything else — known or not — keeps the payload flat.
pub open spec fn msg_matches(msg: DemoMessage, kind: DemoCommand, payload: Seq<u8>) -> bool {
    match msg {
        DemoMessage::Standalone(d) => !is_packet_kind(kind) && kind != DemoCommand::EDemo(
            TopCommand::FullPacket,
        ) && d@ == payload,
        DemoMessage::Packet(p) => is_packet_kind(kind) && packet_records_match(p, payload),
        DemoMessage::FullPacket(d) => kind == DemoCommand::EDemo(TopCommand::FullPacket) && d@
            == payload,
    }
}

/// The decode of an empty payload's nested layer: only the sentinel byte
/// remains, below the threshold, so there are no records and no failure.
pub proof fn lemma_empty_packet_records()
    ensures
        subframes_dec(bits_of(Seq::<u8>::empty() + seq![0u8])).0 == Seq::<SubFrameSpec>::empty(),
        subframes_dec(bits_of(Seq::<u8>::empty() + seq![0u8])).1 == Option::<DemoError>::None,
{
    assert(Seq::<u8>::empty() + seq![0u8] =~= seq![0u8]);
    assert(bits_of(seq![0u8]).len() == 8);
}

impl CDemoPacketMetadata {
    /// The empty shell for this header's kind, mirroring the fixed table:
    /// the save-game and spawn-group kinds and unresolved ids have none.
    pub fn new_message(&self) -> (m: Result<DemoMessage, DemoError>)
        ensures
            match m {
                Ok(msg) => has_shell(self.kind) && msg_matches(msg, self.kind, Seq::<u8>::empty()),
                Err(e) => e == DemoError::UnknownKind && !has_shell(self.kind),
            },
    {
        proof {
            lemma_empty_packet_records();
        }
        match self.kind {
            DemoCommand::EDemo(TopCommand::SaveGame) => Err(DemoError::UnknownKind),
            DemoCommand::EDemo(TopCommand::SpawnGroups) => Err(DemoError::UnknownKind),
            DemoCommand::EDemo(_) => Ok(new_message_from_command(self.kind)),
            _ => Err(DemoError::UnknownKind),
        }
    }

    /// Fill this header's shell from its decompressed payload bytes: packet
    /// kinds walk the nested layer, the full packet stays opaque, anything
    /// else keeps the bytes flat.
    pub fn parse_message_from_bytes(&self, data: &Vec<u8>) -> (m: Result<DemoMessage, DemoError>)
        requires
            is_packet_kind(self.kind) ==> data@.len() + 1 <= usize::MAX / 8,
        ensures
            match m {
                Ok(msg) => has_shell(self.kind) && msg_matches(msg, self.kind, data@),
                Err(e) => e == DemoError::UnknownKind && !has_shell(self.kind),
            },
    {
        match self.kind {
            DemoCommand::EDemo(TopCommand::SaveGame) => Err(DemoError::UnknownKind),
            DemoCommand::EDemo(TopCommand::SpawnGroups) => Err(DemoError::UnknownKind),
            DemoCommand::EDemo(TopCommand::Packet) => Ok(
                DemoMessage::Packet(read_data_messages_from_packet(data)),
            ),
            DemoCommand::EDemo(TopCommand::SignonPacket) => Ok(
                DemoMessage::Packet(read_data_messages_from_packet(data)),
            ),
            DemoCommand::EDemo(TopCommand::FullPacket) => Ok(
                DemoMessage::FullPacket(copy_bytes(data)),
            ),
            DemoCommand::EDemo(_) => Ok(DemoMessage::Standalone(copy_bytes(data))),
            _ => Err(DemoError::UnknownKind),
        }
    }

    /// Read this header's stored bytes off the source and parse them.  The
    /// payload is consumed — and the source left at the next frame boundary —
    /// in every outcome but a truncated source.  A packet payload too large
    /// to bit-address is reported as corrupt.
    pub fn read_message_from(&self, r: &mut ByteReader) -> (m: Result<DemoMessage, DemoError>)
        requires
            old(r).wf(),
        ensures
            final(r).wf(),
            match m {
                Ok(msg) => {
                    &&& old(r)@.len() >= self.size
                    &&& final(r)@ == old(r)@.skip(self.size as int)
                    &&& has_shell(self.kind)
                    &&& payload_of(old(r)@.take(self.size as int), self.compressed)
                        matches Some(p) && msg_matches(msg, self.kind, p)
                },
                Err(e) => {
                    ||| (e == DemoError::TruncatedFrame && old(r)@.len() < self.size && final(r)@
                        == old(r)@)
                    ||| (e == DemoError::PayloadCorrupt && self.compressed && old(r)@.len()
                        >= self.size && snappy_inflate(old(r)@.take(self.size as int)) is None
                        && final(r)@ == old(r)@.skip(self.size as int))
                    ||| (e == DemoError::PayloadCorrupt && is_packet_kind(self.kind) && old(
                        r,
                    )@.len() >= self.size && (payload_of(
                        old(r)@.take(self.size as int),
                        self.compressed,
                    ) matches Some(p) && p.len() + 1 > usize::MAX / 8) && final(r)@ == old(
                        r,
                    )@.skip(self.size as int))
                    ||| (e == DemoError::UnknownKind && !has_shell(self.kind) && old(r)@.len()
                        >= self.size && final(r)@ == old(r)@.skip(self.size as int))
                },
            },
    {
        let data = match read_message_data(r, self.size, self.compressed) {
            Ok(d) => d,
            Err(e) => {
                return Err(e);
            },
        };
        let packet_kind = match self.kind {
            DemoCommand::EDemo(TopCommand::Packet) => true,
            DemoCommand::EDemo(TopCommand::SignonPacket) => true,
            _ => false,
        };
        if packet_kind && data.len() > usize::MAX / 8 - 1 {
            return Err(DemoError::PayloadCorrupt);
        }
        self.parse_message_from_bytes(&data)
    }
}

/// One fully decoded top-level frame: the resolved command, the decoded
/// message, and the header fields it was declared with.
pub struct CDemoMessage {
    pub kind: DemoCommand,
    pub msg: DemoMessage,
    pub compressed: bool,
    pub tick: u32,
    pub size: usize,
}

impl CDemoMessage {
    /// Whether this record's tick is the unset sentinel.
    pub fn tick_unset(&self) -> (b: bool)
        ensures
            b == (self.tick == 0xFFFF_FFFFu32),
    {
        self.tick == 0xFFFF_FFFFu32
    }

    /// The clock reading of this record's tick, at thirty ticks a second:
    /// the minute, the second within it, and the leftover tick.  The unset
    /// sentinel reads as the tick before zero.
    pub fn tick_clock(&self) -> (r: (i64, i64, i64))
        ensures
            self.tick == 0xFFFF_FFFFu32 ==> r == (0i64, 0i64, -1i64),
            self.tick != 0xFFFF_FFFFu32 ==> {
                &&& r.0 == self.tick as int / 1800
                &&& r.1 == (self.tick as int % 1800) / 30
                &&& r.2 == self.tick as int % 30
            },
    {
        if self.tick == 0xFFFF_FFFFu32 {
            (0, 0, -1)
        } else {
            let min = self.tick / 1800;
            let sec = (self.tick % 1800) / 30;
            let rem = self.tick % 30;
            (min as i64, sec as i64, rem as i64)
        }
    }
}

/// One decoded top-level frame at the ghost level: `payload` holds the bytes
/// after decompression, `consumed` the source bytes the frame spanned.
pub struct FrameSpec {
    pub raw: nat,
    pub tick: nat,
    pub size: nat,
    pub payload: Seq<u8>,
    pub consumed: nat,
}

/// Outcome of decoding one top-level frame.  `Corrupt` carries the source
/// bytes the frame spanned: its boundary is known, so the stream can go on.
pub enum FrameOutcome {
    Frame(FrameSpec),
    Eos,
    TruncFrame,
    Overflow,
    Corrupt(nat),
}

/// Decode one top-level frame: a header, then exactly its declared byte
/// count, inflated when the compression bit is set.  A packet payload too
/// large to bit-address counts as corrupt.
pub open spec fn frame_dec(s: Seq<u8>) -> FrameOutcome {
    match header_dec(s) {
        HeaderOutcome::Eos => FrameOutcome::Eos,
        HeaderOutcome::Truncated => FrameOutcome::TruncFrame,
        HeaderOutcome::Overflow => FrameOutcome::Overflow,
        HeaderOutcome::Header(h) => {
            if s.len() - h.used < h.size {
                FrameOutcome::TruncFrame
            } else {
                let stored = s.subrange(h.used as int, (h.used + h.size) as int);
                match payload_of(stored, is_compressed_of(h.raw)) {
                    Option::None => FrameOutcome::Corrupt(h.used + h.size),
                    Option::Some(p) => {
                        if is_packet_kind(resolve_top_spec(command_of(h.raw) as u32)) && p.len()
                            + 1 > usize::MAX / 8 {
                            FrameOutcome::Corrupt(h.used + h.size)
                        } else {
                            FrameOutcome::Frame(
                                FrameSpec {
                                    raw: h.raw,
                                    tick: h.tick,
                                    size: h.size,
                                    payload: p,
                                    consumed: h.used + h.size,
                                },
                            )
                        }
                    },
                }
            }
        },
    }
}

/// Whether a decoded record carries exactly a ghost-level frame.
pub open spec fn rec_matches(m: CDemoMessage, f: FrameSpec) -> bool {
    &&& m.kind == resolve_top_spec(command_of(f.raw) as u32)
    &&& m.compressed == is_compressed_of(f.raw)
    &&& m.tick as nat == f.tick
    &&& m.size as nat == f.size
    &&& msg_matches(m.msg, m.kind, f.payload)
}

/// A decoded frame or a corrupt one spans at least its three header varints
/// and at most the whole remaining source.
pub proof fn lemma_frame_dec_bounds(s: Seq<u8>)
    ensures
        frame_dec(s) matches FrameOutcome::Frame(f) ==> 3 <= f.consumed <= s.len(),
        frame_dec(s) matches FrameOutcome::Corrupt(c) ==> 3 <= c <= s.len(),
{
    if s.len() > 0 {
        lemma_varint_dec_bound(s, 0);
        if varint_dec(s, 0) is Value {
            let n1 = crate::varint::outcome_len(varint_dec(s, 0));
            lemma_varint_dec_bound(s.skip(n1 as int), 0);
            if varint_dec(s.skip(n1 as int), 0) is Value {
                let n2 = crate::varint::outcome_len(varint_dec(s.skip(n1 as int), 0));
                lemma_varint_dec_bound(s.skip((n1 + n2) as int), 0);
            }
        }
    }
}

/// Read one whole frame: header, payload, decompression, command resolution,
/// and — for packet kinds — the nested walk.  On the clean end of the
/// stream, on truncation and on a malformed varint nothing is consumed; a
/// corrupt frame is consumed whole, so the next frame can still be read.
pub fn read_next_message_from(r: &mut ByteReader) -> (res: Result<CDemoMessage, DemoError>)
    requires
        old(r).wf(),
    ensures
        final(r).wf(),
        match res {
            Ok(m) => {
                &&& frame_dec(old(r)@) matches FrameOutcome::Frame(f) && rec_matches(m, f)
                    && final(r)@ == old(r)@.skip(f.consumed as int)
            },
            Err(e) => {
                ||| (e == DemoError::EndOfStream && frame_dec(old(r)@) is Eos
                    && final(r)@ == old(r)@)
                ||| (e == DemoError::TruncatedFrame && frame_dec(old(r)@) is TruncFrame
                    && final(r)@ == old(r)@)
                ||| (e == DemoError::VarintOverflow && frame_dec(old(r)@) is Overflow
                    && final(r)@ == old(r)@)
                ||| (frame_dec(old(r)@) matches FrameOutcome::Corrupt(c) && e
                    == DemoError::PayloadCorrupt && final(r)@ == old(r)@.skip(c as int))
            },
        },
{
    let (md, used) = match CDemoPacketMetadata::peek_from(r) {
        Ok(x) => x,
        Err(e) => {
            return Err(e);
        },
    };
    if r.remaining() - used < md.size {
        return Err(DemoError::TruncatedFrame);
    }
    let ghost s0 = r@;
    r.advance(used);
    proof {
        assert(s0.skip(used as int).take(md.size as int) =~= s0.subrange(
            used as int,
            used + md.size,
        ));
        assert(s0.skip(used as int).skip(md.size as int) =~= s0.skip(used + md.size));
    }
    let data = match read_message_data(r, md.size, md.compressed) {
        Ok(d) => d,
        Err(_) => {
            return Err(DemoError::PayloadCorrupt);
        },
    };
    let packet_kind = match md.kind {
        DemoCommand::EDemo(TopCommand::Packet) => true,
        DemoCommand::EDemo(TopCommand::SignonPacket) => true,
        _ => false,
    };
    if packet_kind && data.len() > usize::MAX / 8 - 1 {
        return Err(DemoError::PayloadCorrupt);
    }
    let msg = if packet_kind {
        DemoMessage::Packet(read_data_messages_from_packet(&data))
    } else {
        let full = match md.kind {
            DemoCommand::EDemo(TopCommand::FullPacket) => true,
            _ => false,
        };
        if full {
            DemoMessage::FullPacket(data)
        } else {
            DemoMessage::Standalone(data)
        }
    };
    Ok(CDemoMessage { kind: md.kind, msg, compressed: md.compressed, tick: md.tick, size: md.size })
}

/// The decode of a whole frame run: the frames in stream order, the count of
/// corrupt frames stepped over by their declared boundary, and the error
/// that stopped the walk, if any.
pub open spec fn frames_dec(s: Seq<u8>) -> (Seq<FrameSpec>, nat, Option<DemoError>)
    decreases s.len(),
    via frames_dec_decreases
{
    match frame_dec(s) {
        FrameOutcome::Eos => (Seq::<FrameSpec>::empty(), 0, None),
        FrameOutcome::TruncFrame => (
            Seq::<FrameSpec>::empty(),
            0,
            Some(DemoError::TruncatedFrame),
        ),
        FrameOutcome::Overflow => (Seq::<FrameSpec>::empty(), 0, Some(DemoError::VarintOverflow)),
        FrameOutcome::Corrupt(c) => {
            let rest = frames_dec(s.skip(c as int));
            (rest.0, rest.1 + 1, rest.2)
        },
        FrameOutcome::Frame(f) => {
            let rest = frames_dec(s.skip(f.consumed as int));
            (seq![f] + rest.0, rest.1, rest.2)
        },
    }
}

#[via_fn]
proof fn frames_dec_decreases(s: Seq<u8>) {
    lemma_frame_dec_bounds(s);
}

/// A frame whose declared size exceeds the remaining source truncates the
/// walk: no record comes out of it, and nothing past the malformed frame is
/// reinterpreted as further frames.
pub proof fn lemma_truncated_frame_stops(s: Seq<u8>)
    requires
        header_dec(s) matches HeaderOutcome::Header(h) && s.len() - h.used < h.size,
    ensures
        frame_dec(s) is TruncFrame,
        frames_dec(s).0 == Seq::<FrameSpec>::empty(),
        frames_dec(s).2 == Some(DemoError::TruncatedFrame),
{
}

/// A corrupt frame is local: it spends exactly its own declared span and is
/// counted once, and the rest of the stream decodes exactly as if the walk
/// had started at the next frame boundary.
pub proof fn lemma_corrupt_frame_is_local(s: Seq<u8>, c: nat)
    requires
        frame_dec(s) == FrameOutcome::Corrupt(c),
    ensures
        frames_dec(s).0 == frames_dec(s.skip(c as int)).0,
        frames_dec(s).1 == frames_dec(s.skip(c as int)).1 + 1,
        frames_dec(s).2 == frames_dec(s.skip(c as int)).2,
{
}

/// The record of a whole-stream decode: the file header, every frame record
/// in stream order, the number of corrupt frames stepped over, and the
/// error that stopped the walk, if any — anomalies are counted beside the
/// decoded records rather than halting the session at the first one.
pub struct DemoSummary {
    pub header: FileHeader,
    pub messages: Vec<CDemoMessage>,
    pub corrupt_frames: usize,
    pub error: Option<DemoError>,
}

/// Decode a whole stream: the file header, then frames until the source's
/// clean end.  Corrupt frames are counted and stepped over by their declared
/// boundary; truncation or a malformed varint stops the walk, recorded
/// beside what was decoded by then.
#[verifier::loop_isolation(false)]
pub fn decode_demo_stream(data: Vec<u8>) -> (res: Result<DemoSummary, DemoError>)
    ensures
        match res {
            Ok(sum) => {
                &&& data@.len() >= 16
                &&& sum.header.tag@ == data@.take(8)
                &&& sum.header.file_info_offset as nat == le32(data@.skip(8))
                &&& sum.header.spawn_groups_offset as nat == le32(data@.skip(12))
                &&& ({
                    let d = frames_dec(data@.skip(16));
                    &&& sum.messages@.len() == d.0.len()
                    &&& forall|i: int|
                        0 <= i < d.0.len() ==> rec_matches(#[trigger] sum.messages@[i], d.0[i])
                    &&& sum.corrupt_frames as nat == d.1
                    &&& sum.error == d.2
                })
            },
            Err(e) => e == DemoError::TruncatedFrame && data@.len() < 16,
        },
{
    let ghost all = data@;
    let mut r = ByteReader::new(data);
    let header = match read_file_header(&mut r) {
        Ok(h) => h,
        Err(e) => {
            return Err(e);
        },
    };
    let ghost bs = all.skip(16);
    let ghost d = frames_dec(bs);
    let mut messages: Vec<CDemoMessage> = Vec::new();
    let mut corrupt_frames: usize = 0;
    let rem0 = r.remaining();
    proof {
        assert(bs.skip(0) =~= bs);
        assert(bs.len() == rem0);
    }
    loop
        invariant
            r.wf(),
            bs.len() <= usize::MAX,
            header.tag@ == all.take(8),
            header.file_info_offset as nat == le32(all.skip(8)),
            header.spawn_groups_offset as nat == le32(all.skip(12)),
            all.len() >= 16,
            messages@.len() <= d.0.len(),
            frames_dec(r@) == (
                d.0.skip(messages@.len() as int),
                (d.1 - corrupt_frames) as nat,
                d.2,
            ),
            corrupt_frames <= d.1,
            3 * (corrupt_frames as int) <= bs.len() - r@.len(),
            forall|i: int|
                0 <= i < messages@.len() ==> rec_matches(#[trigger] messages@[i], d.0[i]),
            d == frames_dec(all.skip(16)),
            bs == all.skip(16),
        decreases r@.len() + (if frames_dec(r@).2 is Some {
            1int
        } else {
            0int
        }),
    {
        let ghost k = messages@.len() as int;
        let ghost prev = r@;
        proof {
            lemma_frame_dec_bounds(prev);
        }
        match read_next_message_from(&mut r) {
            Ok(m) => {
                proof {
                    assert(d.0.skip(k)[0] == frames_dec(prev).0[0]);
                    assert(d.0.skip(k).skip(1) =~= d.0.skip(k + 1));
                    assert(frames_dec(r@).0 =~= d.0.skip(k + 1));
                }
                messages.push(m);
            },
            Err(DemoError::EndOfStream) => {
                proof {
                    assert(d.0.skip(k) =~= Seq::<FrameSpec>::empty());
                }
                return Ok(
                    DemoSummary { header, messages, corrupt_frames, error: None },
                );
            },
            Err(DemoError::PayloadCorrupt) => {
                corrupt_frames = corrupt_frames + 1;
            },
            Err(e) => {
                proof {
                    assert(d.0.skip(k) =~= Seq::<FrameSpec>::empty());
                }
                return Ok(
                    DemoSummary { header, messages, corrupt_frames, error: Some(e) },
                );
            },
        }
    }
}

} // verus!

//! Tests for the frame readers: the byte-aligned top level, the bit-packed
//! nested layer, the command tables, and the whole-stream walk.

use demstream::bytes::ByteReader;
use demstream::commands::new_message_from_command;
use demstream::commands::resolve_nested;
use demstream::commands::resolve_top;
use demstream::commands::CommandDomain;
use demstream::commands::DemoCommand;
use demstream::commands::DemoMessage;
use demstream::commands::NetCommand;
use demstream::commands::SvcCommand;
use demstream::commands::TopCommand;
use demstream::frames::decode_demo_stream;
use demstream::frames::read_file_header;
use demstream::frames::read_message_data;
use demstream::frames::read_next_message_from;
use demstream::frames::CDemoMessage;
use demstream::frames::CDemoPacketMetadata;
use demstream::packet::read_data_messages_from_packet;
use demstream::varint::encode_varint;
use demstream::DemoError;

fn push_bits(bits: &mut Vec<bool>, value: u64, n: usize) {
    for i in 0..n {
        bits.push((value >> i) & 1 == 1);
    }
}

fn to_bytes(bits: &[bool]) -> Vec<u8> {
    let mut out = vec![0u8; (bits.len() + 7) / 8];
    for i in 0..bits.len() {
        if bits[i] {
            out[i / 8] |= 1 << (i % 8);
        }
    }
    out
}

fn push_ubitvar(bits: &mut Vec<bool>, v: u32, cls: usize) {
    let span = [6usize, 10, 14, 34][cls];
    push_bits(bits, (v & 15) as u64, 4);
    push_bits(bits, cls as u64, 2);
    push_bits(bits, (v >> 4) as u64, span - 6);
}

fn push_bit_varint(bits: &mut Vec<bool>, mut v: u32) {
    loop {
        if v < 128 {
            push_bits(bits, v as u64, 8);
            return;
        }
        push_bits(bits, (128 + v % 128) as u64, 8);
        v = v / 128;
    }
}

fn push_sub_frame(bits: &mut Vec<bool>, cmd: u32, cls: usize, payload: &[u8]) {
    push_ubitvar(bits, cmd, cls);
    push_bit_varint(bits, payload.len() as u32);
    for b in payload {
        push_bits(bits, *b as u64, 8);
    }
}

fn stream_header(out: &mut Vec<u8>) {
    out.extend_from_slice(b"PBDEMS2\0");
    out.extend_from_slice(&[0, 0, 0, 0, 0, 0, 0, 0]);
}

fn push_frame(out: &mut Vec<u8>, raw_cmd: u32, tick: u32, payload: &[u8]) {
    out.extend_from_slice(&encode_varint(raw_cmd));
    out.extend_from_slice(&encode_varint(tick));
    out.extend_from_slice(&encode_varint(payload.len() as u32));
    out.extend_from_slice(payload);
}

#[test]
fn resolver_tables() {
    assert_eq!(resolve_top(7), DemoCommand::EDemo(TopCommand::Packet));
    assert_eq!(resolve_top(8), DemoCommand::EDemo(TopCommand::SignonPacket));
    assert_eq!(resolve_top(13), DemoCommand::EDemo(TopCommand::FullPacket));
    assert_eq!(resolve_top(1), DemoCommand::EDemo(TopCommand::FileHeader));
    assert_eq!(resolve_top(99), DemoCommand::Unknown(CommandDomain::Top, 99));
    // The first sub-domain is consulted before the second.
    assert_eq!(resolve_nested(4), DemoCommand::NET(NetCommand::Tick));
    assert_eq!(resolve_nested(40), DemoCommand::SVC(SvcCommand::ServerInfo));
    assert_eq!(resolve_nested(72), DemoCommand::SVC(SvcCommand::UserMessage));
    assert_eq!(resolve_nested(2), DemoCommand::Unknown(CommandDomain::Svc, 2));
    assert_eq!(resolve_nested(77), DemoCommand::Unknown(CommandDomain::Svc, 77));
}

#[test]
fn message_shells() {
    assert!(matches!(
        new_message_from_command(DemoCommand::EDemo(TopCommand::Packet)),
        DemoMessage::Packet(_)
    ));
    assert!(matches!(
        new_message_from_command(DemoCommand::EDemo(TopCommand::SignonPacket)),
        DemoMessage::Packet(_)
    ));
    assert!(matches!(
        new_message_from_command(DemoCommand::EDemo(TopCommand::FullPacket)),
        DemoMessage::FullPacket(_)
    ));
    assert!(matches!(
        new_message_from_command(DemoCommand::EDemo(TopCommand::Stop)),
        DemoMessage::Standalone(_)
    ));
    let md = CDemoPacketMetadata {
        kind: DemoCommand::EDemo(TopCommand::SaveGame),
        compressed: false,
        tick: 0,
        size: 0,
    };
    assert_eq!(md.new_message().err(), Some(DemoError::UnknownKind));
}

#[test]
fn file_header_fields() {
    let mut data: Vec<u8> = Vec::new();
    data.extend_from_slice(b"PBDEMS2\0");
    data.extend_from_slice(&[0x78, 0x56, 0x34, 0x12]);
    data.extend_from_slice(&[0x01, 0x00, 0x00, 0x00]);
    data.push(0xAB);
    let mut r = ByteReader::new(data);
    let h = read_file_header(&mut r).unwrap();
    assert_eq!(h.tag, b"PBDEMS2\0".to_vec());
    assert_eq!(h.file_info_offset, 0x12345678);
    assert_eq!(h.spawn_groups_offset, 1);
    assert_eq!(r.remaining(), 1);
}

#[test]
fn file_header_short() {
    let mut r = ByteReader::new(vec![1, 2, 3]);
    assert_eq!(read_file_header(&mut r).err(), Some(DemoError::TruncatedFrame));
    assert_eq!(r.remaining(), 3);
}

#[test]
fn metadata_read_from() {
    // Raw command 7 | 64: a compressed packet frame.
    let mut data: Vec<u8> = Vec::new();
    push_frame(&mut data, 7 | 64, 300, &[0xAA, 0xBB]);
    let mut r = ByteReader::new(data);
    let md = CDemoPacketMetadata::read_from(&mut r).unwrap();
    assert_eq!(md.kind, DemoCommand::EDemo(TopCommand::Packet));
    assert!(md.compressed);
    assert_eq!(md.tick, 300);
    assert_eq!(md.size, 2);
    assert_eq!(r.remaining(), 2);
}

#[test]
fn metadata_end_of_stream() {
    let mut r = ByteReader::new(vec![]);
    assert_eq!(
        CDemoPacketMetadata::read_from(&mut r).err(),
        Some(DemoError::EndOfStream)
    );
}

#[test]
fn message_data_passthrough() {
    let mut r = ByteReader::new(vec![1, 2, 3, 4, 5]);
    let d = read_message_data(&mut r, 3, false).unwrap();
    assert_eq!(d, vec![1, 2, 3]);
    assert_eq!(r.remaining(), 2);
}

#[test]
fn message_data_snappy_round_trip() {
    // A payload the compressor must really restore: a passthrough of the
    // compressed bytes would not match.
    let payload: Vec<u8> = (0u16..200).map(|i| (i % 251) as u8).collect();
    let compressed = snap::raw::Encoder::new().compress_vec(&payload).unwrap();
    assert_ne!(compressed, payload);
    let mut r = ByteReader::new(compressed.clone());
    let d = read_message_data(&mut r, compressed.len(), true).unwrap();
    assert_eq!(d, payload);
}

#[test]
fn message_data_corrupt() {
    let mut r = ByteReader::new(vec![0xFF, 0xFF, 0xFF]);
    assert_eq!(
        read_message_data(&mut r, 3, true).err(),
        Some(DemoError::PayloadCorrupt)
    );
    // The frame's bytes are spent: the reader sits at the next boundary.
    assert_eq!(r.remaining(), 0);
}

#[test]
fn sub_frames_unknown_then_known() {
    // One sub-frame with an id neither domain knows, then a well-formed
    // known one: the unknown frame's boundary must be respected, yielding
    // exactly two records in order.
    let mut bits: Vec<bool> = Vec::new();
    push_sub_frame(&mut bits, 77, 1, &[0xDE, 0xAD]);
    push_sub_frame(&mut bits, 4, 0, &[0x09]);
    let payload = to_bytes(&bits);
    let out = read_data_messages_from_packet(&payload);
    assert_eq!(out.error, None);
    assert_eq!(out.records.len(), 2);
    assert_eq!(out.records[0].kind, DemoCommand::Unknown(CommandDomain::Svc, 77));
    assert_eq!(out.records[0].command_id, 77);
    assert_eq!(out.records[0].payload, vec![0xDE, 0xAD]);
    assert_eq!(out.records[1].kind, DemoCommand::NET(NetCommand::Tick));
    assert_eq!(out.records[1].payload, vec![0x09]);
}

#[test]
fn sub_frames_truncated() {
    // A declared size far past the buffer: the records before it survive.
    let mut bits: Vec<bool> = Vec::new();
    push_sub_frame(&mut bits, 4, 0, &[0x01]);
    push_ubitvar(&mut bits, 40, 1);
    push_bit_varint(&mut bits, 1000);
    let payload = to_bytes(&bits);
    let out = read_data_messages_from_packet(&payload);
    assert_eq!(out.error, Some(DemoError::TruncatedSubFrame));
    assert_eq!(out.records.len(), 1);
    assert_eq!(out.records[0].kind, DemoCommand::NET(NetCommand::Tick));
}

#[test]
fn sub_frames_empty_payload() {
    let out = read_data_messages_from_packet(&Vec::new());
    assert_eq!(out.error, None);
    assert_eq!(out.records.len(), 0);
}

#[test]
fn minimal_stream_one_record() {
    // Header, then one uncompressed file-header frame with the unset tick
    // sentinel and no payload.
    let mut data: Vec<u8> = Vec::new();
    stream_header(&mut data);
    push_frame(&mut data, 1, 0xFFFF_FFFF, &[]);
    let sum = decode_demo_stream(data).unwrap();
    assert_eq!(sum.header.tag, b"PBDEMS2\0".to_vec());
    assert_eq!(sum.header.file_info_offset, 0);
    assert_eq!(sum.header.spawn_groups_offset, 0);
    assert_eq!(sum.messages.len(), 1);
    assert_eq!(sum.corrupt_frames, 0);
    assert_eq!(sum.error, None);
    let m = &sum.messages[0];
    assert_eq!(m.kind, DemoCommand::EDemo(TopCommand::FileHeader));
    assert!(m.tick_unset());
    assert_eq!(m.size, 0);
    assert!(matches!(&m.msg, DemoMessage::Standalone(d) if d.is_empty()));
}

#[test]
fn truncated_frame_stops_the_walk() {
    // The frame declares more bytes than the source holds: the walk must
    // stop with a truncation, not reinterpret the shortfall as frames.
    let mut data: Vec<u8> = Vec::new();
    stream_header(&mut data);
    data.extend_from_slice(&encode_varint(0));
    data.extend_from_slice(&encode_varint(5));
    data.extend_from_slice(&encode_varint(100));
    data.extend_from_slice(&[1, 2, 3]);
    let sum = decode_demo_stream(data).unwrap();
    assert_eq!(sum.messages.len(), 0);
    assert_eq!(sum.error, Some(DemoError::TruncatedFrame));
}

#[test]
fn truncated_frame_consumes_nothing() {
    let mut data: Vec<u8> = Vec::new();
    push_frame(&mut data, 0, 5, &[1, 2, 3]);
    data.truncate(data.len() - 2);
    let before = data.len();
    let mut r = ByteReader::new(data);
    assert_eq!(read_next_message_from(&mut r).err(), Some(DemoError::TruncatedFrame));
    assert_eq!(r.remaining(), before);
}

#[test]
fn packet_frame_two_sub_frames() {
    // A packet frame whose payload holds two known sub-frames back-to-back
    // with no trailing padding: exactly two records, in encoding order.
    let mut bits: Vec<bool> = Vec::new();
    push_sub_frame(&mut bits, 4, 0, &[0x11, 0x22]);
    push_sub_frame(&mut bits, 40, 1, &[0x33]);
    let payload = to_bytes(&bits);
    let mut data: Vec<u8> = Vec::new();
    stream_header(&mut data);
    push_frame(&mut data, 7, 12, &payload);
    let sum = decode_demo_stream(data).unwrap();
    assert_eq!(sum.messages.len(), 1);
    assert_eq!(sum.error, None);
    let m = &sum.messages[0];
    assert_eq!(m.kind, DemoCommand::EDemo(TopCommand::Packet));
    assert_eq!(m.tick, 12);
    match &m.msg {
        DemoMessage::Packet(p) => {
            assert_eq!(p.error, None);
            assert_eq!(p.records.len(), 2);
            assert_eq!(p.records[0].kind, DemoCommand::NET(NetCommand::Tick));
            assert_eq!(p.records[0].payload, vec![0x11, 0x22]);
            assert_eq!(p.records[1].kind, DemoCommand::SVC(SvcCommand::ServerInfo));
            assert_eq!(p.records[1].payload, vec![0x33]);
        },
        _ => panic!("expected a packet message"),
    }
}

#[test]
fn compressed_packet_frame_really_inflates() {
    // The nested records can only come out right if the stored bytes were
    // truly decompressed first.
    let mut bits: Vec<bool> = Vec::new();
    push_sub_frame(&mut bits, 7, 0, &[0x2A; 40]);
    let payload = to_bytes(&bits);
    let compressed = snap::raw::Encoder::new().compress_vec(&payload).unwrap();
    let mut data: Vec<u8> = Vec::new();
    stream_header(&mut data);
    push_frame(&mut data, 7 | 64, 3, &compressed);
    let sum = decode_demo_stream(data).unwrap();
    assert_eq!(sum.messages.len(), 1);
    match &sum.messages[0].msg {
        DemoMessage::Packet(p) => {
            assert_eq!(p.records.len(), 1);
            assert_eq!(p.records[0].kind, DemoCommand::NET(NetCommand::SignonState));
            assert_eq!(p.records[0].payload, vec![0x2A; 40]);
        },
        _ => panic!("expected a packet message"),
    }
}

#[test]
fn corrupt_frame_spends_only_itself() {
    // A compressed frame whose stored length is right but whose bytes do not
    // inflate: it is counted, and the next frame still decodes.
    let mut data: Vec<u8> = Vec::new();
    stream_header(&mut data);
    push_frame(&mut data, 3 | 64, 1, &[0xFF, 0xFF, 0xFF]);
    push_frame(&mut data, 4, 2, &[0x55]);
    let sum = decode_demo_stream(data).unwrap();
    assert_eq!(sum.corrupt_frames, 1);
    assert_eq!(sum.error, None);
    assert_eq!(sum.messages.len(), 1);
    let m = &sum.messages[0];
    assert_eq!(m.kind, DemoCommand::EDemo(TopCommand::SendTables));
    assert_eq!(m.tick, 2);
    assert!(matches!(&m.msg, DemoMessage::Standalone(d) if d == &vec![0x55]));
}

#[test]
fn full_packet_stays_opaque() {
    let mut data: Vec<u8> = Vec::new();
    stream_header(&mut data);
    push_frame(&mut data, 13, 9, &[9, 8, 7]);
    let sum = decode_demo_stream(data).unwrap();
    assert_eq!(sum.messages.len(), 1);
    assert!(matches!(&sum.messages[0].msg, DemoMessage::FullPacket(d) if d == &vec![9, 8, 7]));
}

#[test]
fn header_overflow_stops_the_walk() {
    let mut data: Vec<u8> = Vec::new();
    stream_header(&mut data);
    data.extend_from_slice(&[0x80, 0x80, 0x80, 0x80, 0x80, 0x01]);
    let sum = decode_demo_stream(data).unwrap();
    assert_eq!(sum.messages.len(), 0);
    assert_eq!(sum.error, Some(DemoError::VarintOverflow));
}

#[test]
fn tick_clock_values() {
    let m = CDemoMessage {
        kind: DemoCommand::EDemo(TopCommand::Stop),
        msg: DemoMessage::Standalone(Vec::new()),
        compressed: false,
        tick: 54321,
        size: 0,
    };
    assert_eq!(m.tick_clock(), (30, 10, 21));
    assert!(!m.tick_unset());
    let unset = CDemoMessage { tick: 0xFFFF_FFFF, ..m };
    assert_eq!(unset.tick_clock(), (0, 0, -1));
    assert!(unset.tick_unset());
}

#[test]
fn parse_message_routes_by_kind() {
    let mut bits: Vec<bool> = Vec::new();
    push_sub_frame(&mut bits, 4, 0, &[0x01]);
    let payload = to_bytes(&bits);
    let packet_md = CDemoPacketMetadata {
        kind: DemoCommand::EDemo(TopCommand::Packet),
        compressed: false,
        tick: 0,
        size: payload.len(),
    };
    match packet_md.parse_message_from_bytes(&payload).unwrap() {
        DemoMessage::Packet(p) => {
            assert_eq!(p.records.len(), 1);
            assert_eq!(p.records[0].kind, DemoCommand::NET(NetCommand::Tick));
        },
        _ => panic!("expected a packet message"),
    }
    let plain_md = CDemoPacketMetadata {
        kind: DemoCommand::EDemo(TopCommand::ConsoleCmd),
        compressed: false,
        tick: 0,
        size: 2,
    };
    match plain_md.parse_message_from_bytes(&vec![7, 8]).unwrap() {
        DemoMessage::Standalone(d) => assert_eq!(d, vec![7, 8]),
        _ => panic!("expected a standalone message"),
    }
    let unknown_md = CDemoPacketMetadata {
        kind: DemoCommand::Unknown(CommandDomain::Top, 99),
        compressed: false,
        tick: 0,
        size: 0,
    };
    assert_eq!(
        unknown_md.parse_message_from_bytes(&Vec::new()).err(),
        Some(DemoError::UnknownKind)
    );
}

#[test]
fn read_message_from_consumes_declared_bytes() {
    let md = CDemoPacketMetadata {
        kind: DemoCommand::EDemo(TopCommand::SyncTick),
        compressed: false,
        tick: 0,
        size: 3,
    };
    let mut r = ByteReader::new(vec![1, 2, 3, 4, 5]);
    match md.read_message_from(&mut r).unwrap() {
        DemoMessage::Standalone(d) => assert_eq!(d, vec![1, 2, 3]),
        _ => panic!("expected a standalone message"),
    }
    assert_eq!(r.remaining(), 2);
}

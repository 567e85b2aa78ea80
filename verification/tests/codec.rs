//! Tests for the integer codecs: the byte-aligned varint, the bit-cursor
//! varint, and the compact four-class command-id encoding.

use demstream::bits::BitCursor;
use demstream::ubitvar::read_ubitvar;
use demstream::varint::encode_varint;
use demstream::varint::peek_varint;
use demstream::varint::read_varuint32;
use demstream::DemoError;

fn push_bits(bits: &mut Vec<bool>, value: u64, n: usize) {
    for i in 0..n {
        bits.push((value >> i) & 1 == 1);
    }
}

fn to_bytes(bits: &[bool]) -> Vec<u8> {
    let mut out = vec![0u8; (bits.len() + 7) / 8];
    for i in 0..bits.len() {
        if bits[i] {
            out[i / 8] |= 1 << (i % 8);
        }
    }
    out
}

fn push_ubitvar(bits: &mut Vec<bool>, v: u32, cls: usize) {
    let span = [6usize, 10, 14, 34][cls];
    push_bits(bits, (v & 15) as u64, 4);
    push_bits(bits, cls as u64, 2);
    push_bits(bits, (v >> 4) as u64, span - 6);
}

#[test]
fn varint_round_trip() {
    for v in [0u32, 1, 127, 128, 300, 16383, 16384, 0x7FFF_FFFF] {
        let enc = encode_varint(v);
        let (w, n) = peek_varint(&enc, 0).unwrap();
        assert_eq!(w, v);
        assert_eq!(n, enc.len());
    }
}

#[test]
fn varint_known_bytes() {
    // 300 = 0b10_0101100: low seven bits 0b0101100 with continuation, then 0b10.
    assert_eq!(encode_varint(300), vec![0xAC, 0x02]);
    let (v, n) = peek_varint(&vec![0xAC, 0x02], 0).unwrap();
    assert_eq!((v, n), (300, 2));
}

#[test]
fn varint_full_u32() {
    let (v, n) = peek_varint(&vec![0xFF, 0xFF, 0xFF, 0xFF, 0x0F], 0).unwrap();
    assert_eq!(v, u32::MAX);
    assert_eq!(n, 5);
}

#[test]
fn varint_truncated() {
    assert_eq!(peek_varint(&vec![], 0), Err(DemoError::TruncatedVarint));
    assert_eq!(peek_varint(&vec![0x80], 0), Err(DemoError::TruncatedVarint));
    assert_eq!(
        peek_varint(&vec![0x80, 0x80, 0x80], 0),
        Err(DemoError::TruncatedVarint)
    );
}

#[test]
fn varint_overflow() {
    // A fifth byte that still continues.
    assert_eq!(
        peek_varint(&vec![0x80, 0x80, 0x80, 0x80, 0x80, 0x01], 0),
        Err(DemoError::VarintOverflow)
    );
    // A fifth byte carrying data past bit 31.
    assert_eq!(
        peek_varint(&vec![0xFF, 0xFF, 0xFF, 0xFF, 0x7F], 0),
        Err(DemoError::VarintOverflow)
    );
}

#[test]
fn varint_at_offset() {
    let mut buf = vec![0x55, 0xAA];
    buf.extend(encode_varint(999));
    let (v, n) = peek_varint(&buf, 2).unwrap();
    assert_eq!(v, 999);
    assert_eq!(n, 2);
}

#[test]
fn bit_varint_single_group() {
    // 150 = 0b1_0010110: two groups in the bit-cursor form.
    let mut bv = BitCursor::new(vec![0x96, 0x01]);
    assert_eq!(read_varuint32(&mut bv), Ok(150));
    assert_eq!(bv.remaining_bits(), 0);
}

#[test]
fn bit_varint_unaligned() {
    // Two header bits, then the varint for 5 starting mid-byte.
    let mut bits: Vec<bool> = Vec::new();
    push_bits(&mut bits, 0b11, 2);
    push_bits(&mut bits, 5, 8);
    let mut bv = BitCursor::new(to_bytes(&bits));
    bv.read_bits(2).unwrap();
    assert_eq!(read_varuint32(&mut bv), Ok(5));
}

#[test]
fn bit_varint_overflow_at_cap() {
    // Five groups, the fifth still asking for more.
    let mut bv = BitCursor::new(vec![0x80, 0x80, 0x80, 0x80, 0x80]);
    assert_eq!(read_varuint32(&mut bv), Err(DemoError::VarintOverflow));
    assert_eq!(bv.remaining_bits(), 0);
}

#[test]
fn bit_varint_underflow() {
    let mut bv = BitCursor::new(vec![0x80]);
    assert_eq!(read_varuint32(&mut bv), Err(DemoError::CursorUnderflow));
}

#[test]
fn ubitvar_all_classes() {
    // One value per span class, each followed by two trailing bits that must
    // survive the read untouched.
    let cases: [(u32, usize); 4] = [(9, 0), (42, 1), (291, 2), (0x8765_4321, 3)];
    for (v, cls) in cases {
        let span = [6usize, 10, 14, 34][cls];
        let mut bits: Vec<bool> = Vec::new();
        push_ubitvar(&mut bits, v, cls);
        push_bits(&mut bits, 0b10, 2);
        let total = bits.len();
        let mut bv = BitCursor::new(to_bytes(&bits));
        let before = bv.remaining_bits();
        assert_eq!(read_ubitvar(&mut bv), Ok(v));
        // The cursor advanced by the full span, never by just six bits.
        let padding = before - total;
        assert_eq!(bv.remaining_bits(), 2 + padding);
        assert_eq!(before - bv.remaining_bits(), span);
    }
}

#[test]
fn ubitvar_underflow_consumes_nothing() {
    // The header asks for a 34-bit span but only 16 bits exist.
    let mut bits: Vec<bool> = Vec::new();
    push_bits(&mut bits, 0xF, 4);
    push_bits(&mut bits, 3, 2);
    push_bits(&mut bits, 0x3FF, 10);
    let mut bv = BitCursor::new(to_bytes(&bits));
    let before = bv.remaining_bits();
    assert_eq!(read_ubitvar(&mut bv), Err(DemoError::CursorUnderflow));
    assert_eq!(bv.remaining_bits(), before);
}

#[test]
fn bit_cursor_reads_lsb_first() {
    let mut bv = BitCursor::new(vec![0b1010_0110]);
    assert_eq!(bv.read_bits(3), Ok(0b110));
    assert_eq!(bv.read_bits(5), Ok(0b10100));
    assert_eq!(bv.read_bits(1), Err(DemoError::CursorUnderflow));
}

#[test]
fn bit_cursor_byte_groups_cross_boundaries() {
    let mut bv = BitCursor::new(vec![0xFF, 0x00, 0x0F]);
    bv.read_bits(4).unwrap();
    let out = bv.read_bytes(2).unwrap();
    // Groups taken four bits past the start: 0000_1111 then 1111_0000.
    assert_eq!(out, vec![0x0F, 0xF0]);
    assert_eq!(bv.remaining_bits(), 4);
}

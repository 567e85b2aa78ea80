//! The nested frame reader.
//!
//! A decompressed packet payload carries a second framing layer, read off a
//! bit cursor: one compact command id, one bit-cursor varint byte count, then
//! exactly that many payload bytes, over and over while more than fifteen
//! bits remain.  A sub-frame's span is fixed by its own header whether or not
//! its command id resolves, so the cursor can always step past unknown
//! sub-frames; a failure ends only this walk, never the caller's outer loop.

use vstd::prelude::*;
use vstd::arithmetic::power2::pow2;
use vstd::arithmetic::power2::lemma2_to64;
use vstd::arithmetic::power2::lemma2_to64_rest;
use crate::DemoError;
use crate::bits::BitCursor;
use crate::bits::bits_of;
use crate::bits::bits_val;
use crate::bits::bytes_of_bits;
use crate::ubitvar::read_ubitvar;
use crate::ubitvar::ubitvar_span;
use crate::ubitvar::ubitvar_value_of;
use crate::varint::VarintOutcome;
use crate::varint::bit_varint_dec;
use crate::varint::lemma_bit_varint_len;
use crate::varint::outcome_len;
use crate::varint::outcome_value;
use crate::varint::read_varuint32;
use crate::commands::DemoCommand;
use crate::commands::resolve_nested;
use crate::commands::resolve_nested_spec;

verus! {

/// One decoded sub-frame at the ghost level: raw command id, declared size,
/// payload bytes.
pub struct SubFrameSpec {
    pub cmd: nat,
    pub size: nat,
    pub payload: Seq<u8>,
}

/// One decoded sub-frame: the resolved command, the raw id, the declared
/// size, and exactly that many payload bytes.
pub struct SubRecord {
    pub kind: DemoCommand,
    pub command_id: u32,
    pub size: usize,
    pub payload: Vec<u8>,
}

impl SubRecord {
    /// The ghost-level sub-frame this record carries.
    pub open spec fn sspec(&self) -> SubFrameSpec {
        SubFrameSpec { cmd: self.command_id as nat, size: self.size as nat, payload: self.payload@ }
    }
}

/// The outcome of walking one packet payload: the records decoded before the
/// walk ended, and the failure that ended it early, if any.
pub struct PacketRecords {
    pub records: Vec<SubRecord>,
    pub error: Option<DemoError>,
}

/// Decode the run of sub-frames in a bit sequence: while more than fifteen
/// bits remain, one compact command id, one bit-cursor varint byte count,
/// then exactly that many bytes.  Whatever sits at or below the threshold is
/// discarded padding.
pub open spec fn subframes_dec(bs: Seq<bool>) -> (Seq<SubFrameSpec>, Option<DemoError>)
    decreases bs.len(),
    via subframes_dec_decreases
{
    if bs.len() <= 15 {
        (Seq::<SubFrameSpec>::empty(), None)
    } else {
        let span = ubitvar_span(bits_val(bs.take(6)));
        if bs.len() < span {
            (Seq::<SubFrameSpec>::empty(), Some(DemoError::CursorUnderflow))
        } else {
            let cmd = ubitvar_value_of(bits_val(bs.take(span as int)));
            let bs1 = bs.skip(span as int);
            match bit_varint_dec(bs1, 0) {
                VarintOutcome::Truncated => (
                    Seq::<SubFrameSpec>::empty(),
                    Some(DemoError::CursorUnderflow),
                ),
                VarintOutcome::Overflow => (
                    Seq::<SubFrameSpec>::empty(),
                    Some(DemoError::VarintOverflow),
                ),
                VarintOutcome::Value(size0, used) => {
                    let size = size0 % pow2(32);
                    let bs2 = bs1.skip(used as int);
                    if bs2.len() < 8 * size {
                        (Seq::<SubFrameSpec>::empty(), Some(DemoError::TruncatedSubFrame))
                    } else {
                        let payload = bytes_of_bits(bs2.take(8 * size as int));
                        let rest = subframes_dec(bs2.skip(8 * size as int));
                        (seq![SubFrameSpec { cmd, size, payload }] + rest.0, rest.1)
                    }
                },
            }
        }
    }
}

#[via_fn]
proof fn subframes_dec_decreases(bs: Seq<bool>) {
    if bs.len() > 15 {
        let span = ubitvar_span(bits_val(bs.take(6)));
        if bs.len() >= span {
            let bs1 = bs.skip(span as int);
            lemma_bit_varint_len(bs1, 0);
            vstd::arithmetic::power2::lemma_pow2_pos(32);
            if bit_varint_dec(bs1, 0) is Value {
                let used = outcome_len(bit_varint_dec(bs1, 0));
                let size = outcome_value(bit_varint_dec(bs1, 0)) % pow2(32);
                let bs2 = bs1.skip(used as int);
                if bs2.len() >= 8 * size {
                    assert(bs2.skip(8 * size as int).len() == bs.len() - span - used - 8 * size);
                }
            }
        }
    }
}

/// A sub-frame's payload boundary comes from its own header alone: every
/// record of a walk carries exactly its declared byte count, whether or not
/// its command id resolves to a known kind, so the walk never loses the
/// cursor over unrecognized content.
pub proof fn lemma_subframe_boundary(bs: Seq<bool>, i: int)
    requires
        0 <= i < subframes_dec(bs).0.len(),
    ensures
        subframes_dec(bs).0[i].payload.len() == subframes_dec(bs).0[i].size,
    decreases bs.len(),
{
    vstd::arithmetic::power2::lemma_pow2_pos(32);
    if bs.len() > 15 {
        let span = ubitvar_span(bits_val(bs.take(6)));
        if bs.len() >= span {
            let bs1 = bs.skip(span as int);
            lemma_bit_varint_len(bs1, 0);
            match bit_varint_dec(bs1, 0) {
                VarintOutcome::Value(size0, used) => {
                    let size = size0 % pow2(32);
                    let bs2 = bs1.skip(used as int);
                    if bs2.len() >= 8 * size {
                        if i == 0 {
                            assert(bs2.take(8 * size as int).len() == 8 * size);
                        } else {
                            lemma_subframe_boundary(bs2.skip(8 * size as int), i - 1);
                        }
                    }
                },
                _ => {
                },
            }
        }
    }
}

/// Whether a walk result is exactly the decode of `payload`: record for
/// record, each with its command resolved through the sub-domains, with the
/// decode's terminating failure, if any, beside them.
pub open spec fn packet_records_match(p: PacketRecords, payload: Seq<u8>) -> bool {
    let d = subframes_dec(bits_of(payload + seq![0u8]));
    &&& p.records@.len() == d.0.len()
    &&& forall|i: int|
        0 <= i < d.0.len() ==> (#[trigger] p.records@[i]).sspec() == d.0[i]
            && p.records@[i].kind == resolve_nested_spec(p.records@[i].command_id)
    &&& p.error == d.1
}

/// Walk one decompressed packet payload, yielding its sub-frames in order.
/// A sentinel zero byte is appended so the final header peek never runs past
/// the buffer; the fifteen-bit loop threshold counts that sentinel.  Every
/// record's payload boundary comes from its own header, resolved or not; the
/// records decoded before a failure are kept beside it.
pub fn read_data_messages_from_packet(data: &Vec<u8>) -> (r: PacketRecords)
    requires
        data@.len() + 1 <= usize::MAX / 8,
    ensures
        packet_records_match(r, data@),
{
    let mut padded: Vec<u8> = Vec::new();
    let mut i: usize = 0;
    while i < data.len()
        invariant
            i <= data@.len(),
            padded@ == data@.take(i as int),
        decreases data@.len() - i,
    {
        padded.push(data[i]);
        proof {
            assert(padded@ =~= data@.take(i + 1));
        }
        i = i + 1;
    }
    padded.push(0);
    proof {
        assert(padded@ =~= data@ + seq![0u8]);
    }
    let mut bv = BitCursor::new(padded);
    let ghost bs0 = bv@;
    let ghost decoded = subframes_dec(bs0);
    let mut records: Vec<SubRecord> = Vec::new();
    proof {
        assert(bs0.skip(0) =~= bs0);
    }
    loop
        invariant
            bv.wf(),
            records@.len() <= decoded.0.len(),
            subframes_dec(bv@) == (decoded.0.skip(records@.len() as int), decoded.1),
            forall|t: int|
                0 <= t < records@.len() ==> (#[trigger] records@[t]).sspec() == decoded.0[t]
                    && records@[t].kind == resolve_nested_spec(records@[t].command_id),
            decoded == subframes_dec(bits_of(data@ + seq![0u8])),
        decreases bv@.len(),
    {
        let ghost k = records@.len() as int;
        let rem = bv.remaining_bits();
        if rem <= 15 {
            proof {
                assert(decoded.0.skip(k) =~= Seq::<SubFrameSpec>::empty());
            }
            return PacketRecords { records, error: None };
        }
        let ghost prev = bv@;
        let cmd = match read_ubitvar(&mut bv) {
            Ok(c) => c,
            Err(e) => {
                proof {
                    assert(decoded.0.skip(k) =~= Seq::<SubFrameSpec>::empty());
                }
                return PacketRecords { records, error: Some(e) };
            },
        };
        let ghost span = ubitvar_span(bits_val(prev.take(6))) as int;
        let ghost bs1 = prev.skip(span);
        let size = match read_varuint32(&mut bv) {
            Ok(s) => s,
            Err(e) => {
                proof {
                    assert(decoded.0.skip(k) =~= Seq::<SubFrameSpec>::empty());
                }
                return PacketRecords { records, error: Some(e) };
            },
        };
        proof {
            lemma2_to64();
            lemma2_to64_rest();
        }
        let ghost used = outcome_len(bit_varint_dec(bs1, 0)) as int;
        let ghost bs2 = bs1.skip(used);
        let size_us = size as usize;
        let rem2 = bv.remaining_bits();
        if size_us > rem2 / 8 {
            proof {
                assert(bs2.len() < 8 * (size as nat));
                assert(decoded.0.skip(k) =~= Seq::<SubFrameSpec>::empty());
            }
            return PacketRecords { records, error: Some(DemoError::TruncatedSubFrame) };
        }
        let payload = match bv.read_bytes(size_us) {
            Ok(p) => p,
            Err(_) => vstd::pervasive::unreached(),
        };
        let kind = resolve_nested(cmd);
        let ghost rec_spec = SubFrameSpec {
            cmd: cmd as nat,
            size: size as nat,
            payload: payload@,
        };
        proof {
            let d_prev = subframes_dec(prev);
            assert(d_prev.0 == seq![rec_spec] + subframes_dec(bs2.skip(8 * (size as nat) as int)).0);
            assert(decoded.0.skip(k)[0] == rec_spec);
            assert(decoded.0[k] == rec_spec);
            assert(decoded.0.skip(k).skip(1) =~= decoded.0.skip(k + 1));
            assert(subframes_dec(bv@).0 =~= decoded.0.skip(k + 1));
            lemma_bit_varint_len(bs1, 0);
            assert(bv@.len() < prev.len());
        }
        records.push(SubRecord { kind, command_id: cmd, size: size_us, payload });
    }
}

} // verus!

//! The seven-bits-per-group variable-width integer encoding, in its two
//! forms: byte-aligned (top-level frame headers) and bit-cursor (sub-frame
//! lengths inside packet payloads).
//!
//! Each group carries seven data bits, low groups first; a set high bit says
//! more groups follow.  The byte-aligned form rejects anything past 32 bits
//! of value.  The bit-cursor form stops after five groups and overflows only
//! when the fifth group still asks for more.

use vstd::prelude::*;
use vstd::arithmetic::power2::*;
use vstd::arithmetic::div_mod::*;
use crate::DemoError;
use crate::bits::BitCursor;
use crate::bits::bits_val;
use crate::bits::lemma_bits_val_bound;
use vstd::bits::lemma_u64_shl_is_mul;

verus! {

/// Outcome of decoding one variable-width integer: the value together with
/// the number of input units consumed (bytes for the byte-aligned form, bits
/// for the bit-cursor form), or the failure.
pub enum VarintOutcome {
    Value(nat, nat),
    Truncated,
    Overflow,
}

/// The value of a successful outcome.
pub open spec fn outcome_value(o: VarintOutcome) -> nat {
    match o {
        VarintOutcome::Value(v, _) => v,
        _ => 0,
    }
}

/// The units consumed by a successful outcome.
pub open spec fn outcome_len(o: VarintOutcome) -> nat {
    match o {
        VarintOutcome::Value(_, n) => n,
        _ => 0,
    }
}

/// Decode a byte-aligned varint starting at group `g`.  A value must fit 32
/// bits: a fifth group may neither continue nor carry data past bit 31.
pub open spec fn varint_dec(s: Seq<u8>, g: nat) -> VarintOutcome
    decreases 5 - g,
{
    if g >= 5 {
        VarintOutcome::Overflow
    } else if s.len() == 0 {
        VarintOutcome::Truncated
    } else {
        let chunk = (s[0] % 128) as nat;
        let cont = s[0] >= 128;
        if g == 4 && (cont || chunk >= 16) {
            VarintOutcome::Overflow
        } else if !cont {
            VarintOutcome::Value(chunk, 1)
        } else {
            match varint_dec(s.skip(1), g + 1) {
                VarintOutcome::Value(v, n) => VarintOutcome::Value(chunk + 128 * v, n + 1),
                o => o,
            }
        }
    }
}

/// A value decoded from group `g` on fits in `32 - 7g` bits, out of at most
/// `5 - g` further bytes.
pub proof fn lemma_varint_dec_bound(s: Seq<u8>, g: nat)
    requires
        g <= 4,
    ensures
        varint_dec(s, g) is Value ==> outcome_value(varint_dec(s, g)) < pow2((32 - 7 * g) as nat)
            && 1 <= outcome_len(varint_dec(s, g)) <= 5 - g && outcome_len(varint_dec(s, g))
            <= s.len(),
    decreases 5 - g,
{
    lemma2_to64();
    lemma2_to64_rest();
    if varint_dec(s, g) is Value && s.len() > 0 {
        let chunk = (s[0] % 128) as nat;
        if s[0] >= 128 && g < 4 {
            lemma_varint_dec_bound(s.skip(1), g + 1);
            if varint_dec(s.skip(1), g + 1) is Value {
                let v = outcome_value(varint_dec(s.skip(1), g + 1));
                assert(chunk + 128 * v < pow2((32 - 7 * g) as nat)) by {
                    lemma_pow2_adds(7, (25 - 7 * g) as nat);
                    assert(chunk + 128 * v < 128 * pow2((25 - 7 * g) as nat)) by (nonlinear_arith)
                        requires
                            chunk < 128,
                            v < pow2((25 - 7 * g) as nat),
                    ;
                }
            }
        } else {
            assert(pow2(4) <= pow2((32 - 7 * g) as nat)) by {
                if g < 4 {
                    lemma_pow2_strictly_increases(4, (32 - 7 * g) as nat);
                }
            }
        }
    }
}

/// Decode one byte-aligned varint at byte offset `off` of `data` from group
/// `g` on, without consuming anything.
fn peek_varint_group(data: &Vec<u8>, off: usize, g: usize) -> (r: Result<(u32, usize), DemoError>)
    requires
        off <= data@.len(),
        g <= 4,
    ensures
        match r {
            Ok((v, n)) => varint_dec(data@.skip(off as int), g as nat) == VarintOutcome::Value(
                v as nat,
                n as nat,
            ) && off + n <= data@.len() && 1 <= n <= 5 - g,
            Err(e) => {
                &&& (e == DemoError::TruncatedVarint || e == DemoError::VarintOverflow)
                &&& e == DemoError::TruncatedVarint <==> varint_dec(
                    data@.skip(off as int),
                    g as nat,
                ) is Truncated
                &&& e == DemoError::VarintOverflow <==> varint_dec(
                    data@.skip(off as int),
                    g as nat,
                ) is Overflow
            },
        },
    decreases 5 - g,
{
    let ghost s = data@.skip(off as int);
    if off == data.len() {
        return Err(DemoError::TruncatedVarint);
    }
    let b = data[off];
    proof {
        assert(s[0] == data@[off as int]);
    }
    let chunk: u8 = b % 128;
    let cont = b >= 128;
    if g == 4 && (cont || chunk >= 16) {
        return Err(DemoError::VarintOverflow);
    }
    if !cont {
        return Ok((chunk as u32, 1));
    }
    proof {
        assert(s.skip(1) =~= data@.skip(off as int + 1));
    }
    match peek_varint_group(data, off + 1, g + 1) {
        Ok((v, n)) => {
            proof {
                lemma_varint_dec_bound(data@.skip(off as int + 1), (g + 1) as nat);
                lemma2_to64();
                lemma2_to64_rest();
                assert(chunk as nat + 128 * (v as nat) < pow2((32 - 7 * g) as nat)) by {
                    lemma_pow2_adds(7, (25 - 7 * g) as nat);
                    assert(chunk as nat + 128 * (v as nat) < 128 * pow2((25 - 7 * g) as nat))
                        by (nonlinear_arith)
                        requires
                            (chunk as nat) < 128,
                            (v as nat) < pow2((25 - 7 * g) as nat),
                    ;
                }
                assert(pow2((32 - 7 * g) as nat) <= pow2(32)) by {
                    if g > 0 {
                        lemma_pow2_strictly_increases((32 - 7 * g) as nat, 32);
                    }
                }
            }
            Ok((chunk as u32 + 128 * v, n + 1))
        },
        Err(e) => Err(e),
    }
}

/// Decode one byte-aligned varint at byte offset `off` of `data`, without
/// consuming anything: on success, the value and the number of bytes it
/// occupied.
pub fn peek_varint(data: &Vec<u8>, off: usize) -> (r: Result<(u32, usize), DemoError>)
    requires
        off <= data@.len(),
    ensures
        match r {
            Ok((v, n)) => varint_dec(data@.skip(off as int), 0) == VarintOutcome::Value(
                v as nat,
                n as nat,
            ) && off + n <= data@.len() && 1 <= n <= 5,
            Err(e) => {
                &&& (e == DemoError::TruncatedVarint || e == DemoError::VarintOverflow)
                &&& e == DemoError::TruncatedVarint <==> varint_dec(
                    data@.skip(off as int),
                    0,
                ) is Truncated
                &&& e == DemoError::VarintOverflow <==> varint_dec(
                    data@.skip(off as int),
                    0,
                ) is Overflow
            },
        },
{
    peek_varint_group(data, off, 0)
}

/// The byte-aligned varint encoding of `v`: seven bits per byte, low bits
/// first, high bit set on every byte but the last.
pub open spec fn varint_enc(v: nat) -> Seq<u8>
    decreases v,
{
    if v < 128 {
        seq![v as u8]
    } else {
        seq![(128 + v % 128) as u8] + varint_enc(v / 128)
    }
}

proof fn lemma_varint_enc_dec(v: nat, g: nat)
    requires
        g <= 4,
        v < pow2((32 - 7 * g) as nat),
    ensures
        varint_dec(varint_enc(v), g) == VarintOutcome::Value(v, varint_enc(v).len()),
    decreases 5 - g,
{
    lemma2_to64();
    lemma2_to64_rest();
    let s = varint_enc(v);
    if v < 128 {
        assert(s[0] == v as u8);
        if g == 4 {
            assert(v < 16);
        }
    } else {
        assert(g < 4) by {
            if g == 4 {
                assert(pow2(4) == 16);
            }
        }
        assert(s[0] == (128 + v % 128) as u8);
        assert(s.skip(1) =~= varint_enc(v / 128));
        assert(v / 128 < pow2((25 - 7 * g) as nat)) by {
            lemma_pow2_adds(7, (25 - 7 * g) as nat);
            lemma_multiply_divide_lt(v as int, pow2((25 - 7 * g) as nat) as int, 128);
        }
        lemma_varint_enc_dec(v / 128, g + 1);
        lemma_fundamental_div_mod(v as int, 128);
    }
}

/// Any value below `2^31`, encoded in the standard seven-bit byte groups,
/// decodes back to itself, consuming exactly its whole encoding.
pub proof fn lemma_varint_round_trip(v: nat)
    requires
        v < 0x80000000,
    ensures
        varint_dec(varint_enc(v), 0) == VarintOutcome::Value(v, varint_enc(v).len()),
{
    lemma2_to64();
    lemma2_to64_rest();
    lemma_varint_enc_dec(v, 0);
}

/// Encode `v` in the byte-aligned seven-bit group form.
pub fn encode_varint(v: u32) -> (r: Vec<u8>)
    ensures
        r@ == varint_enc(v as nat),
{
    let mut out: Vec<u8> = Vec::new();
    proof {
        assert(varint_enc(v as nat) =~= out@ + varint_enc(v as nat));
    }
    let mut x = v;
    while x >= 128
        invariant
            varint_enc(v as nat) == out@ + varint_enc(x as nat),
        decreases x,
    {
        let ghost out0 = out@;
        let ghost x0 = x as nat;
        out.push(128 + (x % 128) as u8);
        x = x / 128;
        proof {
            assert(out@ + varint_enc(x as nat) =~= out0 + varint_enc(x0));
        }
    }
    out.push(x as u8);
    proof {
        assert(out@ =~= varint_enc(v as nat));
    }
    out
}

/// Decode a bit-cursor varint from group `depth` on: each group is eight
/// consecutive bits off the cursor.  At most five groups are read; a fifth
/// group whose continuation bit is still set overflows.
pub open spec fn bit_varint_dec(bs: Seq<bool>, depth: nat) -> VarintOutcome
    decreases 5 - depth,
{
    if depth >= 5 {
        VarintOutcome::Overflow
    } else if bs.len() < 8 {
        VarintOutcome::Truncated
    } else {
        let group = bits_val(bs.take(8));
        if group < 128 {
            VarintOutcome::Value(group, 8)
        } else {
            match bit_varint_dec(bs.skip(8), depth + 1) {
                VarintOutcome::Value(v, n) => VarintOutcome::Value(
                    (group - 128) as nat + 128 * v,
                    n + 8,
                ),
                o => o,
            }
        }
    }
}

/// A successful bit-cursor varint consumes between one and five whole
/// groups, never more bits than the sequence holds.
pub proof fn lemma_bit_varint_len(bs: Seq<bool>, depth: nat)
    requires
        depth <= 5,
    ensures
        bit_varint_dec(bs, depth) is Value ==> 8 <= outcome_len(bit_varint_dec(bs, depth))
            <= bs.len() && outcome_len(bit_varint_dec(bs, depth)) <= 8 * (5 - depth),
    decreases 5 - depth,
{
    if depth < 5 && bs.len() >= 8 {
        lemma_bit_varint_len(bs.skip(8), depth + 1);
    }
}

/// Decode one bit-cursor varint off the cursor, truncating the accumulated
/// value to 32 bits.  On overflow all five groups have been consumed; on
/// underflow the cursor stops at the first group that does not fit.
pub fn read_varuint32(bv: &mut BitCursor) -> (r: Result<u32, DemoError>)
    requires
        old(bv).wf(),
    ensures
        final(bv).wf(),
        match r {
            Ok(v) => {
                let o = bit_varint_dec(old(bv)@, 0);
                &&& o is Value
                &&& v as nat == outcome_value(o) % pow2(32)
                &&& (outcome_value(o) < pow2(32) ==> v as nat == outcome_value(o))
                &&& final(bv)@ == old(bv)@.skip(outcome_len(o) as int)
            },
            Err(e) => {
                ||| (e == DemoError::CursorUnderflow && bit_varint_dec(old(bv)@, 0) is Truncated
                    && final(bv)@.len() < 8)
                ||| (e == DemoError::VarintOverflow && bit_varint_dec(old(bv)@, 0) is Overflow
                    && final(bv)@ == old(bv)@.skip(40))
            },
        },
{
    let ghost bs0 = bv@;
    proof {
        lemma2_to64();
        lemma2_to64_rest();
        assert(bs0.skip(0) =~= bs0);
    }
    let mut acc: u64 = 0;
    let mut depth: usize = 0;
    loop
        invariant
            bv.wf(),
            bs0 == old(bv)@,
            depth <= 5,
            8 * (depth as int) <= bs0.len(),
            bv@ == bs0.skip(8 * depth as int),
            (acc as nat) < pow2((7 * depth) as nat),
            (match bit_varint_dec(bv@, depth as nat) {
                VarintOutcome::Value(v, n) => bit_varint_dec(bs0, 0) == VarintOutcome::Value(
                    acc as nat + pow2((7 * depth) as nat) * v,
                    (8 * depth + n) as nat,
                ),
                VarintOutcome::Truncated => bit_varint_dec(bs0, 0) is Truncated,
                VarintOutcome::Overflow => bit_varint_dec(bs0, 0) is Overflow,
            }),
        decreases 5 - depth,
    {
        if depth == 5 {
            return Err(DemoError::VarintOverflow);
        }
        let ghost prev = bv@;
        let g = match bv.read_bits(8) {
            Ok(g) => g,
            Err(_) => {
                return Err(DemoError::CursorUnderflow);
            },
        };
        proof {
            lemma_bits_val_bound(prev.take(8));
            lemma2_to64();
            lemma2_to64_rest();
            assert(prev.take(8).len() == 8);
        }
        let p: u64 = 1u64 << ((7 * depth) as u64);
        proof {
            lemma_pow2_strictly_increases((7 * depth) as nat, 64);
            lemma_u64_shl_is_mul(1u64, (7 * depth) as u64);
            lemma_pow2_adds((7 * depth) as nat, 7);
        }
        if g < 128 {
            proof {
                assert(acc as nat + pow2((7 * depth) as nat) * (g as nat) < pow2(
                    (7 * depth + 7) as nat,
                )) by {
                    assert(acc as nat + pow2((7 * depth) as nat) * (g as nat) < pow2(
                        (7 * depth) as nat,
                    ) * 128) by (nonlinear_arith)
                        requires
                            (acc as nat) < pow2((7 * depth) as nat),
                            (g as nat) < 128,
                    ;
                }
                assert(pow2((7 * depth + 7) as nat) <= pow2(40)) by {
                    if 7 * depth + 7 < 40 {
                        lemma_pow2_strictly_increases((7 * depth + 7) as nat, 40);
                    }
                }
            }
            let total: u64 = acc + p * g;
            let out: u32 = #[verifier::truncate] (total as u32);
            proof {
                assert((total as u32) as u64 == total % 0x100000000u64) by (bit_vector);
                if (total as nat) < pow2(32) {
                    lemma_small_mod(total as nat, pow2(32));
                }
            }
            return Ok(out);
        }
        let chunk: u64 = g - 128;
        proof {
            let ghost pn = pow2((7 * depth) as nat);
            assert(acc as nat + pn * (chunk as nat) < pn * 128) by (nonlinear_arith)
                requires
                    (acc as nat) < pn,
                    (chunk as nat) < 128,
            ;
            match bit_varint_dec(bv@, (depth + 1) as nat) {
                VarintOutcome::Value(v, n) => {
                    assert(pn * ((chunk as nat) + 128 * v) == pn * (chunk as nat) + (pn * 128) * v)
                        by (nonlinear_arith);
                    assert(bit_varint_dec(prev, depth as nat) == VarintOutcome::Value(
                        (chunk as nat) + 128 * v,
                        n + 8,
                    ));
                },
                _ => {
                },
            }
            assert(bs0.skip(8 * depth as int).skip(8) =~= bs0.skip(8 * (depth + 1) as int));
        }
        acc = acc + p * chunk;
        depth = depth + 1;
    }
}

} // verus!

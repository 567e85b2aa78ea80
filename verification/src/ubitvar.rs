//! The compact four-class bit-packed integer encoding used for sub-frame
//! command ids.
//!
//! A six-bit header is peeked first: its low four bits are the low four bits
//! of the value, and bits four and five select the total span — 6, 10, 14 or
//! 34 bits.  The whole span is then consumed (re-reading the six header bits)
//! and every bit past the first six lands above the low four value bits.

use vstd::prelude::*;
use vstd::arithmetic::power2::*;
use vstd::arithmetic::div_mod::*;
use crate::DemoError;
use crate::bits::BitCursor;
use crate::bits::bits_val;
use crate::bits::bits_le;
use crate::bits::lemma_bits_le_val;
use crate::bits::lemma_bits_val_concat;

verus! {

/// The span, in bits, that a given span class selects.
pub open spec fn ubitvar_cls_span(cls: nat) -> nat {
    if cls == 1 {
        10
    } else if cls == 2 {
        14
    } else if cls == 3 {
        34
    } else {
        6
    }
}

/// The span selected by a six-bit header value: bits four and five are the
/// span class.
pub open spec fn ubitvar_span(h: nat) -> nat {
    ubitvar_cls_span((h / 16) % 4)
}

/// The value carried by one consumed span: its low four bits, joined by every
/// bit past the first six, shifted up by four.
pub open spec fn ubitvar_value_of(all: nat) -> nat {
    all % 16 + 16 * (all / 64)
}

/// Decode one compact integer off the cursor.  The six-bit header is examined
/// before anything is consumed; on success the cursor advances by the whole
/// selected span, never by just six bits.  When fewer bits remain than the
/// span requires, nothing is consumed.
pub fn read_ubitvar(bv: &mut BitCursor) -> (r: Result<u32, DemoError>)
    requires
        old(bv).wf(),
    ensures
        final(bv).wf(),
        match r {
            Ok(v) => {
                let span = ubitvar_span(bits_val(old(bv)@.take(6)));
                &&& old(bv)@.len() >= span
                &&& v as nat == ubitvar_value_of(bits_val(old(bv)@.take(span as int)))
                &&& final(bv)@ == old(bv)@.skip(span as int)
            },
            Err(e) => {
                &&& e == DemoError::CursorUnderflow
                &&& old(bv)@.len() < ubitvar_span(bits_val(old(bv)@.take(6)))
                &&& final(bv)@ == old(bv)@
            },
        },
{
    let rem = bv.remaining_bits();
    if rem < 6 {
        return Err(DemoError::CursorUnderflow);
    }
    let h = match bv.peek_bits(6) {
        Ok(h) => h,
        Err(_) => vstd::pervasive::unreached(),
    };
    let cls = (h / 16) % 4;
    let span: usize = if cls == 1 {
        10
    } else if cls == 2 {
        14
    } else if cls == 3 {
        34
    } else {
        6
    };
    if rem < span {
        return Err(DemoError::CursorUnderflow);
    }
    let all = match bv.read_bits(span) {
        Ok(all) => all,
        Err(_) => vstd::pervasive::unreached(),
    };
    proof {
        crate::bits::lemma_bits_val_bound(old(bv)@.take(span as int));
        lemma2_to64();
        lemma2_to64_rest();
        assert(all / 64 < 0x10000000) by {
            assert(all < 0x400000000);
        };
    }
    Ok((all % 16 + 16 * (all / 64)) as u32)
}

/// The bit-level encoding of value `v` in span class `cls`: the low four
/// value bits, the two class bits, then the remaining value bits.
pub open spec fn ubitvar_enc(v: nat, cls: nat) -> Seq<bool> {
    bits_le(v % 16, 4) + bits_le(cls, 2) + bits_le(v / 16, (ubitvar_cls_span(cls) - 6) as nat)
}

/// Every value a span class can carry decodes back to itself, and the span
/// the decoder selects is the class's full span — never just the six peeked
/// header bits.
pub proof fn lemma_ubitvar_round_trip(v: nat, cls: nat)
    requires
        cls < 4,
        v < pow2((ubitvar_cls_span(cls) - 2) as nat),
    ensures
        ubitvar_enc(v, cls).len() == ubitvar_cls_span(cls),
        ubitvar_span(bits_val(ubitvar_enc(v, cls).take(6))) == ubitvar_cls_span(cls),
        ubitvar_value_of(bits_val(ubitvar_enc(v, cls))) == v,
{
    let s = ubitvar_cls_span(cls);
    let a = bits_le(v % 16, 4);
    let b = bits_le(cls, 2);
    let c = bits_le(v / 16, (s - 6) as nat);
    lemma2_to64();
    lemma2_to64_rest();
    lemma_bits_le_val(v % 16, 4);
    lemma_small_mod((v % 16) as nat, 16);
    lemma_bits_le_val(cls, 2);
    lemma_small_mod(cls, 4);
    lemma_bits_le_val(v / 16, (s - 6) as nat);
    assert(v / 16 < pow2((s - 6) as nat)) by {
        lemma_pow2_adds(4, (s - 6) as nat);
        lemma_multiply_divide_lt(v as int, pow2((s - 6) as nat) as int, 16);
    };
    lemma_small_mod((v / 16) as nat, pow2((s - 6) as nat));
    lemma_bits_val_concat(a, b);
    lemma_bits_val_concat(a + b, c);
    let h = bits_val(a + b);
    let total = bits_val(ubitvar_enc(v, cls));
    assert(h == v % 16 + 16 * cls);
    assert(total == v % 16 + 16 * cls + 64 * (v / 16));
    assert(ubitvar_enc(v, cls).take(6) =~= a + b);
    assert(h / 16 == cls) by {
        lemma_fundamental_div_mod_converse(h as int, 16, cls as int, (v % 16) as int);
    };
    assert(total % 16 == v % 16) by {
        lemma_fundamental_div_mod_converse(
            total as int,
            16,
            (4 * (v / 16) + cls) as int,
            (v % 16) as int,
        );
    };
    assert(total / 64 == v / 16) by {
        lemma_fundamental_div_mod_converse(
            total as int,
            64,
            (v / 16) as int,
            (16 * cls + v % 16) as int,
        );
    };
    lemma_fundamental_div_mod(v as int, 16);
}

/// Decoding from a cursor that holds an encoded value followed by anything
/// else recovers the value and leaves exactly the rest: the cursor advances
/// by the full selected span.
pub proof fn lemma_ubitvar_decode_prefix(v: nat, cls: nat, rest: Seq<bool>)
    requires
        cls < 4,
        v < pow2((ubitvar_cls_span(cls) - 2) as nat),
    ensures
        ({
            let bs = ubitvar_enc(v, cls) + rest;
            &&& ubitvar_span(bits_val(bs.take(6))) == ubitvar_cls_span(cls)
            &&& ubitvar_value_of(bits_val(bs.take(ubitvar_cls_span(cls) as int))) == v
            &&& bs.skip(ubitvar_cls_span(cls) as int) == rest
        }),
{
    lemma_ubitvar_round_trip(v, cls);
    let e = ubitvar_enc(v, cls);
    let bs = e + rest;
    let s = ubitvar_cls_span(cls) as int;
    assert(bs.take(s) =~= e);
    assert(bs.take(6) =~= e.take(6));
    assert(bs.skip(s) =~= rest);
}

} // verus!

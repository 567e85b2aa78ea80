//! Bit-level addressing of a byte buffer.
//!
//! The nested framing layer of the stream is not byte-aligned: sub-frame
//! headers are read as runs of bits, least-significant-bit-first within each
//! byte.  One cursor abstraction serves both the compact command-id encoding
//! and the bit-level varint.

use vstd::prelude::*;
use vstd::arithmetic::power2::*;
use vstd::arithmetic::div_mod::*;
use vstd::bits::*;
use crate::DemoError;

verus! {

/// Bit `k` of byte `b`, least-significant-bit-first.
pub open spec fn byte_bit(b: u8, k: nat) -> bool {
    (b as nat / pow2(k)) % 2 == 1
}

/// The bits of a byte buffer as one flat sequence: bit `i` is bit `i % 8` of
/// byte `i / 8`.
pub open spec fn bits_of(data: Seq<u8>) -> Seq<bool> {
    Seq::new(data.len() * 8, |i: int| byte_bit(data[i / 8], (i % 8) as nat))
}

/// The unsigned value of a bit sequence, first bit least significant.
pub open spec fn bits_val(bs: Seq<bool>) -> nat
    decreases bs.len(),
{
    if bs.len() == 0 {
        0
    } else {
        (if bs[0] {
            1nat
        } else {
            0nat
        }) + 2 * bits_val(bs.skip(1))
    }
}

/// The value of `w` consecutive bits is below `2^w`.
pub proof fn lemma_bits_val_bound(bs: Seq<bool>)
    ensures
        bits_val(bs) < pow2(bs.len()),
    decreases bs.len(),
{
    if bs.len() == 0 {
        lemma2_to64();
    } else {
        lemma_bits_val_bound(bs.skip(1));
        lemma_pow2_unfold(bs.len());
    }
}

/// Splitting a bit sequence splits its value: the suffix is weighted by
/// `2^(length of the prefix)`.
pub proof fn lemma_bits_val_concat(a: Seq<bool>, b: Seq<bool>)
    ensures
        bits_val(a + b) == bits_val(a) + pow2(a.len()) * bits_val(b),
    decreases a.len(),
{
    if a.len() == 0 {
        assert(a + b =~= b);
        lemma2_to64();
    } else {
        assert((a + b).skip(1) =~= a.skip(1) + b);
        lemma_bits_val_concat(a.skip(1), b);
        lemma_pow2_unfold(a.len());
        assert(2 * (bits_val(a.skip(1)) + pow2((a.len() - 1) as nat) * bits_val(b)) == 2
            * bits_val(a.skip(1)) + (2 * pow2((a.len() - 1) as nat)) * bits_val(b))
            by (nonlinear_arith);
    }
}

/// Extending a prefix by one bit adds that bit's weight to the value.
pub proof fn lemma_bits_val_take_succ(bs: Seq<bool>, i: int)
    requires
        0 <= i < bs.len(),
    ensures
        bits_val(bs.take(i + 1)) == bits_val(bs.take(i)) + (if bs[i] {
            pow2(i as nat)
        } else {
            0nat
        }),
{
    assert(bs.take(i + 1) =~= bs.take(i) + seq![bs[i]]);
    lemma_bits_val_concat(bs.take(i), seq![bs[i]]);
    assert(bits_val(seq![bs[i]]) == if bs[i] {
        1nat
    } else {
        0nat
    }) by {
        assert(seq![bs[i]].skip(1) =~= Seq::<bool>::empty());
        assert(bits_val(Seq::<bool>::empty()) == 0);
    }
}

/// The `w`-bit little-endian representation of `v`.
pub open spec fn bits_le(v: nat, w: nat) -> Seq<bool> {
    Seq::new(w, |i: int| (v / pow2(i as nat)) % 2 == 1)
}

/// The value of the `w`-bit representation of `v` is `v` modulo `2^w`.
pub proof fn lemma_bits_le_val(v: nat, w: nat)
    ensures
        bits_val(bits_le(v, w)) == v % pow2(w),
    decreases w,
{
    lemma2_to64();
    if w == 0 {
        assert(bits_le(v, 0) =~= Seq::<bool>::empty());
    } else {
        assert(bits_le(v, w).skip(1) =~= bits_le(v / 2, (w - 1) as nat)) by {
            assert forall|i: int| 0 <= i < w - 1 implies bits_le(v, w).skip(1)[i] == bits_le(
                v / 2,
                (w - 1) as nat,
            )[i] by {
                lemma_pow2_unfold((i + 1) as nat);
                lemma_pow2_pos(i as nat);
                lemma_div_denominator(v as int, 2, pow2(i as nat) as int);
            }
        }
        lemma_bits_le_val(v / 2, (w - 1) as nat);
        lemma_pow2_unfold(w);
        lemma_pow2_pos((w - 1) as nat);
        lemma_mod_breakdown(v as int, 2, pow2((w - 1) as nat) as int);
        assert(v % (2 * pow2((w - 1) as nat)) == 2 * ((v / 2) % pow2((w - 1) as nat)) + v % 2);
        lemma_div_basics(v as int);
        assert(bits_le(v, w)[0] == (v % 2 == 1));
        assert(bits_val(bits_le(v, w)) == (if bits_le(v, w)[0] {
            1nat
        } else {
            0nat
        }) + 2 * bits_val(bits_le(v, w).skip(1)));
    }
}

/// The bytes obtained by regrouping a bit sequence eight bits at a time.
pub open spec fn bytes_of_bits(bs: Seq<bool>) -> Seq<u8> {
    Seq::new(bs.len() / 8, |j: int| bits_val(bs.subrange(8 * j, 8 * j + 8)) as u8)
}

/// A cursor over the bits of an owned byte buffer, least-significant-bit-first
/// within each byte.  Its view is the sequence of bits not yet consumed.
pub struct BitCursor {
    data: Vec<u8>,
    pos: usize,
}

impl View for BitCursor {
    type V = Seq<bool>;

    closed spec fn view(&self) -> Seq<bool> {
        bits_of(self.data@).skip(self.pos as int)
    }
}

impl BitCursor {
    /// The cursor sits inside its buffer, whose bit count fits a `usize`.
    pub closed spec fn wf(&self) -> bool {
        self.pos <= self.data@.len() * 8 && self.data@.len() * 8 <= usize::MAX
    }

    pub fn new(data: Vec<u8>) -> (c: BitCursor)
        requires
            data@.len() * 8 <= usize::MAX,
        ensures
            c.wf(),
            c@ == bits_of(data@),
    {
        let c = BitCursor { data, pos: 0 };
        proof {
            assert(c@ =~= bits_of(c.data@));
        }
        c
    }

    pub fn remaining_bits(&self) -> (n: usize)
        requires
            self.wf(),
        ensures
            n == self@.len(),
    {
        self.data.len() * 8 - self.pos
    }

    /// The bit `off` places past the cursor, without consuming anything.
    fn bit_at(&self, off: usize) -> (b: bool)
        requires
            self.wf(),
            off < self@.len(),
        ensures
            b == self@[off as int],
    {
        let i: usize = self.pos + off;
        let byte: u8 = self.data[i / 8];
        let k: usize = i % 8;
        let p: u64 = 1u64 << (k as u64);
        proof {
            lemma2_to64();
            lemma_pow2_strictly_increases(k as nat, 64);
            lemma_u64_shl_is_mul(1u64, k as u64);
        }
        ((byte as u64) / p) % 2 == 1
    }

    /// The value of the next `n` bits, without consuming anything.
    pub fn peek_bits(&self, n: usize) -> (r: Result<u64, DemoError>)
        requires
            self.wf(),
            n <= 64,
        ensures
            match r {
                Ok(v) => self@.len() >= n && v as nat == bits_val(self@.take(n as int)),
                Err(e) => e == DemoError::CursorUnderflow && self@.len() < n,
            },
    {
        if self.remaining_bits() < n {
            return Err(DemoError::CursorUnderflow);
        }
        let ghost bs = self@;
        let mut acc: u64 = 0;
        let mut i: usize = 0;
        while i < n
            invariant
                self.wf(),
                self@ == bs,
                i <= n,
                n <= 64,
                n <= bs.len(),
                acc as nat == bits_val(bs.take(i as int)),
            decreases n - i,
        {
            let b = self.bit_at(i);
            proof {
                lemma_bits_val_take_succ(bs, i as int);
                lemma_bits_val_bound(bs.take(i as int));
                lemma_pow2_unfold((i + 1) as nat);
                if i + 1 < 64 {
                    lemma_pow2_strictly_increases((i + 1) as nat, 64);
                }
                lemma2_to64();
                lemma2_to64_rest();
            }
            if b {
                let p: u64 = 1u64 << (i as u64);
                proof {
                    lemma_pow2_strictly_increases(i as nat, 64);
                    lemma_u64_shl_is_mul(1u64, i as u64);
                }
                acc = acc + p;
            }
            i = i + 1;
        }
        Ok(acc)
    }

    /// Consume the next `n` bits and return their value, first bit least
    /// significant.  On underflow nothing is consumed.
    pub fn read_bits(&mut self, n: usize) -> (r: Result<u64, DemoError>)
        requires
            old(self).wf(),
            n <= 64,
        ensures
            final(self).wf(),
            match r {
                Ok(v) => old(self)@.len() >= n && v as nat == bits_val(
                    old(self)@.take(n as int),
                ) && final(self)@ == old(self)@.skip(n as int),
                Err(e) => e == DemoError::CursorUnderflow && old(self)@.len() < n && final(self)@ == old(self)@,
            },
    {
        if self.remaining_bits() < n {
            return Err(DemoError::CursorUnderflow);
        }
        let ghost bs = self@;
        let mut acc: u64 = 0;
        let mut i: usize = 0;
        while i < n
            invariant
                self.wf(),
                self@ == bs,
                i <= n,
                n <= 64,
                n <= bs.len(),
                acc as nat == bits_val(bs.take(i as int)),
            decreases n - i,
        {
            let b = self.bit_at(i);
            proof {
                lemma_bits_val_take_succ(bs, i as int);
                lemma_bits_val_bound(bs.take(i as int));
                lemma_pow2_unfold((i + 1) as nat);
                if i + 1 < 64 {
                    lemma_pow2_strictly_increases((i + 1) as nat, 64);
                }
                lemma2_to64();
                lemma2_to64_rest();
            }
            if b {
                let p: u64 = 1u64 << (i as u64);
                proof {
                    lemma_pow2_strictly_increases(i as nat, 64);
                    lemma_u64_shl_is_mul(1u64, i as u64);
                }
                acc = acc + p;
            }
            i = i + 1;
        }
        self.pos = self.pos + n;
        proof {
            assert(self@ =~= bs.skip(n as int));
        }
        Ok(acc)
    }

    /// Consume `count` byte-sized groups of bits, one output byte per group.
    /// The groups need not be byte-aligned in the underlying buffer.  On
    /// underflow nothing is consumed.
    pub fn read_bytes(&mut self, count: usize) -> (r: Result<Vec<u8>, DemoError>)
        requires
            old(self).wf(),
            count <= usize::MAX / 8,
        ensures
            final(self).wf(),
            match r {
                Ok(v) => old(self)@.len() >= count * 8 && v@ == bytes_of_bits(
                    old(self)@.take(count as int * 8),
                ) && final(self)@ == old(self)@.skip(count as int * 8),
                Err(e) => e == DemoError::CursorUnderflow && old(self)@.len() < count * 8 && final(self)@ == old(self)@,
            },
    {
        if self.remaining_bits() < count * 8 {
            return Err(DemoError::CursorUnderflow);
        }
        let ghost bs = self@;
        let mut out: Vec<u8> = Vec::new();
        let mut j: usize = 0;
        while j < count
            invariant
                self.wf(),
                j <= count,
                count * 8 <= bs.len(),
                self@ == bs.skip(8 * j as int),
                out@.len() == j,
                forall|t: int|
                    0 <= t < j ==> out@[t] as nat == bits_val(bs.subrange(8 * t, 8 * t + 8)),
            decreases count - j,
        {
            let v = match self.read_bits(8) {
                Ok(v) => v,
                Err(_) => vstd::pervasive::unreached(),
            };
            proof {
                lemma_bits_val_bound(bs.skip(8 * j as int).take(8));
                lemma2_to64();
                assert(bs.skip(8 * j as int).take(8) =~= bs.subrange(8 * j as int, 8 * j as int + 8));
                assert(bs.skip(8 * j as int).skip(8) =~= bs.skip(8 * (j + 1) as int));
            }
            out.push(v as u8);
            j = j + 1;
        }
        proof {
            assert forall|t: int| 0 <= t < count implies out@[t] == bytes_of_bits(
                bs.take(count as int * 8),
            )[t] by {
                assert(bs.take(count as int * 8).subrange(8 * t, 8 * t + 8) =~= bs.subrange(
                    8 * t,
                    8 * t + 8,
                ));
            }
            assert(out@ =~= bytes_of_bits(bs.take(count as int * 8)));
        }
        Ok(out)
    }
}

} // verus!

//! The sequential byte source the top-level frame reader pulls from.

use vstd::prelude::*;
use crate::DemoError;
use crate::varint::VarintOutcome;
use crate::varint::varint_dec;

verus! {

/// A 32-bit little-endian integer at the front of a byte sequence.
pub open spec fn le32(s: Seq<u8>) -> nat {
    (s[0] as nat) + 256 * ((s[1] as nat) + 256 * ((s[2] as nat) + 256 * (s[3] as nat)))
}

/// An owned copy of a byte buffer.
pub fn copy_bytes(data: &Vec<u8>) -> (r: Vec<u8>)
    ensures
        r@ == data@,
{
    let mut out: Vec<u8> = Vec::new();
    let mut i: usize = 0;
    while i < data.len()
        invariant
            i <= data@.len(),
            out@ == data@.take(i as int),
        decreases data@.len() - i,
    {
        out.push(data[i]);
        proof {
            assert(out@ =~= data@.take(i + 1));
        }
        i = i + 1;
    }
    proof {
        assert(out@ =~= data@);
    }
    out
}

/// A sequential reader over an owned byte buffer.  Its view is the sequence
/// of bytes not yet consumed.
pub struct ByteReader {
    data: Vec<u8>,
    pos: usize,
}

impl View for ByteReader {
    type V = Seq<u8>;

    closed spec fn view(&self) -> Seq<u8> {
        self.data@.skip(self.pos as int)
    }
}

impl ByteReader {
    /// The cursor sits inside its buffer.
    pub closed spec fn wf(&self) -> bool {
        self.pos <= self.data@.len()
    }

    pub fn new(data: Vec<u8>) -> (r: ByteReader)
        ensures
            r.wf(),
            r@ == data@,
    {
        let r = ByteReader { data, pos: 0 };
        proof {
            assert(r@ =~= r.data@);
        }
        r
    }

    pub fn remaining(&self) -> (n: usize)
        requires
            self.wf(),
        ensures
            n == self@.len(),
    {
        self.data.len() - self.pos
    }

    /// Decode one byte-aligned varint `off` bytes past the cursor, without
    /// consuming anything.
    pub fn peek_varint_at(&self, off: usize) -> (r: Result<(u32, usize), DemoError>)
        requires
            self.wf(),
            off <= self@.len(),
        ensures
            match r {
                Ok((v, n)) => varint_dec(self@.skip(off as int), 0) == VarintOutcome::Value(
                    v as nat,
                    n as nat,
                ) && off + n <= self@.len() && 1 <= n <= 5,
                Err(e) => {
                    &&& (e == DemoError::TruncatedVarint || e == DemoError::VarintOverflow)
                    &&& e == DemoError::TruncatedVarint <==> varint_dec(
                        self@.skip(off as int),
                        0,
                    ) is Truncated
                    &&& e == DemoError::VarintOverflow <==> varint_dec(
                        self@.skip(off as int),
                        0,
                    ) is Overflow
                },
            },
    {
        proof {
            assert(self.data.len() == self.data@.len());
            assert(self@.len() == self.data@.len() - self.pos);
            assert(self.data@.skip(self.pos + off as int) =~= self@.skip(off as int));
        }
        crate::varint::peek_varint(&self.data, self.pos + off)
    }

    /// Step the cursor forward by `n` bytes.
    pub fn advance(&mut self, n: usize)
        requires
            old(self).wf(),
            n <= old(self)@.len(),
        ensures
            final(self).wf(),
            final(self)@ == old(self)@.skip(n as int),
    {
        proof {
            assert(self.data.len() == self.data@.len());
            assert(old(self)@.len() == self.data@.len() - self.pos);
        }
        self.pos = self.pos + n;
        proof {
            assert(self@ =~= old(self)@.skip(n as int));
        }
    }

    /// Read exactly `count` bytes.  On a shortfall nothing is consumed.
    pub fn read_exact(&mut self, count: usize) -> (r: Option<Vec<u8>>)
        requires
            old(self).wf(),
        ensures
            final(self).wf(),
            match r {
                Some(v) => old(self)@.len() >= count && v@ == old(self)@.take(count as int)
                    && final(self)@ == old(self)@.skip(count as int),
                None => old(self)@.len() < count && final(self)@ == old(self)@,
            },
    {
        if self.data.len() - self.pos < count {
            return None;
        }
        let ghost s0 = self@;
        let mut out: Vec<u8> = Vec::new();
        let mut j: usize = 0;
        while j < count
            invariant
                self.wf(),
                self@ == s0,
                s0 == old(self)@,
                j <= count,
                count <= s0.len(),
                s0.len() == self.data@.len() - self.pos,
                out@ == s0.take(j as int),
            decreases count - j,
        {
            proof {
                assert(self.data.len() == self.data@.len());
                assert(s0[j as int] == self.data@[self.pos + j]);
            }
            out.push(self.data[self.pos + j]);
            proof {
                assert(out@ =~= s0.take(j + 1));
            }
            j = j + 1;
        }
        self.pos = self.pos + count;
        proof {
            assert(self@ =~= s0.skip(count as int));
        }
        Some(out)
    }

    /// Read a fixed 32-bit little-endian integer.  On a shortfall nothing is
    /// consumed.
    pub fn read_u32_le(&mut self) -> (r: Option<u32>)
        requires
            old(self).wf(),
        ensures
            final(self).wf(),
            match r {
                Some(v) => old(self)@.len() >= 4 && v as nat == le32(old(self)@) && final(self)@
                    == old(self)@.skip(4),
                None => old(self)@.len() < 4 && final(self)@ == old(self)@,
            },
    {
        if self.data.len() - self.pos < 4 {
            return None;
        }
        let b0 = self.data[self.pos] as u32;
        let b1 = self.data[self.pos + 1] as u32;
        let b2 = self.data[self.pos + 2] as u32;
        let b3 = self.data[self.pos + 3] as u32;
        self.pos = self.pos + 4;
        proof {
            assert(self@ =~= old(self)@.skip(4));
        }
        Some(b0 + 256 * (b1 + 256 * (b2 + 256 * b3)))
    }
}

} // verus!

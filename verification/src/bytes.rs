//! Little-endian decoding over a positioned, seekable byte cursor.
//!
//! `ByteCursor` behaves like `std::io::Cursor<&[u8]>` used through `Read`
//! and `Seek`: reads past the end fail, the position may be moved past the
//! end, and a relative seek fails when it would leave `0..=u64::MAX`.
use vstd::prelude::*;

verus! {

/// The unsigned integer that `bytes` encodes in little-endian order.
pub open spec fn le_value(bytes: Seq<u8>) -> nat
    decreases bytes.len(),
{
    if bytes.len() == 0 {
        0
    } else {
        bytes[0] as nat + 256 * le_value(bytes.drop_first())
    }
}

/// Why a read or a seek on a cursor failed.
#[derive(Clone, Copy, Debug, PartialEq, Eq, Structural)]
pub enum ReadError {
    /// Fewer bytes were left than the read asked for.
    UnexpectedEof,
    /// A relative seek would have moved before 0 or past `u64::MAX`.
    InvalidSeek,
}

/// The `n` bytes that a read at `pos` returns, if that many are left.
/// A read of no bytes always succeeds.
pub open spec fn read_bytes(data: Seq<u8>, pos: nat, n: nat) -> Option<Seq<u8>> {
    if n == 0 {
        Some(Seq::<u8>::empty())
    } else if pos + n <= data.len() {
        Some(data.subrange(pos as int, (pos + n) as int))
    } else {
        None
    }
}

/// Reads `n` bytes at `pos` as a little-endian integer; gives the value and
/// the position after it.
pub open spec fn read_le(data: Seq<u8>, pos: nat, n: nat) -> Result<(nat, nat), ReadError> {
    match read_bytes(data, pos, n) {
        Some(b) => Ok((le_value(b), pos + n)),
        None => Err(ReadError::UnexpectedEof),
    }
}

/// The offset that a `u64` stands for when it is reinterpreted as an `i64`.
pub open spec fn as_signed_offset(offset: u64) -> int {
    if offset < 0x8000_0000_0000_0000 {
        offset as int
    } else {
        offset as int - 0x1_0000_0000_0000_0000
    }
}

/// The position after seeking by `offset` (taken as an `i64`) from `pos`,
/// if it stays within `0..=u64::MAX`.
pub open spec fn seek_relative(pos: nat, offset: u64) -> Option<nat> {
    let np = pos + as_signed_offset(offset);
    if 0 <= np <= u64::MAX {
        Some(np as nat)
    } else {
        None
    }
}

pub proof fn lemma_le_value_4(s: Seq<u8>)
    requires
        s.len() == 4,
    ensures
        le_value(s) == s[0] as nat + 256 * (s[1] as nat) + 65536 * (s[2] as nat) + 16777216 * (
        s[3] as nat),
{
    let s1 = s.drop_first();
    let s2 = s1.drop_first();
    let s3 = s2.drop_first();
    let s4 = s3.drop_first();
    assert(s4.len() == 0);
    assert(le_value(s4) == 0);
    assert(le_value(s3) == s[3] as nat);
    assert(le_value(s2) == s[2] as nat + 256 * (s[3] as nat));
    assert(le_value(s1) == s[1] as nat + 256 * (s[2] as nat) + 65536 * (s[3] as nat));
}

pub proof fn lemma_le_value_8(s: Seq<u8>)
    requires
        s.len() == 8,
    ensures
        le_value(s) == le_value(s.subrange(0, 4)) + 0x1_0000_0000 * le_value(s.subrange(4, 8)),
{
    lemma_le_value_split(s, 4);
    assert(s.subrange(4, 8) =~= s.skip(4));
    assert(s.subrange(0, 4) =~= s.take(4));
    assert(pow256(4) == 0x1_0000_0000) by {
        reveal_with_fuel(pow256, 5);
    }
}

/// The value of a sequence is the value of its first `k` bytes plus
/// `256^k` times the value of the rest.
pub proof fn lemma_le_value_split(s: Seq<u8>, k: nat)
    requires
        k <= s.len(),
    ensures
        le_value(s) == le_value(s.take(k as int)) + pow256(k) * le_value(s.skip(k as int)),
    decreases k,
{
    if k == 0 {
        assert(s.take(0) =~= Seq::<u8>::empty());
        assert(s.skip(0) =~= s);
        assert(le_value(s.take(0)) == 0);
        assert(pow256(0) == 1);
        assert(1 * le_value(s) == le_value(s));
    } else {
        let s1 = s.drop_first();
        lemma_le_value_split(s1, (k - 1) as nat);
        assert(s1.take(k - 1) =~= s.take(k as int).drop_first());
        assert(s1.skip(k - 1) =~= s.skip(k as int));
        let a = le_value(s1.take(k - 1));
        let b = le_value(s.skip(k as int));
        let p = pow256((k - 1) as nat);
        assert(s.take(k as int)[0] == s[0]);
        assert(le_value(s.take(k as int)) == s[0] as nat + 256 * a);
        assert(le_value(s1) == a + p * b);
        assert(pow256(k) == 256 * p);
        assert(256 * (a + p * b) == 256 * a + (256 * p) * b) by (nonlinear_arith);
        assert(le_value(s) == s[0] as nat + 256 * le_value(s1));
    }
}

/// `256^k`.
pub open spec fn pow256(k: nat) -> nat
    decreases k,
{
    if k == 0 {
        1
    } else {
        256 * pow256((k - 1) as nat)
    }
}

/// `256^(k+1)` fits in 64 bits for `k < 8`.
pub proof fn lemma_pow256_le8(k: nat)
    requires
        k <= 7,
    ensures
        256 * pow256(k) <= 0x1_0000_0000_0000_0000,
        pow256(k) >= 1,
{
    reveal_with_fuel(pow256, 9);
    if k == 0 {
    } else if k == 1 {
    } else if k == 2 {
    } else if k == 3 {
    } else if k == 4 {
    } else if k == 5 {
    } else if k == 6 {
    } else {
    }
}

/// A value of `k` bytes is below `256^k`.
pub proof fn lemma_le_value_bound(s: Seq<u8>)
    ensures
        le_value(s) < pow256(s.len()),
    decreases s.len(),
{
    if s.len() > 0 {
        lemma_le_value_bound(s.drop_first());
        let a = le_value(s.drop_first());
        let p = pow256((s.len() - 1) as nat);
        assert(s[0] as nat + 256 * a < 256 * p) by (nonlinear_arith)
            requires
                s[0] < 256,
                a < p,
        ;
    }
}

/// If `a` and `b` agree above index `i` and `a[i] < b[i]`, then `a`
/// encodes the smaller number.
pub proof fn lemma_le_value_less(a: Seq<u8>, b: Seq<u8>, i: nat)
    requires
        a.len() == b.len(),
        i < a.len(),
        a.skip(i + 1 as int) == b.skip(i + 1 as int),
        a[i as int] < b[i as int],
    ensures
        le_value(a) < le_value(b),
{
    lemma_le_value_split(a, i);
    lemma_le_value_split(b, i);
    lemma_le_value_bound(a.take(i as int));
    assert(a.skip(i as int).drop_first() =~= a.skip(i + 1 as int));
    assert(b.skip(i as int).drop_first() =~= b.skip(i + 1 as int));
    let p = pow256(i);
    let ta = le_value(a.take(i as int));
    let tb = le_value(b.take(i as int));
    let r = le_value(a.skip(i + 1 as int));
    let la = le_value(a.skip(i as int));
    let lb = le_value(b.skip(i as int));
    assert(la == a[i as int] as nat + 256 * r);
    assert(lb == b[i as int] as nat + 256 * r);
    assert(ta + p * la < p * lb) by (nonlinear_arith)
        requires
            ta < p,
            la + 1 <= lb,
    ;
}

/// Whether `a` encodes a smaller number than `b`, both little-endian and of
/// one length.
pub fn le_less_than(a: &[u8], b: &[u8]) -> (r: bool)
    requires
        a@.len() == b@.len(),
    ensures
        r == (le_value(a@) < le_value(b@)),
{
    let n = a.len();
    let mut i = n;
    while i > 0
        invariant
            n == a@.len(),
            n == b@.len(),
            i <= n,
            a@.skip(i as int) == b@.skip(i as int),
        decreases i,
    {
        i = i - 1;
        if a[i] != b[i] {
            proof {
                if a[i as int] < b[i as int] {
                    lemma_le_value_less(a@, b@, i as nat);
                } else {
                    lemma_le_value_less(b@, a@, i as nat);
                }
            }
            return a[i] < b[i];
        }
        assert(a@.skip(i as int) =~= seq![a@[i as int]] + a@.skip(i + 1 as int));
        assert(b@.skip(i as int) =~= seq![b@[i as int]] + b@.skip(i + 1 as int));
    }
    assert(a@ =~= a@.skip(0));
    assert(b@ =~= b@.skip(0));
    false
}

/// A byte cursor over a borrowed slice, in the manner of `Cursor<&[u8]>`.
pub struct ByteCursor<'a> {
    pub data: &'a [u8],
    pub pos: u64,
}

impl<'a> ByteCursor<'a> {
    pub fn new(data: &'a [u8]) -> (c: Self)
        ensures
            c.data@ == data@,
            c.pos == 0,
    {
        ByteCursor { data, pos: 0 }
    }

    /// Moves to an absolute position; this never fails.
    pub fn seek_start(&mut self, pos: u64)
        ensures
            final(self).data@ == old(self).data@,
            final(self).pos == pos,
    {
        self.pos = pos;
    }

    /// Moves by `offset` taken as an `i64`, as `SeekFrom::Current(offset as i64)` does.
    pub fn seek_current(&mut self, offset: u64) -> (r: Result<u64, ReadError>)
        ensures
            final(self).data@ == old(self).data@,
            match seek_relative(old(self).pos as nat, offset) {
                Some(np) => r == Ok::<u64, ReadError>(np as u64) && final(self).pos == np,
                None => r == Err::<u64, ReadError>(ReadError::InvalidSeek),
            },
    {
        if offset < 0x8000_0000_0000_0000 {
            if self.pos <= u64::MAX - offset {
                self.pos = self.pos + offset;
                Ok(self.pos)
            } else {
                Err(ReadError::InvalidSeek)
            }
        } else {
            let back: u64 = (u64::MAX - offset) + 1;
            if back <= self.pos {
                self.pos = self.pos - back;
                Ok(self.pos)
            } else {
                Err(ReadError::InvalidSeek)
            }
        }
    }

    /// Reads exactly `n` bytes, as `read_exact` into a buffer of length `n`.
    pub fn read_vec(&mut self, n: usize) -> (r: Result<Vec<u8>, ReadError>)
        ensures
            final(self).data@ == old(self).data@,
            match read_bytes(old(self).data@, old(self).pos as nat, n as nat) {
                Some(b) => r matches Ok(v) && v@ == b && final(self).pos == old(self).pos + n,
                None => r == Err::<Vec<u8>, ReadError>(ReadError::UnexpectedEof),
            },
    {
        let len = self.data.len();
        if n == 0 {
            return Ok(Vec::new());
        }
        if self.pos >= len as u64 || (len as u64 - self.pos) < n as u64 {
            return Err(ReadError::UnexpectedEof);
        }
        let start = self.pos as usize;
        let mut out: Vec<u8> = Vec::new();
        let mut i: usize = 0;
        while i < n
            invariant
                start + n <= len,
                len == self.data@.len(),
                0 <= i <= n,
                out@ == self.data@.subrange(start as int, start + i),
            decreases n - i,
        {
            out.push(self.data[start + i]);
            i = i + 1;
            assert(out@ =~= self.data@.subrange(start as int, start + i));
        }
        self.pos = self.pos + n as u64;
        Ok(out)
    }

    /// Reads a little-endian `u32`.
    pub fn read_u32_le(&mut self) -> (r: Result<u32, ReadError>)
        ensures
            final(self).data@ == old(self).data@,
            match read_le(old(self).data@, old(self).pos as nat, 4) {
                Ok((v, p)) => r matches Ok(x) && x == v && final(self).pos == p,
                Err(e) => r == Err::<u32, ReadError>(e),
            },
    {
        let len = self.data.len();
        if self.pos >= len as u64 || (len as u64 - self.pos) < 4 {
            return Err(ReadError::UnexpectedEof);
        }
        let i = self.pos as usize;
        let b0 = self.data[i] as u32;
        let b1 = self.data[i + 1] as u32;
        let b2 = self.data[i + 2] as u32;
        let b3 = self.data[i + 3] as u32;
        let v: u32 = b0 + b1 * 256 + b2 * 65536 + b3 * 16777216;
        proof {
            lemma_le_value_4(self.data@.subrange(i as int, i + 4));
        }
        self.pos = self.pos + 4;
        Ok(v)
    }

    /// Reads a little-endian `u64`.
    pub fn read_u64_le(&mut self) -> (r: Result<u64, ReadError>)
        ensures
            final(self).data@ == old(self).data@,
            match read_le(old(self).data@, old(self).pos as nat, 8) {
                Ok((v, p)) => r matches Ok(x) && x == v && final(self).pos == p,
                Err(e) => r == Err::<u64, ReadError>(e),
            },
    {
        let len = self.data.len();
        if self.pos >= len as u64 || (len as u64 - self.pos) < 8 {
            return Err(ReadError::UnexpectedEof);
        }
        let lo = self.read_u32_le();
        let hi = self.read_u32_le();
        match (lo, hi) {
            (Ok(lo), Ok(hi)) => {
                let ghost s = old(self).data@.subrange(old(self).pos as int, old(self).pos + 8);
                proof {
                    lemma_le_value_8(s);
                    assert(s.subrange(0, 4) =~= old(self).data@.subrange(
                        old(self).pos as int,
                        old(self).pos + 4,
                    ));
                    assert(s.subrange(4, 8) =~= old(self).data@.subrange(
                        old(self).pos + 4,
                        old(self).pos + 8,
                    ));
                    assert((hi as u64) * 0x1_0000_0000 <= 0xffff_ffff_0000_0000) by (nonlinear_arith)
                        requires
                            hi <= 0xffff_ffff,
                    ;
                }
                Ok(lo as u64 + (hi as u64) * 0x1_0000_0000)
            },
            _ => Err(ReadError::UnexpectedEof),
        }
    }
}

} // verus!

//! The circom `.wtns` witness format.
//!
//! Layout: the magic `wtns`, a `u32` version, a `u32` section count, then
//! sections, each a `u32` id and a `u64` length followed by the body.
//! Section 1 starts with `n8`, the byte width of a field element; section 2
//! holds the witness values, `n8` bytes each, little-endian. Sections are
//! read in order and the first section 2 ends the scan.
//!
//! Each value is widened to 32 bytes with zeros above its `n8` bytes and is
//! checked to be below the field modulus, the test a 32-byte little-endian
//! `from_bytes` applies.
use vstd::prelude::*;
use crate::bytes::{le_less_than, le_value};

verus! {

/// Position arithmetic is done on `u64`, the width of `usize` on the
/// 64-bit targets this format is read on.
pub open spec fn pos_limit() -> int {
    u64::MAX as int
}

/// What reading a witness image gives.
pub enum WtnsOutcome {
    /// The values of section 2, each widened to 32 bytes.
    Parsed(Seq<Seq<u8>>),
    /// The image is malformed or a value is not below the modulus.
    Rejected,
    /// A position computation overflows, or a value is wider than 32 bytes:
    /// inputs on which reading cannot go on.
    Panics,
}

/// Why a witness image was refused.
#[derive(Clone, Copy, Debug, PartialEq, Eq, Structural)]
pub enum WitnessError {
    Unsatisfiable,
}

pub open spec fn u32_at(b: Seq<u8>, pos: int) -> nat {
    le_value(b.subrange(pos, pos + 4))
}

pub open spec fn u64_at(b: Seq<u8>, pos: int) -> nat {
    le_value(b.subrange(pos, pos + 8))
}

pub open spec fn wtns_magic() -> Seq<u8> {
    seq![0x77u8, 0x74u8, 0x6eu8, 0x73u8]
}

/// `c` followed by zeros up to 32 bytes.
pub open spec fn widen32(c: Seq<u8>) -> Seq<u8> {
    c + Seq::new((32 - c.len()) as nat, |i: int| 0u8)
}

/// `out` prepended to a parsed result; other outcomes pass through.
pub open spec fn prepend(out: Seq<Seq<u8>>, o: WtnsOutcome) -> WtnsOutcome {
    match o {
        WtnsOutcome::Parsed(rest) => WtnsOutcome::Parsed(out + rest),
        other => other,
    }
}

/// The values of a section-2 body cut into `n8`-byte chunks (the last one
/// may be shorter).
pub open spec fn witness_chunks(data: Seq<u8>, n8: nat, modulus: Seq<u8>) -> WtnsOutcome
    decreases data.len(),
{
    if data.len() == 0 || n8 == 0 {
        WtnsOutcome::Parsed(Seq::empty())
    } else {
        let k = if n8 < data.len() {
            n8
        } else {
            data.len()
        };
        if k > 32 {
            WtnsOutcome::Panics
        } else if !(le_value(widen32(data.take(k as int))) < le_value(modulus)) {
            WtnsOutcome::Rejected
        } else {
            prepend(seq![widen32(data.take(k as int))], witness_chunks(data.skip(k as int), n8, modulus))
        }
    }
}

/// Scans at most `remaining` sections from `pos`, `n8` being the width read
/// so far.
pub open spec fn wtns_sections(b: Seq<u8>, modulus: Seq<u8>, pos: int, n8: nat, remaining: nat) -> WtnsOutcome
    decreases remaining,
{
    if remaining == 0 {
        WtnsOutcome::Rejected
    } else if pos + 12 > pos_limit() {
        WtnsOutcome::Panics
    } else if pos + 12 > b.len() {
        WtnsOutcome::Rejected
    } else {
        let id = u32_at(b, pos);
        let len = u64_at(b, pos + 4);
        let p = pos + 12;
        if id == 1 {
            if p + 4 > b.len() {
                WtnsOutcome::Rejected
            } else if p + len > pos_limit() {
                WtnsOutcome::Panics
            } else {
                wtns_sections(b, modulus, p + len, u32_at(b, p), (remaining - 1) as nat)
            }
        } else if id == 2 {
            if n8 == 0 {
                WtnsOutcome::Rejected
            } else if p + len > pos_limit() {
                WtnsOutcome::Panics
            } else if p + len > b.len() {
                WtnsOutcome::Rejected
            } else {
                witness_chunks(b.subrange(p, p + len), n8, modulus)
            }
        } else {
            if p + len > pos_limit() {
                WtnsOutcome::Panics
            } else {
                wtns_sections(b, modulus, p + len, n8, (remaining - 1) as nat)
            }
        }
    }
}

/// What reading the image `b` gives for a field with 32-byte little-endian
/// modulus `modulus`.
pub open spec fn spec_parse_witness(b: Seq<u8>, modulus: Seq<u8>) -> WtnsOutcome {
    if b.len() < 12 || b.subrange(0, 4) != wtns_magic() {
        WtnsOutcome::Rejected
    } else {
        wtns_sections(b, modulus, 12, 0, u32_at(b, 8))
    }
}

pub open spec fn chunks_view(v: Seq<Vec<u8>>) -> Seq<Seq<u8>> {
    v.map_values(|c: Vec<u8>| c@)
}

/// Reads the little-endian integer of `n` bytes at `pos` (`n` is 4 or 8).
fn le_at(b: &[u8], pos: usize, n: usize) -> (r: u64)
    requires
        n == 4 || n == 8,
        pos + n <= b@.len(),
    ensures
        r == le_value(b@.subrange(pos as int, pos + n)),
        n == 4 ==> r < 0x1_0000_0000,
{
    let blen = b.len();
    let mut v: u64 = 0;
    let mut i = n;
    while i > 0
        invariant
            blen == b@.len(),
            i <= n,
            n == 4 || n == 8,
            pos + n <= b@.len(),
            v == le_value(b@.subrange(pos + i, pos + n)),
            v < crate::bytes::pow256((n - i) as nat),
        decreases i,
    {
        i = i - 1;
        let ghost s = b@.subrange(pos + i, pos + n);
        proof {
            assert(s.drop_first() =~= b@.subrange(pos + i + 1, pos + n));
            assert(s[0] == b@[pos + i]);
            crate::bytes::lemma_pow256_le8((n - i - 1) as nat);
            assert(crate::bytes::pow256((n - i) as nat) == 256 * crate::bytes::pow256(
                (n - i - 1) as nat,
            ));
            assert(v * 256 + 255 < 256 * crate::bytes::pow256((n - i - 1) as nat)) by (nonlinear_arith)
                requires
                    v < crate::bytes::pow256((n - i - 1) as nat),
            ;
        }
        v = b[pos + i] as u64 + v * 256;
    }
    assert(b@.subrange(pos as int, pos + n) =~= b@.subrange(pos + 0, pos + n));
    assert(crate::bytes::pow256(4) == 0x1_0000_0000) by {
        reveal_with_fuel(crate::bytes::pow256, 5);
    }
    v
}

/// Cuts a section-2 body into widened values, checking each against the
/// modulus.
fn read_chunks(data: &[u8], n8: u64, modulus: &[u8]) -> (r: (WtnsOutcomeTag, Vec<Vec<u8>>))
    requires
        n8 > 0,
        modulus@.len() == 32,
    ensures
        match witness_chunks(data@, n8 as nat, modulus@) {
            WtnsOutcome::Parsed(s) => r.0 == WtnsOutcomeTag::Parsed && chunks_view(r.1@) == s,
            WtnsOutcome::Rejected => r.0 == WtnsOutcomeTag::Rejected,
            WtnsOutcome::Panics => r.0 == WtnsOutcomeTag::Panics,
        },
{
    let n = data.len();
    let mut out: Vec<Vec<u8>> = Vec::new();
    let mut pos: usize = 0;
    assert(data@.skip(0) =~= data@);
    assert(chunks_view(out@) =~= Seq::<Seq<u8>>::empty());
    while pos < n
        invariant
            n == data@.len(),
            n8 > 0,
            modulus@.len() == 32,
            pos <= n,
            witness_chunks(data@, n8 as nat, modulus@) == prepend(
                chunks_view(out@),
                witness_chunks(data@.skip(pos as int), n8 as nat, modulus@),
            ),
        decreases n - pos,
    {
        let rest = n - pos;
        let k: usize = if (n8 as u128) < (rest as u128) {
            n8 as usize
        } else {
            rest
        };
        let ghost tail = data@.skip(pos as int);
        if k > 32 {
            return (WtnsOutcomeTag::Panics, out);
        }
        let mut padded: Vec<u8> = Vec::new();
        let mut i: usize = 0;
        while i < 32
            invariant
                k <= 32,
                pos + k <= n,
                n == data@.len(),
                i <= 32,
                padded@ == widen32(data@.subrange(pos as int, pos + k)).take(i as int),
            decreases 32 - i,
        {
            let byte = if i < k {
                data[pos + i]
            } else {
                0u8
            };
            padded.push(byte);
            i = i + 1;
            proof {
                let w = widen32(data@.subrange(pos as int, pos + k));
                assert(padded@ =~= w.take(i as int));
            }
        }
        proof {
            assert(tail.take(k as int) =~= data@.subrange(pos as int, pos + k));
            assert(widen32(tail.take(k as int)).len() == 32);
            assert(padded@ =~= widen32(tail.take(k as int)));
            assert(tail.skip(k as int) =~= data@.skip(pos + k));
        }
        if !le_less_than(padded.as_slice(), modulus) {
            return (WtnsOutcomeTag::Rejected, out);
        }
        let ghost before = out@;
        out.push(padded);
        proof {
            assert(chunks_view(out@) =~= chunks_view(before) + seq![widen32(tail.take(k as int))]);
            let rest_o = witness_chunks(data@.skip(pos + k), n8 as nat, modulus@);
            match rest_o {
                WtnsOutcome::Parsed(r) => {
                    assert(chunks_view(before) + (seq![widen32(tail.take(k as int))] + r)
                        =~= chunks_view(out@) + r);
                },
                _ => {},
            }
        }
        pos = pos + k;
    }
    proof {
        assert(data@.skip(pos as int).len() == 0);
        assert(chunks_view(out@) + Seq::<Seq<u8>>::empty() =~= chunks_view(out@));
    }
    (WtnsOutcomeTag::Parsed, out)
}

/// Which kind of outcome an executable scan reached.
#[derive(Clone, Copy, Debug, PartialEq, Eq, Structural)]
pub enum WtnsOutcomeTag {
    Parsed,
    Rejected,
    Panics,
}

fn scan_witness(b: &[u8], modulus: &[u8]) -> (r: (WtnsOutcomeTag, Vec<Vec<u8>>))
    requires
        modulus@.len() == 32,
    ensures
        match spec_parse_witness(b@, modulus@) {
            WtnsOutcome::Parsed(s) => r.0 == WtnsOutcomeTag::Parsed && chunks_view(r.1@) == s,
            WtnsOutcome::Rejected => r.0 == WtnsOutcomeTag::Rejected,
            WtnsOutcome::Panics => r.0 == WtnsOutcomeTag::Panics,
        },
{
    let len = b.len();
    if len < 12 || !(b[0] == 0x77 && b[1] == 0x74 && b[2] == 0x6e && b[3] == 0x73) {
        proof {
            if len >= 12 && b@.subrange(0, 4) == wtns_magic() {
                assert(b@.subrange(0, 4)[0] == b@[0]);
                assert(b@.subrange(0, 4)[1] == b@[1]);
                assert(b@.subrange(0, 4)[2] == b@[2]);
                assert(b@.subrange(0, 4)[3] == b@[3]);
            }
        }
        return (WtnsOutcomeTag::Rejected, Vec::new());
    }
    assert(b@.subrange(0, 4) =~= wtns_magic());
    let n_sections = le_at(b, 8, 4);
    let mut pos: u64 = 12;
    let mut n8: u64 = 0;
    let mut i: u64 = 0;
    while i < n_sections
        invariant
            len == b@.len(),
            modulus@.len() == 32,
            i <= n_sections,
            n8 <= u32::MAX,
            spec_parse_witness(b@, modulus@) == wtns_sections(
                b@,
                modulus@,
                pos as int,
                n8 as nat,
                (n_sections - i) as nat,
            ),
        decreases n_sections - i,
    {
        if pos > u64::MAX - 12 {
            return (WtnsOutcomeTag::Panics, Vec::new());
        }
        if pos + 12 > len as u64 {
            return (WtnsOutcomeTag::Rejected, Vec::new());
        }
        let p = pos as usize;
        let id = le_at(b, p, 4);
        let sec_len = le_at(b, p + 4, 8);
        let body = pos + 12;
        if id == 1 {
            if len as u64 - body < 4 {
                return (WtnsOutcomeTag::Rejected, Vec::new());
            }
            if sec_len > u64::MAX - body {
                return (WtnsOutcomeTag::Panics, Vec::new());
            }
            n8 = le_at(b, body as usize, 4);
            pos = body + sec_len;
        } else if id == 2 {
            if n8 == 0 {
                return (WtnsOutcomeTag::Rejected, Vec::new());
            }
            if sec_len > u64::MAX - body {
                return (WtnsOutcomeTag::Panics, Vec::new());
            }
            if body + sec_len > len as u64 {
                return (WtnsOutcomeTag::Rejected, Vec::new());
            }
            let section = &b[body as usize..(body + sec_len) as usize];
            return read_chunks(section, n8, modulus);
        } else {
            if sec_len > u64::MAX - body {
                return (WtnsOutcomeTag::Panics, Vec::new());
            }
            pos = body + sec_len;
        }
        i = i + 1;
    }
    (WtnsOutcomeTag::Rejected, Vec::new())
}

/// Whether reading the witness image `witness_bytes` cannot go on: a
/// position overflows, or a value is wider than 32 bytes.
pub fn witness_parse_panics(witness_bytes: &[u8], modulus_le: &[u8]) -> (r: bool)
    requires
        modulus_le@.len() == 32,
    ensures
        r == (spec_parse_witness(witness_bytes@, modulus_le@) is Panics),
{
    let (tag, _) = scan_witness(witness_bytes, modulus_le);
    tag == WtnsOutcomeTag::Panics
}

/// Reads the witness values of a `.wtns` image, each widened to 32 bytes
/// little-endian and below the field modulus `modulus_le`.
pub fn parse_witness(witness_bytes: &[u8], modulus_le: &[u8]) -> (r: Result<Vec<Vec<u8>>, WitnessError>)
    requires
        modulus_le@.len() == 32,
        !(spec_parse_witness(witness_bytes@, modulus_le@) is Panics),
    ensures
        match spec_parse_witness(witness_bytes@, modulus_le@) {
            WtnsOutcome::Parsed(s) => r matches Ok(v) && chunks_view(v@) == s,
            _ => r == Err::<Vec<Vec<u8>>, WitnessError>(WitnessError::Unsatisfiable),
        },
{
    let (tag, values) = scan_witness(witness_bytes, modulus_le);
    if tag == WtnsOutcomeTag::Parsed {
        Ok(values)
    } else {
        Err(WitnessError::Unsatisfiable)
    }
}

/// Each value is 32 bytes long and below the modulus.
pub open spec fn values_canonical(vs: Seq<Seq<u8>>, modulus: Seq<u8>) -> bool {
    forall|i: int|
        0 <= i < vs.len() ==> (#[trigger] vs[i]).len() == 32 && le_value(vs[i]) < le_value(modulus)
}

proof fn lemma_chunks_canonical(data: Seq<u8>, n8: nat, modulus: Seq<u8>)
    ensures
        witness_chunks(data, n8, modulus) matches WtnsOutcome::Parsed(vs) ==> values_canonical(
            vs,
            modulus,
        ),
    decreases data.len(),
{
    if data.len() > 0 && n8 > 0 {
        let k = if n8 < data.len() {
            n8
        } else {
            data.len()
        };
        if k <= 32 {
            lemma_chunks_canonical(data.skip(k as int), n8, modulus);
            let w = widen32(data.take(k as int));
            assert(w.len() == 32);
            if let WtnsOutcome::Parsed(rest) = witness_chunks(data.skip(k as int), n8, modulus) {
                if le_value(w) < le_value(modulus) {
                    let vs = seq![w] + rest;
                    assert forall|i: int| 0 <= i < vs.len() implies (#[trigger] vs[i]).len() == 32
                        && le_value(vs[i]) < le_value(modulus) by {
                        if i > 0 {
                            assert(vs[i] == rest[i - 1]);
                        } else {
                            assert(vs[i] == w);
                        }
                    }
                }
            }
        }
    }
}

proof fn lemma_sections_canonical(b: Seq<u8>, modulus: Seq<u8>, pos: int, n8: nat, remaining: nat)
    ensures
        wtns_sections(b, modulus, pos, n8, remaining) matches WtnsOutcome::Parsed(vs)
            ==> values_canonical(vs, modulus),
    decreases remaining,
{
    if remaining > 0 && pos + 12 <= pos_limit() && pos + 12 <= b.len() {
        let len = u64_at(b, pos + 4);
        let p = pos + 12;
        if u32_at(b, pos) == 1 {
            lemma_sections_canonical(b, modulus, p + len, u32_at(b, p), (remaining - 1) as nat);
        } else if u32_at(b, pos) == 2 {
            lemma_chunks_canonical(b.subrange(p, p + len), n8, modulus);
        } else {
            lemma_sections_canonical(b, modulus, p + len, n8, (remaining - 1) as nat);
        }
    }
}

/// Law: every value read from a witness image is a canonical field element:
/// 32 bytes, little-endian, below the modulus.
pub proof fn law_witness_values_canonical(b: Seq<u8>, modulus: Seq<u8>)
    ensures
        spec_parse_witness(b, modulus) matches WtnsOutcome::Parsed(vs) ==> values_canonical(
            vs,
            modulus,
        ),
{
    if b.len() >= 12 && b.subrange(0, 4) == wtns_magic() {
        lemma_sections_canonical(b, modulus, 12, 0, u32_at(b, 8));
    }
}

} // verus!

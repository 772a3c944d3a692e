//! The circom `.r1cs` binary format: header, constraints and wire-to-label
//! map, read from an in-memory image of the file.
//!
//! Layout: the magic `r1cs`, a `u32` version (1), a `u32` section count,
//! then sections, each a `u32` type and a `u64` byte length followed by its
//! body. The header section (type 1) holds the field width (32), the prime
//! (little-endian), and the wire, output, input, private-input, label and
//! constraint counts. The constraint section (type 2) holds, per
//! constraint, three linear combinations, each a `u32` term count and that
//! many `(u32 wire, 32-byte coefficient)` pairs. The wire-to-label section
//! (type 3) holds one `u64` label per wire, the first of which is 0.
//!
//! Coefficients are kept as their 32-byte little-endian encoding; each is
//! checked to be below the prime, which is what a prime field's `from_repr`
//! accepts when its representation is little-endian.
use vstd::prelude::*;
use crate::bytes::{le_less_than, le_value, read_bytes, read_le, seek_relative, ByteCursor, ReadError};
use crate::hex_codec::{hex_decode, hex_decode_spec, HexError};
use std::collections::HashMap;
use vstd::string::StringSliceAdditionalSpecFns;

verus! {

broadcast use vstd::std_specs::hash::group_hash_axioms;

/// Width in bytes of a field element in the files this reader accepts.
pub const FIELD_BYTES: usize = 32;

pub const HEADER_TYPE: u32 = 1;

pub const CONSTRAINT_TYPE: u32 = 2;

pub const WIRE2LABEL_TYPE: u32 = 3;

/// Why an `.r1cs` image was refused.
#[derive(Clone, Copy, Debug, PartialEq, Eq, Structural)]
pub enum R1csError {
    /// A read ran past the end, or a section length seeked out of range.
    Read(ReadError),
    /// The first four bytes are not `r1cs`.
    BadMagic,
    /// The version is not 1.
    UnsupportedVersion(u32),
    HeaderMissing,
    /// The header's field width is not 32.
    UnsupportedFieldSize(u32),
    /// The field modulus given to the reader is not valid hex.
    BadModulusHex(HexError),
    /// The field modulus given to the reader is `2^256` or more.
    ModulusTooWide,
    /// The file's prime is not the field modulus.
    PrimeMismatch,
    /// A coefficient is not below the prime.
    InvalidFieldElement,
    ConstraintsMissing,
    Wire2LabelMissing,
    /// The wire-to-label section is not 8 bytes per wire.
    Wire2LabelSizeMismatch { expected: u64, actual: u64 },
    /// The label of wire 0 is not 0.
    FirstLabelNonZero,
}

/// A term of a linear combination: a wire and its coefficient.
pub struct R1csTerm {
    pub wire: u32,
    /// Little-endian, `FIELD_BYTES` long, below the prime.
    pub coeff: Vec<u8>,
}

pub type TermModel = (u32, Seq<u8>);

impl View for R1csTerm {
    type V = TermModel;

    open spec fn view(&self) -> TermModel {
        (self.wire, self.coeff@)
    }
}

pub open spec fn terms_view(ts: Seq<R1csTerm>) -> Seq<TermModel> {
    ts.map_values(|t: R1csTerm| t@)
}

/// One constraint `<a, w> * <b, w> = <c, w>`.
pub struct R1csConstraint {
    pub a: Vec<R1csTerm>,
    pub b: Vec<R1csTerm>,
    pub c: Vec<R1csTerm>,
}

pub type ConstraintModel = (Seq<TermModel>, Seq<TermModel>, Seq<TermModel>);

impl View for R1csConstraint {
    type V = ConstraintModel;

    open spec fn view(&self) -> ConstraintModel {
        (terms_view(self.a@), terms_view(self.b@), terms_view(self.c@))
    }
}

pub open spec fn constraints_view(cs: Seq<R1csConstraint>) -> Seq<ConstraintModel> {
    cs.map_values(|c: R1csConstraint| c@)
}

/// The counts of the header section and the prime it names.
pub struct HeaderModel {
    pub prime: Seq<u8>,
    pub n_wires: nat,
    pub n_pub_out: nat,
    pub n_pub_in: nat,
    pub n_prv_in: nat,
    pub n_labels: nat,
    pub n_constraints: nat,
}

/// A parsed `.r1cs` file.
pub struct R1csFile {
    pub n_wires: u32,
    pub n_pub_out: u32,
    pub n_pub_in: u32,
    pub n_prv_in: u32,
    pub n_labels: u64,
    pub constraints: Vec<R1csConstraint>,
}

pub struct R1csModel {
    pub n_wires: nat,
    pub n_pub_out: nat,
    pub n_pub_in: nat,
    pub n_prv_in: nat,
    pub n_labels: nat,
    pub constraints: Seq<ConstraintModel>,
}

impl View for R1csFile {
    type V = R1csModel;

    open spec fn view(&self) -> R1csModel {
        R1csModel {
            n_wires: self.n_wires as nat,
            n_pub_out: self.n_pub_out as nat,
            n_pub_in: self.n_pub_in as nat,
            n_prv_in: self.n_prv_in as nat,
            n_labels: self.n_labels as nat,
            constraints: constraints_view(self.constraints@),
        }
    }
}

pub open spec fn r1cs_magic() -> Seq<u8> {
    seq![0x72u8, 0x31u8, 0x63u8, 0x73u8]
}

/// The section table after reading `count` section headers from `pos`:
/// type to (body offset, body length), a later section of a type replacing
/// an earlier one, and the position after the last section.
pub open spec fn scan_sections(data: Seq<u8>, pos: nat, count: nat) -> Result<
    (Map<u32, (u64, u64)>, nat),
    R1csError,
>
    decreases count,
{
    if count == 0 {
        Ok((Map::empty(), pos))
    } else {
        match scan_sections(data, pos, (count - 1) as nat) {
            Err(e) => Err(e),
            Ok((table, p)) => match read_le(data, p, 4) {
                Err(e) => Err(R1csError::Read(e)),
                Ok((ty, p1)) => match read_le(data, p1, 8) {
                    Err(e) => Err(R1csError::Read(e)),
                    Ok((size, p2)) => match seek_relative(p2, size as u64) {
                        None => Err(R1csError::Read(ReadError::InvalidSeek)),
                        Some(p3) => Ok((table.insert(ty as u32, (p2 as u64, size as u64)), p3)),
                    },
                },
            },
        }
    }
}

/// Strips every leading copy of `p` from `s`, as `trim_start_matches` does.
pub open spec fn strip_repeated_prefix(s: Seq<u8>, p: Seq<u8>) -> Seq<u8>
    decreases s.len(),
{
    if 0 < p.len() <= s.len() && s.subrange(0, p.len() as int) == p {
        strip_repeated_prefix(s.skip(p.len() as int), p)
    } else {
        s
    }
}

/// The hex digits of a modulus written `0x...`: every leading `0x`, then
/// every leading `0X`, removed.
pub open spec fn modulus_digits(hex: Seq<u8>) -> Seq<u8> {
    strip_repeated_prefix(strip_repeated_prefix(hex, seq![0x30u8, 0x78u8]), seq![0x30u8, 0x58u8])
}

/// Whether the big-endian bytes `be` stand for a number below `2^256`: every
/// byte before the last 32 is zero.
pub open spec fn fits_32(be: Seq<u8>) -> bool {
    forall|i: int| 0 <= i < be.len() - 32 ==> be[i] == 0
}

/// The same number as exactly 32 big-endian bytes: zeros added in front,
/// or leading zero bytes dropped.
pub open spec fn be_32(be: Seq<u8>) -> Seq<u8> {
    if be.len() <= 32 {
        Seq::new((32 - be.len()) as nat, |i: int| 0u8) + be
    } else {
        be.skip(be.len() - 32)
    }
}

/// The 32-byte little-endian encoding of the modulus written in hex; a
/// modulus of `2^256` or more is refused.
pub open spec fn modulus_le(modulus_hex: Seq<u8>) -> Result<Seq<u8>, R1csError> {
    match hex_decode_spec(modulus_digits(modulus_hex)) {
        Err(e) => Err(R1csError::BadModulusHex(e)),
        Ok(be) => if fits_32(be) {
            Ok(be_32(be).reverse())
        } else {
            Err(R1csError::ModulusTooWide)
        },
    }
}

/// Whether the prime read from a file is the field modulus.
pub open spec fn prime_check(modulus_hex: Seq<u8>, prime: Seq<u8>) -> Result<(), R1csError> {
    match modulus_le(modulus_hex) {
        Err(e) => Err(e),
        Ok(le) => if le == prime {
            Ok(())
        } else {
            Err(R1csError::PrimeMismatch)
        },
    }
}

/// Reads the header section at `pos`.
pub open spec fn parse_header(data: Seq<u8>, pos: nat, modulus_hex: Seq<u8>) -> Result<
    HeaderModel,
    R1csError,
> {
    match read_le(data, pos, 4) {
        Err(e) => Err(R1csError::Read(e)),
        Ok((field_size, p0)) => if field_size != 32 {
            Err(R1csError::UnsupportedFieldSize(field_size as u32))
        } else {
            match read_bytes(data, p0, 32) {
                None => Err(R1csError::Read(ReadError::UnexpectedEof)),
                Some(prime) => match prime_check(modulus_hex, prime) {
                    Err(e) => Err(e),
                    Ok(_) => match read_bytes(data, p0 + 32, 28) {
                        None => Err(R1csError::Read(ReadError::UnexpectedEof)),
                        Some(c) => Ok(
                            HeaderModel {
                                prime,
                                n_wires: le_value(c.subrange(0, 4)),
                                n_pub_out: le_value(c.subrange(4, 8)),
                                n_pub_in: le_value(c.subrange(8, 12)),
                                n_prv_in: le_value(c.subrange(12, 16)),
                                n_labels: le_value(c.subrange(16, 24)),
                                n_constraints: le_value(c.subrange(24, 28)),
                            },
                        ),
                    },
                },
            }
        },
    }
}

/// Reads one term at `pos`: a `u32` wire and a coefficient below `prime`.
pub open spec fn parse_term(data: Seq<u8>, pos: nat, prime: Seq<u8>) -> Result<
    (TermModel, nat),
    R1csError,
> {
    match read_le(data, pos, 4) {
        Err(e) => Err(R1csError::Read(e)),
        Ok((wire, p1)) => match read_bytes(data, p1, 32) {
            None => Err(R1csError::Read(ReadError::UnexpectedEof)),
            Some(coeff) => if le_value(coeff) < le_value(prime) {
                Ok(((wire as u32, coeff), p1 + 32))
            } else {
                Err(R1csError::InvalidFieldElement)
            },
        },
    }
}

/// Reads `n` terms from `pos`.
pub open spec fn parse_terms(data: Seq<u8>, pos: nat, n: nat, prime: Seq<u8>) -> Result<
    (Seq<TermModel>, nat),
    R1csError,
>
    decreases n,
{
    if n == 0 {
        Ok((Seq::empty(), pos))
    } else {
        match parse_terms(data, pos, (n - 1) as nat, prime) {
            Err(e) => Err(e),
            Ok((ts, p)) => match parse_term(data, p, prime) {
                Err(e) => Err(e),
                Ok((t, p1)) => Ok((ts.push(t), p1)),
            },
        }
    }
}

/// Reads a linear combination: its term count, then its terms.
pub open spec fn parse_lc(data: Seq<u8>, pos: nat, prime: Seq<u8>) -> Result<
    (Seq<TermModel>, nat),
    R1csError,
> {
    match read_le(data, pos, 4) {
        Err(e) => Err(R1csError::Read(e)),
        Ok((n, p)) => parse_terms(data, p, n, prime),
    }
}

/// Reads one constraint: the linear combinations a, b and c.
pub open spec fn parse_constraint(data: Seq<u8>, pos: nat, prime: Seq<u8>) -> Result<
    (ConstraintModel, nat),
    R1csError,
> {
    match parse_lc(data, pos, prime) {
        Err(e) => Err(e),
        Ok((a, p1)) => match parse_lc(data, p1, prime) {
            Err(e) => Err(e),
            Ok((b, p2)) => match parse_lc(data, p2, prime) {
                Err(e) => Err(e),
                Ok((c, p3)) => Ok(((a, b, c), p3)),
            },
        },
    }
}

/// Reads `n` constraints from `pos`.
pub open spec fn parse_constraints(data: Seq<u8>, pos: nat, n: nat, prime: Seq<u8>) -> Result<
    (Seq<ConstraintModel>, nat),
    R1csError,
>
    decreases n,
{
    if n == 0 {
        Ok((Seq::empty(), pos))
    } else {
        match parse_constraints(data, pos, (n - 1) as nat, prime) {
            Err(e) => Err(e),
            Ok((cs, p)) => match parse_constraint(data, p, prime) {
                Err(e) => Err(e),
                Ok((c, p1)) => Ok((cs.push(c), p1)),
            },
        }
    }
}

/// Checks the wire-to-label section against the header's wire count.
pub open spec fn check_wire2label(data: Seq<u8>, table: Map<u32, (u64, u64)>, n_wires: nat) -> Result<
    (),
    R1csError,
> {
    if !table.contains_key(WIRE2LABEL_TYPE) {
        Err(R1csError::Wire2LabelMissing)
    } else if table[WIRE2LABEL_TYPE].1 != n_wires * 8 {
        Err(
            R1csError::Wire2LabelSizeMismatch {
                expected: (n_wires * 8) as u64,
                actual: table[WIRE2LABEL_TYPE].1,
            },
        )
    } else if n_wires > 0 {
        match read_le(data, table[WIRE2LABEL_TYPE].0 as nat, 8) {
            Err(e) => Err(R1csError::Read(e)),
            Ok((label, _)) => if label != 0 {
                Err(R1csError::FirstLabelNonZero)
            } else {
                Ok(())
            },
        }
    } else {
        Ok(())
    }
}

/// Everything after the section table: header, constraints, wire map.
pub open spec fn parse_sections(data: Seq<u8>, table: Map<u32, (u64, u64)>, modulus_hex: Seq<u8>) -> Result<
    R1csModel,
    R1csError,
> {
    if !table.contains_key(HEADER_TYPE) {
        Err(R1csError::HeaderMissing)
    } else {
        match parse_header(data, table[HEADER_TYPE].0 as nat, modulus_hex) {
            Err(e) => Err(e),
            Ok(h) => if !table.contains_key(CONSTRAINT_TYPE) {
                Err(R1csError::ConstraintsMissing)
            } else {
                match parse_constraints(
                    data,
                    table[CONSTRAINT_TYPE].0 as nat,
                    h.n_constraints,
                    h.prime,
                ) {
                    Err(e) => Err(e),
                    Ok((cs, _)) => match check_wire2label(data, table, h.n_wires) {
                        Err(e) => Err(e),
                        Ok(_) => Ok(
                            R1csModel {
                                n_wires: h.n_wires,
                                n_pub_out: h.n_pub_out,
                                n_pub_in: h.n_pub_in,
                                n_prv_in: h.n_prv_in,
                                n_labels: h.n_labels,
                                constraints: cs,
                            },
                        ),
                    },
                }
            },
        }
    }
}

/// What reading the image `data` of an `.r1cs` file gives, for a field whose
/// modulus is written in hex as `modulus_hex`.
pub open spec fn spec_parse_r1cs(data: Seq<u8>, modulus_hex: Seq<u8>) -> Result<R1csModel, R1csError> {
    match read_bytes(data, 0, 4) {
        None => Err(R1csError::Read(ReadError::UnexpectedEof)),
        Some(magic) => if magic != r1cs_magic() {
            Err(R1csError::BadMagic)
        } else {
            match read_le(data, 4, 4) {
                Err(e) => Err(R1csError::Read(e)),
                Ok((version, _)) => if version != 1 {
                    Err(R1csError::UnsupportedVersion(version as u32))
                } else {
                    match read_le(data, 8, 4) {
                        Err(e) => Err(R1csError::Read(e)),
                        Ok((n_sections, p)) => match scan_sections(data, p, n_sections) {
                            Err(e) => Err(e),
                            Ok((table, _)) => parse_sections(data, table, modulus_hex),
                        },
                    }
                },
            }
        },
    }
}

pub open spec fn result_view(r: Result<R1csFile, R1csError>) -> Result<R1csModel, R1csError> {
    match r {
        Ok(f) => Ok(f@),
        Err(e) => Err(e),
    }
}

// ---------------------------------------------------------------------------
// Errors carry forward: once a prefix of a repeated read fails, every longer
// repetition fails with the same error.
// ---------------------------------------------------------------------------

pub proof fn lemma_scan_sections_err(data: Seq<u8>, pos: nat, k: nat, m: nat)
    requires
        k <= m,
        scan_sections(data, pos, k) is Err,
    ensures
        scan_sections(data, pos, m) == scan_sections(data, pos, k),
    decreases m,
{
    if k < m {
        lemma_scan_sections_err(data, pos, k, (m - 1) as nat);
    }
}

pub proof fn lemma_parse_terms_err(data: Seq<u8>, pos: nat, k: nat, m: nat, prime: Seq<u8>)
    requires
        k <= m,
        parse_terms(data, pos, k, prime) is Err,
    ensures
        parse_terms(data, pos, m, prime) == parse_terms(data, pos, k, prime),
    decreases m,
{
    if k < m {
        lemma_parse_terms_err(data, pos, k, (m - 1) as nat, prime);
    }
}

pub proof fn lemma_parse_constraints_err(data: Seq<u8>, pos: nat, k: nat, m: nat, prime: Seq<u8>)
    requires
        k <= m,
        parse_constraints(data, pos, k, prime) is Err,
    ensures
        parse_constraints(data, pos, m, prime) == parse_constraints(data, pos, k, prime),
    decreases m,
{
    if k < m {
        lemma_parse_constraints_err(data, pos, k, (m - 1) as nat, prime);
    }
}

// ---------------------------------------------------------------------------
// Prime validation
// ---------------------------------------------------------------------------

/// Skips every leading copy of the pair `a b` in `s[start..]`.
fn skip_repeated_pair(s: &[u8], start: usize, a: u8, b: u8) -> (r: usize)
    requires
        start <= s@.len(),
    ensures
        start <= r <= s@.len(),
        s@.skip(r as int) == strip_repeated_prefix(s@.skip(start as int), seq![a, b]),
{
    let n = s.len();
    let mut i = start;
    while n - i >= 2 && s[i] == a && s[i + 1] == b
        invariant
            n == s@.len(),
            start <= i <= n,
            strip_repeated_prefix(s@.skip(start as int), seq![a, b]) == strip_repeated_prefix(
                s@.skip(i as int),
                seq![a, b],
            ),
        decreases n - i,
    {
        proof {
            let t = s@.skip(i as int);
            assert(t.subrange(0, 2) =~= seq![a, b]);
            assert(t.skip(2) =~= s@.skip(i + 2));
        }
        i = i + 2;
    }
    proof {
        let t = s@.skip(i as int);
        if 2 <= t.len() && t.subrange(0, 2) == seq![a, b] {
            assert(t.subrange(0, 2)[0] == s@[i as int]);
            assert(t.subrange(0, 2)[1] == s@[i + 1]);
        }
    }
    i
}

/// Whether two byte strings are equal.
pub fn bytes_eq(a: &[u8], b: &[u8]) -> (r: bool)
    ensures
        r == (a@ == b@),
{
    if a.len() != b.len() {
        return false;
    }
    let mut i: usize = 0;
    while i < a.len()
        invariant
            a@.len() == b@.len(),
            i <= a@.len(),
            a@.take(i as int) == b@.take(i as int),
        decreases a.len() - i,
    {
        if a[i] != b[i] {
            assert(a@[i as int] != b@[i as int]);
            return false;
        }
        assert(a@.take(i + 1) =~= a@.take(i as int).push(a@[i as int]));
        assert(b@.take(i + 1) =~= b@.take(i as int).push(b@[i as int]));
        i = i + 1;
    }
    assert(a@ =~= a@.take(i as int));
    assert(b@ =~= b@.take(i as int));
    true
}

/// The 32-byte little-endian bytes of a field modulus written in hex
/// (`0x...`); a modulus of `2^256` or more is refused.
pub fn modulus_le_bytes(modulus_hex: &str) -> (r: Result<Vec<u8>, R1csError>)
    ensures
        match modulus_le(modulus_hex.spec_bytes()) {
            Ok(le) => r matches Ok(v) && v@ == le,
            Err(e) => r == Err::<Vec<u8>, R1csError>(e),
        },
{
    let hex = modulus_hex.as_bytes();
    let s1 = skip_repeated_pair(hex, 0, 0x30, 0x78);
    let s2 = skip_repeated_pair(hex, s1, 0x30, 0x58);
    let digits = &hex[s2..hex.len()];
    proof {
        assert(hex@.skip(0) =~= hex@);
        assert(digits@ =~= hex@.skip(s2 as int));
        assert(digits@ == modulus_digits(hex@));
    }
    let be = match hex_decode(digits) {
        Ok(v) => v,
        Err(e) => {
            return Err(R1csError::BadModulusHex(e));
        },
    };
    assert(hex_decode_spec(modulus_digits(hex@)) == Ok::<Seq<u8>, HexError>(be@));
    let mut start: usize = 0;
    let mut pad: usize = 0;
    if be.len() <= 32 {
        pad = 32 - be.len();
    } else {
        start = be.len() - 32;
        let mut i: usize = 0;
        while i < start
            invariant
                start == be@.len() - 32,
                be@.len() > 32,
                hex_decode_spec(modulus_digits(hex@)) == Ok::<Seq<u8>, HexError>(be@),
                hex@ == modulus_hex.spec_bytes(),
                i <= start,
                forall|k: int| 0 <= k < i ==> be@[k] == 0,
            decreases start - i,
        {
            if be[i] != 0 {
                assert(be@[i as int] != 0);
                assert(!fits_32(be@));
                assert(hex_decode_spec(modulus_digits(hex@)) == Ok::<Seq<u8>, HexError>(be@));
                assert(modulus_le(hex@) == Err::<Seq<u8>, R1csError>(R1csError::ModulusTooWide));
                return Err(R1csError::ModulusTooWide);
            }
            i = i + 1;
        }
    }
    let ghost padded = be_32(be@);
    proof {
        assert(fits_32(be@));
        assert(padded.len() == 32);
        assert forall|k: int| 0 <= k < 32 implies padded[k] == (if k < pad {
            0u8
        } else {
            be@[start + k - pad]
        }) by {
            if be@.len() <= 32 {
                assert(padded[k] == (Seq::new((32 - be@.len()) as nat, |i: int| 0u8) + be@)[k]);
            }
        }
    }
    let mut le: Vec<u8> = Vec::new();
    let mut i: usize = 0;
    while i < 32
        invariant
            padded.len() == 32,
            pad + be@.len() - start == 32,
            start <= be@.len(),
            be@.len() == be.len(),
            forall|k: int| 0 <= k < 32 ==> padded[k] == (if k < pad {
                0u8
            } else {
                be@[start + k - pad]
            }),
            i <= 32,
            le@.len() == i,
            forall|k: int| 0 <= k < i ==> le@[k] == padded[31 - k],
        decreases 32 - i,
    {
        let j = 31 - i;
        let byte = if j < pad {
            0u8
        } else {
            assert(start + (j - pad) < be@.len());
            be[start + (j - pad)]
        };
        le.push(byte);
        i = i + 1;
    }
    proof {
        assert(le@ =~= padded.reverse());
    }
    Ok(le)
}

/// Checks that `prime_bytes`, the 32-byte little-endian prime stored in a
/// file, is the field modulus written in hex as `modulus_hex` (`0x...`).
pub fn validate_prime(modulus_hex: &str, prime_bytes: &[u8]) -> (r: Result<(), R1csError>)
    ensures
        r == prime_check(modulus_hex.spec_bytes(), prime_bytes@),
{
    let le = modulus_le_bytes(modulus_hex)?;
    if !bytes_eq(le.as_slice(), prime_bytes) {
        return Err(R1csError::PrimeMismatch);
    }
    Ok(())
}

// ---------------------------------------------------------------------------
// Linear combinations and constraints
// ---------------------------------------------------------------------------

fn read_term(cur: &mut ByteCursor, prime: &[u8]) -> (r: Result<R1csTerm, R1csError>)
    requires
        prime@.len() == FIELD_BYTES,
    ensures
        final(cur).data@ == old(cur).data@,
        match parse_term(old(cur).data@, old(cur).pos as nat, prime@) {
            Ok((t, p)) => r matches Ok(x) && x@ == t && final(cur).pos == p,
            Err(e) => r == Err::<R1csTerm, R1csError>(e),
        },
{
    let wire = match cur.read_u32_le() {
        Ok(v) => v,
        Err(e) => {
            return Err(R1csError::Read(e));
        },
    };
    let coeff = match cur.read_vec(FIELD_BYTES) {
        Ok(v) => v,
        Err(e) => {
            return Err(R1csError::Read(e));
        },
    };
    if !le_less_than(coeff.as_slice(), prime) {
        return Err(R1csError::InvalidFieldElement);
    }
    Ok(R1csTerm { wire, coeff })
}

/// Reads one linear combination: a `u32` term count, then that many
/// `(u32 wire, coefficient)` terms, each coefficient below `prime`.
pub fn read_constraint_vec(cur: &mut ByteCursor, prime: &[u8]) -> (r: Result<
    Vec<R1csTerm>,
    R1csError,
>)
    requires
        prime@.len() == FIELD_BYTES,
    ensures
        final(cur).data@ == old(cur).data@,
        match parse_lc(old(cur).data@, old(cur).pos as nat, prime@) {
            Ok((ts, p)) => r matches Ok(v) && terms_view(v@) == ts && final(cur).pos == p,
            Err(e) => r == Err::<Vec<R1csTerm>, R1csError>(e),
        },
{
    let ghost data = cur.data@;
    let n = match cur.read_u32_le() {
        Ok(v) => v,
        Err(e) => {
            return Err(R1csError::Read(e));
        },
    };
    let ghost p0 = cur.pos as nat;
    let mut terms: Vec<R1csTerm> = Vec::new();
    let mut i: u32 = 0;
    assert(terms_view(terms@) =~= Seq::<TermModel>::empty());
    while i < n
        invariant
            cur.data@ == data,
            data == old(cur).data@,
            parse_lc(data, old(cur).pos as nat, prime@) == parse_terms(data, p0, n as nat, prime@),
            prime@.len() == FIELD_BYTES,
            i <= n,
            parse_terms(data, p0, i as nat, prime@) == Ok::<(Seq<TermModel>, nat), R1csError>(
                (terms_view(terms@), cur.pos as nat),
            ),
        decreases n - i,
    {
        let ghost before = terms@;
        match read_term(cur, prime) {
            Ok(t) => {
                terms.push(t);
                proof {
                    assert(terms_view(terms@) =~= terms_view(before).push(t@));
                }
            },
            Err(e) => {
                proof {
                    lemma_parse_terms_err(data, p0, (i + 1) as nat, n as nat, prime@);
                }
                return Err(e);
            },
        }
        i = i + 1;
    }
    Ok(terms)
}

fn read_constraint(cur: &mut ByteCursor, prime: &[u8]) -> (r: Result<R1csConstraint, R1csError>)
    requires
        prime@.len() == FIELD_BYTES,
    ensures
        final(cur).data@ == old(cur).data@,
        match parse_constraint(old(cur).data@, old(cur).pos as nat, prime@) {
            Ok((c, p)) => r matches Ok(x) && x@ == c && final(cur).pos == p,
            Err(e) => r == Err::<R1csConstraint, R1csError>(e),
        },
{
    let a = read_constraint_vec(cur, prime)?;
    let b = read_constraint_vec(cur, prime)?;
    let c = read_constraint_vec(cur, prime)?;
    Ok(R1csConstraint { a, b, c })
}

fn read_constraints(cur: &mut ByteCursor, n: u32, prime: &[u8]) -> (r: Result<
    Vec<R1csConstraint>,
    R1csError,
>)
    requires
        prime@.len() == FIELD_BYTES,
    ensures
        final(cur).data@ == old(cur).data@,
        match parse_constraints(old(cur).data@, old(cur).pos as nat, n as nat, prime@) {
            Ok((cs, p)) => r matches Ok(v) && constraints_view(v@) == cs && final(cur).pos == p,
            Err(e) => r == Err::<Vec<R1csConstraint>, R1csError>(e),
        },
{
    let ghost data = cur.data@;
    let ghost p0 = cur.pos as nat;
    let mut cs: Vec<R1csConstraint> = Vec::new();
    let mut i: u32 = 0;
    assert(constraints_view(cs@) =~= Seq::<ConstraintModel>::empty());
    while i < n
        invariant
            cur.data@ == data,
            data == old(cur).data@,
            p0 == old(cur).pos,
            prime@.len() == FIELD_BYTES,
            i <= n,
            parse_constraints(data, p0, i as nat, prime@) == Ok::<
                (Seq<ConstraintModel>, nat),
                R1csError,
            >((constraints_view(cs@), cur.pos as nat)),
        decreases n - i,
    {
        let ghost before = cs@;
        match read_constraint(cur, prime) {
            Ok(c) => {
                cs.push(c);
                proof {
                    assert(constraints_view(cs@) =~= constraints_view(before).push(c@));
                }
            },
            Err(e) => {
                proof {
                    lemma_parse_constraints_err(data, p0, (i + 1) as nat, n as nat, prime@);
                }
                return Err(e);
            },
        }
        i = i + 1;
    }
    Ok(cs)
}

// ---------------------------------------------------------------------------
// Sections
// ---------------------------------------------------------------------------

fn scan_section_table(cur: &mut ByteCursor, n: u32) -> (r: Result<HashMap<u32, (u64, u64)>, R1csError>)
    ensures
        final(cur).data@ == old(cur).data@,
        match scan_sections(old(cur).data@, old(cur).pos as nat, n as nat) {
            Ok((t, p)) => r matches Ok(m) && m@ == t && final(cur).pos == p,
            Err(e) => r == Err::<HashMap<u32, (u64, u64)>, R1csError>(e),
        },
{
    let ghost data = cur.data@;
    let ghost p0 = cur.pos as nat;
    let mut table: HashMap<u32, (u64, u64)> = HashMap::new();
    let mut i: u32 = 0;
    while i < n
        invariant
            cur.data@ == data,
            data == old(cur).data@,
            p0 == old(cur).pos,
            i <= n,
            scan_sections(data, p0, i as nat) == Ok::<(Map<u32, (u64, u64)>, nat), R1csError>(
                (table@, cur.pos as nat),
            ),
        decreases n - i,
    {
        let ty = match cur.read_u32_le() {
            Ok(v) => v,
            Err(e) => {
                proof {
                    lemma_scan_sections_err(data, p0, (i + 1) as nat, n as nat);
                }
                return Err(R1csError::Read(e));
            },
        };
        let size = match cur.read_u64_le() {
            Ok(v) => v,
            Err(e) => {
                proof {
                    lemma_scan_sections_err(data, p0, (i + 1) as nat, n as nat);
                }
                return Err(R1csError::Read(e));
            },
        };
        let offset = cur.pos;
        table.insert(ty, (offset, size));
        match cur.seek_current(size) {
            Ok(_) => {},
            Err(e) => {
                proof {
                    lemma_scan_sections_err(data, p0, (i + 1) as nat, n as nat);
                }
                return Err(R1csError::Read(e));
            },
        }
        i = i + 1;
    }
    Ok(table)
}

/// The counts of the header and the prime, as read by `read_header`.
pub struct Header {
    pub prime: Vec<u8>,
    pub n_wires: u32,
    pub n_pub_out: u32,
    pub n_pub_in: u32,
    pub n_prv_in: u32,
    pub n_labels: u64,
    pub n_constraints: u32,
}

pub open spec fn header_matches(h: Header, m: HeaderModel) -> bool {
    &&& h.prime@ == m.prime
    &&& h.n_wires == m.n_wires
    &&& h.n_pub_out == m.n_pub_out
    &&& h.n_pub_in == m.n_pub_in
    &&& h.n_prv_in == m.n_prv_in
    &&& h.n_labels == m.n_labels
    &&& h.n_constraints == m.n_constraints
}

fn read_header(cur: &mut ByteCursor, modulus_hex: &str) -> (r: Result<Header, R1csError>)
    ensures
        final(cur).data@ == old(cur).data@,
        match parse_header(old(cur).data@, old(cur).pos as nat, modulus_hex.spec_bytes()) {
            Ok(m) => r matches Ok(h) && header_matches(h, m),
            Err(e) => r == Err::<Header, R1csError>(e),
        },
{
    let field_size = match cur.read_u32_le() {
        Ok(v) => v,
        Err(e) => {
            return Err(R1csError::Read(e));
        },
    };
    if field_size != 32 {
        return Err(R1csError::UnsupportedFieldSize(field_size));
    }
    let prime = match cur.read_vec(FIELD_BYTES) {
        Ok(v) => v,
        Err(e) => {
            return Err(R1csError::Read(e));
        },
    };
    validate_prime(modulus_hex, prime.as_slice())?;
    let counts = match cur.read_vec(28) {
        Ok(v) => v,
        Err(e) => {
            return Err(R1csError::Read(e));
        },
    };
    let mut hc = ByteCursor::new(counts.as_slice());
    let n_wires = match hc.read_u32_le() {
        Ok(v) => v,
        Err(e) => {
            return Err(R1csError::Read(e));
        },
    };
    let n_pub_out = match hc.read_u32_le() {
        Ok(v) => v,
        Err(e) => {
            return Err(R1csError::Read(e));
        },
    };
    let n_pub_in = match hc.read_u32_le() {
        Ok(v) => v,
        Err(e) => {
            return Err(R1csError::Read(e));
        },
    };
    let n_prv_in = match hc.read_u32_le() {
        Ok(v) => v,
        Err(e) => {
            return Err(R1csError::Read(e));
        },
    };
    let n_labels = match hc.read_u64_le() {
        Ok(v) => v,
        Err(e) => {
            return Err(R1csError::Read(e));
        },
    };
    let n_constraints = match hc.read_u32_le() {
        Ok(v) => v,
        Err(e) => {
            return Err(R1csError::Read(e));
        },
    };
    proof {
        let c = counts@;
        assert(c.subrange(0, 4) =~= c.subrange(0, 4));
        assert(read_bytes(c, 4, 4) == Some(c.subrange(4, 8)));
        assert(read_bytes(c, 8, 4) == Some(c.subrange(8, 12)));
        assert(read_bytes(c, 12, 4) == Some(c.subrange(12, 16)));
        assert(read_bytes(c, 16, 8) == Some(c.subrange(16, 24)));
        assert(read_bytes(c, 24, 4) == Some(c.subrange(24, 28)));
    }
    Ok(Header { prime, n_wires, n_pub_out, n_pub_in, n_prv_in, n_labels, n_constraints })
}

/// Checks the wire-to-label section: its length is 8 bytes per wire and,
/// when there are wires, the first label is 0.
fn check_wire_map(cur: &mut ByteCursor, table: &HashMap<u32, (u64, u64)>, n_wires: u32) -> (r: Result<
    (),
    R1csError,
>)
    ensures
        final(cur).data@ == old(cur).data@,
        r == check_wire2label(old(cur).data@, table@, n_wires as nat),
{
    let (offset, size) = match table.get(&WIRE2LABEL_TYPE) {
        Some(e) => *e,
        None => {
            return Err(R1csError::Wire2LabelMissing);
        },
    };
    let expected: u64 = (n_wires as u64) * 8;
    if size != expected {
        return Err(R1csError::Wire2LabelSizeMismatch { expected, actual: size });
    }
    if n_wires > 0 {
        cur.seek_start(offset);
        let first_label = match cur.read_u64_le() {
            Ok(v) => v,
            Err(e) => {
                return Err(R1csError::Read(e));
            },
        };
        if first_label != 0 {
            return Err(R1csError::FirstLabelNonZero);
        }
    }
    Ok(())
}

/// Parses the image `data` of an `.r1cs` file for a field whose modulus is
/// written in hex (`0x...`) as `modulus_hex`.
pub fn parse_r1cs_binary(data: &[u8], modulus_hex: &str) -> (r: Result<R1csFile, R1csError>)
    ensures
        result_view(r) == spec_parse_r1cs(data@, modulus_hex.spec_bytes()),
{
    let mut cur = ByteCursor::new(data);
    let magic = match cur.read_vec(4) {
        Ok(v) => v,
        Err(e) => {
            return Err(R1csError::Read(e));
        },
    };
    if !(magic[0] == 0x72 && magic[1] == 0x31 && magic[2] == 0x63 && magic[3] == 0x73) {
        proof {
            if magic@ == r1cs_magic() {
                assert(magic@[0] == 0x72);
            }
        }
        return Err(R1csError::BadMagic);
    }
    assert(magic@ =~= r1cs_magic());
    let version = match cur.read_u32_le() {
        Ok(v) => v,
        Err(e) => {
            return Err(R1csError::Read(e));
        },
    };
    if version != 1 {
        return Err(R1csError::UnsupportedVersion(version));
    }
    let num_sections = match cur.read_u32_le() {
        Ok(v) => v,
        Err(e) => {
            return Err(R1csError::Read(e));
        },
    };
    let table = scan_section_table(&mut cur, num_sections)?;

    let header_offset = match table.get(&HEADER_TYPE) {
        Some(e) => e.0,
        None => {
            return Err(R1csError::HeaderMissing);
        },
    };
    cur.seek_start(header_offset);
    let header = read_header(&mut cur, modulus_hex)?;

    let constraints_offset = match table.get(&CONSTRAINT_TYPE) {
        Some(e) => e.0,
        None => {
            return Err(R1csError::ConstraintsMissing);
        },
    };
    cur.seek_start(constraints_offset);
    let constraints = read_constraints(&mut cur, header.n_constraints, header.prime.as_slice())?;

    check_wire_map(&mut cur, &table, header.n_wires)?;

    Ok(
        R1csFile {
            n_wires: header.n_wires,
            n_pub_out: header.n_pub_out,
            n_pub_in: header.n_pub_in,
            n_prv_in: header.n_prv_in,
            n_labels: header.n_labels,
            constraints,
        },
    )
}

impl R1csFile {
    /// The constant wire, the public outputs and the public inputs.
    pub fn num_inputs(&self) -> (r: u64)
        ensures
            r == 1 + self.n_pub_in + self.n_pub_out,
    {
        1 + self.n_pub_in as u64 + self.n_pub_out as u64
    }

    /// The wires that are neither the constant nor public.
    pub fn num_aux(&self) -> (r: u64)
        requires
            self.n_wires >= 1 + self.n_pub_in + self.n_pub_out,
        ensures
            r == self.n_wires - (1 + self.n_pub_in + self.n_pub_out),
    {
        self.n_wires as u64 - self.num_inputs()
    }
}

// ---------------------------------------------------------------------------
// Laws
// ---------------------------------------------------------------------------

/// Every term of these terms has a coefficient of `FIELD_BYTES` bytes below `prime`.
pub open spec fn terms_canonical(ts: Seq<TermModel>, prime: Seq<u8>) -> bool {
    forall|k: int|
        0 <= k < ts.len() ==> (#[trigger] ts[k]).1.len() == FIELD_BYTES && le_value(ts[k].1)
            < le_value(prime)
}

pub open spec fn constraints_canonical(cs: Seq<ConstraintModel>, prime: Seq<u8>) -> bool {
    forall|k: int|
        0 <= k < cs.len() ==> terms_canonical((#[trigger] cs[k]).0, prime) && terms_canonical(
            cs[k].1,
            prime,
        ) && terms_canonical(cs[k].2, prime)
}

proof fn lemma_parse_terms_canonical(data: Seq<u8>, pos: nat, n: nat, prime: Seq<u8>)
    ensures
        parse_terms(data, pos, n, prime) matches Ok((ts, _)) ==> ts.len() == n && terms_canonical(
            ts,
            prime,
        ),
    decreases n,
{
    if n > 0 {
        lemma_parse_terms_canonical(data, pos, (n - 1) as nat, prime);
        if let Ok((ts, p)) = parse_terms(data, pos, (n - 1) as nat, prime) {
            if let Ok((t, p1)) = parse_term(data, p, prime) {
                let all = ts.push(t);
                assert forall|k: int| 0 <= k < all.len() implies (#[trigger] all[k]).1.len()
                    == FIELD_BYTES && le_value(all[k].1) < le_value(prime) by {
                    if k < ts.len() {
                        assert(all[k] == ts[k]);
                    }
                }
            }
        }
    }
}

proof fn lemma_parse_constraints_canonical(data: Seq<u8>, pos: nat, n: nat, prime: Seq<u8>)
    ensures
        parse_constraints(data, pos, n, prime) matches Ok((cs, _)) ==> cs.len() == n
            && constraints_canonical(cs, prime),
    decreases n,
{
    if n > 0 {
        lemma_parse_constraints_canonical(data, pos, (n - 1) as nat, prime);
        if let Ok((cs, p)) = parse_constraints(data, pos, (n - 1) as nat, prime) {
            if let Ok((c, p1)) = parse_constraint(data, p, prime) {
                if let Ok((a, p1)) = parse_lc(data, p, prime) {
                    if let Ok((n_a, q)) = read_le(data, p, 4) {
                        lemma_parse_terms_canonical(data, q, n_a, prime);
                    }
                    if let Ok((b, p2)) = parse_lc(data, p1, prime) {
                        if let Ok((n_b, q)) = read_le(data, p1, 4) {
                            lemma_parse_terms_canonical(data, q, n_b, prime);
                        }
                        if let Ok((n_c, q)) = read_le(data, p2, 4) {
                            lemma_parse_terms_canonical(data, q, n_c, prime);
                        }
                    }
                }
                let all = cs.push(c);
                assert forall|k: int| 0 <= k < all.len() implies terms_canonical(
                    (#[trigger] all[k]).0,
                    prime,
                ) && terms_canonical(all[k].1, prime) && terms_canonical(all[k].2, prime) by {
                    if k < cs.len() {
                        assert(all[k] == cs[k]);
                    }
                }
            }
        }
    }
}

/// Law: a parsed `.r1cs` file holds only field elements: the field modulus
/// is well formed, and every coefficient of every constraint is 32 bytes
/// and below it.
pub proof fn law_r1cs_coefficients_canonical(data: Seq<u8>, modulus_hex: Seq<u8>)
    requires
        spec_parse_r1cs(data, modulus_hex) is Ok,
    ensures
        modulus_le(modulus_hex) is Ok,
        constraints_canonical(
            spec_parse_r1cs(data, modulus_hex)->Ok_0.constraints,
            modulus_le(modulus_hex)->Ok_0,
        ),
{
    let (n_sections, p) = read_le(data, 8, 4)->Ok_0;
    let (table, _) = scan_sections(data, p, n_sections)->Ok_0;
    let h = parse_header(data, table[HEADER_TYPE].0 as nat, modulus_hex)->Ok_0;
    lemma_parse_constraints_canonical(
        data,
        table[CONSTRAINT_TYPE].0 as nat,
        h.n_constraints,
        h.prime,
    );
}

/// Law: the number of constraints of a parsed file is the count its header
/// gives.
pub proof fn law_r1cs_constraint_count(data: Seq<u8>, modulus_hex: Seq<u8>)
    requires
        spec_parse_r1cs(data, modulus_hex) is Ok,
    ensures
        ({
            let (n_sections, p) = read_le(data, 8, 4)->Ok_0;
            let (table, _) = scan_sections(data, p, n_sections)->Ok_0;
            let h = parse_header(data, table[HEADER_TYPE].0 as nat, modulus_hex)->Ok_0;
            spec_parse_r1cs(data, modulus_hex)->Ok_0.constraints.len() == h.n_constraints
        }),
{
    let (n_sections, p) = read_le(data, 8, 4)->Ok_0;
    let (table, _) = scan_sections(data, p, n_sections)->Ok_0;
    let h = parse_header(data, table[HEADER_TYPE].0 as nat, modulus_hex)->Ok_0;
    lemma_parse_constraints_canonical(
        data,
        table[CONSTRAINT_TYPE].0 as nat,
        h.n_constraints,
        h.prime,
    );
}

} // verus!

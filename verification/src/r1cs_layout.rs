//! Where the sections of an `.r1cs` image lie does not change what it
//! parses to: only the bodies of the header, constraint and wire-map
//! sections count, as long as each read stays inside its own section.
use vstd::prelude::*;
use crate::bytes::{le_value, lemma_le_value_4, lemma_le_value_8, read_bytes, read_le};
use crate::r1cs::{
    check_wire2label, parse_constraint, parse_constraints, parse_header, parse_lc, parse_sections,
    parse_term, parse_terms, r1cs_magic, scan_sections, spec_parse_r1cs, law_r1cs_constraint_count,
    CONSTRAINT_TYPE,
    HEADER_TYPE, WIRE2LABEL_TYPE,
};

verus! {

/// The section table of an image whose magic, version and section headers
/// read: section type to (body offset, body length).
pub open spec fn section_table(data: Seq<u8>) -> Option<Map<u32, (u64, u64)>> {
    match read_bytes(data, 0, 4) {
        Some(magic) => if magic != r1cs_magic() {
            None
        } else {
            match read_le(data, 4, 4) {
                Ok((version, _)) => if version != 1 {
                    None
                } else {
                    match read_le(data, 8, 4) {
                        Ok((n, p)) => match scan_sections(data, p, n) {
                            Ok((t, _)) => Some(t),
                            Err(_) => None,
                        },
                        Err(_) => None,
                    }
                },
                Err(_) => None,
            }
        },
        None => None,
    }
}

/// Section `k` is present in both images, lies inside each, and has the
/// same body bytes in both.
pub open spec fn same_body(
    d1: Seq<u8>,
    t1: Map<u32, (u64, u64)>,
    d2: Seq<u8>,
    t2: Map<u32, (u64, u64)>,
    k: u32,
) -> bool {
    &&& t1.contains_key(k)
    &&& t2.contains_key(k)
    &&& t1[k].1 == t2[k].1
    &&& t1[k].0 + t1[k].1 <= d1.len()
    &&& t2[k].0 + t2[k].1 <= d2.len()
    &&& d1.subrange(t1[k].0 as int, t1[k].0 + t1[k].1) == d2.subrange(
        t2[k].0 as int,
        t2[k].0 + t2[k].1,
    )
}

/// Reading the header and the constraints stays inside their sections.
pub open spec fn reads_inside(d: Seq<u8>, t: Map<u32, (u64, u64)>, modulus_hex: Seq<u8>) -> bool {
    let h = parse_header(d, t[HEADER_TYPE].0 as nat, modulus_hex)->Ok_0;
    &&& t[HEADER_TYPE].1 >= 64
    &&& parse_constraints(d, t[CONSTRAINT_TYPE].0 as nat, h.n_constraints, h.prime)->Ok_0.1
        <= t[CONSTRAINT_TYPE].0 + t[CONSTRAINT_TYPE].1
}

/// `d1[o1..o1 + size]` and `d2[o2..o2 + size]` hold the same bytes.
pub open spec fn window(d1: Seq<u8>, o1: nat, d2: Seq<u8>, o2: nat, size: nat) -> bool {
    &&& o1 + size <= d1.len()
    &&& o2 + size <= d2.len()
    &&& d1.subrange(o1 as int, (o1 + size) as int) == d2.subrange(o2 as int, (o2 + size) as int)
}

pub open spec fn shift(p: nat, o1: nat, o2: nat) -> nat {
    (p - o1 + o2) as nat
}

proof fn lemma_read_bytes_shift(d1: Seq<u8>, o1: nat, d2: Seq<u8>, o2: nat, size: nat, p: nat, n: nat)
    requires
        window(d1, o1, d2, o2, size),
        o1 <= p,
        p + n <= o1 + size,
    ensures
        read_bytes(d2, shift(p, o1, o2), n) == read_bytes(d1, p, n),
{
    if n > 0 {
        let q = shift(p, o1, o2);
        let b1 = d1.subrange(o1 as int, (o1 + size) as int);
        let b2 = d2.subrange(o2 as int, (o2 + size) as int);
        assert forall|k: int| 0 <= k < n implies #[trigger] d2.subrange(q as int, (q + n) as int)[k] == d1.subrange(
            p as int,
            (p + n) as int,
        )[k] by {
            assert(b1[p - o1 + k] == d1[p + k]);
            assert(b2[p - o1 + k] == d2[q + k]);
        }
        assert(d2.subrange(q as int, (q + n) as int) =~= d1.subrange(p as int, (p + n) as int));
    }
}

proof fn lemma_read_le_shift(d1: Seq<u8>, o1: nat, d2: Seq<u8>, o2: nat, size: nat, p: nat, n: nat)
    requires
        window(d1, o1, d2, o2, size),
        o1 <= p,
        p + n <= o1 + size,
    ensures
        read_le(d1, p, n) is Ok,
        read_le(d2, shift(p, o1, o2), n) == Ok::<(nat, nat), crate::bytes::ReadError>(
            (read_le(d1, p, n)->Ok_0.0, shift(p + n, o1, o2)),
        ),
{
    lemma_read_bytes_shift(d1, o1, d2, o2, size, p, n);
}

proof fn lemma_term_shift(
    d1: Seq<u8>,
    o1: nat,
    d2: Seq<u8>,
    o2: nat,
    size: nat,
    p: nat,
    prime: Seq<u8>,
)
    requires
        window(d1, o1, d2, o2, size),
        o1 <= p,
        parse_term(d1, p, prime) is Ok,
        parse_term(d1, p, prime)->Ok_0.1 <= o1 + size,
    ensures
        parse_term(d1, p, prime)->Ok_0.1 >= p,
        parse_term(d2, shift(p, o1, o2), prime) == Ok::<
            (crate::r1cs::TermModel, nat),
            crate::r1cs::R1csError,
        >((parse_term(d1, p, prime)->Ok_0.0, shift(parse_term(d1, p, prime)->Ok_0.1, o1, o2))),
{
    lemma_read_le_shift(d1, o1, d2, o2, size, p, 4);
    lemma_read_bytes_shift(d1, o1, d2, o2, size, p + 4, 32);
}

proof fn lemma_terms_shift(
    d1: Seq<u8>,
    o1: nat,
    d2: Seq<u8>,
    o2: nat,
    size: nat,
    p: nat,
    n: nat,
    prime: Seq<u8>,
)
    requires
        window(d1, o1, d2, o2, size),
        o1 <= p,
        parse_terms(d1, p, n, prime) is Ok,
        parse_terms(d1, p, n, prime)->Ok_0.1 <= o1 + size,
    ensures
        parse_terms(d1, p, n, prime)->Ok_0.1 >= p,
        parse_terms(d2, shift(p, o1, o2), n, prime) == Ok::<
            (Seq<crate::r1cs::TermModel>, nat),
            crate::r1cs::R1csError,
        >(
            (
                parse_terms(d1, p, n, prime)->Ok_0.0,
                shift(parse_terms(d1, p, n, prime)->Ok_0.1, o1, o2),
            ),
        ),
    decreases n,
{
    if n > 0 {
        let (ts, q) = parse_terms(d1, p, (n - 1) as nat, prime)->Ok_0;
        assert(parse_term(d1, q, prime) is Ok);
        assert(q <= parse_term(d1, q, prime)->Ok_0.1) by {
            lemma_read_le_bound(d1, q, 4);
        }
        lemma_terms_shift(d1, o1, d2, o2, size, p, (n - 1) as nat, prime);
        lemma_term_shift(d1, o1, d2, o2, size, q, prime);
    }
}

proof fn lemma_read_le_bound(d: Seq<u8>, p: nat, n: nat)
    ensures
        read_le(d, p, n) matches Ok((_, e)) ==> e == (p + n) as int,
{
}

proof fn lemma_lc_shift(d1: Seq<u8>, o1: nat, d2: Seq<u8>, o2: nat, size: nat, p: nat, prime: Seq<u8>)
    requires
        window(d1, o1, d2, o2, size),
        o1 <= p,
        parse_lc(d1, p, prime) is Ok,
        parse_lc(d1, p, prime)->Ok_0.1 <= o1 + size,
    ensures
        parse_lc(d1, p, prime)->Ok_0.1 >= p + 4,
        parse_lc(d2, shift(p, o1, o2), prime) == Ok::<
            (Seq<crate::r1cs::TermModel>, nat),
            crate::r1cs::R1csError,
        >((parse_lc(d1, p, prime)->Ok_0.0, shift(parse_lc(d1, p, prime)->Ok_0.1, o1, o2))),
{
    let (n, q) = read_le(d1, p, 4)->Ok_0;
    lemma_read_le_bound(d1, p, 4);
    lemma_terms_shift(d1, o1, d2, o2, size, q, n, prime);
    lemma_read_le_shift(d1, o1, d2, o2, size, p, 4);
}

proof fn lemma_constraint_shift(
    d1: Seq<u8>,
    o1: nat,
    d2: Seq<u8>,
    o2: nat,
    size: nat,
    p: nat,
    prime: Seq<u8>,
)
    requires
        window(d1, o1, d2, o2, size),
        o1 <= p,
        parse_constraint(d1, p, prime) is Ok,
        parse_constraint(d1, p, prime)->Ok_0.1 <= o1 + size,
    ensures
        parse_constraint(d1, p, prime)->Ok_0.1 >= p,
        parse_constraint(d2, shift(p, o1, o2), prime) == Ok::<
            (crate::r1cs::ConstraintModel, nat),
            crate::r1cs::R1csError,
        >(
            (
                parse_constraint(d1, p, prime)->Ok_0.0,
                shift(parse_constraint(d1, p, prime)->Ok_0.1, o1, o2),
            ),
        ),
{
    let (a, p1) = parse_lc(d1, p, prime)->Ok_0;
    let (b, p2) = parse_lc(d1, p1, prime)->Ok_0;
    let (c, p3) = parse_lc(d1, p2, prime)->Ok_0;
    assert(p1 <= p2 <= p3) by {
        lemma_read_le_bound(d1, p1, 4);
        lemma_read_le_bound(d1, p2, 4);
        lemma_terms_end(d1, (p1 + 4) as nat, read_le(d1, p1, 4)->Ok_0.0, prime);
        lemma_terms_end(d1, (p2 + 4) as nat, read_le(d1, p2, 4)->Ok_0.0, prime);
    }
    assert(p <= p1) by {
        lemma_read_le_bound(d1, p, 4);
        lemma_terms_end(d1, (p + 4) as nat, read_le(d1, p, 4)->Ok_0.0, prime);
    }
    lemma_lc_shift(d1, o1, d2, o2, size, p, prime);
    lemma_lc_shift(d1, o1, d2, o2, size, p1, prime);
    lemma_lc_shift(d1, o1, d2, o2, size, p2, prime);
}

proof fn lemma_terms_end(d: Seq<u8>, p: nat, n: nat, prime: Seq<u8>)
    ensures
        parse_terms(d, p, n, prime) matches Ok((_, e)) ==> e >= p,
    decreases n,
{
    if n > 0 {
        lemma_terms_end(d, p, (n - 1) as nat, prime);
        if let Ok((_, q)) = parse_terms(d, p, (n - 1) as nat, prime) {
            lemma_read_le_bound(d, q, 4);
        }
    }
}

proof fn lemma_constraints_shift(
    d1: Seq<u8>,
    o1: nat,
    d2: Seq<u8>,
    o2: nat,
    size: nat,
    p: nat,
    n: nat,
    prime: Seq<u8>,
)
    requires
        window(d1, o1, d2, o2, size),
        o1 <= p,
        parse_constraints(d1, p, n, prime) is Ok,
        parse_constraints(d1, p, n, prime)->Ok_0.1 <= o1 + size,
    ensures
        parse_constraints(d1, p, n, prime)->Ok_0.1 >= p,
        parse_constraints(d2, shift(p, o1, o2), n, prime) == Ok::<
            (Seq<crate::r1cs::ConstraintModel>, nat),
            crate::r1cs::R1csError,
        >(
            (
                parse_constraints(d1, p, n, prime)->Ok_0.0,
                shift(parse_constraints(d1, p, n, prime)->Ok_0.1, o1, o2),
            ),
        ),
    decreases n,
{
    if n > 0 {
        let (cs, q) = parse_constraints(d1, p, (n - 1) as nat, prime)->Ok_0;
        assert(parse_constraint(d1, q, prime) is Ok);
        let (a, p1) = parse_lc(d1, q, prime)->Ok_0;
        let (b, p2) = parse_lc(d1, p1, prime)->Ok_0;
        assert(q <= parse_constraint(d1, q, prime)->Ok_0.1) by {
            lemma_read_le_bound(d1, q, 4);
            lemma_read_le_bound(d1, p1, 4);
            lemma_read_le_bound(d1, p2, 4);
            lemma_terms_end(d1, (q + 4) as nat, read_le(d1, q, 4)->Ok_0.0, prime);
            lemma_terms_end(d1, (p1 + 4) as nat, read_le(d1, p1, 4)->Ok_0.0, prime);
            lemma_terms_end(d1, (p2 + 4) as nat, read_le(d1, p2, 4)->Ok_0.0, prime);
        }
        lemma_constraints_shift(d1, o1, d2, o2, size, p, (n - 1) as nat, prime);
        lemma_constraint_shift(d1, o1, d2, o2, size, q, prime);
    }
}

proof fn lemma_header_shift(d1: Seq<u8>, o1: nat, d2: Seq<u8>, o2: nat, size: nat, hex: Seq<u8>)
    requires
        window(d1, o1, d2, o2, size),
        size >= 64,
        parse_header(d1, o1, hex) is Ok,
    ensures
        parse_header(d2, o2, hex) == parse_header(d1, o1, hex),
{
    lemma_read_le_shift(d1, o1, d2, o2, size, o1, 4);
    lemma_read_bytes_shift(d1, o1, d2, o2, size, o1 + 4, 32);
    lemma_read_bytes_shift(d1, o1, d2, o2, size, o1 + 36, 28);
}

proof fn lemma_wire_map_shift(
    d1: Seq<u8>,
    t1: Map<u32, (u64, u64)>,
    d2: Seq<u8>,
    t2: Map<u32, (u64, u64)>,
    n_wires: nat,
)
    requires
        same_body(d1, t1, d2, t2, WIRE2LABEL_TYPE),
        check_wire2label(d1, t1, n_wires) is Ok,
    ensures
        check_wire2label(d2, t2, n_wires) == check_wire2label(d1, t1, n_wires),
{
    let o1 = t1[WIRE2LABEL_TYPE].0 as nat;
    let o2 = t2[WIRE2LABEL_TYPE].0 as nat;
    let size = t1[WIRE2LABEL_TYPE].1 as nat;
    if n_wires > 0 {
        lemma_read_le_shift(d1, o1, d2, o2, size, o1, 8);
    }
}

proof fn lemma_parse_of_table(data: Seq<u8>, hex: Seq<u8>)
    requires
        section_table(data) is Some,
    ensures
        spec_parse_r1cs(data, hex) == parse_sections(data, section_table(data)->Some_0, hex),
{
}

/// Law: the order of the sections in an `.r1cs` image does not matter, nor
/// do other sections placed between them. Two images whose header,
/// constraint and wire-map sections have the same bodies parse alike,
/// provided reading the header and the constraints of the first stays
/// inside their sections (a read that runs past a section's declared end
/// reads whatever lies next, which depends on the layout).
pub proof fn law_r1cs_section_layout_irrelevant(d1: Seq<u8>, d2: Seq<u8>, modulus_hex: Seq<u8>)
    requires
        section_table(d1) is Some,
        section_table(d2) is Some,
        spec_parse_r1cs(d1, modulus_hex) is Ok,
        reads_inside(d1, section_table(d1)->Some_0, modulus_hex),
        same_body(d1, section_table(d1)->Some_0, d2, section_table(d2)->Some_0, HEADER_TYPE),
        same_body(d1, section_table(d1)->Some_0, d2, section_table(d2)->Some_0, CONSTRAINT_TYPE),
        same_body(d1, section_table(d1)->Some_0, d2, section_table(d2)->Some_0, WIRE2LABEL_TYPE),
    ensures
        spec_parse_r1cs(d2, modulus_hex) == spec_parse_r1cs(d1, modulus_hex),
{
    let t1 = section_table(d1)->Some_0;
    let t2 = section_table(d2)->Some_0;
    lemma_parse_of_table(d1, modulus_hex);
    lemma_parse_of_table(d2, modulus_hex);
    let ho1 = t1[HEADER_TYPE].0 as nat;
    let ho2 = t2[HEADER_TYPE].0 as nat;
    lemma_header_shift(d1, ho1, d2, ho2, t1[HEADER_TYPE].1 as nat, modulus_hex);
    let h = parse_header(d1, ho1, modulus_hex)->Ok_0;
    let co1 = t1[CONSTRAINT_TYPE].0 as nat;
    let co2 = t2[CONSTRAINT_TYPE].0 as nat;
    lemma_constraints_shift(
        d1,
        co1,
        d2,
        co2,
        t1[CONSTRAINT_TYPE].1 as nat,
        co1,
        h.n_constraints,
        h.prime,
    );
    lemma_wire_map_shift(d1, t1, d2, t2, h.n_wires);
}

/// The four little-endian bytes of `v`.
pub open spec fn u32_bytes(v: u32) -> Seq<u8> {
    seq![
        (v & 0xff) as u8,
        ((v >> 8u32) & 0xff) as u8,
        ((v >> 16u32) & 0xff) as u8,
        ((v >> 24u32) & 0xff) as u8,
    ]
}

/// The eight little-endian bytes of `v`.
pub open spec fn u64_bytes(v: u64) -> Seq<u8> {
    u32_bytes((v & 0xffff_ffff) as u32) + u32_bytes((v >> 32u64) as u32)
}

/// A header section body: the field width 32, the prime, then the counts of
/// wires, public outputs, public inputs and private inputs (`u32` each),
/// labels (`u64`) and constraints (`u32`).
pub open spec fn header_bytes(prime: Seq<u8>, w: u32, o: u32, i: u32, p: u32, l: u64, k: u32) -> Seq<u8> {
    u32_bytes(32) + prime + u32_bytes(w) + u32_bytes(o) + u32_bytes(i) + u32_bytes(p) + u64_bytes(l)
        + u32_bytes(k)
}

proof fn lemma_u32_bytes(v: u32)
    ensures
        le_value(u32_bytes(v)) == v,
{
    let b = u32_bytes(v);
    lemma_le_value_4(b);
    let b0 = v & 0xff;
    let b1 = (v >> 8u32) & 0xff;
    let b2 = (v >> 16u32) & 0xff;
    let b3 = (v >> 24u32) & 0xff;
    assert(b0 < 256 && b1 < 256 && b2 < 256 && b3 < 256) by (bit_vector)
        requires
            b0 == v & 0xff,
            b1 == (v >> 8u32) & 0xff,
            b2 == (v >> 16u32) & 0xff,
            b3 == (v >> 24u32) & 0xff,
    ;
    assert(v == b0 + 256 * b1 + 65536 * b2 + 16777216 * b3) by (bit_vector)
        requires
            b0 == v & 0xff,
            b1 == (v >> 8u32) & 0xff,
            b2 == (v >> 16u32) & 0xff,
            b3 == (v >> 24u32) & 0xff,
    ;
    assert(b[0] as nat == b0);
    assert(b[1] as nat == b1);
    assert(b[2] as nat == b2);
    assert(b[3] as nat == b3);
}

proof fn lemma_u64_bytes(v: u64)
    ensures
        le_value(u64_bytes(v)) == v,
{
    let lo = (v & 0xffff_ffff) as u32;
    let hi = (v >> 32u64) as u32;
    let b = u64_bytes(v);
    lemma_le_value_8(b);
    assert(b.subrange(0, 4) =~= u32_bytes(lo));
    assert(b.subrange(4, 8) =~= u32_bytes(hi));
    lemma_u32_bytes(lo);
    lemma_u32_bytes(hi);
    assert(v == lo + 0x1_0000_0000 * hi) by (bit_vector)
        requires
            lo == (v & 0xffff_ffff) as u32,
            hi == (v >> 32u64) as u32,
    ;
}

/// Law: the counts of a parsed file are the ones its header section
/// holds, in the header's order: after the field width and the prime come
/// the wire count, the public-output count, the public-input count, the
/// private-input count, the label count and the constraint count.
pub proof fn law_r1cs_header_counts(
    data: Seq<u8>,
    modulus_hex: Seq<u8>,
    prime: Seq<u8>,
    w: u32,
    o: u32,
    i: u32,
    p: u32,
    l: u64,
    k: u32,
)
    requires
        section_table(data) is Some,
        section_table(data)->Some_0.contains_key(HEADER_TYPE),
        prime.len() == 32,
        section_table(data)->Some_0[HEADER_TYPE].0 + 64 <= data.len(),
        data.subrange(
            section_table(data)->Some_0[HEADER_TYPE].0 as int,
            section_table(data)->Some_0[HEADER_TYPE].0 + 64,
        ) == header_bytes(prime, w, o, i, p, l, k),
        spec_parse_r1cs(data, modulus_hex) is Ok,
    ensures
        spec_parse_r1cs(data, modulus_hex)->Ok_0.n_wires == w,
        spec_parse_r1cs(data, modulus_hex)->Ok_0.n_pub_out == o,
        spec_parse_r1cs(data, modulus_hex)->Ok_0.n_pub_in == i,
        spec_parse_r1cs(data, modulus_hex)->Ok_0.n_prv_in == p,
        spec_parse_r1cs(data, modulus_hex)->Ok_0.n_labels == l,
        spec_parse_r1cs(data, modulus_hex)->Ok_0.constraints.len() == k,
{
    let t = section_table(data)->Some_0;
    let pos = t[HEADER_TYPE].0 as nat;
    let h = header_bytes(prime, w, o, i, p, l, k);
    lemma_parse_of_table(data, modulus_hex);
    law_r1cs_constraint_count(data, modulus_hex);
    let c = data.subrange((pos + 36) as int, (pos + 64) as int);
    assert(c =~= h.subrange(36, 64));
    assert(c.subrange(0, 4) =~= u32_bytes(w));
    assert(c.subrange(4, 8) =~= u32_bytes(o));
    assert(c.subrange(8, 12) =~= u32_bytes(i));
    assert(c.subrange(12, 16) =~= u32_bytes(p));
    assert(c.subrange(16, 24) =~= u64_bytes(l));
    assert(c.subrange(24, 28) =~= u32_bytes(k));
    lemma_u32_bytes(w);
    lemma_u32_bytes(o);
    lemma_u32_bytes(i);
    lemma_u32_bytes(p);
    lemma_u64_bytes(l);
    lemma_u32_bytes(k);
}

} // verus!

use wallet_unit_poc::bytes::{ByteCursor, ReadError};
use wallet_unit_poc::hex_codec::HexError;
use wallet_unit_poc::r1cs::{
    modulus_le_bytes, parse_r1cs_binary, read_constraint_vec, validate_prime, R1csError,
};

const MODULUS_HEX: &str = "0x30644e72e131a029b85045b68181585d2833e84879b9709143e1f593f0000001";

fn prime_le() -> Vec<u8> {
    let mut be = Vec::new();
    let hex = &MODULUS_HEX[2..];
    for i in 0..32 {
        be.push(u8::from_str_radix(&hex[2 * i..2 * i + 2], 16).unwrap());
    }
    be.reverse();
    be
}

fn small(v: u8) -> Vec<u8> {
    let mut c = vec![0u8; 32];
    c[0] = v;
    c
}

fn prime_minus_one() -> Vec<u8> {
    let mut p = prime_le();
    p[0] -= 1;
    p
}

type Lc = Vec<(u32, Vec<u8>)>;

fn lc_bytes(lc: &Lc) -> Vec<u8> {
    let mut out = Vec::new();
    out.extend_from_slice(&(lc.len() as u32).to_le_bytes());
    for (w, c) in lc {
        out.extend_from_slice(&w.to_le_bytes());
        out.extend_from_slice(c);
    }
    out
}

struct Image {
    field_size: u32,
    prime: Vec<u8>,
    n_wires: u32,
    n_pub_out: u32,
    n_pub_in: u32,
    n_prv_in: u32,
    n_labels: u64,
    constraints: Vec<(Lc, Lc, Lc)>,
    labels: Vec<u64>,
    with_header: bool,
    with_constraints: bool,
    with_labels: bool,
}

fn sample() -> Image {
    Image {
        field_size: 32,
        prime: prime_le(),
        n_wires: 4,
        n_pub_out: 1,
        n_pub_in: 1,
        n_prv_in: 1,
        n_labels: 4,
        constraints: vec![(
            vec![(1, small(1))],
            vec![(2, small(1))],
            vec![(3, prime_minus_one()), (0, small(5))],
        )],
        labels: vec![0, 1, 2, 3],
        with_header: true,
        with_constraints: true,
        with_labels: true,
    }
}

fn section(out: &mut Vec<u8>, ty: u32, body: &[u8]) {
    out.extend_from_slice(&ty.to_le_bytes());
    out.extend_from_slice(&(body.len() as u64).to_le_bytes());
    out.extend_from_slice(body);
}

fn build(img: &Image) -> Vec<u8> {
    let mut header = Vec::new();
    header.extend_from_slice(&img.field_size.to_le_bytes());
    header.extend_from_slice(&img.prime);
    header.extend_from_slice(&img.n_wires.to_le_bytes());
    header.extend_from_slice(&img.n_pub_out.to_le_bytes());
    header.extend_from_slice(&img.n_pub_in.to_le_bytes());
    header.extend_from_slice(&img.n_prv_in.to_le_bytes());
    header.extend_from_slice(&img.n_labels.to_le_bytes());
    header.extend_from_slice(&(img.constraints.len() as u32).to_le_bytes());
    let mut cons = Vec::new();
    for (a, b, c) in &img.constraints {
        cons.extend(lc_bytes(a));
        cons.extend(lc_bytes(b));
        cons.extend(lc_bytes(c));
    }
    let mut labels = Vec::new();
    for l in &img.labels {
        labels.extend_from_slice(&l.to_le_bytes());
    }
    let mut sections = Vec::new();
    let mut n = 0u32;
    if img.with_header {
        section(&mut sections, 1, &header);
        n += 1;
    }
    if img.with_constraints {
        section(&mut sections, 2, &cons);
        n += 1;
    }
    if img.with_labels {
        section(&mut sections, 3, &labels);
        n += 1;
    }
    let mut out = b"r1cs".to_vec();
    out.extend_from_slice(&1u32.to_le_bytes());
    out.extend_from_slice(&n.to_le_bytes());
    out.extend(sections);
    out
}

fn parse_err(data: &[u8]) -> R1csError {
    match parse_r1cs_binary(data, MODULUS_HEX) {
        Err(e) => e,
        Ok(_) => panic!("expected an error"),
    }
}

#[test]
fn r1cs_parses_a_well_formed_image() {
    let data = build(&sample());
    let f = parse_r1cs_binary(&data, MODULUS_HEX).expect("parses");
    assert_eq!(f.n_wires, 4);
    assert_eq!(f.n_pub_out, 1);
    assert_eq!(f.n_pub_in, 1);
    assert_eq!(f.n_prv_in, 1);
    assert_eq!(f.n_labels, 4);
    assert_eq!(f.constraints.len(), 1);
    let c = &f.constraints[0];
    assert_eq!(c.a.len(), 1);
    assert_eq!(c.a[0].wire, 1);
    assert_eq!(c.a[0].coeff, small(1));
    assert_eq!(c.b[0].wire, 2);
    assert_eq!(c.c.len(), 2);
    assert_eq!(c.c[0].wire, 3);
    assert_eq!(c.c[0].coeff, prime_minus_one());
    assert_eq!(c.c[1].wire, 0);
    assert_eq!(c.c[1].coeff, small(5));
    assert_eq!(f.num_inputs(), 3);
    assert_eq!(f.num_aux(), 1);
}

#[test]
fn r1cs_sections_in_any_order() {
    let img = sample();
    let full = build(&img);
    // Re-emit with the wire map first and the header last.
    let mut header_only = Image { with_constraints: false, with_labels: false, ..sample() };
    header_only.with_header = true;
    let h = build(&header_only);
    let header_section = &h[12..];
    let c_only = build(&Image { with_header: false, with_labels: false, ..sample() });
    let l_only = build(&Image { with_header: false, with_constraints: false, ..sample() });
    let mut data = b"r1cs".to_vec();
    data.extend_from_slice(&1u32.to_le_bytes());
    data.extend_from_slice(&3u32.to_le_bytes());
    data.extend_from_slice(&l_only[12..]);
    data.extend_from_slice(&c_only[12..]);
    data.extend_from_slice(header_section);
    let a = parse_r1cs_binary(&full, MODULUS_HEX).expect("parses");
    let b = parse_r1cs_binary(&data, MODULUS_HEX).expect("parses");
    assert_eq!(a.n_wires, b.n_wires);
    assert_eq!(a.constraints.len(), b.constraints.len());
    assert_eq!(b.constraints[0].c[0].coeff, prime_minus_one());
}

#[test]
fn r1cs_empty_image_is_eof() {
    assert_eq!(parse_err(&[]), R1csError::Read(ReadError::UnexpectedEof));
}

#[test]
fn r1cs_bad_magic() {
    let mut data = build(&sample());
    data[0] = b'x';
    assert_eq!(parse_err(&data), R1csError::BadMagic);
}

#[test]
fn r1cs_unsupported_version() {
    let mut data = build(&sample());
    data[4] = 2;
    assert_eq!(parse_err(&data), R1csError::UnsupportedVersion(2));
}

#[test]
fn r1cs_missing_sections() {
    assert_eq!(
        parse_err(&build(&Image { with_header: false, ..sample() })),
        R1csError::HeaderMissing
    );
    assert_eq!(
        parse_err(&build(&Image { with_constraints: false, ..sample() })),
        R1csError::ConstraintsMissing
    );
    assert_eq!(
        parse_err(&build(&Image { with_labels: false, ..sample() })),
        R1csError::Wire2LabelMissing
    );
}

#[test]
fn r1cs_unsupported_field_size() {
    assert_eq!(
        parse_err(&build(&Image { field_size: 8, ..sample() })),
        R1csError::UnsupportedFieldSize(8)
    );
}

#[test]
fn r1cs_prime_mismatch() {
    let mut other = prime_le();
    other[5] ^= 1;
    assert_eq!(parse_err(&build(&Image { prime: other, ..sample() })), R1csError::PrimeMismatch);
}

#[test]
fn r1cs_coefficient_not_below_prime() {
    let img = Image {
        constraints: vec![(vec![(1, prime_le())], vec![], vec![])],
        ..sample()
    };
    assert_eq!(parse_err(&build(&img)), R1csError::InvalidFieldElement);
}

#[test]
fn r1cs_truncated_constraints() {
    let mut img = sample();
    img.with_labels = false;
    let mut data = build(&img);
    data.truncate(data.len() - 10);
    assert_eq!(parse_err(&data), R1csError::Read(ReadError::UnexpectedEof));
}

#[test]
fn r1cs_section_length_seeks_out_of_range() {
    let mut data = b"r1cs".to_vec();
    data.extend_from_slice(&1u32.to_le_bytes());
    data.extend_from_slice(&1u32.to_le_bytes());
    data.extend_from_slice(&1u32.to_le_bytes());
    data.extend_from_slice(&(1u64 << 63).to_le_bytes());
    assert_eq!(parse_err(&data), R1csError::Read(ReadError::InvalidSeek));
}

#[test]
fn r1cs_wire_map_size_mismatch() {
    let img = Image { labels: vec![0, 1, 2], ..sample() };
    assert_eq!(
        parse_err(&build(&img)),
        R1csError::Wire2LabelSizeMismatch { expected: 32, actual: 24 }
    );
}

#[test]
fn r1cs_first_label_must_be_zero() {
    let img = Image { labels: vec![9, 1, 2, 3], ..sample() };
    assert_eq!(parse_err(&build(&img)), R1csError::FirstLabelNonZero);
}

#[test]
fn r1cs_bad_modulus_hex() {
    let data = build(&sample());
    assert!(matches!(
        parse_r1cs_binary(&data, "0x123"),
        Err(R1csError::BadModulusHex(HexError::OddLength))
    ));
    assert!(matches!(
        parse_r1cs_binary(&data, "0xzz"),
        Err(R1csError::BadModulusHex(HexError::InvalidHexCharacter { c: 'z', index: 0 }))
    ));
}

#[test]
fn modulus_le_bytes_pads_and_reverses() {
    assert_eq!(modulus_le_bytes("0x30644e72e131a029b85045b68181585d2833e84879b9709143e1f593f0000001").unwrap(), prime_le());
    let mut expected = vec![0u8; 32];
    expected[0] = 0x0d;
    expected[1] = 0x0c;
    assert_eq!(modulus_le_bytes("0x0c0d").unwrap(), expected);
    assert_eq!(modulus_le_bytes("0X0c0d").unwrap(), expected);
    assert_eq!(modulus_le_bytes("0x0x0c0d").unwrap(), expected);
    assert_eq!(modulus_le_bytes("0c0d").unwrap(), expected);
}

#[test]
fn validate_prime_accepts_only_the_modulus() {
    assert_eq!(validate_prime(MODULUS_HEX, &prime_le()), Ok(()));
    assert_eq!(validate_prime(MODULUS_HEX, &prime_minus_one()), Err(R1csError::PrimeMismatch));
    assert_eq!(validate_prime(MODULUS_HEX, &prime_le()[..31]), Err(R1csError::PrimeMismatch));
}

#[test]
fn read_constraint_vec_reads_terms() {
    let lc: Lc = vec![(7, small(2)), (8, small(3))];
    let data = lc_bytes(&lc);
    let mut cur = ByteCursor::new(&data);
    let terms = read_constraint_vec(&mut cur, &prime_le()).expect("reads");
    assert_eq!(terms.len(), 2);
    assert_eq!(terms[0].wire, 7);
    assert_eq!(terms[1].coeff, small(3));
    assert_eq!(cur.pos, data.len() as u64);
}

#[test]
fn byte_cursor_reads_little_endian() {
    let data = [1u8, 0, 0, 0, 2, 0, 0, 0, 0, 0, 0, 0, 9];
    let mut cur = ByteCursor::new(&data);
    assert_eq!(cur.read_u32_le(), Ok(1));
    assert_eq!(cur.read_u64_le(), Ok(2));
    assert_eq!(cur.pos, 12);
    assert_eq!(cur.read_u32_le(), Err(ReadError::UnexpectedEof));
    cur.seek_start(12);
    assert_eq!(cur.seek_current(u64::MAX), Ok(11));
    assert_eq!(cur.read_vec(2), Ok(vec![0u8, 9]));
    cur.seek_start(0);
    assert_eq!(cur.seek_current(u64::MAX), Err(ReadError::InvalidSeek));
}

#[test]
fn r1cs_extra_sections_and_order_do_not_matter() {
    let full = build(&sample());
    let h = build(&Image { with_constraints: false, with_labels: false, ..sample() });
    let c = build(&Image { with_header: false, with_labels: false, ..sample() });
    let l = build(&Image { with_header: false, with_constraints: false, ..sample() });
    let mut extra = Vec::new();
    extra.extend_from_slice(&9u32.to_le_bytes());
    extra.extend_from_slice(&5u64.to_le_bytes());
    extra.extend_from_slice(&[1, 2, 3, 4, 5]);
    let mut data = b"r1cs".to_vec();
    data.extend_from_slice(&1u32.to_le_bytes());
    data.extend_from_slice(&4u32.to_le_bytes());
    data.extend_from_slice(&c[12..]);
    data.extend_from_slice(&extra);
    data.extend_from_slice(&h[12..]);
    data.extend_from_slice(&l[12..]);
    let a = parse_r1cs_binary(&full, MODULUS_HEX).expect("parses");
    let b = parse_r1cs_binary(&data, MODULUS_HEX).expect("parses");
    assert_eq!((a.n_wires, a.n_pub_out, a.n_pub_in, a.n_prv_in, a.n_labels), (b.n_wires, b.n_pub_out, b.n_pub_in, b.n_prv_in, b.n_labels));
    assert_eq!(a.constraints.len(), b.constraints.len());
    for (x, y) in a.constraints.iter().zip(b.constraints.iter()) {
        for (p, q) in [(&x.a, &y.a), (&x.b, &y.b), (&x.c, &y.c)] {
            assert_eq!(p.len(), q.len());
            for (s, t) in p.iter().zip(q.iter()) {
                assert_eq!((s.wire, &s.coeff), (t.wire, &t.coeff));
            }
        }
    }
}

#[test]
fn modulus_with_leading_zero_bytes_is_32_bytes() {
    let padded_hex = format!("0x0000{}", &MODULUS_HEX[2..]);
    assert_eq!(modulus_le_bytes(&padded_hex).unwrap(), prime_le());
    assert_eq!(validate_prime(&padded_hex, &prime_le()), Ok(()));
    let data = build(&sample());
    assert!(parse_r1cs_binary(&data, &padded_hex).is_ok());
}

#[test]
fn modulus_of_2_pow_256_or_more_is_refused() {
    let wide = format!("0x01{}", &MODULUS_HEX[2..]);
    assert_eq!(modulus_le_bytes(&wide), Err(R1csError::ModulusTooWide));
    assert_eq!(validate_prime(&wide, &prime_le()), Err(R1csError::ModulusTooWide));
    let data = build(&sample());
    assert!(matches!(parse_r1cs_binary(&data, &wide), Err(R1csError::ModulusTooWide)));
}

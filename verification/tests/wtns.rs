use wallet_unit_poc::wtns::{parse_witness, witness_parse_panics, WitnessError};

fn modulus() -> Vec<u8> {
    // 2^255 - 19, little-endian.
    let mut m = vec![0xffu8; 32];
    m[0] = 0xed;
    m[31] = 0x7f;
    m
}

fn value(v: u64, n8: usize) -> Vec<u8> {
    let mut out = v.to_le_bytes().to_vec();
    out.resize(n8, 0);
    out
}

fn widened(v: u64) -> Vec<u8> {
    value(v, 32)
}

fn image(n8: u32, values: &[Vec<u8>], header_first: bool) -> Vec<u8> {
    let mut header = Vec::new();
    header.extend_from_slice(&n8.to_le_bytes());
    header.extend(vec![0u8; n8 as usize]);
    header.extend_from_slice(&(values.len() as u32).to_le_bytes());
    let mut body = Vec::new();
    for v in values {
        body.extend_from_slice(v);
    }
    let mut s1 = Vec::new();
    s1.extend_from_slice(&1u32.to_le_bytes());
    s1.extend_from_slice(&(header.len() as u64).to_le_bytes());
    s1.extend(header);
    let mut s2 = Vec::new();
    s2.extend_from_slice(&2u32.to_le_bytes());
    s2.extend_from_slice(&(body.len() as u64).to_le_bytes());
    s2.extend(body);
    let mut out = b"wtns".to_vec();
    out.extend_from_slice(&2u32.to_le_bytes());
    out.extend_from_slice(&2u32.to_le_bytes());
    if header_first {
        out.extend(s1);
        out.extend(s2);
    } else {
        out.extend(s2);
        out.extend(s1);
    }
    out
}

#[test]
fn witness_values_are_read_in_order() {
    let data = image(32, &[widened(1), widened(2), widened(123456789)], true);
    assert!(!witness_parse_panics(&data, &modulus()));
    let w = parse_witness(&data, &modulus()).expect("parses");
    assert_eq!(w, vec![widened(1), widened(2), widened(123456789)]);
}

#[test]
fn witness_narrow_values_are_widened() {
    let data = image(8, &[value(7, 8), value(u64::MAX, 8)], true);
    let w = parse_witness(&data, &modulus()).expect("parses");
    assert_eq!(w, vec![widened(7), widened(u64::MAX)]);
    assert!(w.iter().all(|v| v.len() == 32));
}

#[test]
fn witness_last_partial_chunk_is_kept() {
    let mut data = image(8, &[value(5, 8), value(6, 8)], true);
    // Cut the section body to 12 bytes: one full value and a half one.
    let len_pos = data.len() - 16 - 8;
    data[len_pos..len_pos + 8].copy_from_slice(&12u64.to_le_bytes());
    data.truncate(data.len() - 4);
    let w = parse_witness(&data, &modulus()).expect("parses");
    assert_eq!(w, vec![widened(5), widened(6)]);
}

#[test]
fn witness_value_not_below_modulus_is_refused() {
    let data = image(32, &[widened(1), modulus()], true);
    assert_eq!(parse_witness(&data, &modulus()), Err(WitnessError::Unsatisfiable));
    let mut below = modulus();
    below[0] -= 1;
    let data = image(32, &[below.clone()], true);
    assert_eq!(parse_witness(&data, &modulus()), Ok(vec![below]));
}

#[test]
fn witness_bad_magic_or_short_image() {
    let mut data = image(32, &[widened(1)], true);
    data[0] = b'x';
    assert_eq!(parse_witness(&data, &modulus()), Err(WitnessError::Unsatisfiable));
    assert_eq!(parse_witness(b"wtns", &modulus()), Err(WitnessError::Unsatisfiable));
    assert_eq!(parse_witness(&[], &modulus()), Err(WitnessError::Unsatisfiable));
}

#[test]
fn witness_values_before_header_are_refused() {
    let data = image(32, &[widened(1)], false);
    assert_eq!(parse_witness(&data, &modulus()), Err(WitnessError::Unsatisfiable));
}

#[test]
fn witness_without_values_section_is_refused() {
    let mut data = image(32, &[widened(1)], true);
    data[8..12].copy_from_slice(&1u32.to_le_bytes());
    assert_eq!(parse_witness(&data, &modulus()), Err(WitnessError::Unsatisfiable));
}

#[test]
fn witness_section_past_the_end_is_refused() {
    let mut data = image(32, &[widened(1)], true);
    data.truncate(data.len() - 1);
    assert_eq!(parse_witness(&data, &modulus()), Err(WitnessError::Unsatisfiable));
}

#[test]
fn witness_wider_than_32_bytes_cannot_be_read() {
    let data = image(40, &[value(1, 40)], true);
    assert!(witness_parse_panics(&data, &modulus()));
}

#[test]
fn witness_skips_unknown_sections() {
    let base = image(32, &[widened(3)], true);
    let mut data = b"wtns".to_vec();
    data.extend_from_slice(&2u32.to_le_bytes());
    data.extend_from_slice(&3u32.to_le_bytes());
    data.extend_from_slice(&7u32.to_le_bytes());
    data.extend_from_slice(&2u64.to_le_bytes());
    data.extend_from_slice(&[0xaa, 0xbb]);
    data.extend_from_slice(&base[12..]);
    assert_eq!(parse_witness(&data, &modulus()), Ok(vec![widened(3)]));
}

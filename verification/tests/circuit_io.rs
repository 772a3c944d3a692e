use wallet_unit_poc::circuit_io::{
    check_goldilocks_r1cs, check_goldilocks_witness, goldilocks_repr, pad_le, public_values,
    scalar_repr, witness_layout, GoldilocksError, ScalarError, NUM_PUBLIC, GOLDILOCKS_BYTES,
};

fn modulus() -> Vec<u8> {
    let mut m = vec![0xffu8; 32];
    m[0] = 0xed;
    m[31] = 0x7f;
    m
}

#[test]
fn num_public_counts_output_pk_and_msg() {
    assert_eq!(NUM_PUBLIC, 1057);
    assert_eq!(GOLDILOCKS_BYTES, 8);
}

#[test]
fn public_values_skip_the_constant_wire() {
    let w: Vec<u32> = (0..10).collect();
    assert_eq!(public_values(Some(&w), 3, 0), vec![1, 2, 3]);
    assert_eq!(public_values::<u32>(None, 3, 0), vec![0, 0, 0]);
    assert_eq!(public_values(Some(&w), 0, 0), Vec::<u32>::new());
}

#[test]
fn witness_layout_splits_inputs_and_aux() {
    let l = witness_layout(2000, NUM_PUBLIC).expect("fits");
    assert_eq!(l.num_inputs, 1058);
    assert_eq!(l.num_aux, 942);
    let l = witness_layout(1058, NUM_PUBLIC).expect("fits");
    assert_eq!(l.num_aux, 0);
    assert!(witness_layout(1057, NUM_PUBLIC).is_none());
}

#[test]
fn pad_le_extends_with_zeros() {
    assert_eq!(pad_le(&[1, 2], 4), Some(vec![1, 2, 0, 0]));
    assert_eq!(pad_le(&[1, 2], 2), Some(vec![1, 2]));
    assert_eq!(pad_le(&[1, 2, 3], 2), None);
    assert_eq!(pad_le(&[], 3), Some(vec![0, 0, 0]));
}

#[test]
fn scalar_repr_checks_width_and_range() {
    let mut expected = vec![0u8; 32];
    expected[0] = 5;
    assert_eq!(scalar_repr(&[5], &modulus()), Ok(expected));
    assert_eq!(scalar_repr(&vec![1u8; 33], &modulus()), Err(ScalarError::TooWide));
    assert_eq!(scalar_repr(&modulus(), &modulus()), Err(ScalarError::NotCanonical));
    let mut below = modulus();
    below[0] -= 1;
    assert_eq!(scalar_repr(&below, &modulus()), Ok(below));
}

#[test]
fn goldilocks_checks() {
    assert_eq!(check_goldilocks_r1cs(8), Ok(()));
    assert_eq!(check_goldilocks_r1cs(32), Err(GoldilocksError::R1csFieldSize(32)));
    assert_eq!(check_goldilocks_witness(8, 5, 5), Ok(()));
    assert_eq!(check_goldilocks_witness(32, 5, 5), Err(GoldilocksError::WitnessFieldSize(32)));
    assert_eq!(
        check_goldilocks_witness(8, 4, 5),
        Err(GoldilocksError::WireCountMismatch { r1cs: 5, wtns: 4 })
    );
    assert_eq!(goldilocks_repr(&[1, 2, 3]), Ok(vec![1, 2, 3, 0, 0, 0, 0, 0]));
    assert_eq!(goldilocks_repr(&[0u8; 9]), Err(GoldilocksError::CoefficientTooWide(9)));
    let p: u64 = 0xffff_ffff_0000_0001;
    assert_eq!(goldilocks_repr(&p.to_le_bytes()), Err(GoldilocksError::NotInField));
    assert_eq!(goldilocks_repr(&u64::MAX.to_le_bytes()), Err(GoldilocksError::NotInField));
    assert_eq!(goldilocks_repr(&(p - 1).to_le_bytes()), Ok((p - 1).to_le_bytes().to_vec()));
}

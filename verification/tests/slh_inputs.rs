use num_bigint::BigInt;
use std::str::FromStr;
use wallet_unit_poc::slh_inputs::{
    parse_3d_byte_array, parse_byte_array, parse_slh_dsa_inputs, reshape_3d, witness_inputs,
    InputError, JsonCube, JsonRow, JsonScalar, SlhDsaInputs, SlhDsaJsonInput,
};

fn strs(v: &[&str]) -> JsonRow {
    Some(v.iter().map(|s| JsonScalar::Str(s.to_string())).collect())
}

fn cube(planes: Vec<Vec<JsonRow>>) -> JsonCube {
    Some(planes.into_iter().map(Some).collect())
}

fn texts(v: &[&str]) -> Vec<String> {
    v.iter().map(|s| s.to_string()).collect()
}

fn sample_json() -> SlhDsaJsonInput {
    SlhDsaJsonInput {
        pk: strs(&["1", "2"]),
        msg: Some(vec![JsonScalar::U64(3), JsonScalar::U64(255)]),
        r: strs(&["+4"]),
        sig_fors: cube(vec![vec![strs(&["5", "06"]), strs(&["7"])], vec![strs(&["8"])]]),
        sig_ht: cube(vec![vec![strs(&["-0", "1_0"])]]),
    }
}

#[test]
fn slh_inputs_are_read_and_normalised() {
    let i = parse_slh_dsa_inputs(&sample_json()).expect("parses");
    assert_eq!(i.pk, texts(&["1", "2"]));
    assert_eq!(i.msg, texts(&["3", "255"]));
    assert_eq!(i.r, texts(&["4"]));
    assert_eq!(i.sig_fors, texts(&["5", "6", "7", "8"]));
    assert_eq!(i.sig_ht, texts(&["0", "10"]));
}

#[test]
fn slh_inputs_missing_field() {
    let mut j = sample_json();
    j.pk = None;
    assert!(matches!(parse_slh_dsa_inputs(&j), Err(InputError::AssignmentMissing)));
    let mut j = sample_json();
    j.sig_ht = None;
    assert!(matches!(parse_slh_dsa_inputs(&j), Err(InputError::AssignmentMissing)));
}

#[test]
fn slh_inputs_value_that_is_not_an_integer() {
    let mut j = sample_json();
    j.msg = Some(vec![JsonScalar::U64(1), JsonScalar::Other]);
    assert!(matches!(parse_slh_dsa_inputs(&j), Err(InputError::AssignmentMissing)));
    let mut j = sample_json();
    j.r = strs(&["0x10"]);
    assert!(matches!(parse_slh_dsa_inputs(&j), Err(InputError::AssignmentMissing)));
}

#[test]
fn slh_inputs_cube_with_a_non_array() {
    assert!(matches!(
        parse_3d_byte_array(&Some(vec![Some(vec![strs(&["1"])]), None])),
        Err(InputError::AssignmentMissing)
    ));
    assert!(matches!(
        parse_3d_byte_array(&Some(vec![Some(vec![strs(&["1"]), None])])),
        Err(InputError::AssignmentMissing)
    ));
    assert!(matches!(parse_3d_byte_array(&None), Err(InputError::AssignmentMissing)));
    assert_eq!(parse_3d_byte_array(&Some(vec![])).unwrap(), Vec::<String>::new());
}

#[test]
fn slh_byte_values_print_as_bigint_does() {
    let inputs = [
        "0", "-0", "007", "+5", "-5", "-+1", "++1", "+", "-", "", "_1", "1_", "1__2", "abc", "12a",
        " 1", "99999999999999999999999999999", "-00012", "٣",
    ];
    for s in inputs {
        let ours = parse_byte_array(&strs(&[s])).ok().map(|v| v[0].clone());
        let theirs = BigInt::from_str(s).ok().map(|b| b.to_string());
        assert_eq!(ours, theirs, "{s:?}");
    }
    assert_eq!(parse_byte_array(&strs(&["-00012"])).unwrap(), texts(&["-12"]));
    assert_eq!(parse_byte_array(&strs(&["1_000"])).unwrap(), texts(&["1000"]));
}

#[test]
fn slh_reshape_nests_in_order() {
    let vals: Vec<String> = (0..24).map(|i| i.to_string()).collect();
    let c = reshape_3d(&vals, 2, 3, 4).expect("reshapes");
    assert_eq!(c.len(), 2);
    assert_eq!(c[0].len(), 3);
    assert_eq!(c[0][0].len(), 4);
    assert_eq!(c[0][0][0], "0");
    assert_eq!(c[0][1][0], "4");
    assert_eq!(c[1][0][0], "12");
    assert_eq!(c[1][2][3], "23");
    let flat: Vec<String> = c.into_iter().flatten().flatten().collect();
    assert_eq!(flat, vals);
}

#[test]
fn slh_reshape_wrong_count() {
    let vals: Vec<String> = (0..23).map(|i| i.to_string()).collect();
    assert!(matches!(reshape_3d(&vals, 2, 3, 4), Err(InputError::Unsatisfiable)));
}

#[test]
fn slh_reshape_restores_a_parsed_cube() {
    let planes: Vec<Vec<JsonRow>> = (0..2)
        .map(|i| {
            (0..3)
                .map(|j| {
                    Some((0..4).map(|k| JsonScalar::U64(i * 12 + j * 4 + k)).collect())
                })
                .collect()
        })
        .collect();
    let flat = parse_3d_byte_array(&cube(planes)).expect("parses");
    let c = reshape_3d(&flat, 2, 3, 4).expect("reshapes");
    for i in 0..2u64 {
        for j in 0..3u64 {
            for k in 0..4u64 {
                assert_eq!(c[i as usize][j as usize][k as usize], (i * 12 + j * 4 + k).to_string());
            }
        }
    }
}

#[test]
fn slh_witness_inputs_nest_the_signatures() {
    let inputs = SlhDsaInputs {
        pk: texts(&["1"]),
        msg: texts(&["2", "3"]),
        r: texts(&["4"]),
        sig_fors: (0..14 * 13 * 16).map(|i: usize| i.to_string()).collect(),
        sig_ht: (0..7 * 44 * 16).map(|i: usize| i.to_string()).collect(),
    };
    let w = witness_inputs(&inputs).expect("nests");
    assert_eq!(w.pk, inputs.pk);
    assert_eq!(w.msg, inputs.msg);
    assert_eq!(w.r, inputs.r);
    assert_eq!((w.sig_fors.len(), w.sig_fors[0].len(), w.sig_fors[0][0].len()), (14, 13, 16));
    assert_eq!((w.sig_ht.len(), w.sig_ht[0].len(), w.sig_ht[0][0].len()), (7, 44, 16));
    assert_eq!(w.sig_fors[13][12][15], (14 * 13 * 16 - 1).to_string());
    assert_eq!(w.sig_ht[1][0][0], (44 * 16).to_string());
}

#[test]
fn slh_witness_inputs_wrong_signature_length() {
    let inputs = SlhDsaInputs {
        pk: vec![],
        msg: vec![],
        r: vec![],
        sig_fors: vec!["0".to_string(); 10],
        sig_ht: (0..7 * 44 * 16).map(|i: usize| i.to_string()).collect(),
    };
    assert!(matches!(witness_inputs(&inputs), Err(InputError::Unsatisfiable)));
}

#[test]
fn slh_normalised_values_read_back_unchanged() {
    for s in ["-0", "007", "+5", "-00012", "1_000", "123456789012345678901234567890"] {
        let once = parse_byte_array(&strs(&[s])).unwrap();
        let twice = parse_byte_array(&strs(&[once[0].as_str()])).unwrap();
        assert_eq!(once, twice, "{s:?}");
    }
}

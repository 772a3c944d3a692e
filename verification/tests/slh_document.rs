use serde_json::Value;
use wallet_unit_poc::slh_document::witness_document;
use wallet_unit_poc::slh_inputs::{
    parse_slh_dsa_inputs, witness_inputs, JsonCube, JsonRow, JsonScalar, SlhDsaInputs,
    SlhDsaJsonInput,
};

fn scalar_json(v: &JsonScalar) -> Value {
    match v {
        JsonScalar::Str(s) => Value::String(s.clone()),
        JsonScalar::U64(n) => Value::from(*n),
        JsonScalar::Other => Value::Null,
    }
}

fn row_json(r: &JsonRow) -> Value {
    Value::Array(r.as_ref().unwrap().iter().map(scalar_json).collect())
}

fn cube_json(c: &JsonCube) -> Value {
    Value::Array(
        c.as_ref()
            .unwrap()
            .iter()
            .map(|p| Value::Array(p.as_ref().unwrap().iter().map(row_json).collect()))
            .collect(),
    )
}

fn to_text(j: &SlhDsaJsonInput) -> String {
    let mut m = serde_json::Map::new();
    m.insert("pk".into(), row_json(&j.pk));
    m.insert("msg".into(), row_json(&j.msg));
    m.insert("r".into(), row_json(&j.r));
    m.insert("sig_fors".into(), cube_json(&j.sig_fors));
    m.insert("sig_ht".into(), cube_json(&j.sig_ht));
    serde_json::to_string(&m).unwrap()
}

fn scalar_of(v: &Value) -> JsonScalar {
    if let Some(s) = v.as_str() {
        JsonScalar::Str(s.to_string())
    } else if let Some(n) = v.as_u64() {
        JsonScalar::U64(n)
    } else {
        JsonScalar::Other
    }
}

fn row_of(v: Option<&Value>) -> JsonRow {
    v.and_then(|v| v.as_array()).map(|a| a.iter().map(scalar_of).collect())
}

fn cube_of(v: Option<&Value>) -> JsonCube {
    v.and_then(|v| v.as_array())
        .map(|a| a.iter().map(|p| p.as_array().map(|rows| rows.iter().map(|r| row_of(Some(r))).collect())).collect())
}

fn from_text(s: &str) -> SlhDsaJsonInput {
    let v: Value = serde_json::from_str(s).unwrap();
    SlhDsaJsonInput {
        pk: row_of(v.get("pk")),
        msg: row_of(v.get("msg")),
        r: row_of(v.get("r")),
        sig_fors: cube_of(v.get("sig_fors")),
        sig_ht: cube_of(v.get("sig_ht")),
    }
}

fn nested(o: usize, m: usize, n: usize, base: u64) -> JsonCube {
    Some(
        (0..o)
            .map(|i| {
                Some(
                    (0..m)
                        .map(|j| {
                            Some(
                                (0..n)
                                    .map(|k| {
                                        let v = (base + (i * m * n + j * n + k) as u64) % 256;
                                        if k % 2 == 0 {
                                            JsonScalar::Str(format!("00{}", v))
                                        } else {
                                            JsonScalar::U64(v)
                                        }
                                    })
                                    .collect(),
                            )
                        })
                        .collect(),
                )
            })
            .collect(),
    )
}

fn same(a: &SlhDsaInputs, b: &SlhDsaInputs) -> bool {
    a.pk == b.pk && a.msg == b.msg && a.r == b.r && a.sig_fors == b.sig_fors && a.sig_ht == b.sig_ht
}

#[test]
fn slh_document_reads_back_as_the_inputs() {
    let input = SlhDsaJsonInput {
        pk: Some((0..32).map(|i| JsonScalar::Str(format!("+{}", i))).collect()),
        msg: Some((0..1024).map(|i| JsonScalar::U64(i % 256)).collect()),
        r: Some((0..16).map(|i| JsonScalar::Str(format!("0_{}", i))).collect()),
        sig_fors: nested(14, 13, 16, 3),
        sig_ht: nested(7, 44, 16, 5),
    };
    let inputs = parse_slh_dsa_inputs(&input).expect("parses");
    let w = witness_inputs(&inputs).expect("nests");
    let doc = witness_document(&w);
    let text = to_text(&doc);
    let again = parse_slh_dsa_inputs(&from_text(&text)).expect("reads back");
    assert!(same(&inputs, &again));
    assert!(text.starts_with("{\"msg\":[\"0\",\"1\""));
}

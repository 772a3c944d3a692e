use std::path::PathBuf;
use wallet_unit_poc::paths::{join_path, PathConfig, CIRCUIT_NAME, PROOF, PROVING_KEY};

fn std_join(base: &str, p: &str) -> String {
    PathBuf::from(base).join(p).to_string_lossy().into_owned()
}

#[test]
fn join_path_matches_pathbuf() {
    let cases = [
        ("/app", "keys"),
        ("/app/", "keys"),
        ("", "keys"),
        ("/app", "/etc/x"),
        ("rel", "a/b.json"),
        ("/app", ""),
        ("/", "x"),
    ];
    for (base, p) in cases {
        assert_eq!(join_path(base, p), std_join(base, p), "{base:?} + {p:?}");
    }
}

#[test]
fn resolve_keeps_absolute_paths() {
    let config = PathConfig::new("/work".to_string());
    assert_eq!(config.resolve("/tmp/input.json"), "/tmp/input.json");
}

#[test]
fn resolve_joins_relative_paths() {
    let config = PathConfig::new("/work".to_string());
    assert_eq!(config.resolve(PROVING_KEY), "/work/keys/slh_dsa_1k_pk.key");
    assert_eq!(config.resolve(PROOF), "/work/keys/slh_dsa_1k_proof.key");
    assert_eq!(config.resolve("inputs/x.json"), std_join("/work", "inputs/x.json"));
}

#[test]
fn r1cs_path_is_beside_the_base() {
    let config = PathConfig::new("/work/slh".to_string());
    assert_eq!(
        config.r1cs_path(),
        "/work/slh/../circom/build/slh_dsa_128s_poseidon_1k/slh_dsa_128s_poseidon_1k.r1cs"
    );
    assert_eq!(
        config.r1cs_path(),
        std_join("/work/slh", &format!("../circom/build/{}/{}.r1cs", CIRCUIT_NAME, CIRCUIT_NAME))
    );
}

#[test]
fn mobile_config_key_paths() {
    let config = PathConfig::mobile("/data/");
    assert_eq!(config.keys_dir(), "/data/keys");
    assert_eq!(config.key_path("k.key"), "/data/keys/k.key");
    assert_eq!(config.artifact_path("p.bin"), "/data/keys/p.bin");
    assert_eq!(config.input_json("circ"), "/data/circ_input.json");
}

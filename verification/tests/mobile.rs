use wallet_unit_poc::fido::{make_config, mopro_hello_world, CertChainRsa4096, DeviceSigRsa2048};

#[test]
fn test_mopro_hello_world() {
    assert_eq!(mopro_hello_world(), "Hello, World!");
}

#[test]
fn test_path_config_mobile_split_circuits() {
    let config = make_config("/app/Documents");

    // cert_chain_rs4096 keys and artifacts
    assert_eq!(
        config.key_path(CertChainRsa4096::PROVING_KEY),
        "/app/Documents/keys/cert_chain_rs4096_proving.key"
    );
    assert_eq!(
        config.key_path(CertChainRsa4096::VERIFYING_KEY),
        "/app/Documents/keys/cert_chain_rs4096_verifying.key"
    );
    assert_eq!(
        config.artifact_path(CertChainRsa4096::PROOF),
        "/app/Documents/keys/cert_chain_rs4096_proof.bin"
    );
    assert_eq!(
        config.artifact_path(CertChainRsa4096::WITNESS),
        "/app/Documents/keys/cert_chain_rs4096_witness.bin"
    );
    assert_eq!(
        config.artifact_path(CertChainRsa4096::INSTANCE),
        "/app/Documents/keys/cert_chain_rs4096_instance.bin"
    );

    // device_sig_rs2048 keys and artifacts
    assert_eq!(
        config.key_path(DeviceSigRsa2048::PROVING_KEY),
        "/app/Documents/keys/device_sig_rs2048_proving.key"
    );
    assert_eq!(
        config.key_path(DeviceSigRsa2048::VERIFYING_KEY),
        "/app/Documents/keys/device_sig_rs2048_verifying.key"
    );
    assert_eq!(
        config.artifact_path(DeviceSigRsa2048::PROOF),
        "/app/Documents/keys/device_sig_rs2048_proof.bin"
    );

    // Mobile input JSON paths derived from circuit names
    assert_eq!(
        config.input_json(CertChainRsa4096::CIRCUIT_NAME),
        "/app/Documents/cert_chain_rs4096_input.json"
    );
    assert_eq!(
        config.input_json(DeviceSigRsa2048::CIRCUIT_NAME),
        "/app/Documents/device_sig_rs2048_input.json"
    );
}

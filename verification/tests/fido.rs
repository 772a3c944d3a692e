use wallet_unit_poc::fido::{
    fido_input_files, inputs_written_text, plan_steps, prove_fido, run_complete_benchmark_fido,
    setup_keys_fido, verify_fido, BenchmarkResults, FidoArtifact, FidoCircuit, FidoMode, FidoOp,
    FidoReport, FidoRun, FidoTiming, StepEvent, ZkErrorKind, ZkProofError,
};

const CC: FidoCircuit = FidoCircuit::CertChainRs4096;
const DS: FidoCircuit = FidoCircuit::DeviceSigRs2048;

/// Fixed measurements: each timing and size is distinct per circuit.
fn measure(op: FidoOp) -> StepEvent {
    match op {
        FidoOp::ReadClock(c, t) => {
            let base: u128 = if c == CC { 1000 } else { 2000 };
            let off: u128 = match t {
                FidoTiming::Setup => 1,
                FidoTiming::Prove => 2,
                FidoTiming::Verify => 3,
            };
            StepEvent::Elapsed(base + off)
        }
        FidoOp::FileSize(c, a) => {
            let base: u64 = if c == CC { 10_000 } else { 20_000 };
            let off: u64 = match a {
                FidoArtifact::ProvingKey => 1,
                FidoArtifact::VerifyingKey => 2,
                FidoArtifact::Proof => 3,
                FidoArtifact::Witness => 4,
                FidoArtifact::Instance => 5,
            };
            StepEvent::Size(base + off)
        }
        _ => StepEvent::Done,
    }
}

fn drive(mut run: FidoRun, fail_at: Option<FidoOp>) -> (Vec<FidoOp>, Result<FidoReport, ZkProofError>) {
    let mut seen = Vec::new();
    while let Some(op) = run.next_op() {
        seen.push(op);
        if Some(op) == fail_at {
            run.record(StepEvent::Failed("boom".to_string()));
        } else {
            run.record(measure(op));
        }
    }
    assert!(run.report_fits());
    (seen, run.finish())
}

fn failure(run: FidoRun, at: FidoOp) -> (ZkErrorKind, String) {
    match drive(run, Some(at)).1 {
        Err(e) => (e.kind(), e.message()),
        Ok(_) => panic!("expected a failure"),
    }
}

#[test]
fn fido_plan_orders() {
    assert_eq!(
        plan_steps(FidoMode::Setup),
        vec![
            FidoOp::StartClock,
            FidoOp::SetupAndSaveKeys(CC),
            FidoOp::SetupAndSaveKeys(DS),
            FidoOp::ReadClock(CC, FidoTiming::Setup),
        ]
    );
    assert_eq!(plan_steps(FidoMode::Verify), vec![FidoOp::VerifyFiles(CC), FidoOp::VerifyFiles(DS)]);
    let bench = plan_steps(FidoMode::Benchmark);
    assert_eq!(bench.len(), 40);
    assert_eq!(bench[0], FidoOp::WarmWitness(CC));
    assert_eq!(bench[1], FidoOp::WarmWitness(DS));
    assert_eq!(bench[3], FidoOp::SetupKeys(CC));
    assert_eq!(bench[39], FidoOp::FileSize(DS, FidoArtifact::Witness));
}

#[test]
fn fido_benchmark_witnesses_warmed_before_keys() {
    for mode in [FidoMode::Prove, FidoMode::Benchmark] {
        let plan = plan_steps(mode);
        let first_key_step = plan
            .iter()
            .position(|op| !matches!(op, FidoOp::WarmWitness(_) | FidoOp::StartClock))
            .unwrap();
        assert!(plan[..first_key_step].contains(&FidoOp::WarmWitness(CC)));
        assert!(plan[..first_key_step].contains(&FidoOp::WarmWitness(DS)));
    }
}

#[test]
fn fido_benchmark_holds_one_proving_key() {
    let mut held: i32 = 0;
    for op in plan_steps(FidoMode::Benchmark) {
        match op {
            FidoOp::SetupKeys(_) | FidoOp::LoadProvingKey(_) => held += 1,
            FidoOp::DropProvingKey(_) => held -= 1,
            _ => {}
        }
        assert!((0..=1).contains(&held));
    }
    assert_eq!(held, 0);
}

#[test]
fn fido_benchmark_sums_both_circuits() {
    let (seen, r) = drive(run_complete_benchmark_fido("/docs".to_string()), None);
    assert_eq!(seen, plan_steps(FidoMode::Benchmark));
    match r {
        Ok(FidoReport::Benchmarked(BenchmarkResults {
            setup_ms,
            prove_ms,
            verify_ms,
            proving_key_bytes,
            verifying_key_bytes,
            proof_bytes,
            witness_bytes,
        })) => {
            assert_eq!(setup_ms, 1001 + 2001);
            assert_eq!(prove_ms, 1002 + 2002);
            assert_eq!(verify_ms, 1003 + 2003);
            assert_eq!(proving_key_bytes, 10_001 + 20_001);
            assert_eq!(verifying_key_bytes, 10_002 + 20_002);
            assert_eq!(proof_bytes, 10_003 + 20_003);
            assert_eq!(witness_bytes, 10_004 + 20_004);
        }
        _ => panic!("expected benchmark results"),
    }
}

#[test]
fn fido_prove_sums_both_circuits() {
    match drive(prove_fido("/docs".to_string()), None).1 {
        Ok(FidoReport::Proved(p)) => {
            assert_eq!(p.prove_ms, 1002 + 2002);
            assert_eq!(p.proof_size_bytes, 10_003 + 20_003);
        }
        _ => panic!("expected a proof result"),
    }
}

#[test]
fn fido_setup_reports_elapsed_time() {
    match drive(setup_keys_fido("/docs".to_string()), None).1 {
        Ok(FidoReport::KeysReady(s)) => {
            assert_eq!(s, "cert_chain_rs4096 + device_sig_rs2048 keys setup completed in 1001ms")
        }
        _ => panic!("expected setup text"),
    }
}

#[test]
fn fido_verify_reports_true() {
    assert!(matches!(drive(verify_fido("/docs".to_string()), None).1, Ok(FidoReport::Verified(true))));
}

#[test]
fn fido_failure_ends_the_run() {
    let mut run = run_complete_benchmark_fido("/docs".to_string());
    assert_eq!(run.next_op(), Some(FidoOp::WarmWitness(CC)));
    run.record(StepEvent::Failed("boom".to_string()));
    assert_eq!(run.next_op(), None);
    let (seen, _) = drive(run_complete_benchmark_fido("/docs".to_string()), Some(FidoOp::SaveKeys(CC)));
    assert_eq!(seen.last(), Some(&FidoOp::SaveKeys(CC)));
    assert_eq!(seen.len(), 6);
}

#[test]
fn fido_failure_messages() {
    let bench = || run_complete_benchmark_fido("/docs".to_string());
    assert_eq!(
        failure(bench(), FidoOp::WarmWitness(CC)),
        (
            ZkErrorKind::ProofGenerationFailed,
            "Proof generation failed: cert_chain_rs4096 witness pre-warm failed: boom".to_string()
        )
    );
    assert_eq!(
        failure(bench(), FidoOp::SaveKeys(CC)),
        (ZkErrorKind::IoError, "IO error: Failed to save cert_chain keys: boom".to_string())
    );
    assert_eq!(
        failure(bench(), FidoOp::LoadProvingKey(DS)),
        (
            ZkErrorKind::FileNotFound,
            "File not found: Failed to load device_sig proving key: boom".to_string()
        )
    );
    assert_eq!(
        failure(bench(), FidoOp::LoadProof(CC)),
        (ZkErrorKind::FileNotFound, "File not found: Failed to load cert_chain proof: boom".to_string())
    );
    assert_eq!(
        failure(bench(), FidoOp::FileSize(CC, FidoArtifact::ProvingKey)),
        (
            ZkErrorKind::FileNotFound,
            "File not found: Failed to get file size from '/docs/keys/cert_chain_rs4096_proving.key': boom"
                .to_string()
        )
    );
    assert_eq!(
        failure(prove_fido("/docs".to_string()), FidoOp::FileSize(DS, FidoArtifact::Proof)),
        (
            ZkErrorKind::FileNotFound,
            "File not found: Failed to get file size from '/docs/keys/device_sig_rs2048_proof.bin': boom"
                .to_string()
        )
    );
}

#[test]
fn fido_error_messages_per_kind() {
    let cases = [
        (ZkErrorKind::FileNotFound, "File not found: x"),
        (ZkErrorKind::ProofGenerationFailed, "Proof generation failed: x"),
        (ZkErrorKind::VerificationFailed, "Verification failed: x"),
        (ZkErrorKind::InvalidInput, "Invalid input: x"),
        (ZkErrorKind::SetupRequired, "Setup required: x"),
        (ZkErrorKind::IoError, "IO error: x"),
    ];
    for (kind, text) in cases {
        let e = ZkProofError::new(kind, "x".to_string());
        assert_eq!(e.kind(), kind);
        assert_eq!(e.message(), text);
    }
}

#[test]
fn fido_artifact_paths() {
    let run = verify_fido("/docs/".to_string());
    assert_eq!(run.path_of(DS, FidoArtifact::Instance), "/docs/keys/device_sig_rs2048_instance.bin");
    assert_eq!(CC.file_name(FidoArtifact::VerifyingKey), "cert_chain_rs4096_verifying.key");
    assert_eq!(DS.short_name(), "device_sig");
}

#[test]
fn fido_input_files_and_message() {
    let files = fido_input_files("/out");
    assert_eq!(files.cert_chain, "/out/cert_chain_rs4096_input.json");
    assert_eq!(files.device_sig, "/out/device_sig_rs2048_input.json");
    assert_eq!(
        inputs_written_text(&files),
        "Inputs written: cert_chain=/out/cert_chain_rs4096_input.json, device_sig=/out/device_sig_rs2048_input.json"
    );
}

#[test]
fn fido_benchmark_results_format_size() {
    assert_eq!(BenchmarkResults::format_size(512), "512 B");
    assert_eq!(BenchmarkResults::format_size(2048), "2.00 KB");
    assert_eq!(BenchmarkResults::format_size(5 * 1024 * 1024 + 1024 * 512), "5.50 MB");
}

use wallet_unit_poc::rs256_run::{
    progress_line, Rs256Artifact, Rs256Event, Rs256FailureKind, Rs256Op, Rs256Run, Rs256Timing,
};

fn event(op: Rs256Op, fail_at: Option<Rs256Op>) -> Rs256Event {
    if Some(op) == fail_at {
        return Rs256Event::Failed("boom".to_string());
    }
    match op {
        Rs256Op::ReadClock(t) => Rs256Event::Elapsed(match t {
            Rs256Timing::WitnessGen => 10,
            Rs256Timing::Setup => 20,
            Rs256Timing::Prove => 30,
            Rs256Timing::Verify => 40,
        }),
        Rs256Op::FileSize(a) => Rs256Event::Size(match a {
            Rs256Artifact::ProvingKey => 1000,
            Rs256Artifact::VerifyingKey => 2000,
            Rs256Artifact::Proof => 3000,
            Rs256Artifact::Witness => 4000,
        }),
        _ => Rs256Event::Done,
    }
}

fn drive(fail_at: Option<Rs256Op>) -> (Vec<Rs256Op>, Rs256Run) {
    let mut run = Rs256Run::start("sha256rsa2048");
    let mut seen = Vec::new();
    while let Some(op) = run.next_op() {
        seen.push(op);
        run.record(event(op, fail_at));
    }
    (seen, run)
}

#[test]
fn rs256_run_order_and_measures() {
    let (seen, run) = drive(None);
    assert_eq!(seen.len(), 18);
    assert_eq!(seen[1], Rs256Op::WarmWitness);
    assert_eq!(seen[4], Rs256Op::SetupKeys);
    assert_eq!(seen[6], Rs256Op::SaveKeys);
    assert_eq!(seen[10], Rs256Op::LoadProof);
    let m = run.finish().ok().expect("no failure");
    assert_eq!((m.witness_gen_ms, m.setup_ms, m.prove_ms, m.verify_ms), (10, 20, 30, 40));
    assert_eq!(
        (m.proving_key_bytes, m.verifying_key_bytes, m.proof_bytes, m.witness_bytes),
        (1000, 2000, 3000, 4000)
    );
}

#[test]
fn rs256_run_witness_before_setup() {
    let (seen, _) = drive(None);
    let w = seen.iter().position(|o| *o == Rs256Op::WarmWitness).unwrap();
    let s = seen.iter().position(|o| *o == Rs256Op::SetupKeys).unwrap();
    assert!(w < s);
}

#[test]
fn rs256_run_failed_save_ends_with_exit_message() {
    let (seen, run) = drive(Some(Rs256Op::SaveKeys));
    assert_eq!(seen.last(), Some(&Rs256Op::SaveKeys));
    match run.finish() {
        Err(f) => {
            assert_eq!(f.kind, Rs256FailureKind::SaveKeys);
            assert_eq!(f.message, "Failed to save sha256rsa2048 keys: boom");
        }
        Ok(_) => panic!("expected a failure"),
    }
}

#[test]
fn rs256_run_other_failures() {
    match drive(Some(Rs256Op::WarmWitness)).1.finish() {
        Err(f) => assert_eq!((f.kind, f.message.as_str()), (Rs256FailureKind::WitnessGeneration, "boom")),
        Ok(_) => panic!("expected a failure"),
    }
    match drive(Some(Rs256Op::LoadProof)).1.finish() {
        Err(f) => assert_eq!((f.kind, f.message.as_str()), (Rs256FailureKind::LoadProof, "boom")),
        Ok(_) => panic!("expected a failure"),
    }
}

#[test]
fn rs256_run_unreadable_file_counts_as_zero() {
    let (seen, run) = drive(Some(Rs256Op::FileSize(Rs256Artifact::Proof)));
    assert_eq!(seen.len(), 18);
    let m = run.finish().ok().expect("no failure");
    assert_eq!(m.proof_bytes, 0);
    assert_eq!(m.witness_bytes, 4000);
}

#[test]
fn rs256_progress_lines() {
    assert_eq!(progress_line(Rs256Timing::WitnessGen, 12), format!("✓ Witness cached: {} ms\n", 12));
    assert_eq!(progress_line(Rs256Timing::Setup, 0), "✓ Setup completed: 0 ms\n");
    assert_eq!(progress_line(Rs256Timing::Prove, 345), "✓ Proof generated: 345 ms\n");
    assert_eq!(progress_line(Rs256Timing::Verify, 7), "✓ Proof verified: 7 ms\n");
}

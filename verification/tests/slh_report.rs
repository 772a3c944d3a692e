use wallet_unit_poc::slh_report::BenchmarkResults;

fn reference_size(bytes: u64) -> String {
    if bytes < 1024 {
        format!("{} B", bytes)
    } else if bytes < 1024 * 1024 {
        format!("{:.2} KB", bytes as f64 / 1024.0)
    } else if bytes < 1024 * 1024 * 1024 {
        format!("{:.2} MB", bytes as f64 / (1024.0 * 1024.0))
    } else {
        format!("{:.2} GB", bytes as f64 / (1024.0 * 1024.0 * 1024.0))
    }
}

fn reference(r: &BenchmarkResults) -> Vec<String> {
    let mut out = vec![
        String::new(),
        "╔════════════════════════════════════════════════════╗".to_string(),
        "║   SLH-DSA-128s (Poseidon) — Spartan2 benchmark     ║".to_string(),
        "║   Message size: 1024 B  |  Backend: T256HyraxEngine║".to_string(),
        "╠════════════════════════════════════════════════════╣".to_string(),
        "║ TIMING                                             ║".to_string(),
        "╠════════════════════════════════════════════════════╣".to_string(),
    ];
    if let Some(ms) = r.setup_ms {
        out.push(format!("║ Setup:        {:>10} ms                       ║", ms));
    }
    if let Some(ms) = r.prep_prove_ms {
        out.push(format!("║ Prep Prove:   {:>10} ms                       ║", ms));
    }
    if let Some(ms) = r.prove_ms {
        out.push(format!("║ Prove:        {:>10} ms                       ║", ms));
    }
    if let Some(ms) = r.verify_ms {
        out.push(format!("║ Verify:       {:>10} ms                       ║", ms));
    }
    out.push("╠════════════════════════════════════════════════════╣".to_string());
    out.push("║ SIZES                                              ║".to_string());
    out.push("╠════════════════════════════════════════════════════╣".to_string());
    out.push(format!("║ Proving Key:  {:>12}                         ║", reference_size(r.pk_bytes)));
    out.push(format!("║ Verifying Key:{:>12}                         ║", reference_size(r.vk_bytes)));
    if r.proof_bytes > 0 {
        out.push(format!("║ Proof:        {:>12}                         ║", reference_size(r.proof_bytes)));
    }
    out.push("╚════════════════════════════════════════════════════╝".to_string());
    out
}

#[test]
fn slh_report_setup_only() {
    let r = BenchmarkResults {
        setup_ms: Some(4321),
        prep_prove_ms: None,
        prove_ms: None,
        verify_ms: None,
        pk_bytes: 3 * 1024 * 1024 * 1024,
        vk_bytes: 4096,
        proof_bytes: 0,
    };
    let lines = r.lines();
    assert_eq!(lines, reference(&r));
    assert_eq!(lines.len(), 14);
    assert_eq!(lines[7], "║ Setup:              4321 ms                       ║");
}

#[test]
fn slh_report_full_benchmark() {
    let r = BenchmarkResults {
        setup_ms: Some(1),
        prep_prove_ms: Some(22),
        prove_ms: Some(333_333_333_333),
        verify_ms: Some(0),
        pk_bytes: 500,
        vk_bytes: 1024 * 1024 + 1,
        proof_bytes: 77_777,
    };
    let lines = r.lines();
    assert_eq!(lines, reference(&r));
    assert_eq!(lines.len(), 18);
}

use wallet_unit_poc::rs256_report::{rs256_banner, rs256_results, Rs256Measures};
use wallet_unit_poc::size_format::format_size;

fn reference_size(bytes: u64) -> String {
    if bytes < 1024 {
        format!("{} B", bytes)
    } else if bytes < 1024 * 1024 {
        format!("{:.2} KB", bytes as f64 / 1024.0)
    } else {
        format!("{:.2} MB", bytes as f64 / (1024.0 * 1024.0))
    }
}

fn reference_table(m: &Rs256Measures) -> Vec<String> {
    vec![
        format!("\n╔════════════════════════════════════════════════╗"),
        format!("║         RS256 BENCHMARK RESULTS                ║"),
        format!("╠════════════════════════════════════════════════╣"),
        format!("║ TIMING                                         ║"),
        format!("╠════════════════════════════════════════════════╣"),
        format!("║ Witness Gen:              {:>10} ms        ║", m.witness_gen_ms),
        format!("║ Setup:                    {:>10} ms        ║", m.setup_ms),
        format!("║ Prove:                    {:>10} ms        ║", m.prove_ms),
        format!("║ Verify:                   {:>10} ms        ║", m.verify_ms),
        format!("╠════════════════════════════════════════════════╣"),
        format!("║ SIZES                                          ║"),
        format!("╠════════════════════════════════════════════════╣"),
        format!("║ Proving Key:               {:>12}        ║", reference_size(m.proving_key_bytes)),
        format!("║ Verifying Key:             {:>12}        ║", reference_size(m.verifying_key_bytes)),
        format!("║ Proof:                     {:>12}        ║", reference_size(m.proof_bytes)),
        format!("║ Witness:                   {:>12}        ║", reference_size(m.witness_bytes)),
        format!("╚════════════════════════════════════════════════╝\n"),
    ]
}

#[test]
fn rs256_results_table_matches_the_printed_layout() {
    let m = Rs256Measures {
        witness_gen_ms: 1234,
        setup_ms: 98765,
        prove_ms: 12345678901,
        verify_ms: 7,
        proving_key_bytes: 123_456_789,
        verifying_key_bytes: 2048,
        proof_bytes: 1000,
        witness_bytes: 10 * 1024 * 1024 * 1024,
    };
    assert_eq!(rs256_results(&m), reference_table(&m));
}

#[test]
fn rs256_results_pad_short_values() {
    let m = Rs256Measures {
        witness_gen_ms: 0,
        setup_ms: 1,
        prove_ms: 22,
        verify_ms: 333,
        proving_key_bytes: 0,
        verifying_key_bytes: 1,
        proof_bytes: 1536,
        witness_bytes: 1024 * 1024,
    };
    let t = rs256_results(&m);
    assert_eq!(t[5], "║ Witness Gen:                       0 ms        ║");
    assert_eq!(t[13], format!("║ Verifying Key:             {:>12}        ║", "1 B"));
    assert_eq!(t[14], format!("║ Proof:                     {:>12}        ║", format_size(1536)));
    assert_eq!(t, reference_table(&m));
}

#[test]
fn rs256_banner_upper_cases_the_circuit() {
    let b = rs256_banner("sha256rsa4096");
    assert_eq!(b.len(), 3);
    assert_eq!(b[0], "\n╔════════════════════════════════════════════════╗");
    assert_eq!(b[1], "║  SHA256RSA4096 BENCHMARK PIPELINE  ║");
    assert_eq!(b[2], "╚════════════════════════════════════════════════╝\n");
    assert_eq!(rs256_banner("straße")[1], format!("║  {} BENCHMARK PIPELINE  ║", "straße".to_uppercase()));
}

use wallet_unit_poc::cli::{
    parse_args, parse_circuit_command, parse_command, parse_generate_input_args, parse_input_arg,
    generate_input_mode, parse_options, parse_usize, requests_generate_input, BenchArgsError, BenchRequest,
    GenerateInputMode,
    CircuitAction, CommandRequest, GenerateInputRequest, OptionsRequest,
};

fn args(v: &[&str]) -> Vec<String> {
    v.iter().map(|s| s.to_string()).collect()
}

fn command(v: &[&str]) -> (CircuitAction, Option<String>, bool) {
    match parse_command(&args(v)) {
        Ok(CommandRequest::Command(c)) => (c.action, c.options.input, c.options.fido),
        Ok(CommandRequest::Help) => panic!("unexpected help"),
        Err(e) => panic!("unexpected error {e}"),
    }
}

fn command_error(v: &[&str]) -> String {
    match parse_command(&args(v)) {
        Err(e) => e,
        Ok(_) => panic!("expected an error"),
    }
}

#[test]
fn parse_command_without_arguments_is_refused() {
    assert_eq!(command_error(&[]), "No command provided");
}

#[test]
fn parse_command_help() {
    assert!(matches!(parse_command(&args(&["--help"])), Ok(CommandRequest::Help)));
    assert!(matches!(parse_command(&args(&["-h"])), Ok(CommandRequest::Help)));
}

#[test]
fn parse_command_unknown_command() {
    assert_eq!(command_error(&["frobnicate"]), "Unknown command 'frobnicate'");
}

#[test]
fn parse_command_bare_rs256_runs() {
    assert_eq!(command(&["rs256"]), (CircuitAction::Run, None, false));
}

#[test]
fn parse_command_each_action() {
    assert_eq!(command(&["rs256", "run"]).0, CircuitAction::Run);
    assert_eq!(command(&["rs256", "setup"]).0, CircuitAction::Setup);
    assert_eq!(command(&["rs256", "prove"]).0, CircuitAction::Prove);
    assert_eq!(command(&["rs256", "verify"]).0, CircuitAction::Verify);
    assert_eq!(command(&["rs256", "benchmark"]).0, CircuitAction::Benchmark);
}

#[test]
fn parse_command_options() {
    assert_eq!(
        command(&["rs256", "setup", "--input", "a.json", "--fido"]),
        (CircuitAction::Setup, Some("a.json".to_string()), true)
    );
    assert_eq!(
        command(&["rs256", "prove", "--input=x.json", "-f"]),
        (CircuitAction::Prove, Some("x.json".to_string()), true)
    );
    assert_eq!(
        command(&["rs256", "verify", "-i", "first.json", "--input", "second.json"]),
        (CircuitAction::Verify, Some("second.json".to_string()), false)
    );
}

#[test]
fn parse_command_options_without_action_run() {
    assert_eq!(
        command(&["rs256", "--fido", "--input", "in.json"]),
        (CircuitAction::Run, Some("in.json".to_string()), true)
    );
}

#[test]
fn parse_command_unknown_action() {
    assert_eq!(
        command_error(&["rs256", "jump"]),
        "Unknown action 'jump'. Expected one of run|setup|prove|verify|benchmark."
    );
}

#[test]
fn parse_command_missing_input_value() {
    assert_eq!(command_error(&["rs256", "verify", "--input"]), "Missing value for --input");
    assert_eq!(command_error(&["rs256", "verify", "--input="]), "Missing value for --input");
}

#[test]
fn parse_command_unknown_option() {
    assert_eq!(command_error(&["rs256", "run", "--bogus"]), "Unknown option '--bogus'");
}

#[test]
fn parse_command_help_after_action() {
    assert!(matches!(
        parse_command(&args(&["rs256", "benchmark", "-h"])),
        Ok(CommandRequest::Help)
    ));
}

#[test]
fn parse_circuit_command_empty_tail_runs() {
    match parse_circuit_command(&[]) {
        Ok(CommandRequest::Command(c)) => {
            assert_eq!(c.action, CircuitAction::Run);
            assert_eq!(c.options.input, None);
            assert!(!c.options.fido);
        }
        _ => panic!("expected a command"),
    }
}

#[test]
fn parse_options_reads_flags() {
    match parse_options(&args(&["--input", "p.json", "--fido"])) {
        Ok(OptionsRequest::Options(o)) => {
            assert_eq!(o.input, Some("p.json".to_string()));
            assert!(o.fido);
        }
        _ => panic!("expected options"),
    }
    assert!(matches!(parse_options(&args(&["--help"])), Ok(OptionsRequest::Help)));
}

#[test]
fn requests_generate_input_finds_the_word() {
    assert!(requests_generate_input(&args(&["rs256", "generate-input"])));
    assert!(!requests_generate_input(&args(&["rs256", "prove"])));
    assert!(!requests_generate_input(&[]));
}

#[test]
fn generate_input_defaults() {
    match parse_generate_input_args(&args(&["rs256", "generate-input"])) {
        Ok(GenerateInputRequest::Options(o)) => {
            assert_eq!(o.tbs, None);
            assert_eq!(o.pin, None);
            assert_eq!(o.hipki_server, None);
            assert_eq!(o.smt_server, None);
            assert_eq!(o.issuer, "g2");
            assert_eq!(o.output, "../circom/inputs/sha256rsa2048/input.json");
            assert!(!o.fido);
        }
        _ => panic!("expected options"),
    }
}

#[test]
fn generate_input_all_options() {
    let a = args(&[
        "rs256",
        "generate-input",
        "--tbs",
        "123456",
        "--pin",
        "830929",
        "--hipki-server",
        "http://localhost:1",
        "--smt-server",
        "http://smt",
        "--issuer",
        "g3",
        "-o",
        "out.json",
        "--fido",
    ]);
    match parse_generate_input_args(&a) {
        Ok(GenerateInputRequest::Options(o)) => {
            assert_eq!(o.tbs, Some("123456".to_string()));
            assert_eq!(o.pin, Some("830929".to_string()));
            assert_eq!(o.hipki_server, Some("http://localhost:1".to_string()));
            assert_eq!(o.smt_server, Some("http://smt".to_string()));
            assert_eq!(o.issuer, "g3");
            assert_eq!(o.output, "out.json");
            assert!(o.fido);
        }
        _ => panic!("expected options"),
    }
}

#[test]
fn generate_input_errors() {
    match parse_generate_input_args(&args(&["rs256", "generate-input", "--pin"])) {
        Err(e) => assert_eq!(e, "Missing value for --pin"),
        Ok(_) => panic!("expected an error"),
    }
    match parse_generate_input_args(&args(&["rs256", "generate-input", "--output"])) {
        Err(e) => assert_eq!(e, "Missing value for --output"),
        Ok(_) => panic!("expected an error"),
    }
    match parse_generate_input_args(&args(&["rs256", "generate-input", "--x"])) {
        Err(e) => assert_eq!(e, "Unknown flag for generate-input: --x"),
        Ok(_) => panic!("expected an error"),
    }
    assert!(matches!(
        parse_generate_input_args(&args(&["rs256", "generate-input", "-h"])),
        Ok(GenerateInputRequest::Help)
    ));
}

#[test]
fn parse_input_arg_takes_first_input_after_command() {
    assert_eq!(
        parse_input_arg(&args(&["prog", "prove", "--input", "a.json", "--input", "b.json"])),
        Some("a.json".to_string())
    );
    assert_eq!(parse_input_arg(&args(&["prog", "prove"])), None);
    assert_eq!(parse_input_arg(&args(&["prog", "prove", "--input"])), None);
    assert_eq!(parse_input_arg(&args(&["--input", "x", "setup"])), None);
}

#[test]
fn parse_usize_like_std() {
    for s in ["0", "42", "+7", "18446744073709551615", "", "+", "-1", "12a", "18446744073709551616", " 1"] {
        assert_eq!(parse_usize(s), s.parse::<usize>().ok(), "{s}");
    }
    assert_eq!(parse_usize("42"), Some(42));
    assert_eq!(parse_usize("+7"), Some(7));
    assert_eq!(parse_usize("-1"), None);
}

#[test]
fn bench_args_complete() {
    let raw = args(&[
        "bench_show", "--name", "cfg", "--n-claims", "4", "--input", "in.json", "--output",
        "out.json",
    ]);
    match parse_args(&raw) {
        Ok(BenchRequest::Args(a)) => {
            assert_eq!(a.name, "cfg");
            assert_eq!(a.n_claims, 4);
            assert_eq!(a.input, "in.json");
            assert_eq!(a.output, "out.json");
            assert_eq!(a.r1cs, "../circom/build/show/show_js/show.r1cs");
        }
        _ => panic!("expected arguments"),
    }
}

#[test]
fn bench_args_r1cs_override() {
    let raw = args(&[
        "bench_show", "--r1cs", "x.r1cs", "--name", "n", "--n-claims", "1", "--input", "i",
        "--output", "o",
    ]);
    match parse_args(&raw) {
        Ok(BenchRequest::Args(a)) => assert_eq!(a.r1cs, "x.r1cs"),
        _ => panic!("expected arguments"),
    }
}

#[test]
fn bench_args_errors() {
    assert!(matches!(
        parse_args(&args(&["bench_show", "--name"])),
        Err(BenchArgsError::MissingValue(f)) if f == "--name"
    ));
    assert!(matches!(
        parse_args(&args(&["bench_show", "--n-claims", "many"])),
        Err(BenchArgsError::InvalidClaims)
    ));
    assert!(matches!(
        parse_args(&args(&["bench_show", "--verbose"])),
        Err(BenchArgsError::UnknownArgument(a)) if a == "--verbose"
    ));
    assert!(matches!(
        parse_args(&args(&["bench_show", "--name", "n", "--n-claims", "2"])),
        Err(BenchArgsError::MissingRequired)
    ));
    assert!(matches!(
        parse_args(&args(&["bench_show", "--name", "n", "--input", "i", "--output", "o"])),
        Err(BenchArgsError::ZeroClaims)
    ));
    assert!(matches!(parse_args(&args(&["bench_show", "-h"])), Ok(BenchRequest::Help)));
}

#[test]
fn generate_input_mode_choice() {
    let mode = |v: &[&str]| match parse_generate_input_args(&args(v)) {
        Ok(GenerateInputRequest::Options(o)) => generate_input_mode(&o),
        _ => panic!("expected options"),
    };
    assert_eq!(mode(&["rs256", "generate-input"]), GenerateInputMode::Bundled);
    assert_eq!(mode(&["rs256", "generate-input", "--fido"]), GenerateInputMode::Fido);
    assert_eq!(mode(&["rs256", "generate-input", "--tbs", "1", "--pin", "2", "--fido"]), GenerateInputMode::Live);
    assert_eq!(mode(&["rs256", "generate-input", "--tbs", "1", "--fido"]), GenerateInputMode::Fido);
    assert_eq!(mode(&["rs256", "generate-input", "--pin", "2"]), GenerateInputMode::Bundled);
}

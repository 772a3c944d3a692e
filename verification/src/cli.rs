//! Command-line parsing for the RS256 prover (`rs256 <action> [options]`,
//! `rs256 generate-input [options]`) and the SLH-DSA prover
//! (`<command> --input <path>`).
//!
//! Parsing gives a request; printing usage and exiting stay with the
//! program that runs the parser.
use vstd::prelude::*;
use vstd::string::{StrSliceExecFns, StringExecFns};
use crate::text::{starts_with_char, str_eq, strip_prefix};

verus! {

pub open spec fn strings_view(v: Seq<String>) -> Seq<Seq<char>> {
    v.map_values(|s: String| s@)
}

pub open spec fn opt_view(o: Option<String>) -> Option<Seq<char>> {
    match o {
        Some(s) => Some(s@),
        None => None,
    }
}

// ---------------------------------------------------------------------------
// rs256 <action> [options]
// ---------------------------------------------------------------------------

#[derive(Clone, Copy, Debug, PartialEq, Eq, Structural)]
pub enum CircuitAction {
    Run,
    Setup,
    Prove,
    Verify,
    Benchmark,
}

/// Options of an action: an input JSON to use, and the RSA-4096 (FIDO)
/// circuit in place of the RSA-2048 one.
pub struct CommandOptions {
    pub input: Option<String>,
    pub fido: bool,
}

pub struct ParsedCommand {
    pub action: CircuitAction,
    pub options: CommandOptions,
}

/// What the options ask for: to run with them, or to print the usage.
pub enum OptionsRequest {
    Options(CommandOptions),
    Help,
}

/// What the command line asks for: an action, or the usage.
pub enum CommandRequest {
    Command(ParsedCommand),
    Help,
}

pub enum RequestModel {
    /// An action with its input (if any) and whether FIDO mode is on.
    Command(CircuitAction, Option<Seq<char>>, bool),
    Help,
}

pub open spec fn options_request_view(r: Result<OptionsRequest, String>) -> Result<RequestModel, Seq<char>> {
    match r {
        Ok(OptionsRequest::Options(o)) => Ok(RequestModel::Command(CircuitAction::Run, opt_view(o.input), o.fido)),
        Ok(OptionsRequest::Help) => Ok(RequestModel::Help),
        Err(e) => Err(e@),
    }
}

pub open spec fn command_request_view(r: Result<CommandRequest, String>) -> Result<RequestModel, Seq<char>> {
    match r {
        Ok(CommandRequest::Command(c)) => Ok(RequestModel::Command(c.action, opt_view(c.options.input), c.options.fido)),
        Ok(CommandRequest::Help) => Ok(RequestModel::Help),
        Err(e) => Err(e@),
    }
}

pub open spec fn missing_input_text() -> Seq<char> {
    "Missing value for --input"@
}

/// Reads options from `args[i..]`, with `input` and `fido` set so far. The
/// action in a result is a placeholder (`Run`): options carry no action.
/// A later `--input` replaces an earlier one.
pub open spec fn options_from(args: Seq<Seq<char>>, i: nat, input: Option<Seq<char>>, fido: bool) -> Result<
    RequestModel,
    Seq<char>,
>
    decreases args.len() - i,
{
    if i >= args.len() {
        Ok(RequestModel::Command(CircuitAction::Run, input, fido))
    } else {
        let a = args[i as int];
        if a == "--input"@ || a == "-i"@ {
            if i + 1 < args.len() {
                options_from(args, i + 2, Some(args[i + 1 as int]), fido)
            } else {
                Err(missing_input_text())
            }
        } else if a.len() >= 8 && a.take(8) == "--input="@ {
            if a.skip(8).len() == 0 {
                Err(missing_input_text())
            } else {
                options_from(args, i + 1, Some(a.skip(8)), fido)
            }
        } else if a == "--fido"@ || a == "-f"@ {
            options_from(args, i + 1, input, true)
        } else if a == "--help"@ || a == "-h"@ {
            Ok(RequestModel::Help)
        } else {
            Err("Unknown option '"@ + a + "'"@)
        }
    }
}

/// Parses the options of an action.
pub fn parse_options(args: &[String]) -> (r: Result<OptionsRequest, String>)
    ensures
        options_request_view(r) == options_from(strings_view(args@), 0, None, false),
{
    let ghost sv = strings_view(args@);
    let mut input: Option<String> = None;
    let mut fido = false;
    let mut index: usize = 0;
    while index < args.len()
        invariant
            sv == strings_view(args@),
            index <= args@.len() + 1,
            options_from(sv, 0, None, false) == options_from(sv, index as nat, opt_view(input), fido),
        decreases args@.len() + 1 - index,
    {
        let arg = args[index].as_str();
        assert(arg@ == sv[index as int]);
        let prefixed = strip_prefix(arg, "--input=");
        proof {
            reveal_strlit("--input=");
            if arg@.len() >= 8 {
                assert(has_prefix_eq(arg@));
            }
        }
        if str_eq(arg, "--input") || str_eq(arg, "-i") {
            index = index + 1;
            if index >= args.len() {
                return Err(String::from_str("Missing value for --input"));
            }
            input = Some(args[index].clone());
            assert(opt_view(input) == Some(sv[index as int]));
        } else if prefixed.is_some() {
            let value = prefixed.unwrap();
            if value.unicode_len() == 0 {
                return Err(String::from_str("Missing value for --input"));
            }
            input = Some(String::from_str(value));
        } else if str_eq(arg, "--fido") || str_eq(arg, "-f") {
            fido = true;
        } else if str_eq(arg, "--help") || str_eq(arg, "-h") {
            return Ok(OptionsRequest::Help);
        } else {
            let mut msg = String::from_str("Unknown option '");
            msg.append(arg);
            msg.append("'");
            return Err(msg);
        }
        index = index + 1;
    }
    Ok(OptionsRequest::Options(CommandOptions { input, fido }))
}

/// Both ways of writing "starts with `--input=`" agree.
spec fn has_prefix_eq(a: Seq<char>) -> bool {
    crate::text::has_prefix(a, "--input="@) <==> (a.len() >= 8 && a.take(8) == "--input="@)
}

/// The action a first word names, and where the options start.
pub open spec fn action_of(first: Seq<char>) -> Option<(CircuitAction, nat)> {
    if first == "run"@ {
        Some((CircuitAction::Run, 1))
    } else if first == "setup"@ {
        Some((CircuitAction::Setup, 1))
    } else if first == "prove"@ {
        Some((CircuitAction::Prove, 1))
    } else if first == "verify"@ {
        Some((CircuitAction::Verify, 1))
    } else if first == "benchmark"@ {
        Some((CircuitAction::Benchmark, 1))
    } else if first.len() > 0 && first[0] == '-' {
        Some((CircuitAction::Run, 0))
    } else {
        None
    }
}

/// `rs256 <tail>`: an action word (or options only, meaning `run`), then
/// options.
pub open spec fn circuit_command(tail: Seq<Seq<char>>) -> Result<RequestModel, Seq<char>> {
    if tail.len() == 0 {
        Ok(RequestModel::Command(CircuitAction::Run, None, false))
    } else {
        match action_of(tail[0]) {
            None => Err(
                "Unknown action '"@ + tail[0]
                    + "'. Expected one of run|setup|prove|verify|benchmark."@,
            ),
            Some((action, start)) => match options_from(tail.skip(start as int), 0, None, false) {
                Err(e) => Err(e),
                Ok(RequestModel::Help) => Ok(RequestModel::Help),
                Ok(RequestModel::Command(_, input, fido)) => Ok(
                    RequestModel::Command(action, input, fido),
                ),
            },
        }
    }
}

/// The whole command line after the program name.
pub open spec fn command(args: Seq<Seq<char>>) -> Result<RequestModel, Seq<char>> {
    if args.len() == 0 {
        Err("No command provided"@)
    } else if args[0] == "-h"@ || args[0] == "--help"@ {
        Ok(RequestModel::Help)
    } else if args[0] == "rs256"@ {
        circuit_command(args.skip(1))
    } else {
        Err("Unknown command '"@ + args[0] + "'"@)
    }
}

/// Parses `rs256 <action> [options]` after the command word.
pub fn parse_circuit_command(tail: &[String]) -> (r: Result<CommandRequest, String>)
    ensures
        command_request_view(r) == circuit_command(strings_view(tail@)),
{
    if tail.len() == 0 {
        return Ok(
            CommandRequest::Command(
                ParsedCommand {
                    action: CircuitAction::Run,
                    options: CommandOptions { input: None, fido: false },
                },
            ),
        );
    }
    let first = tail[0].as_str();
    assert(first@ == strings_view(tail@)[0]);
    let (action, option_start): (CircuitAction, usize) = if str_eq(first, "run") {
        (CircuitAction::Run, 1)
    } else if str_eq(first, "setup") {
        (CircuitAction::Setup, 1)
    } else if str_eq(first, "prove") {
        (CircuitAction::Prove, 1)
    } else if str_eq(first, "verify") {
        (CircuitAction::Verify, 1)
    } else if str_eq(first, "benchmark") {
        (CircuitAction::Benchmark, 1)
    } else if starts_with_char(first, '-') {
        (CircuitAction::Run, 0)
    } else {
        let mut msg = String::from_str("Unknown action '");
        msg.append(first);
        msg.append("'. Expected one of run|setup|prove|verify|benchmark.");
        return Err(msg);
    };
    let rest = &tail[option_start..tail.len()];
    assert(strings_view(rest@) =~= strings_view(tail@).skip(option_start as int));
    match parse_options(rest) {
        Err(e) => Err(e),
        Ok(OptionsRequest::Help) => Ok(CommandRequest::Help),
        Ok(OptionsRequest::Options(options)) => Ok(
            CommandRequest::Command(ParsedCommand { action, options }),
        ),
    }
}

/// Parses the command line after the program name: `rs256 ...`, or a
/// request for the usage.
pub fn parse_command(args: &[String]) -> (r: Result<CommandRequest, String>)
    ensures
        command_request_view(r) == command(strings_view(args@)),
{
    if args.len() == 0 {
        return Err(String::from_str("No command provided"));
    }
    let first = args[0].as_str();
    assert(first@ == strings_view(args@)[0]);
    if str_eq(first, "-h") || str_eq(first, "--help") {
        Ok(CommandRequest::Help)
    } else if str_eq(first, "rs256") {
        let rest = &args[1..args.len()];
        assert(strings_view(rest@) =~= strings_view(args@).skip(1));
        parse_circuit_command(rest)
    } else {
        let mut msg = String::from_str("Unknown command '");
        msg.append(first);
        msg.append("'");
        Err(msg)
    }
}

// ---------------------------------------------------------------------------
// rs256 generate-input [options]
// ---------------------------------------------------------------------------

/// Whether the command line asks for input generation.
pub fn requests_generate_input(args: &[String]) -> (r: bool)
    ensures
        r == strings_view(args@).contains("generate-input"@),
{
    let ghost sv = strings_view(args@);
    let mut i: usize = 0;
    while i < args.len()
        invariant
            sv == strings_view(args@),
            i <= args@.len(),
            forall|j: int| 0 <= j < i ==> sv[j] != "generate-input"@,
        decreases args@.len() - i,
    {
        if str_eq(args[i].as_str(), "generate-input") {
            assert(sv[i as int] == "generate-input"@);
            return true;
        }
        i = i + 1;
    }
    false
}

/// Options of `generate-input`. `hipki_server` is `None` when the default
/// server is meant.
pub struct GenerateInputOptions {
    pub tbs: Option<String>,
    pub pin: Option<String>,
    pub hipki_server: Option<String>,
    pub smt_server: Option<String>,
    pub issuer: String,
    pub output: String,
    pub fido: bool,
}

pub struct GenerateInputModel {
    pub tbs: Option<Seq<char>>,
    pub pin: Option<Seq<char>>,
    pub hipki_server: Option<Seq<char>>,
    pub smt_server: Option<Seq<char>>,
    pub issuer: Seq<char>,
    pub output: Seq<char>,
    pub fido: bool,
}

pub open spec fn generate_input_view(o: GenerateInputOptions) -> GenerateInputModel {
    GenerateInputModel {
        tbs: opt_view(o.tbs),
        pin: opt_view(o.pin),
        hipki_server: opt_view(o.hipki_server),
        smt_server: opt_view(o.smt_server),
        issuer: o.issuer@,
        output: o.output@,
        fido: o.fido,
    }
}

pub open spec fn default_output() -> Seq<char> {
    "../circom/inputs/sha256rsa2048/input.json"@
}

pub open spec fn generate_input_defaults() -> GenerateInputModel {
    GenerateInputModel {
        tbs: None,
        pin: None,
        hipki_server: None,
        smt_server: None,
        issuer: "g2"@,
        output: default_output(),
        fido: false,
    }
}

pub enum GenerateInputRequest {
    Options(GenerateInputOptions),
    Help,
}

pub enum GenerateInputRequestModel {
    Options(GenerateInputModel),
    Help,
}

pub open spec fn generate_request_view(r: Result<GenerateInputRequest, String>) -> Result<
    GenerateInputRequestModel,
    Seq<char>,
> {
    match r {
        Ok(GenerateInputRequest::Options(o)) => Ok(
            GenerateInputRequestModel::Options(generate_input_view(o)),
        ),
        Ok(GenerateInputRequest::Help) => Ok(GenerateInputRequestModel::Help),
        Err(e) => Err(e@),
    }
}

/// Where `generate-input` takes the signature and certificates from.
#[derive(Clone, Copy, Debug, PartialEq, Eq, Structural)]
pub enum GenerateInputMode {
    /// Sign the TBS data with the card through the HiPKI server (RSA-2048).
    Live,
    /// The bundled FIDO fixtures (RSA-4096).
    Fido,
    /// The bundled default fixtures (RSA-2048).
    Bundled,
}

/// Live mode when both the TBS data and the PIN are given, else the FIDO
/// fixtures when `--fido` is set, else the default fixtures.
pub open spec fn generate_mode_spec(m: GenerateInputModel) -> GenerateInputMode {
    if m.tbs is Some && m.pin is Some {
        GenerateInputMode::Live
    } else if m.fido {
        GenerateInputMode::Fido
    } else {
        GenerateInputMode::Bundled
    }
}

/// The input-generation mode the options ask for.
pub fn generate_input_mode(o: &GenerateInputOptions) -> (r: GenerateInputMode)
    ensures
        r == generate_mode_spec(generate_input_view(*o)),
{
    if o.tbs.is_some() && o.pin.is_some() {
        GenerateInputMode::Live
    } else if o.fido {
        GenerateInputMode::Fido
    } else {
        GenerateInputMode::Bundled
    }
}

/// Law: live mode is chosen exactly when both the TBS data and the PIN are
/// given, whatever `--fido` says; without them, `--fido` alone decides
/// between the FIDO and the default fixtures; nothing else of the options
/// (servers, issuer, output) matters.
pub proof fn law_generate_input_mode(m: GenerateInputModel, m2: GenerateInputModel)
    ensures
        (m.tbs is Some && m.pin is Some) <==> generate_mode_spec(m) == GenerateInputMode::Live,
        !(m.tbs is Some && m.pin is Some) ==> (generate_mode_spec(m) == GenerateInputMode::Fido
            <==> m.fido),
        (m.tbs is Some <==> m2.tbs is Some) && (m.pin is Some <==> m2.pin is Some) && m.fido
            == m2.fido ==> generate_mode_spec(m) == generate_mode_spec(m2),
{
}

/// The flag a value-taking option is reported under, if `a` is one.
pub open spec fn value_flag(a: Seq<char>) -> Option<Seq<char>> {
    if a == "--tbs"@ {
        Some("--tbs"@)
    } else if a == "--pin"@ {
        Some("--pin"@)
    } else if a == "--hipki-server"@ {
        Some("--hipki-server"@)
    } else if a == "--smt-server"@ {
        Some("--smt-server"@)
    } else if a == "--issuer"@ {
        Some("--issuer"@)
    } else if a == "--output"@ || a == "-o"@ {
        Some("--output"@)
    } else {
        None
    }
}

/// `m` with the option named by `flag` set to `v`.
pub open spec fn set_value(m: GenerateInputModel, flag: Seq<char>, v: Seq<char>) -> GenerateInputModel {
    if flag == "--tbs"@ {
        GenerateInputModel { tbs: Some(v), ..m }
    } else if flag == "--pin"@ {
        GenerateInputModel { pin: Some(v), ..m }
    } else if flag == "--hipki-server"@ {
        GenerateInputModel { hipki_server: Some(v), ..m }
    } else if flag == "--smt-server"@ {
        GenerateInputModel { smt_server: Some(v), ..m }
    } else if flag == "--issuer"@ {
        GenerateInputModel { issuer: v, ..m }
    } else {
        GenerateInputModel { output: v, ..m }
    }
}

/// Reads `generate-input` options from `args[i..]`.
pub open spec fn generate_from(args: Seq<Seq<char>>, i: nat, m: GenerateInputModel) -> Result<
    GenerateInputRequestModel,
    Seq<char>,
>
    decreases args.len() - i,
{
    if i >= args.len() {
        Ok(GenerateInputRequestModel::Options(m))
    } else {
        let a = args[i as int];
        match value_flag(a) {
            Some(flag) => if i + 1 < args.len() {
                generate_from(args, i + 2, set_value(m, flag, args[i + 1 as int]))
            } else {
                Err("Missing value for "@ + flag)
            },
            None => if a == "--fido"@ || a == "-f"@ {
                generate_from(args, i + 1, GenerateInputModel { fido: true, ..m })
            } else if a == "--help"@ || a == "-h"@ {
                Ok(GenerateInputRequestModel::Help)
            } else {
                Err("Unknown flag for generate-input: "@ + a)
            },
        }
    }
}

/// The flag name that a value-taking option is reported under.
fn value_flag_exec(a: &str) -> (r: Option<&'static str>)
    ensures
        match value_flag(a@) {
            Some(f) => r matches Some(x) && x@ == f,
            None => r is None,
        },
{
    if str_eq(a, "--tbs") {
        Some("--tbs")
    } else if str_eq(a, "--pin") {
        Some("--pin")
    } else if str_eq(a, "--hipki-server") {
        Some("--hipki-server")
    } else if str_eq(a, "--smt-server") {
        Some("--smt-server")
    } else if str_eq(a, "--issuer") {
        Some("--issuer")
    } else if str_eq(a, "--output") || str_eq(a, "-o") {
        Some("--output")
    } else {
        None
    }
}

/// Parses the options of `generate-input`, which follow the two words
/// `rs256 generate-input`.
pub fn parse_generate_input_args(command_args: &[String]) -> (r: Result<GenerateInputRequest, String>)
    ensures
        generate_request_view(r) == generate_from(
            strings_view(command_args@),
            2,
            generate_input_defaults(),
        ),
{
    let ghost sv = strings_view(command_args@);
    let mut opts = GenerateInputOptions {
        tbs: None,
        pin: None,
        hipki_server: None,
        smt_server: None,
        issuer: String::from_str("g2"),
        output: String::from_str("../circom/inputs/sha256rsa2048/input.json"),
        fido: false,
    };
    let mut i: usize = 2;
    while i < command_args.len()
        invariant
            sv == strings_view(command_args@),
            2 <= i <= command_args@.len() + 2,
            generate_from(sv, 2, generate_input_defaults()) == generate_from(
                sv,
                i as nat,
                generate_input_view(opts),
            ),
        decreases command_args@.len() + 2 - i,
    {
        let arg = command_args[i].as_str();
        assert(arg@ == sv[i as int]);
        match value_flag_exec(arg) {
            Some(flag) => {
                if i + 1 >= command_args.len() {
                    let mut msg = String::from_str("Missing value for ");
                    msg.append(flag);
                    return Err(msg);
                }
                let value = command_args[i + 1].clone();
                assert(value@ == sv[i + 1]);
                let ghost before = generate_input_view(opts);
                if str_eq(flag, "--tbs") {
                    opts.tbs = Some(value);
                } else if str_eq(flag, "--pin") {
                    opts.pin = Some(value);
                } else if str_eq(flag, "--hipki-server") {
                    opts.hipki_server = Some(value);
                } else if str_eq(flag, "--smt-server") {
                    opts.smt_server = Some(value);
                } else if str_eq(flag, "--issuer") {
                    opts.issuer = value;
                } else {
                    opts.output = value;
                }
                assert(generate_input_view(opts) == set_value(before, flag@, sv[i + 1]));
                i = i + 1;
            },
            None => {
                if str_eq(arg, "--fido") || str_eq(arg, "-f") {
                    opts.fido = true;
                } else if str_eq(arg, "--help") || str_eq(arg, "-h") {
                    return Ok(GenerateInputRequest::Help);
                } else {
                    let mut msg = String::from_str("Unknown flag for generate-input: ");
                    msg.append(arg);
                    return Err(msg);
                }
            },
        }
        i = i + 1;
    }
    Ok(GenerateInputRequest::Options(opts))
}

// ---------------------------------------------------------------------------
// slh-dsa-spartan2 <command> [--input <path>]
// ---------------------------------------------------------------------------

/// The first `--input` with a value, looking from `argv[i]` on.
pub open spec fn input_arg_from(argv: Seq<Seq<char>>, i: nat) -> Option<Seq<char>>
    decreases argv.len() - i,
{
    if i >= argv.len() {
        None
    } else if argv[i as int] == "--input"@ && i + 1 < argv.len() {
        Some(argv[i + 1 as int])
    } else {
        input_arg_from(argv, i + 1)
    }
}

/// The value of the first `--input <path>` after the program name and the
/// command (`argv[0]` and `argv[1]`).
pub fn parse_input_arg(argv: &[String]) -> (r: Option<String>)
    ensures
        opt_view(r) == input_arg_from(strings_view(argv@), 2),
{
    let ghost sv = strings_view(argv@);
    let mut i: usize = 2;
    while i < argv.len()
        invariant
            sv == strings_view(argv@),
            2 <= i,
            input_arg_from(sv, 2) == input_arg_from(sv, i as nat),
        decreases argv@.len() + 2 - i,
    {
        assert(argv[i as int]@ == sv[i as int]);
        if str_eq(argv[i].as_str(), "--input") && i + 1 < argv.len() {
            assert(argv[i + 1 as int]@ == sv[i + 1 as int]);
            return Some(argv[i + 1].clone());
        }
        i = i + 1;
    }
    None
}

// ---------------------------------------------------------------------------
// bench_show --name <config> --n-claims <N> --input <path> --output <path> [--r1cs <path>]
// ---------------------------------------------------------------------------

pub open spec fn digit_value(c: char) -> nat {
    (c as u32 - 48) as nat
}

pub open spec fn is_digit(c: char) -> bool {
    '0' <= c <= '9'
}

pub open spec fn all_digits(s: Seq<char>) -> bool {
    forall|i: int| 0 <= i < s.len() ==> is_digit(#[trigger] s[i])
}

/// The number the decimal digits `s` spell.
pub open spec fn digits_value(s: Seq<char>) -> nat
    decreases s.len(),
{
    if s.len() == 0 {
        0
    } else {
        digits_value(s.drop_last()) * 10 + digit_value(s.last())
    }
}

/// What `str::parse::<usize>` gives: an optional `+`, then one or more
/// decimal digits, of a value that fits.
pub open spec fn parse_usize_spec(s: Seq<char>) -> Option<nat> {
    let d = if s.len() > 0 && s[0] == '+' {
        s.skip(1)
    } else {
        s
    };
    if d.len() > 0 && all_digits(d) && digits_value(d) <= usize::MAX {
        Some(digits_value(d))
    } else {
        None
    }
}

proof fn lemma_digits_value_grows(s: Seq<char>, i: int)
    requires
        0 <= i <= s.len(),
    ensures
        digits_value(s) >= digits_value(s.take(i)),
    decreases s.len() - i,
{
    if i < s.len() {
        lemma_digits_value_grows(s, i + 1);
        assert(s.take(i + 1).drop_last() =~= s.take(i));
    } else {
        assert(s.take(i) =~= s);
    }
}

/// Parses a decimal `usize` as `str::parse` does.
pub fn parse_usize(s: &str) -> (r: Option<usize>)
    ensures
        match parse_usize_spec(s@) {
            Some(v) => r == Some(v as usize),
            None => r is None,
        },
{
    let n = s.unicode_len();
    let start: usize = if n > 0 && s.get_char(0) == '+' {
        1
    } else {
        0
    };
    let ghost d = s@.skip(start as int);
    proof {
        if start == 0 {
            assert(d =~= s@);
        }
        assert(d == (if s@.len() > 0 && s@[0] == '+' {
            s@.skip(1)
        } else {
            s@
        }));
    }
    if n - start == 0 {
        return None;
    }
    let mut acc: u128 = 0;
    let mut i: usize = start;
    while i < n
        invariant
            n == s@.len(),
            start <= i <= n,
            d == s@.skip(start as int),
            d == (if s@.len() > 0 && s@[0] == '+' {
                s@.skip(1)
            } else {
                s@
            }),
            all_digits(d.take(i - start)),
            acc == digits_value(d.take(i - start)),
            acc <= usize::MAX,
        decreases n - i,
    {
        let c = s.get_char(i);
        if !('0' <= c && c <= '9') {
            assert(d[i - start] == c);
            assert(!is_digit(d[i - start]));
            assert(!all_digits(d));
            return None;
        }
        let next = acc * 10 + (c as u32 - 48) as u128;
        proof {
            assert(d.take(i - start + 1).drop_last() =~= d.take(i - start));
            assert(d.take(i - start + 1).last() == c);
            assert(all_digits(d.take(i - start + 1))) by {
                assert forall|k: int| 0 <= k < d.take(i - start + 1).len() implies is_digit(
                    #[trigger] d.take(i - start + 1)[k],
                ) by {
                    if k < i - start {
                        assert(d.take(i - start + 1)[k] == d.take(i - start)[k]);
                    }
                }
            }
            assert(digit_value(c) == (c as u32 - 48));
        }
        if next > usize::MAX as u128 {
            proof {
                lemma_digits_value_grows(d, i - start + 1);
            }
            return None;
        }
        acc = next;
        i = i + 1;
    }
    assert(d.take(n - start) =~= d);
    Some(acc as usize)
}

/// Arguments of the Show benchmark.
pub struct BenchArgs {
    pub name: String,
    pub n_claims: usize,
    pub input: String,
    pub output: String,
    pub r1cs: String,
}

pub struct BenchArgsModel {
    pub name: Seq<char>,
    pub n_claims: nat,
    pub input: Seq<char>,
    pub output: Seq<char>,
    pub r1cs: Seq<char>,
}

pub open spec fn bench_args_view(a: BenchArgs) -> BenchArgsModel {
    BenchArgsModel {
        name: a.name@,
        n_claims: a.n_claims as nat,
        input: a.input@,
        output: a.output@,
        r1cs: a.r1cs@,
    }
}

pub enum BenchRequest {
    Args(BenchArgs),
    Help,
}

/// Why the Show benchmark's arguments were refused.
pub enum BenchArgsError {
    /// A flag was last, without its value.
    MissingValue(String),
    /// `--n-claims` is not a decimal `usize`.
    InvalidClaims,
    UnknownArgument(String),
    /// `--name`, `--input` or `--output` is missing or empty.
    MissingRequired,
    ZeroClaims,
}

pub enum BenchErrorModel {
    MissingValue(Seq<char>),
    InvalidClaims,
    UnknownArgument(Seq<char>),
    MissingRequired,
    ZeroClaims,
}

pub enum BenchRequestModel {
    Args(BenchArgsModel),
    Help,
}

pub open spec fn bench_request_view(r: Result<BenchRequest, BenchArgsError>) -> Result<
    BenchRequestModel,
    BenchErrorModel,
> {
    match r {
        Ok(BenchRequest::Args(a)) => Ok(BenchRequestModel::Args(bench_args_view(a))),
        Ok(BenchRequest::Help) => Ok(BenchRequestModel::Help),
        Err(BenchArgsError::MissingValue(f)) => Err(BenchErrorModel::MissingValue(f@)),
        Err(BenchArgsError::InvalidClaims) => Err(BenchErrorModel::InvalidClaims),
        Err(BenchArgsError::UnknownArgument(a)) => Err(BenchErrorModel::UnknownArgument(a@)),
        Err(BenchArgsError::MissingRequired) => Err(BenchErrorModel::MissingRequired),
        Err(BenchArgsError::ZeroClaims) => Err(BenchErrorModel::ZeroClaims),
    }
}

pub open spec fn bench_defaults() -> BenchArgsModel {
    BenchArgsModel {
        name: Seq::empty(),
        n_claims: 0,
        input: Seq::empty(),
        output: Seq::empty(),
        r1cs: "../circom/build/show/show_js/show.r1cs"@,
    }
}

/// The checks made once every argument is read.
pub open spec fn bench_final(m: BenchArgsModel) -> Result<BenchRequestModel, BenchErrorModel> {
    if m.name.len() == 0 || m.input.len() == 0 || m.output.len() == 0 {
        Err(BenchErrorModel::MissingRequired)
    } else if m.n_claims == 0 {
        Err(BenchErrorModel::ZeroClaims)
    } else {
        Ok(BenchRequestModel::Args(m))
    }
}

/// Whether `a` is one of the flags that take a value.
pub open spec fn bench_value_flag(a: Seq<char>) -> bool {
    a == "--name"@ || a == "--n-claims"@ || a == "--input"@ || a == "--output"@ || a == "--r1cs"@
}

/// Reads the Show benchmark's arguments from `raw[i..]`.
pub open spec fn bench_from(raw: Seq<Seq<char>>, i: nat, m: BenchArgsModel) -> Result<
    BenchRequestModel,
    BenchErrorModel,
>
    decreases raw.len() - i,
{
    if i >= raw.len() {
        bench_final(m)
    } else {
        let a = raw[i as int];
        if bench_value_flag(a) {
            if i + 1 >= raw.len() {
                Err(BenchErrorModel::MissingValue(a))
            } else {
                let v = raw[i + 1 as int];
                if a == "--name"@ {
                    bench_from(raw, i + 2, BenchArgsModel { name: v, ..m })
                } else if a == "--n-claims"@ {
                    match parse_usize_spec(v) {
                        Some(n) => bench_from(raw, i + 2, BenchArgsModel { n_claims: n, ..m }),
                        None => Err(BenchErrorModel::InvalidClaims),
                    }
                } else if a == "--input"@ {
                    bench_from(raw, i + 2, BenchArgsModel { input: v, ..m })
                } else if a == "--output"@ {
                    bench_from(raw, i + 2, BenchArgsModel { output: v, ..m })
                } else {
                    bench_from(raw, i + 2, BenchArgsModel { r1cs: v, ..m })
                }
            }
        } else if a == "--help"@ || a == "-h"@ {
            Ok(BenchRequestModel::Help)
        } else {
            Err(BenchErrorModel::UnknownArgument(a))
        }
    }
}

/// Parses the Show benchmark's command line (`raw[0]` is the program).
pub fn parse_args(raw: &[String]) -> (r: Result<BenchRequest, BenchArgsError>)
    ensures
        bench_request_view(r) == bench_from(strings_view(raw@), 1, bench_defaults()),
{
    let ghost sv = strings_view(raw@);
    let mut args = BenchArgs {
        name: String::new(),
        n_claims: 0,
        input: String::new(),
        output: String::new(),
        r1cs: String::from_str("../circom/build/show/show_js/show.r1cs"),
    };
    let mut i: usize = 1;
    while i < raw.len()
        invariant
            sv == strings_view(raw@),
            1 <= i <= raw@.len() + 2,
            bench_from(sv, 1, bench_defaults()) == bench_from(sv, i as nat, bench_args_view(args)),
        decreases raw@.len() + 2 - i,
    {
        let a = raw[i].as_str();
        assert(a@ == sv[i as int]);
        let is_name = str_eq(a, "--name");
        let is_claims = str_eq(a, "--n-claims");
        let is_input = str_eq(a, "--input");
        let is_output = str_eq(a, "--output");
        let is_r1cs = str_eq(a, "--r1cs");
        if is_name || is_claims || is_input || is_output || is_r1cs {
            if i + 1 >= raw.len() {
                return Err(BenchArgsError::MissingValue(String::from_str(a)));
            }
            let v = raw[i + 1].clone();
            assert(v@ == sv[i + 1 as int]);
            if is_name {
                args.name = v;
            } else if is_claims {
                match parse_usize(v.as_str()) {
                    Some(n) => args.n_claims = n,
                    None => {
                        return Err(BenchArgsError::InvalidClaims);
                    },
                }
            } else if is_input {
                args.input = v;
            } else if is_output {
                args.output = v;
            } else {
                args.r1cs = v;
            }
            i = i + 2;
        } else if str_eq(a, "--help") || str_eq(a, "-h") {
            return Ok(BenchRequest::Help);
        } else {
            return Err(BenchArgsError::UnknownArgument(String::from_str(a)));
        }
    }
    if args.name.as_str().unicode_len() == 0 || args.input.as_str().unicode_len() == 0
        || args.output.as_str().unicode_len() == 0 {
        return Err(BenchArgsError::MissingRequired);
    }
    if args.n_claims == 0 {
        return Err(BenchArgsError::ZeroClaims);
    }
    Ok(BenchRequest::Args(args))
}

} // verus!

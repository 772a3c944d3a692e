//! The mobile FIDO flow over two circuits, `cert_chain_rs4096` and
//! `device_sig_rs2048`: key setup, proving, verification and a complete
//! benchmark.
//!
//! Each operation is a run of steps. A `FidoRun` says which step comes
//! next (`next_op`); its caller performs it (witness generation, Spartan2
//! calls, file access, reading the clock) and reports what happened
//! (`record`); when no step is left, `finish` gives the result. The run
//! decides the order of the steps, the files each one uses, how a failure
//! is reported, and how the measurements add up.
use vstd::prelude::*;
use vstd::string::StringExecFns;
use crate::paths::{input_json_suffix, path_join, keys_dir_name, PathConfig};
use crate::size_format::{decimal, format_size_spec, push_decimal};

verus! {

/// Result of proving both circuits: total proving time and total proof size.
pub struct ProofResult {
    pub prove_ms: u64,
    pub proof_size_bytes: u64,
}

/// Result of a complete benchmark: times in milliseconds and sizes in
/// bytes, each summed over both circuits.
pub struct BenchmarkResults {
    pub setup_ms: u64,
    pub prove_ms: u64,
    pub verify_ms: u64,
    pub proving_key_bytes: u64,
    pub verifying_key_bytes: u64,
    pub proof_bytes: u64,
    pub witness_bytes: u64,
}

impl BenchmarkResults {
    /// Formats a byte count as `"N B"`, `"x.xx KB"` or `"x.xx MB"`.
    pub fn format_size(bytes: u64) -> (s: String)
        ensures
            s@ == format_size_spec(bytes as nat),
    {
        crate::size_format::format_size(bytes)
    }
}

/// What went wrong in a proof operation.
pub enum ZkProofError {
    FileNotFound { msg: String },
    ProofGenerationFailed { msg: String },
    VerificationFailed { msg: String },
    InvalidInput { msg: String },
    SetupRequired { msg: String },
    IoError { msg: String },
}

/// The kind of a `ZkProofError`.
#[derive(Clone, Copy, Debug, PartialEq, Eq, Structural)]
pub enum ZkErrorKind {
    FileNotFound,
    ProofGenerationFailed,
    VerificationFailed,
    InvalidInput,
    SetupRequired,
    IoError,
}

/// An error as its kind and message.
pub open spec fn zk_view(e: ZkProofError) -> (ZkErrorKind, Seq<char>) {
    match e {
        ZkProofError::FileNotFound { msg } => (ZkErrorKind::FileNotFound, msg@),
        ZkProofError::ProofGenerationFailed { msg } => (ZkErrorKind::ProofGenerationFailed, msg@),
        ZkProofError::VerificationFailed { msg } => (ZkErrorKind::VerificationFailed, msg@),
        ZkProofError::InvalidInput { msg } => (ZkErrorKind::InvalidInput, msg@),
        ZkProofError::SetupRequired { msg } => (ZkErrorKind::SetupRequired, msg@),
        ZkProofError::IoError { msg } => (ZkErrorKind::IoError, msg@),
    }
}

/// The text that introduces each kind of error.
pub open spec fn zk_prefix(k: ZkErrorKind) -> Seq<char> {
    match k {
        ZkErrorKind::FileNotFound => "File not found: "@,
        ZkErrorKind::ProofGenerationFailed => "Proof generation failed: "@,
        ZkErrorKind::VerificationFailed => "Verification failed: "@,
        ZkErrorKind::InvalidInput => "Invalid input: "@,
        ZkErrorKind::SetupRequired => "Setup required: "@,
        ZkErrorKind::IoError => "IO error: "@,
    }
}

impl ZkProofError {
    /// Builds an error of the given kind.
    pub fn new(kind: ZkErrorKind, msg: String) -> (e: Self)
        ensures
            zk_view(e) == (kind, msg@),
    {
        match kind {
            ZkErrorKind::FileNotFound => ZkProofError::FileNotFound { msg },
            ZkErrorKind::ProofGenerationFailed => ZkProofError::ProofGenerationFailed { msg },
            ZkErrorKind::VerificationFailed => ZkProofError::VerificationFailed { msg },
            ZkErrorKind::InvalidInput => ZkProofError::InvalidInput { msg },
            ZkErrorKind::SetupRequired => ZkProofError::SetupRequired { msg },
            ZkErrorKind::IoError => ZkProofError::IoError { msg },
        }
    }

    pub fn kind(&self) -> (k: ZkErrorKind)
        ensures
            k == zk_view(*self).0,
    {
        match self {
            ZkProofError::FileNotFound { .. } => ZkErrorKind::FileNotFound,
            ZkProofError::ProofGenerationFailed { .. } => ZkErrorKind::ProofGenerationFailed,
            ZkProofError::VerificationFailed { .. } => ZkErrorKind::VerificationFailed,
            ZkProofError::InvalidInput { .. } => ZkErrorKind::InvalidInput,
            ZkProofError::SetupRequired { .. } => ZkErrorKind::SetupRequired,
            ZkProofError::IoError { .. } => ZkErrorKind::IoError,
        }
    }

    /// The error's text: its kind's prefix, then its message.
    pub fn message(&self) -> (s: String)
        ensures
            s@ == zk_prefix(zk_view(*self).0) + zk_view(*self).1,
    {
        let (mut s, msg) = match self {
            ZkProofError::FileNotFound { msg } => (String::from_str("File not found: "), msg),
            ZkProofError::ProofGenerationFailed { msg } => (
                String::from_str("Proof generation failed: "),
                msg,
            ),
            ZkProofError::VerificationFailed { msg } => (
                String::from_str("Verification failed: "),
                msg,
            ),
            ZkProofError::InvalidInput { msg } => (String::from_str("Invalid input: "), msg),
            ZkProofError::SetupRequired { msg } => (String::from_str("Setup required: "), msg),
            ZkProofError::IoError { msg } => (String::from_str("IO error: "), msg),
        };
        s.append(msg.as_str());
        s
    }
}

/// The path configuration of the mobile app for its documents directory.
pub fn make_config(documents_path: &str) -> (c: PathConfig)
    ensures
        c.base_dir@ == documents_path@,
{
    PathConfig::mobile(documents_path)
}

/// The greeting used to check the mobile bindings.
pub fn mopro_hello_world() -> (s: String)
    ensures
        s@ == "Hello, World!"@,
{
    String::from_str("Hello, World!")
}

/// The two circuits of the FIDO flow.
#[derive(Clone, Copy, Debug, PartialEq, Eq, Structural)]
pub enum FidoCircuit {
    /// The RSA-4096 certificate chain check.
    CertChainRs4096,
    /// The RSA-2048 device signature check.
    DeviceSigRs2048,
}

/// The files a circuit's steps read and write.
#[derive(Clone, Copy, Debug, PartialEq, Eq, Structural)]
pub enum FidoArtifact {
    ProvingKey,
    VerifyingKey,
    Proof,
    Witness,
    Instance,
}

/// The timings a run keeps.
#[derive(Clone, Copy, Debug, PartialEq, Eq, Structural)]
pub enum FidoTiming {
    Setup,
    Prove,
    Verify,
}

pub open spec fn circuit_name(c: FidoCircuit) -> Seq<char> {
    match c {
        FidoCircuit::CertChainRs4096 => "cert_chain_rs4096"@,
        FidoCircuit::DeviceSigRs2048 => "device_sig_rs2048"@,
    }
}

/// The short name that the error texts use.
pub open spec fn circuit_short_name(c: FidoCircuit) -> Seq<char> {
    match c {
        FidoCircuit::CertChainRs4096 => "cert_chain"@,
        FidoCircuit::DeviceSigRs2048 => "device_sig"@,
    }
}

pub open spec fn artifact_suffix(a: FidoArtifact) -> Seq<char> {
    match a {
        FidoArtifact::ProvingKey => "_proving.key"@,
        FidoArtifact::VerifyingKey => "_verifying.key"@,
        FidoArtifact::Proof => "_proof.bin"@,
        FidoArtifact::Witness => "_witness.bin"@,
        FidoArtifact::Instance => "_instance.bin"@,
    }
}

pub open spec fn file_name(c: FidoCircuit, a: FidoArtifact) -> Seq<char> {
    circuit_name(c) + artifact_suffix(a)
}

/// Where a circuit's artifact lives under the base directory `base`.
pub open spec fn artifact_location(base: Seq<char>, c: FidoCircuit, a: FidoArtifact) -> Seq<char> {
    path_join(path_join(base, keys_dir_name()), file_name(c, a))
}

impl FidoCircuit {
    pub fn name(&self) -> (s: &'static str)
        ensures
            s@ == circuit_name(*self),
    {
        match self {
            FidoCircuit::CertChainRs4096 => "cert_chain_rs4096",
            FidoCircuit::DeviceSigRs2048 => "device_sig_rs2048",
        }
    }

    pub fn short_name(&self) -> (s: &'static str)
        ensures
            s@ == circuit_short_name(*self),
    {
        match self {
            FidoCircuit::CertChainRs4096 => "cert_chain",
            FidoCircuit::DeviceSigRs2048 => "device_sig",
        }
    }

    /// The file name of one of the circuit's artifacts.
    pub fn file_name(&self, a: FidoArtifact) -> (s: String)
        ensures
            s@ == file_name(*self, a),
    {
        let mut s = String::from_str(self.name());
        let suffix = match a {
            FidoArtifact::ProvingKey => "_proving.key",
            FidoArtifact::VerifyingKey => "_verifying.key",
            FidoArtifact::Proof => "_proof.bin",
            FidoArtifact::Witness => "_witness.bin",
            FidoArtifact::Instance => "_instance.bin",
        };
        s.append(suffix);
        s
    }
}

/// The file names of the certificate-chain circuit.
pub struct CertChainRsa4096;

impl CertChainRsa4096 {
    pub const CIRCUIT_NAME: &'static str = "cert_chain_rs4096";

    pub const PROVING_KEY: &'static str = "cert_chain_rs4096_proving.key";

    pub const VERIFYING_KEY: &'static str = "cert_chain_rs4096_verifying.key";

    pub const PROOF: &'static str = "cert_chain_rs4096_proof.bin";

    pub const WITNESS: &'static str = "cert_chain_rs4096_witness.bin";

    pub const INSTANCE: &'static str = "cert_chain_rs4096_instance.bin";
}

/// The file names of the device-signature circuit.
pub struct DeviceSigRsa2048;

impl DeviceSigRsa2048 {
    pub const CIRCUIT_NAME: &'static str = "device_sig_rs2048";

    pub const PROVING_KEY: &'static str = "device_sig_rs2048_proving.key";

    pub const VERIFYING_KEY: &'static str = "device_sig_rs2048_verifying.key";

    pub const PROOF: &'static str = "device_sig_rs2048_proof.bin";

    pub const WITNESS: &'static str = "device_sig_rs2048_witness.bin";

    pub const INSTANCE: &'static str = "device_sig_rs2048_instance.bin";
}

/// The two input files written into an output directory, one per circuit.
pub struct FidoInputFiles {
    pub cert_chain: String,
    pub device_sig: String,
}

/// The input file of circuit `c` in `output_dir`.
pub open spec fn input_file(output_dir: Seq<char>, c: FidoCircuit) -> Seq<char> {
    path_join(output_dir, circuit_name(c) + input_json_suffix())
}

/// Where input generation writes each circuit's input: `<name>_input.json`
/// in `output_dir`, the files that a prove run reads.
pub fn fido_input_files(output_dir: &str) -> (r: FidoInputFiles)
    ensures
        r.cert_chain@ == input_file(output_dir@, cc()),
        r.device_sig@ == input_file(output_dir@, ds()),
{
    let config = PathConfig::mobile(output_dir);
    FidoInputFiles {
        cert_chain: config.input_json(CertChainRsa4096::CIRCUIT_NAME),
        device_sig: config.input_json(DeviceSigRsa2048::CIRCUIT_NAME),
    }
}

pub open spec fn inputs_written_spec(cert_chain: Seq<char>, device_sig: Seq<char>) -> Seq<char> {
    "Inputs written: cert_chain="@ + cert_chain + ", device_sig="@ + device_sig
}

/// The message input generation ends with.
pub fn inputs_written_text(files: &FidoInputFiles) -> (r: String)
    ensures
        r@ == inputs_written_spec(files.cert_chain@, files.device_sig@),
{
    let mut s = String::from_str("Inputs written: cert_chain=");
    s.append(files.cert_chain.as_str());
    s.append(", device_sig=");
    s.append(files.device_sig.as_str());
    s
}

/// One step of a run.
#[derive(Clone, Copy, Debug, PartialEq, Eq, Structural)]
pub enum FidoOp {
    /// Generate and cache the circuit's witness before any large allocation.
    WarmWitness(FidoCircuit),
    /// Run the Spartan2 setup and save both keys to their files.
    SetupAndSaveKeys(FidoCircuit),
    /// Run the Spartan2 setup, keeping both keys in memory.
    SetupKeys(FidoCircuit),
    /// Save the in-memory keys to their files.
    SaveKeys(FidoCircuit),
    /// Release the in-memory proving key.
    DropProvingKey(FidoCircuit),
    /// Load the proving key from its file.
    LoadProvingKey(FidoCircuit),
    /// Prove with the proving key file; write instance, witness and proof.
    ProveWithKeyFile(FidoCircuit),
    /// Prove with the loaded proving key; write instance, witness and proof.
    ProveWithLoadedKey(FidoCircuit),
    /// Load the proof from its file.
    LoadProof(FidoCircuit),
    /// Verify the proof file against the verifying key file.
    VerifyFiles(FidoCircuit),
    /// Verify the loaded proof against the in-memory verifying key.
    VerifyLoaded(FidoCircuit),
    /// Release the loaded proof.
    DropProof(FidoCircuit),
    /// Start the clock.
    StartClock,
    /// Report the milliseconds since the clock was started.
    ReadClock(FidoCircuit, FidoTiming),
    /// Report the size of an artifact's file.
    FileSize(FidoCircuit, FidoArtifact),
}

/// The four operations of the mobile API.
#[derive(Clone, Copy, Debug, PartialEq, Eq, Structural)]
pub enum FidoMode {
    Setup,
    Prove,
    Verify,
    Benchmark,
}

/// What happened when a step was performed.
pub enum StepEvent {
    Done,
    /// Milliseconds on the clock.
    Elapsed(u128),
    /// A file's size in bytes.
    Size(u64),
    /// The step failed with this message.
    Failed(String),
}

pub open spec fn cc() -> FidoCircuit {
    FidoCircuit::CertChainRs4096
}

pub open spec fn ds() -> FidoCircuit {
    FidoCircuit::DeviceSigRs2048
}

/// A benchmark's steps for one circuit: setup, save and release the proving
/// key, reload it and prove, then load the proof and verify, each phase
/// timed.
pub open spec fn benchmark_circuit_steps(c: FidoCircuit) -> Seq<FidoOp> {
    seq![
        FidoOp::StartClock,
        FidoOp::SetupKeys(c),
        FidoOp::ReadClock(c, FidoTiming::Setup),
        FidoOp::SaveKeys(c),
        FidoOp::DropProvingKey(c),
        FidoOp::StartClock,
        FidoOp::LoadProvingKey(c),
        FidoOp::ProveWithLoadedKey(c),
        FidoOp::ReadClock(c, FidoTiming::Prove),
        FidoOp::DropProvingKey(c),
        FidoOp::LoadProof(c),
        FidoOp::StartClock,
        FidoOp::VerifyLoaded(c),
        FidoOp::ReadClock(c, FidoTiming::Verify),
        FidoOp::DropProof(c),
    ]
}

pub open spec fn benchmark_size_steps(c: FidoCircuit) -> Seq<FidoOp> {
    seq![
        FidoOp::FileSize(c, FidoArtifact::ProvingKey),
        FidoOp::FileSize(c, FidoArtifact::VerifyingKey),
        FidoOp::FileSize(c, FidoArtifact::Proof),
        FidoOp::FileSize(c, FidoArtifact::Witness),
    ]
}

/// The steps of each operation, in order.
pub open spec fn plan(mode: FidoMode) -> Seq<FidoOp> {
    match mode {
        FidoMode::Setup => seq![
            FidoOp::StartClock,
            FidoOp::SetupAndSaveKeys(cc()),
            FidoOp::SetupAndSaveKeys(ds()),
            FidoOp::ReadClock(cc(), FidoTiming::Setup),
        ],
        FidoMode::Prove => seq![
            FidoOp::WarmWitness(cc()),
            FidoOp::WarmWitness(ds()),
            FidoOp::StartClock,
            FidoOp::ProveWithKeyFile(cc()),
            FidoOp::ReadClock(cc(), FidoTiming::Prove),
            FidoOp::StartClock,
            FidoOp::ProveWithKeyFile(ds()),
            FidoOp::ReadClock(ds(), FidoTiming::Prove),
            FidoOp::FileSize(cc(), FidoArtifact::Proof),
            FidoOp::FileSize(ds(), FidoArtifact::Proof),
        ],
        FidoMode::Verify => seq![FidoOp::VerifyFiles(cc()), FidoOp::VerifyFiles(ds())],
        FidoMode::Benchmark => seq![FidoOp::WarmWitness(cc()), FidoOp::WarmWitness(ds())]
            + benchmark_circuit_steps(cc()) + benchmark_circuit_steps(ds())
            + benchmark_size_steps(cc()) + benchmark_size_steps(ds()),
    }
}

/// Whether an event can report on a step: the clock gives milliseconds, a
/// file size a size or a failure, the fallible steps completion or a
/// failure, and the rest completion.
pub open spec fn event_fits(op: FidoOp, ev: StepEvent) -> bool {
    match op {
        FidoOp::ReadClock(_, _) => ev is Elapsed,
        FidoOp::FileSize(_, _) => ev is Size || ev is Failed,
        FidoOp::WarmWitness(_) | FidoOp::SaveKeys(_) | FidoOp::LoadProvingKey(_)
        | FidoOp::LoadProof(_) => ev is Done || ev is Failed,
        _ => ev is Done,
    }
}

/// The error a failed step ends its run with.
pub open spec fn failure_for(base: Seq<char>, op: FidoOp, msg: Seq<char>) -> (ZkErrorKind, Seq<char>) {
    match op {
        FidoOp::WarmWitness(c) => (
            ZkErrorKind::ProofGenerationFailed,
            circuit_name(c) + " witness pre-warm failed: "@ + msg,
        ),
        FidoOp::SaveKeys(c) => (
            ZkErrorKind::IoError,
            "Failed to save "@ + circuit_short_name(c) + " keys: "@ + msg,
        ),
        FidoOp::LoadProvingKey(c) => (
            ZkErrorKind::FileNotFound,
            "Failed to load "@ + circuit_short_name(c) + " proving key: "@ + msg,
        ),
        FidoOp::LoadProof(c) => (
            ZkErrorKind::FileNotFound,
            "Failed to load "@ + circuit_short_name(c) + " proof: "@ + msg,
        ),
        FidoOp::FileSize(c, a) => (
            ZkErrorKind::FileNotFound,
            "Failed to get file size from '"@ + artifact_location(base, c, a) + "': "@ + msg,
        ),
        _ => (ZkErrorKind::IoError, msg),
    }
}

/// What a run has measured for one circuit.
#[derive(Clone, Copy, Debug, PartialEq, Eq, Structural)]
pub struct FidoMeasures {
    pub setup_ms: u128,
    pub prove_ms: u128,
    pub verify_ms: u128,
    pub proving_key_bytes: u64,
    pub verifying_key_bytes: u64,
    pub proof_bytes: u64,
    pub witness_bytes: u64,
}

pub open spec fn zero_measures() -> FidoMeasures {
    FidoMeasures {
        setup_ms: 0,
        prove_ms: 0,
        verify_ms: 0,
        proving_key_bytes: 0,
        verifying_key_bytes: 0,
        proof_bytes: 0,
        witness_bytes: 0,
    }
}

/// `m` with one timing replaced.
pub open spec fn with_timing(m: FidoMeasures, t: FidoTiming, ms: u128) -> FidoMeasures {
    match t {
        FidoTiming::Setup => FidoMeasures { setup_ms: ms, ..m },
        FidoTiming::Prove => FidoMeasures { prove_ms: ms, ..m },
        FidoTiming::Verify => FidoMeasures { verify_ms: ms, ..m },
    }
}

/// `m` with one file size replaced (instances are not measured).
pub open spec fn with_size(m: FidoMeasures, a: FidoArtifact, n: u64) -> FidoMeasures {
    match a {
        FidoArtifact::ProvingKey => FidoMeasures { proving_key_bytes: n, ..m },
        FidoArtifact::VerifyingKey => FidoMeasures { verifying_key_bytes: n, ..m },
        FidoArtifact::Proof => FidoMeasures { proof_bytes: n, ..m },
        FidoArtifact::Witness => FidoMeasures { witness_bytes: n, ..m },
        FidoArtifact::Instance => m,
    }
}

/// The measures after a step reported `ev`, as (certificate chain, device
/// signature).
pub open spec fn measured(cc_m: FidoMeasures, ds_m: FidoMeasures, op: FidoOp, ev: StepEvent) -> (
    FidoMeasures,
    FidoMeasures,
) {
    match (op, ev) {
        (FidoOp::ReadClock(c, t), StepEvent::Elapsed(ms)) => if c == cc() {
            (with_timing(cc_m, t, ms), ds_m)
        } else {
            (cc_m, with_timing(ds_m, t, ms))
        },
        (FidoOp::FileSize(c, a), StepEvent::Size(n)) => if c == cc() {
            (with_size(cc_m, a, n), ds_m)
        } else {
            (cc_m, with_size(ds_m, a, n))
        },
        _ => (cc_m, ds_m),
    }
}

/// What a finished run gives.
pub enum FidoReport {
    /// Both circuits' keys were set up; the text says how long it took.
    KeysReady(String),
    Proved(ProofResult),
    Verified(bool),
    Benchmarked(BenchmarkResults),
}

pub enum FidoReportModel {
    KeysReady(Seq<char>),
    Proved(ProofResult),
    Verified(bool),
    Benchmarked(BenchmarkResults),
}

pub open spec fn report_view(r: FidoReport) -> FidoReportModel {
    match r {
        FidoReport::KeysReady(s) => FidoReportModel::KeysReady(s@),
        FidoReport::Proved(p) => FidoReportModel::Proved(p),
        FidoReport::Verified(b) => FidoReportModel::Verified(b),
        FidoReport::Benchmarked(b) => FidoReportModel::Benchmarked(b),
    }
}

/// Milliseconds as the mobile API reports them (`as_millis() as u64`).
pub open spec fn ms64(ms: u128) -> int {
    (ms as u64) as int
}

/// Whether the totals of a finished run fit in `u64`.
pub open spec fn report_fits(mode: FidoMode, c: FidoMeasures, d: FidoMeasures) -> bool {
    match mode {
        FidoMode::Prove => ms64(c.prove_ms) + ms64(d.prove_ms) <= u64::MAX && c.proof_bytes
            + d.proof_bytes <= u64::MAX,
        FidoMode::Benchmark => {
            &&& ms64(c.setup_ms) + ms64(d.setup_ms) <= u64::MAX
            &&& ms64(c.prove_ms) + ms64(d.prove_ms) <= u64::MAX
            &&& ms64(c.verify_ms) + ms64(d.verify_ms) <= u64::MAX
            &&& c.proving_key_bytes + d.proving_key_bytes <= u64::MAX
            &&& c.verifying_key_bytes + d.verifying_key_bytes <= u64::MAX
            &&& c.proof_bytes + d.proof_bytes <= u64::MAX
            &&& c.witness_bytes + d.witness_bytes <= u64::MAX
        },
        _ => true,
    }
}

pub open spec fn setup_done_text(ms: u128) -> Seq<char> {
    "cert_chain_rs4096 + device_sig_rs2048 keys setup completed in "@ + decimal(ms as nat) + "ms"@
}

/// The result of a run whose steps all succeeded: totals over both circuits.
pub open spec fn report_spec(mode: FidoMode, c: FidoMeasures, d: FidoMeasures) -> FidoReportModel {
    match mode {
        FidoMode::Setup => FidoReportModel::KeysReady(setup_done_text(c.setup_ms)),
        FidoMode::Prove => FidoReportModel::Proved(
            ProofResult {
                prove_ms: (ms64(c.prove_ms) + ms64(d.prove_ms)) as u64,
                proof_size_bytes: (c.proof_bytes + d.proof_bytes) as u64,
            },
        ),
        FidoMode::Verify => FidoReportModel::Verified(true),
        FidoMode::Benchmark => FidoReportModel::Benchmarked(
            BenchmarkResults {
                setup_ms: (ms64(c.setup_ms) + ms64(d.setup_ms)) as u64,
                prove_ms: (ms64(c.prove_ms) + ms64(d.prove_ms)) as u64,
                verify_ms: (ms64(c.verify_ms) + ms64(d.verify_ms)) as u64,
                proving_key_bytes: (c.proving_key_bytes + d.proving_key_bytes) as u64,
                verifying_key_bytes: (c.verifying_key_bytes + d.verifying_key_bytes) as u64,
                proof_bytes: (c.proof_bytes + d.proof_bytes) as u64,
                witness_bytes: (c.witness_bytes + d.witness_bytes) as u64,
            },
        ),
    }
}

/// A run of one operation over both circuits.
pub struct FidoRun {
    pub mode: FidoMode,
    pub config: PathConfig,
    pub steps: Vec<FidoOp>,
    pub next: usize,
    pub cc: FidoMeasures,
    pub ds: FidoMeasures,
    pub failure: Option<ZkProofError>,
}

fn new_measures() -> (m: FidoMeasures)
    ensures
        m == zero_measures(),
{
    FidoMeasures {
        setup_ms: 0,
        prove_ms: 0,
        verify_ms: 0,
        proving_key_bytes: 0,
        verifying_key_bytes: 0,
        proof_bytes: 0,
        witness_bytes: 0,
    }
}

fn push_benchmark_circuit_steps(v: &mut Vec<FidoOp>, c: FidoCircuit)
    ensures
        final(v)@ == old(v)@ + benchmark_circuit_steps(c),
{
    v.push(FidoOp::StartClock);
    v.push(FidoOp::SetupKeys(c));
    v.push(FidoOp::ReadClock(c, FidoTiming::Setup));
    v.push(FidoOp::SaveKeys(c));
    v.push(FidoOp::DropProvingKey(c));
    v.push(FidoOp::StartClock);
    v.push(FidoOp::LoadProvingKey(c));
    v.push(FidoOp::ProveWithLoadedKey(c));
    v.push(FidoOp::ReadClock(c, FidoTiming::Prove));
    v.push(FidoOp::DropProvingKey(c));
    v.push(FidoOp::LoadProof(c));
    v.push(FidoOp::StartClock);
    v.push(FidoOp::VerifyLoaded(c));
    v.push(FidoOp::ReadClock(c, FidoTiming::Verify));
    v.push(FidoOp::DropProof(c));
    assert(v@ =~= old(v)@ + benchmark_circuit_steps(c));
}

fn push_benchmark_size_steps(v: &mut Vec<FidoOp>, c: FidoCircuit)
    ensures
        final(v)@ == old(v)@ + benchmark_size_steps(c),
{
    v.push(FidoOp::FileSize(c, FidoArtifact::ProvingKey));
    v.push(FidoOp::FileSize(c, FidoArtifact::VerifyingKey));
    v.push(FidoOp::FileSize(c, FidoArtifact::Proof));
    v.push(FidoOp::FileSize(c, FidoArtifact::Witness));
    assert(v@ =~= old(v)@ + benchmark_size_steps(c));
}

/// The steps of an operation.
pub fn plan_steps(mode: FidoMode) -> (v: Vec<FidoOp>)
    ensures
        v@ == plan(mode),
{
    let c = FidoCircuit::CertChainRs4096;
    let d = FidoCircuit::DeviceSigRs2048;
    let mut v: Vec<FidoOp> = Vec::new();
    match mode {
        FidoMode::Setup => {
            v.push(FidoOp::StartClock);
            v.push(FidoOp::SetupAndSaveKeys(c));
            v.push(FidoOp::SetupAndSaveKeys(d));
            v.push(FidoOp::ReadClock(c, FidoTiming::Setup));
        },
        FidoMode::Prove => {
            v.push(FidoOp::WarmWitness(c));
            v.push(FidoOp::WarmWitness(d));
            v.push(FidoOp::StartClock);
            v.push(FidoOp::ProveWithKeyFile(c));
            v.push(FidoOp::ReadClock(c, FidoTiming::Prove));
            v.push(FidoOp::StartClock);
            v.push(FidoOp::ProveWithKeyFile(d));
            v.push(FidoOp::ReadClock(d, FidoTiming::Prove));
            v.push(FidoOp::FileSize(c, FidoArtifact::Proof));
            v.push(FidoOp::FileSize(d, FidoArtifact::Proof));
        },
        FidoMode::Verify => {
            v.push(FidoOp::VerifyFiles(c));
            v.push(FidoOp::VerifyFiles(d));
        },
        FidoMode::Benchmark => {
            v.push(FidoOp::WarmWitness(c));
            v.push(FidoOp::WarmWitness(d));
            push_benchmark_circuit_steps(&mut v, c);
            push_benchmark_circuit_steps(&mut v, d);
            push_benchmark_size_steps(&mut v, c);
            push_benchmark_size_steps(&mut v, d);
        },
    }
    assert(v@ =~= plan(mode));
    v
}

impl FidoRun {
    /// A well-formed run follows its operation's plan.
    pub open spec fn wf(&self) -> bool {
        &&& self.steps@ == plan(self.mode)
        &&& self.next <= self.steps@.len()
    }

    /// Whether the run has no step left: it failed or did them all.
    pub open spec fn finished(&self) -> bool {
        self.failure is Some || self.next == self.steps@.len()
    }

    /// A run of `mode` under the documents directory, before its first step.
    pub fn start(mode: FidoMode, documents_path: &str) -> (r: Self)
        ensures
            r.wf(),
            r.mode == mode,
            r.config.base_dir@ == documents_path@,
            r.next == 0,
            r.cc == zero_measures(),
            r.ds == zero_measures(),
            r.failure is None,
    {
        FidoRun {
            mode,
            config: PathConfig::mobile(documents_path),
            steps: plan_steps(mode),
            next: 0,
            cc: new_measures(),
            ds: new_measures(),
            failure: None,
        }
    }

    /// The step to perform now, if any.
    pub fn next_op(&self) -> (r: Option<FidoOp>)
        requires
            self.wf(),
        ensures
            r == (if !self.finished() {
                Some(self.steps@[self.next as int])
            } else {
                None
            }),
    {
        if self.failure.is_some() || self.next >= self.steps.len() {
            None
        } else {
            Some(self.steps[self.next])
        }
    }

    /// The file of one circuit's artifact.
    pub fn path_of(&self, c: FidoCircuit, a: FidoArtifact) -> (r: String)
        ensures
            r@ == artifact_location(self.config.base_dir@, c, a),
    {
        let name = c.file_name(a);
        self.config.key_path(name.as_str())
    }

    /// Records what the current step did and moves on.
    pub fn record(&mut self, ev: StepEvent)
        requires
            old(self).wf(),
            !old(self).finished(),
            event_fits(old(self).steps@[old(self).next as int], ev),
        ensures
            final(self).wf(),
            final(self).mode == old(self).mode,
            final(self).config == old(self).config,
            final(self).next == old(self).next + 1,
            ev is Failed ==> final(self).cc == old(self).cc && final(self).ds == old(self).ds,
            ev is Failed ==> (final(self).failure matches Some(e) && zk_view(e) == failure_for(
                old(self).config.base_dir@,
                old(self).steps@[old(self).next as int],
                ev->Failed_0@,
            )),
            !(ev is Failed) ==> final(self).failure is None && (final(self).cc, final(self).ds)
                == measured(old(self).cc, old(self).ds, old(self).steps@[old(self).next as int], ev),
    {
        let op = self.steps[self.next];
        match ev {
            StepEvent::Failed(msg) => {
                let e = self.failure_error(op, msg);
                self.failure = Some(e);
            },
            StepEvent::Elapsed(ms) => {
                match op {
                    FidoOp::ReadClock(c, t) => {
                        if c == FidoCircuit::CertChainRs4096 {
                            set_timing(&mut self.cc, t, ms);
                        } else {
                            set_timing(&mut self.ds, t, ms);
                        }
                    },
                    _ => {},
                }
            },
            StepEvent::Size(n) => {
                match op {
                    FidoOp::FileSize(c, a) => {
                        if c == FidoCircuit::CertChainRs4096 {
                            set_size(&mut self.cc, a, n);
                        } else {
                            set_size(&mut self.ds, a, n);
                        }
                    },
                    _ => {},
                }
            },
            StepEvent::Done => {},
        }
        self.next = self.next + 1;
    }

    fn failure_error(&self, op: FidoOp, msg: String) -> (e: ZkProofError)
        requires
            event_fits(op, StepEvent::Failed(msg)),
        ensures
            zk_view(e) == failure_for(self.config.base_dir@, op, msg@),
    {
        match op {
            FidoOp::WarmWitness(c) => {
                let mut s = String::from_str(c.name());
                s.append(" witness pre-warm failed: ");
                s.append(msg.as_str());
                ZkProofError::ProofGenerationFailed { msg: s }
            },
            FidoOp::SaveKeys(c) => {
                let mut s = String::from_str("Failed to save ");
                s.append(c.short_name());
                s.append(" keys: ");
                s.append(msg.as_str());
                ZkProofError::IoError { msg: s }
            },
            FidoOp::LoadProvingKey(c) => {
                let mut s = String::from_str("Failed to load ");
                s.append(c.short_name());
                s.append(" proving key: ");
                s.append(msg.as_str());
                ZkProofError::FileNotFound { msg: s }
            },
            FidoOp::LoadProof(c) => {
                let mut s = String::from_str("Failed to load ");
                s.append(c.short_name());
                s.append(" proof: ");
                s.append(msg.as_str());
                ZkProofError::FileNotFound { msg: s }
            },
            FidoOp::FileSize(c, a) => {
                let mut s = String::from_str("Failed to get file size from '");
                let path = self.path_of(c, a);
                s.append(path.as_str());
                s.append("': ");
                s.append(msg.as_str());
                ZkProofError::FileNotFound { msg: s }
            },
            _ => ZkProofError::IoError { msg },
        }
    }

    /// Whether the totals of this finished run fit in `u64`.
    pub fn report_fits(&self) -> (r: bool)
        ensures
            r == report_fits(self.mode, self.cc, self.ds),
    {
        let c = &self.cc;
        let d = &self.ds;
        match self.mode {
            FidoMode::Prove => (c.prove_ms as u64) as u128 + (d.prove_ms as u64) as u128
                <= u64::MAX as u128 && c.proof_bytes as u128 + d.proof_bytes as u128
                <= u64::MAX as u128,
            FidoMode::Benchmark => {
                (c.setup_ms as u64) as u128 + (d.setup_ms as u64) as u128 <= u64::MAX as u128
                    && (c.prove_ms as u64) as u128 + (d.prove_ms as u64) as u128
                    <= u64::MAX as u128 && (c.verify_ms as u64) as u128 + (d.verify_ms as u64) as u128
                    <= u64::MAX as u128 && c.proving_key_bytes as u128 + d.proving_key_bytes as u128
                    <= u64::MAX as u128 && c.verifying_key_bytes as u128
                    + d.verifying_key_bytes as u128 <= u64::MAX as u128 && c.proof_bytes as u128
                    + d.proof_bytes as u128 <= u64::MAX as u128 && c.witness_bytes as u128
                    + d.witness_bytes as u128 <= u64::MAX as u128
            },
            _ => true,
        }
    }

    /// The run's result: its failure, or the totals over both circuits.
    pub fn finish(self) -> (r: Result<FidoReport, ZkProofError>)
        requires
            self.wf(),
            self.finished(),
            self.failure is None ==> report_fits(self.mode, self.cc, self.ds),
        ensures
            match self.failure {
                Some(e) => r matches Err(x) && zk_view(x) == zk_view(e),
                None => r matches Ok(rep) && report_view(rep) == report_spec(
                    self.mode,
                    self.cc,
                    self.ds,
                ),
            },
    {
        match self.failure {
            Some(e) => Err(e),
            None => {
                let c = self.cc;
                let d = self.ds;
                match self.mode {
                    FidoMode::Setup => {
                        let mut s = String::from_str(
                            "cert_chain_rs4096 + device_sig_rs2048 keys setup completed in ",
                        );
                        push_decimal(&mut s, c.setup_ms);
                        s.append("ms");
                        Ok(FidoReport::KeysReady(s))
                    },
                    FidoMode::Prove => Ok(
                        FidoReport::Proved(
                            ProofResult {
                                prove_ms: c.prove_ms as u64 + d.prove_ms as u64,
                                proof_size_bytes: c.proof_bytes + d.proof_bytes,
                            },
                        ),
                    ),
                    FidoMode::Verify => Ok(FidoReport::Verified(true)),
                    FidoMode::Benchmark => Ok(
                        FidoReport::Benchmarked(
                            BenchmarkResults {
                                setup_ms: c.setup_ms as u64 + d.setup_ms as u64,
                                prove_ms: c.prove_ms as u64 + d.prove_ms as u64,
                                verify_ms: c.verify_ms as u64 + d.verify_ms as u64,
                                proving_key_bytes: c.proving_key_bytes + d.proving_key_bytes,
                                verifying_key_bytes: c.verifying_key_bytes + d.verifying_key_bytes,
                                proof_bytes: c.proof_bytes + d.proof_bytes,
                                witness_bytes: c.witness_bytes + d.witness_bytes,
                            },
                        ),
                    ),
                }
            },
        }
    }
}

fn set_timing(m: &mut FidoMeasures, t: FidoTiming, ms: u128)
    ensures
        *final(m) == with_timing(*old(m), t, ms),
{
    match t {
        FidoTiming::Setup => m.setup_ms = ms,
        FidoTiming::Prove => m.prove_ms = ms,
        FidoTiming::Verify => m.verify_ms = ms,
    }
}

fn set_size(m: &mut FidoMeasures, a: FidoArtifact, n: u64)
    ensures
        *final(m) == with_size(*old(m), a, n),
{
    match a {
        FidoArtifact::ProvingKey => m.proving_key_bytes = n,
        FidoArtifact::VerifyingKey => m.verifying_key_bytes = n,
        FidoArtifact::Proof => m.proof_bytes = n,
        FidoArtifact::Witness => m.witness_bytes = n,
        FidoArtifact::Instance => {},
    }
}

/// The steps of `setup_keys_fido`: set up and save both circuits' keys,
/// timed together.
pub fn setup_keys_fido(documents_path: String) -> (r: FidoRun)
    ensures
        r.wf(),
        r.mode == FidoMode::Setup,
        r.config.base_dir@ == documents_path@,
        r.next == 0,
        r.failure is None,
        r.cc == zero_measures() && r.ds == zero_measures(),
{
    FidoRun::start(FidoMode::Setup, documents_path.as_str())
}

/// The steps of `prove_fido`: warm both witnesses, prove each circuit
/// (timed), then read both proof sizes.
pub fn prove_fido(documents_path: String) -> (r: FidoRun)
    ensures
        r.wf(),
        r.mode == FidoMode::Prove,
        r.config.base_dir@ == documents_path@,
        r.next == 0,
        r.failure is None,
        r.cc == zero_measures() && r.ds == zero_measures(),
{
    FidoRun::start(FidoMode::Prove, documents_path.as_str())
}

/// The steps of `verify_fido`: verify each circuit's proof file.
pub fn verify_fido(documents_path: String) -> (r: FidoRun)
    ensures
        r.wf(),
        r.mode == FidoMode::Verify,
        r.config.base_dir@ == documents_path@,
        r.next == 0,
        r.failure is None,
        r.cc == zero_measures() && r.ds == zero_measures(),
{
    FidoRun::start(FidoMode::Verify, documents_path.as_str())
}

/// The steps of `run_complete_benchmark_fido`: warm both witnesses, then per
/// circuit set up, save, prove and verify in isolation, then read the sizes.
pub fn run_complete_benchmark_fido(documents_path: String) -> (r: FidoRun)
    ensures
        r.wf(),
        r.mode == FidoMode::Benchmark,
        r.config.base_dir@ == documents_path@,
        r.next == 0,
        r.failure is None,
        r.cc == zero_measures() && r.ds == zero_measures(),
{
    FidoRun::start(FidoMode::Benchmark, documents_path.as_str())
}

} // verus!

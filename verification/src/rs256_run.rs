//! The RS256 benchmark pipeline as a run of steps: pre-generate the
//! witness, set up the keys and save them, prove with the in-memory key,
//! load the proof and verify it, each phase timed, then read the sizes of
//! the key, proof and witness files.
//!
//! An `Rs256Run` says which step comes next; its caller performs it and
//! reports what happened; `finish` gives the measures for the results
//! table, or the failure that ended the run.
use vstd::prelude::*;
use vstd::string::StringExecFns;
use crate::rs256_report::Rs256Measures;
use crate::size_format::{decimal, push_decimal};

verus! {

/// A timed phase of the pipeline.
#[derive(Clone, Copy, Debug, PartialEq, Eq, Structural)]
pub enum Rs256Timing {
    WitnessGen,
    Setup,
    Prove,
    Verify,
}

/// A file whose size the results table reports.
#[derive(Clone, Copy, Debug, PartialEq, Eq, Structural)]
pub enum Rs256Artifact {
    ProvingKey,
    VerifyingKey,
    Proof,
    Witness,
}

/// One step of the pipeline.
#[derive(Clone, Copy, Debug, PartialEq, Eq, Structural)]
pub enum Rs256Op {
    /// Start the clock.
    StartClock,
    /// Generate and cache the witness while memory is still clean.
    WarmWitness,
    /// Report the milliseconds since the clock was started.
    ReadClock(Rs256Timing),
    /// Run the Spartan2 setup, keeping both keys in memory.
    SetupKeys,
    /// Save both keys to their files.
    SaveKeys,
    /// Prove with the in-memory proving key; write instance, witness and proof.
    Prove,
    /// Load the proof from its file.
    LoadProof,
    /// Verify the loaded proof against the in-memory verifying key.
    Verify,
    /// Report the size of a file (0 when it cannot be read).
    FileSize(Rs256Artifact),
}

/// What happened when a step was performed.
pub enum Rs256Event {
    Done,
    Elapsed(u128),
    Size(u64),
    Failed(String),
}

/// How a failed step ends the program.
#[derive(Clone, Copy, Debug, PartialEq, Eq, Structural)]
pub enum Rs256FailureKind {
    /// Witness generation failed: the program panics.
    WitnessGeneration,
    /// The keys could not be saved: the program prints the message and
    /// exits with status 1.
    SaveKeys,
    /// The proof could not be loaded: the program panics.
    LoadProof,
}

pub struct Rs256Failure {
    pub kind: Rs256FailureKind,
    pub message: String,
}

/// The steps of the pipeline, in order.
pub open spec fn rs256_plan() -> Seq<Rs256Op> {
    seq![
        Rs256Op::StartClock,
        Rs256Op::WarmWitness,
        Rs256Op::ReadClock(Rs256Timing::WitnessGen),
        Rs256Op::StartClock,
        Rs256Op::SetupKeys,
        Rs256Op::ReadClock(Rs256Timing::Setup),
        Rs256Op::SaveKeys,
        Rs256Op::StartClock,
        Rs256Op::Prove,
        Rs256Op::ReadClock(Rs256Timing::Prove),
        Rs256Op::LoadProof,
        Rs256Op::StartClock,
        Rs256Op::Verify,
        Rs256Op::ReadClock(Rs256Timing::Verify),
        Rs256Op::FileSize(Rs256Artifact::ProvingKey),
        Rs256Op::FileSize(Rs256Artifact::VerifyingKey),
        Rs256Op::FileSize(Rs256Artifact::Proof),
        Rs256Op::FileSize(Rs256Artifact::Witness),
    ]
}

/// Whether an event can report on a step.
pub open spec fn rs256_event_fits(op: Rs256Op, ev: Rs256Event) -> bool {
    match op {
        Rs256Op::ReadClock(_) => ev is Elapsed,
        Rs256Op::FileSize(_) => ev is Size || ev is Failed,
        Rs256Op::WarmWitness | Rs256Op::SaveKeys | Rs256Op::LoadProof => ev is Done || ev is Failed,
        _ => ev is Done,
    }
}

/// Whether a failure of this step ends the run (an unreadable file size
/// counts as 0 instead).
pub open spec fn ends_run(op: Rs256Op) -> bool {
    op == Rs256Op::WarmWitness || op == Rs256Op::SaveKeys || op == Rs256Op::LoadProof
}

/// The failure a step that failed with `msg` ends the run with.
pub open spec fn rs256_failure_for(name: Seq<char>, op: Rs256Op, msg: Seq<char>) -> (
    Rs256FailureKind,
    Seq<char>,
) {
    if op == Rs256Op::SaveKeys {
        (Rs256FailureKind::SaveKeys, "Failed to save "@ + name + " keys: "@ + msg)
    } else if op == Rs256Op::LoadProof {
        (Rs256FailureKind::LoadProof, msg)
    } else {
        (Rs256FailureKind::WitnessGeneration, msg)
    }
}

pub open spec fn failure_view(f: Rs256Failure) -> (Rs256FailureKind, Seq<char>) {
    (f.kind, f.message@)
}

pub open spec fn zero_rs256_measures() -> Rs256Measures {
    Rs256Measures {
        witness_gen_ms: 0,
        setup_ms: 0,
        prove_ms: 0,
        verify_ms: 0,
        proving_key_bytes: 0,
        verifying_key_bytes: 0,
        proof_bytes: 0,
        witness_bytes: 0,
    }
}

pub open spec fn with_rs256_timing(m: Rs256Measures, t: Rs256Timing, ms: u128) -> Rs256Measures {
    match t {
        Rs256Timing::WitnessGen => Rs256Measures { witness_gen_ms: ms, ..m },
        Rs256Timing::Setup => Rs256Measures { setup_ms: ms, ..m },
        Rs256Timing::Prove => Rs256Measures { prove_ms: ms, ..m },
        Rs256Timing::Verify => Rs256Measures { verify_ms: ms, ..m },
    }
}

pub open spec fn with_rs256_size(m: Rs256Measures, a: Rs256Artifact, n: u64) -> Rs256Measures {
    match a {
        Rs256Artifact::ProvingKey => Rs256Measures { proving_key_bytes: n, ..m },
        Rs256Artifact::VerifyingKey => Rs256Measures { verifying_key_bytes: n, ..m },
        Rs256Artifact::Proof => Rs256Measures { proof_bytes: n, ..m },
        Rs256Artifact::Witness => Rs256Measures { witness_bytes: n, ..m },
    }
}

/// The measures after a step that did not end the run reported `ev`: a
/// clock reading sets its phase's time, a file size its size, and an
/// unreadable file a size of 0.
pub open spec fn rs256_measured(m: Rs256Measures, op: Rs256Op, ev: Rs256Event) -> Rs256Measures {
    match (op, ev) {
        (Rs256Op::ReadClock(t), Rs256Event::Elapsed(ms)) => with_rs256_timing(m, t, ms),
        (Rs256Op::FileSize(a), Rs256Event::Size(n)) => with_rs256_size(m, a, n),
        (Rs256Op::FileSize(a), Rs256Event::Failed(_)) => with_rs256_size(m, a, 0),
        _ => m,
    }
}

/// The line printed once a phase's time is known.
pub open spec fn progress_spec(t: Rs256Timing, ms: u128) -> Seq<char> {
    let head = match t {
        Rs256Timing::WitnessGen => "✓ Witness cached: "@,
        Rs256Timing::Setup => "✓ Setup completed: "@,
        Rs256Timing::Prove => "✓ Proof generated: "@,
        Rs256Timing::Verify => "✓ Proof verified: "@,
    };
    head + decimal(ms as nat) + " ms\n"@
}

/// The line printed once a phase's time is known.
pub fn progress_line(t: Rs256Timing, ms: u128) -> (s: String)
    ensures
        s@ == progress_spec(t, ms),
{
    let mut s = match t {
        Rs256Timing::WitnessGen => String::from_str("✓ Witness cached: "),
        Rs256Timing::Setup => String::from_str("✓ Setup completed: "),
        Rs256Timing::Prove => String::from_str("✓ Proof generated: "),
        Rs256Timing::Verify => String::from_str("✓ Proof verified: "),
    };
    push_decimal(&mut s, ms);
    s.append(" ms\n");
    s
}

/// A run of the RS256 benchmark pipeline.
pub struct Rs256Run {
    pub circuit_name: String,
    pub steps: Vec<Rs256Op>,
    pub next: usize,
    pub measures: Rs256Measures,
    pub failure: Option<Rs256Failure>,
}

fn rs256_plan_steps() -> (v: Vec<Rs256Op>)
    ensures
        v@ == rs256_plan(),
{
    let mut v: Vec<Rs256Op> = Vec::new();
    v.push(Rs256Op::StartClock);
    v.push(Rs256Op::WarmWitness);
    v.push(Rs256Op::ReadClock(Rs256Timing::WitnessGen));
    v.push(Rs256Op::StartClock);
    v.push(Rs256Op::SetupKeys);
    v.push(Rs256Op::ReadClock(Rs256Timing::Setup));
    v.push(Rs256Op::SaveKeys);
    v.push(Rs256Op::StartClock);
    v.push(Rs256Op::Prove);
    v.push(Rs256Op::ReadClock(Rs256Timing::Prove));
    v.push(Rs256Op::LoadProof);
    v.push(Rs256Op::StartClock);
    v.push(Rs256Op::Verify);
    v.push(Rs256Op::ReadClock(Rs256Timing::Verify));
    v.push(Rs256Op::FileSize(Rs256Artifact::ProvingKey));
    v.push(Rs256Op::FileSize(Rs256Artifact::VerifyingKey));
    v.push(Rs256Op::FileSize(Rs256Artifact::Proof));
    v.push(Rs256Op::FileSize(Rs256Artifact::Witness));
    assert(v@ =~= rs256_plan());
    v
}

fn set_rs256_timing(m: &mut Rs256Measures, t: Rs256Timing, ms: u128)
    ensures
        *final(m) == with_rs256_timing(*old(m), t, ms),
{
    match t {
        Rs256Timing::WitnessGen => m.witness_gen_ms = ms,
        Rs256Timing::Setup => m.setup_ms = ms,
        Rs256Timing::Prove => m.prove_ms = ms,
        Rs256Timing::Verify => m.verify_ms = ms,
    }
}

fn set_rs256_size(m: &mut Rs256Measures, a: Rs256Artifact, n: u64)
    ensures
        *final(m) == with_rs256_size(*old(m), a, n),
{
    match a {
        Rs256Artifact::ProvingKey => m.proving_key_bytes = n,
        Rs256Artifact::VerifyingKey => m.verifying_key_bytes = n,
        Rs256Artifact::Proof => m.proof_bytes = n,
        Rs256Artifact::Witness => m.witness_bytes = n,
    }
}

impl Rs256Run {
    /// A well-formed run follows the pipeline's plan.
    pub open spec fn wf(&self) -> bool {
        &&& self.steps@ == rs256_plan()
        &&& self.next <= self.steps@.len()
    }

    /// Whether no step is left: the run failed or did them all.
    pub open spec fn finished(&self) -> bool {
        self.failure is Some || self.next == self.steps@.len()
    }

    /// A run of the pipeline for the circuit named `circuit_name`, before
    /// its first step.
    pub fn start(circuit_name: &str) -> (r: Self)
        ensures
            r.wf(),
            r.circuit_name@ == circuit_name@,
            r.next == 0,
            r.failure is None,
            r.measures == zero_rs256_measures(),
    {
        Rs256Run {
            circuit_name: String::from_str(circuit_name),
            steps: rs256_plan_steps(),
            next: 0,
            measures: Rs256Measures {
                witness_gen_ms: 0,
                setup_ms: 0,
                prove_ms: 0,
                verify_ms: 0,
                proving_key_bytes: 0,
                verifying_key_bytes: 0,
                proof_bytes: 0,
                witness_bytes: 0,
            },
            failure: None,
        }
    }

    /// The step to perform now, if any.
    pub fn next_op(&self) -> (r: Option<Rs256Op>)
        requires
            self.wf(),
        ensures
            r == (if !self.finished() {
                Some(self.steps@[self.next as int])
            } else {
                None
            }),
    {
        if self.failure.is_some() || self.next >= self.steps.len() {
            None
        } else {
            Some(self.steps[self.next])
        }
    }

    /// Records what the current step did and moves on.
    pub fn record(&mut self, ev: Rs256Event)
        requires
            old(self).wf(),
            !old(self).finished(),
            rs256_event_fits(old(self).steps@[old(self).next as int], ev),
        ensures
            final(self).wf(),
            final(self).circuit_name == old(self).circuit_name,
            final(self).next == old(self).next + 1,
            (ev is Failed && ends_run(old(self).steps@[old(self).next as int]))
                ==> final(self).measures == old(self).measures,
            (ev is Failed && ends_run(old(self).steps@[old(self).next as int]))
                ==> (final(self).failure matches Some(f) && failure_view(f) == rs256_failure_for(
                old(self).circuit_name@,
                old(self).steps@[old(self).next as int],
                ev->Failed_0@,
            )),
            !(ev is Failed && ends_run(old(self).steps@[old(self).next as int])) ==> (
            final(self).failure is None && final(self).measures == rs256_measured(
                old(self).measures,
                old(self).steps@[old(self).next as int],
                ev,
            )),
    {
        let op = self.steps[self.next];
        match ev {
            Rs256Event::Failed(msg) => {
                if op == Rs256Op::SaveKeys {
                    let mut s = String::from_str("Failed to save ");
                    s.append(self.circuit_name.as_str());
                    s.append(" keys: ");
                    s.append(msg.as_str());
                    self.failure = Some(Rs256Failure { kind: Rs256FailureKind::SaveKeys, message: s });
                } else if op == Rs256Op::LoadProof {
                    self.failure = Some(
                        Rs256Failure { kind: Rs256FailureKind::LoadProof, message: msg },
                    );
                } else if op == Rs256Op::WarmWitness {
                    self.failure = Some(
                        Rs256Failure { kind: Rs256FailureKind::WitnessGeneration, message: msg },
                    );
                } else {
                    match op {
                        Rs256Op::FileSize(a) => set_rs256_size(&mut self.measures, a, 0),
                        _ => {},
                    }
                }
            },
            Rs256Event::Elapsed(ms) => {
                match op {
                    Rs256Op::ReadClock(t) => set_rs256_timing(&mut self.measures, t, ms),
                    _ => {},
                }
            },
            Rs256Event::Size(n) => {
                match op {
                    Rs256Op::FileSize(a) => set_rs256_size(&mut self.measures, a, n),
                    _ => {},
                }
            },
            Rs256Event::Done => {},
        }
        self.next = self.next + 1;
    }

    /// The run's result: the failure that ended it, or what it measured.
    pub fn finish(self) -> (r: Result<Rs256Measures, Rs256Failure>)
        requires
            self.wf(),
            self.finished(),
        ensures
            match self.failure {
                Some(f) => r matches Err(x) && failure_view(x) == failure_view(f),
                None => r == Ok::<Rs256Measures, Rs256Failure>(self.measures),
            },
    {
        match self.failure {
            Some(f) => Err(f),
            None => Ok(self.measures),
        }
    }
}

/// Law: the witness is generated before the keys are set up, so witness
/// generation runs while memory is still clean.
pub proof fn law_rs256_witness_before_setup(i: int)
    requires
        0 <= i < rs256_plan().len(),
        rs256_plan()[i] == Rs256Op::SetupKeys,
    ensures
        exists|j: int| 0 <= j < i && rs256_plan()[j] == Rs256Op::WarmWitness,
{
    let p = rs256_plan();
    assert(p[1] == Rs256Op::WarmWitness);
    assert(p[0] != Rs256Op::SetupKeys);
    assert(p[1] != Rs256Op::SetupKeys);
}

/// The step whose time a phase's clock reading reports.
pub open spec fn phase_op(t: Rs256Timing) -> Rs256Op {
    match t {
        Rs256Timing::WitnessGen => Rs256Op::WarmWitness,
        Rs256Timing::Setup => Rs256Op::SetupKeys,
        Rs256Timing::Prove => Rs256Op::Prove,
        Rs256Timing::Verify => Rs256Op::Verify,
    }
}

/// Step `i` is `op`, performed after the clock started at step `s` and
/// before it is read at step `r`, with no restart in between.
pub open spec fn rs256_timed_by(p: Seq<Rs256Op>, s: int, i: int, r: int, op: Rs256Op) -> bool {
    &&& 0 <= s < i < r < p.len()
    &&& p[s] == Rs256Op::StartClock
    &&& p[i] == op
    &&& forall|m: int| s < m < r ==> p[m] != Rs256Op::StartClock
}

/// Law: every clock reading times the step of its own phase: since the
/// clock last started, that step (witness generation, setup, proving or
/// verification) was performed.
pub proof fn law_rs256_readings_time_their_phase(r: int)
    requires
        0 <= r < rs256_plan().len(),
        rs256_plan()[r] is ReadClock,
    ensures
        exists|s: int, i: int|
            #[trigger] rs256_timed_by(rs256_plan(), s, i, r, phase_op(rs256_plan()[r]->ReadClock_0)),
{
    let p = rs256_plan();
    if r == 2 {
        assert(rs256_timed_by(p, 0, 1, 2, Rs256Op::WarmWitness));
    } else if r == 5 {
        assert(rs256_timed_by(p, 3, 4, 5, Rs256Op::SetupKeys));
    } else if r == 9 {
        assert(rs256_timed_by(p, 7, 8, 9, Rs256Op::Prove));
    } else if r == 13 {
        assert(rs256_timed_by(p, 11, 12, 13, Rs256Op::Verify));
    } else {
        assert(r == 0 || r == 1 || r == 3 || r == 4 || r == 6 || r == 7 || r == 8 || r == 10 || r
            == 11 || r == 12 || r == 14 || r == 15 || r == 16 || r == 17);
    }
}

/// Steps `a` to `e` are setup, saving the keys, proving, loading the proof
/// and verifying it, in that order.
pub open spec fn in_pipeline_order(p: Seq<Rs256Op>, a: int, b: int, c: int, d: int, e: int) -> bool {
    &&& 0 <= a < b < c < d < e < p.len()
    &&& p[a] == Rs256Op::SetupKeys
    &&& p[b] == Rs256Op::SaveKeys
    &&& p[c] == Rs256Op::Prove
    &&& p[d] == Rs256Op::LoadProof
    &&& p[e] == Rs256Op::Verify
}

/// Law: the pipeline sets up the keys, saves them, proves, loads the saved
/// proof and verifies it, in that order, and every phase is timed.
pub proof fn law_rs256_pipeline_order()
    ensures
        exists|a: int, b: int, c: int, d: int, e: int|
            #[trigger] in_pipeline_order(rs256_plan(), a, b, c, d, e),
        forall|t: Rs256Timing| #[trigger] rs256_plan().contains(Rs256Op::ReadClock(t)),
{
    let p = rs256_plan();
    assert(p[4] == Rs256Op::SetupKeys);
    assert(p[6] == Rs256Op::SaveKeys);
    assert(p[8] == Rs256Op::Prove);
    assert(p[10] == Rs256Op::LoadProof);
    assert(p[12] == Rs256Op::Verify);
    assert(in_pipeline_order(p, 4, 6, 8, 10, 12));
    assert forall|t: Rs256Timing| #[trigger] p.contains(Rs256Op::ReadClock(t)) by {
        match t {
            Rs256Timing::WitnessGen => assert(p[2] == Rs256Op::ReadClock(t)),
            Rs256Timing::Setup => assert(p[5] == Rs256Op::ReadClock(t)),
            Rs256Timing::Prove => assert(p[9] == Rs256Op::ReadClock(t)),
            Rs256Timing::Verify => assert(p[13] == Rs256Op::ReadClock(t)),
        }
    }
}

} // verus!

use vstd::prelude::*;

use crate::fido::{
    benchmark_circuit_steps, benchmark_size_steps, cc, ds, plan, FidoArtifact, FidoCircuit, FidoMode,
    FidoOp, FidoTiming,
};

verus! {

/// Whether a step works with Spartan2 key material: a setup, key or proof
/// I/O, a proof or a verification.
pub open spec fn uses_keys(op: FidoOp) -> bool {
    match op {
        FidoOp::SetupAndSaveKeys(_)
        | FidoOp::SetupKeys(_)
        | FidoOp::SaveKeys(_)
        | FidoOp::LoadProvingKey(_)
        | FidoOp::ProveWithKeyFile(_)
        | FidoOp::ProveWithLoadedKey(_)
        | FidoOp::LoadProof(_)
        | FidoOp::VerifyFiles(_)
        | FidoOp::VerifyLoaded(_) => true,
        _ => false,
    }
}

/// How a step changes the number of proving keys held in memory.
pub open spec fn key_delta(op: FidoOp) -> int {
    match op {
        FidoOp::SetupKeys(_) | FidoOp::LoadProvingKey(_) => 1,
        FidoOp::DropProvingKey(_) => -1,
        _ => 0,
    }
}

/// The number of proving keys held in memory after the first `k` steps.
pub open spec fn keys_held(ops: Seq<FidoOp>, k: int) -> int
    decreases k,
{
    if k <= 0 {
        0
    } else {
        keys_held(ops, k - 1) + key_delta(ops[k - 1])
    }
}

/// Law: in a prove run and in a benchmark run, both witnesses are generated
/// before any step that works with Spartan2 keys, so that witness generation
/// runs on a clean heap.
pub proof fn law_witnesses_warmed_before_keys(mode: FidoMode, i: int)
    requires
        mode == FidoMode::Prove || mode == FidoMode::Benchmark,
        0 <= i < plan(mode).len(),
        uses_keys(plan(mode)[i]),
    ensures
        exists|j: int| 0 <= j < i && plan(mode)[j] == FidoOp::WarmWitness(cc()),
        exists|j: int| 0 <= j < i && plan(mode)[j] == FidoOp::WarmWitness(ds()),
{
    let p = plan(mode);
    assert(p[0] == FidoOp::WarmWitness(cc()));
    assert(p[1] == FidoOp::WarmWitness(ds()));
    assert(i >= 2);
}

proof fn lemma_keys_held_concat(a: Seq<FidoOp>, b: Seq<FidoOp>, k: int)
    requires
        0 <= k <= a.len() + b.len(),
    ensures
        keys_held(a + b, k) == if k <= a.len() {
            keys_held(a, k)
        } else {
            keys_held(a, a.len() as int) + keys_held(b, k - a.len())
        },
    decreases k,
{
    if k > 0 {
        lemma_keys_held_concat(a, b, k - 1);
        if k - 1 < a.len() {
            assert((a + b)[k - 1] == a[k - 1]);
        } else {
            assert((a + b)[k - 1] == b[k - 1 - a.len()]);
            assert(keys_held(b, 0) == 0);
        }
    }
}

/// The proving keys held along one circuit's benchmark steps.
proof fn lemma_circuit_steps_hold_one_key(c: crate::fido::FidoCircuit, k: int)
    requires
        0 <= k <= 15,
    ensures
        0 <= keys_held(benchmark_circuit_steps(c), k) <= 1,
        keys_held(benchmark_circuit_steps(c), 15) == 0,
        benchmark_circuit_steps(c).len() == 15,
{
    let s = benchmark_circuit_steps(c);
    assert(keys_held(s, 0) == 0);
    assert(keys_held(s, 1) == 0);
    assert(keys_held(s, 2) == 1);
    assert(keys_held(s, 3) == 1);
    assert(keys_held(s, 4) == 1);
    assert(keys_held(s, 5) == 0);
    assert(keys_held(s, 6) == 0);
    assert(keys_held(s, 7) == 1);
    assert(keys_held(s, 8) == 1);
    assert(keys_held(s, 9) == 1);
    assert(keys_held(s, 10) == 0);
    assert(keys_held(s, 11) == 0);
    assert(keys_held(s, 12) == 0);
    assert(keys_held(s, 13) == 0);
    assert(keys_held(s, 14) == 0);
    assert(keys_held(s, 15) == 0);
}

proof fn lemma_size_steps_hold_no_key(c: crate::fido::FidoCircuit, k: int)
    requires
        0 <= k <= 4,
    ensures
        keys_held(benchmark_size_steps(c), k) == 0,
        benchmark_size_steps(c).len() == 4,
{
    let s = benchmark_size_steps(c);
    assert(keys_held(s, 0) == 0);
    assert(keys_held(s, 1) == 0);
    assert(keys_held(s, 2) == 0);
    assert(keys_held(s, 3) == 0);
    assert(keys_held(s, 4) == 0);
}

/// Law: a benchmark run never holds two proving keys in memory at once. Each
/// circuit's proving key is released before the next one is set up or
/// loaded, and none is held once the run is over.
pub proof fn law_benchmark_holds_one_proving_key(k: int)
    requires
        0 <= k <= plan(FidoMode::Benchmark).len(),
    ensures
        0 <= keys_held(plan(FidoMode::Benchmark), k) <= 1,
        keys_held(plan(FidoMode::Benchmark), plan(FidoMode::Benchmark).len() as int) == 0,
{
    let w = seq![FidoOp::WarmWitness(cc()), FidoOp::WarmWitness(ds())];
    let bc = benchmark_circuit_steps(cc());
    let bd = benchmark_circuit_steps(ds());
    let sc = benchmark_size_steps(cc());
    let sd = benchmark_size_steps(ds());
    lemma_circuit_steps_hold_one_key(cc(), 15);
    lemma_size_steps_hold_no_key(cc(), 4);
    assert(w[0] == FidoOp::WarmWitness(cc()));
    assert(w[1] == FidoOp::WarmWitness(ds()));
    assert(keys_held(w, 0) == 0);
    assert(keys_held(w, 1) == 0);
    assert(keys_held(w, 2) == 0);
    let p1 = w + bc;
    let p2 = p1 + bd;
    let p3 = p2 + sc;
    let p4 = p3 + sd;
    assert(plan(FidoMode::Benchmark) == p4);
    assert forall|j: int| 0 <= j <= 17 implies 0 <= #[trigger] keys_held(p1, j) <= 1 && keys_held(
        p1,
        17,
    ) == 0 by {
        lemma_keys_held_concat(w, bc, j);
        lemma_keys_held_concat(w, bc, 17);
        if j > 2 {
            lemma_circuit_steps_hold_one_key(cc(), j - 2);
        }
        lemma_circuit_steps_hold_one_key(cc(), 15);
    }
    assert forall|j: int| 0 <= j <= 32 implies 0 <= #[trigger] keys_held(p2, j) <= 1 && keys_held(
        p2,
        32,
    ) == 0 by {
        lemma_keys_held_concat(p1, bd, j);
        lemma_keys_held_concat(p1, bd, 32);
        assert(keys_held(p1, 17) == 0);
        if j > 17 {
            lemma_circuit_steps_hold_one_key(ds(), j - 17);
        } else {
            assert(0 <= keys_held(p1, j) <= 1);
        }
        lemma_circuit_steps_hold_one_key(ds(), 15);
    }
    assert forall|j: int| 0 <= j <= 36 implies 0 <= #[trigger] keys_held(p3, j) <= 1 && keys_held(
        p3,
        36,
    ) == 0 by {
        lemma_keys_held_concat(p2, sc, j);
        lemma_keys_held_concat(p2, sc, 36);
        assert(keys_held(p2, 32) == 0);
        if j > 32 {
            lemma_size_steps_hold_no_key(cc(), j - 32);
        } else {
            assert(0 <= keys_held(p2, j) <= 1);
        }
        lemma_size_steps_hold_no_key(cc(), 4);
    }
    lemma_keys_held_concat(p3, sd, k);
    lemma_keys_held_concat(p3, sd, 40);
    assert(keys_held(p3, 36) == 0);
    if k > 36 {
        lemma_size_steps_hold_no_key(ds(), k - 36);
    } else {
        assert(0 <= keys_held(p3, k) <= 1);
    }
    lemma_size_steps_hold_no_key(ds(), 4);
}

/// Step `i` is `op`, performed after the clock started at step `s` and
/// before it is read at step `r`, with no restart in between.
pub open spec fn timed_by(p: Seq<FidoOp>, s: int, i: int, r: int, op: FidoOp, read: FidoOp) -> bool {
    &&& 0 <= s < i < r < p.len()
    &&& p[s] == FidoOp::StartClock
    &&& p[i] == op
    &&& p[r] == read
    &&& forall|m: int| s < m < r ==> p[m] != FidoOp::StartClock
}

/// Law: a prove run proves each circuit with its key file exactly once,
/// times that proof (between a start of the clock and the reading of that
/// circuit's proving time), and reads the size of the proof afterwards.
pub proof fn law_prove_run_proves_each_circuit(c: FidoCircuit)
    ensures
        exists|s: int, i: int, r: int|
            #[trigger] timed_by(
                plan(FidoMode::Prove),
                s,
                i,
                r,
                FidoOp::ProveWithKeyFile(c),
                FidoOp::ReadClock(c, FidoTiming::Prove),
            ),
        forall|j: int, k: int|
            0 <= j < plan(FidoMode::Prove).len() && 0 <= k < plan(FidoMode::Prove).len()
                && plan(FidoMode::Prove)[j] == FidoOp::ProveWithKeyFile(c)
                && plan(FidoMode::Prove)[k] == FidoOp::ProveWithKeyFile(c) ==> j == k,
        exists|i: int, f: int|
            #![trigger plan(FidoMode::Prove)[i], plan(FidoMode::Prove)[f]]
            0 <= i < f < plan(FidoMode::Prove).len() && plan(FidoMode::Prove)[i]
                == FidoOp::ProveWithKeyFile(c) && plan(FidoMode::Prove)[f]
                == FidoOp::FileSize(c, FidoArtifact::Proof),
{
    let p = plan(FidoMode::Prove);
    assert(p.len() == 10);
    assert(p[0] == FidoOp::WarmWitness(cc()));
    assert(p[1] == FidoOp::WarmWitness(ds()));
    assert(p[2] == FidoOp::StartClock);
    assert(p[3] == FidoOp::ProveWithKeyFile(cc()));
    assert(p[4] == FidoOp::ReadClock(cc(), FidoTiming::Prove));
    assert(p[5] == FidoOp::StartClock);
    assert(p[6] == FidoOp::ProveWithKeyFile(ds()));
    assert(p[7] == FidoOp::ReadClock(ds(), FidoTiming::Prove));
    assert(p[8] == FidoOp::FileSize(cc(), FidoArtifact::Proof));
    assert(p[9] == FidoOp::FileSize(ds(), FidoArtifact::Proof));
    let (s, i, r, f) = if c == cc() {
        (2int, 3int, 4int, 8int)
    } else {
        (5int, 6int, 7int, 9int)
    };
    assert(timed_by(p, s, i, r, FidoOp::ProveWithKeyFile(c), FidoOp::ReadClock(c, FidoTiming::Prove)));
    assert(p[f] == FidoOp::FileSize(c, FidoArtifact::Proof));
    assert forall|j: int| 0 <= j < p.len() && p[j] == FidoOp::ProveWithKeyFile(c) implies j == i by {
        if j == 0 {} else if j == 1 {} else if j == 2 {} else if j == 3 {} else if j == 4 {}
        else if j == 5 {} else if j == 6 {} else if j == 7 {} else if j == 8 {} else {}
    }
}

/// Law: a verify run verifies the proof of each circuit.
pub proof fn law_verify_run_verifies_each_circuit(c: FidoCircuit)
    ensures
        plan(FidoMode::Verify).contains(FidoOp::VerifyFiles(c)),
{
    let p = plan(FidoMode::Verify);
    if c == cc() {
        assert(p[0] == FidoOp::VerifyFiles(c));
    } else {
        assert(p[1] == FidoOp::VerifyFiles(c));
    }
}

} // verus!

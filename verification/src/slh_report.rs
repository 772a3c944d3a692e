//! The results table of the SLH-DSA prover's commands.
use vstd::prelude::*;
use vstd::string::StringExecFns;
use crate::rs256_report::{lines_view, pad_left, push_padded};
use crate::size_format::{decimal, format_size_gb, format_size_gb_spec, push_decimal};

verus! {

/// What a command measured; a timing is `None` when the command did not
/// run that phase.
pub struct BenchmarkResults {
    pub setup_ms: Option<u128>,
    pub prep_prove_ms: Option<u128>,
    pub prove_ms: Option<u128>,
    pub verify_ms: Option<u128>,
    pub pk_bytes: u64,
    pub vk_bytes: u64,
    pub proof_bytes: u64,
}

/// The row of a timing that was measured, none otherwise.
pub open spec fn timing_rows(label: Seq<char>, ms: Option<u128>) -> Seq<Seq<char>> {
    match ms {
        Some(v) => seq![label + pad_left(decimal(v as nat), 10) + " ms                       ║"@],
        None => Seq::empty(),
    }
}

pub open spec fn size_row_spec(label: Seq<char>, bytes: u64) -> Seq<char> {
    label + pad_left(format_size_gb_spec(bytes as nat), 12) + "                         ║"@
}

/// The table, one entry per printed line: the proof's size only when there
/// is a proof.
pub open spec fn results_lines(r: BenchmarkResults) -> Seq<Seq<char>> {
    seq![
        Seq::<char>::empty(),
        "╔════════════════════════════════════════════════════╗"@,
        "║   SLH-DSA-128s (Poseidon) — Spartan2 benchmark     ║"@,
        "║   Message size: 1024 B  |  Backend: T256HyraxEngine║"@,
        "╠════════════════════════════════════════════════════╣"@,
        "║ TIMING                                             ║"@,
        "╠════════════════════════════════════════════════════╣"@,
    ] + timing_rows("║ Setup:        "@, r.setup_ms) + timing_rows("║ Prep Prove:   "@, r.prep_prove_ms)
        + timing_rows("║ Prove:        "@, r.prove_ms) + timing_rows("║ Verify:       "@, r.verify_ms)
        + seq![
        "╠════════════════════════════════════════════════════╣"@,
        "║ SIZES                                              ║"@,
        "╠════════════════════════════════════════════════════╣"@,
        size_row_spec("║ Proving Key:  "@, r.pk_bytes),
        size_row_spec("║ Verifying Key:"@, r.vk_bytes),
    ] + (if r.proof_bytes > 0 {
        seq![size_row_spec("║ Proof:        "@, r.proof_bytes)]
    } else {
        Seq::empty()
    }) + seq!["╚════════════════════════════════════════════════════╝"@]
}

fn push_line(lines: &mut Vec<String>, s: &str)
    ensures
        lines_view(final(lines)@) == lines_view(old(lines)@).push(s@),
{
    lines.push(String::from_str(s));
    assert(lines_view(lines@) =~= lines_view(old(lines)@).push(s@));
}

fn push_timing(lines: &mut Vec<String>, label: &str, ms: Option<u128>)
    ensures
        lines_view(final(lines)@) == lines_view(old(lines)@) + timing_rows(label@, ms),
{
    match ms {
        Some(v) => {
            let mut digits = String::new();
            push_decimal(&mut digits, v);
            let mut row = String::from_str(label);
            push_padded(&mut row, digits.as_str(), 10);
            row.append(" ms                       ║");
            lines.push(row);
            assert(lines_view(lines@) =~= lines_view(old(lines)@) + timing_rows(label@, ms));
        },
        None => {
            assert(lines_view(lines@) =~= lines_view(old(lines)@) + timing_rows(label@, ms));
        },
    }
}

fn push_size(lines: &mut Vec<String>, label: &str, bytes: u64)
    ensures
        lines_view(final(lines)@) == lines_view(old(lines)@).push(size_row_spec(label@, bytes)),
{
    let text = format_size_gb(bytes);
    let mut row = String::from_str(label);
    push_padded(&mut row, text.as_str(), 12);
    row.append("                         ║");
    lines.push(row);
    assert(lines_view(lines@) =~= lines_view(old(lines)@).push(size_row_spec(label@, bytes)));
}

impl BenchmarkResults {
    /// The lines that report these results.
    pub fn lines(&self) -> (r: Vec<String>)
        ensures
            lines_view(r@) == results_lines(*self),
    {
        let mut r: Vec<String> = Vec::new();
        r.push(String::new());
        assert(lines_view(r@) =~= seq![Seq::<char>::empty()]);
        push_line(&mut r, "╔════════════════════════════════════════════════════╗");
        push_line(&mut r, "║   SLH-DSA-128s (Poseidon) — Spartan2 benchmark     ║");
        push_line(&mut r, "║   Message size: 1024 B  |  Backend: T256HyraxEngine║");
        push_line(&mut r, "╠════════════════════════════════════════════════════╣");
        push_line(&mut r, "║ TIMING                                             ║");
        push_line(&mut r, "╠════════════════════════════════════════════════════╣");
        let ghost head = lines_view(r@);
        proof {
            assert(head =~= seq![
                Seq::<char>::empty(),
                "╔════════════════════════════════════════════════════╗"@,
                "║   SLH-DSA-128s (Poseidon) — Spartan2 benchmark     ║"@,
                "║   Message size: 1024 B  |  Backend: T256HyraxEngine║"@,
                "╠════════════════════════════════════════════════════╣"@,
                "║ TIMING                                             ║"@,
                "╠════════════════════════════════════════════════════╣"@,
            ]);
        }
        push_timing(&mut r, "║ Setup:        ", self.setup_ms);
        push_timing(&mut r, "║ Prep Prove:   ", self.prep_prove_ms);
        push_timing(&mut r, "║ Prove:        ", self.prove_ms);
        push_timing(&mut r, "║ Verify:       ", self.verify_ms);
        let ghost timed = lines_view(r@);
        push_line(&mut r, "╠════════════════════════════════════════════════════╣");
        push_line(&mut r, "║ SIZES                                              ║");
        push_line(&mut r, "╠════════════════════════════════════════════════════╣");
        push_size(&mut r, "║ Proving Key:  ", self.pk_bytes);
        push_size(&mut r, "║ Verifying Key:", self.vk_bytes);
        let ghost sized = lines_view(r@);
        if self.proof_bytes > 0 {
            push_size(&mut r, "║ Proof:        ", self.proof_bytes);
        }
        let ghost proofed = lines_view(r@);
        push_line(&mut r, "╚════════════════════════════════════════════════════╝");
        proof {
            let t = timing_rows("║ Setup:        "@, self.setup_ms) + timing_rows(
                "║ Prep Prove:   "@,
                self.prep_prove_ms,
            ) + timing_rows("║ Prove:        "@, self.prove_ms) + timing_rows(
                "║ Verify:       "@,
                self.verify_ms,
            );
            assert(timed =~= head + t);
            let sz = seq![
                "╠════════════════════════════════════════════════════╣"@,
                "║ SIZES                                              ║"@,
                "╠════════════════════════════════════════════════════╣"@,
                size_row_spec("║ Proving Key:  "@, self.pk_bytes),
                size_row_spec("║ Verifying Key:"@, self.vk_bytes),
            ];
            assert(sized =~= timed + sz);
            let pr = if self.proof_bytes > 0 {
                seq![size_row_spec("║ Proof:        "@, self.proof_bytes)]
            } else {
                Seq::empty()
            };
            assert(proofed =~= sized + pr);
            assert(lines_view(r@) =~= proofed + seq!["╚════════════════════════════════════════════════════╝"@]);
            assert(lines_view(r@) =~= results_lines(*self));
        }
        r
    }
}

proof fn lemma_in_right(a: Seq<Seq<char>>, b: Seq<Seq<char>>, i: int)
    requires
        0 <= i < b.len(),
    ensures
        (a + b).contains(b[i]),
{
    assert((a + b)[a.len() + i] == b[i]);
}

proof fn lemma_in_left(a: Seq<Seq<char>>, b: Seq<Seq<char>>, x: Seq<char>)
    requires
        a.contains(x),
    ensures
        (a + b).contains(x),
{
    let i = choose|i: int| 0 <= i < a.len() && a[i] == x;
    assert((a + b)[i] == x);
}

pub open spec fn some_count(o: Option<u128>) -> nat {
    if o is Some {
        1
    } else {
        0
    }
}

/// Law: the table reports each measured timing in its own row and the
/// proof's size exactly when there is a proof (`proof_bytes > 0`),
/// whichever timings the command measured; it has one row per measured
/// timing, the proof row, and thirteen fixed rows.
pub proof fn law_results_rows(r: BenchmarkResults)
    ensures
        r.proof_bytes > 0 ==> results_lines(r).contains(
            size_row_spec("║ Proof:        "@, r.proof_bytes),
        ),
        results_lines(r).contains(size_row_spec("║ Proving Key:  "@, r.pk_bytes)),
        results_lines(r).contains(size_row_spec("║ Verifying Key:"@, r.vk_bytes)),
        r.setup_ms matches Some(v) ==> results_lines(r).contains(
            timing_rows("║ Setup:        "@, Some(v))[0],
        ),
        r.prep_prove_ms matches Some(v) ==> results_lines(r).contains(
            timing_rows("║ Prep Prove:   "@, Some(v))[0],
        ),
        r.prove_ms matches Some(v) ==> results_lines(r).contains(
            timing_rows("║ Prove:        "@, Some(v))[0],
        ),
        r.verify_ms matches Some(v) ==> results_lines(r).contains(
            timing_rows("║ Verify:       "@, Some(v))[0],
        ),
        results_lines(r).len() == 13 + some_count(r.setup_ms) + some_count(r.prep_prove_ms)
            + some_count(r.prove_ms) + some_count(r.verify_ms) + (if r.proof_bytes > 0 {
            1int
        } else {
            0int
        }),
{
    let h = seq![
        Seq::<char>::empty(),
        "╔════════════════════════════════════════════════════╗"@,
        "║   SLH-DSA-128s (Poseidon) — Spartan2 benchmark     ║"@,
        "║   Message size: 1024 B  |  Backend: T256HyraxEngine║"@,
        "╠════════════════════════════════════════════════════╣"@,
        "║ TIMING                                             ║"@,
        "╠════════════════════════════════════════════════════╣"@,
    ];
    let t1 = timing_rows("║ Setup:        "@, r.setup_ms);
    let t2 = timing_rows("║ Prep Prove:   "@, r.prep_prove_ms);
    let t3 = timing_rows("║ Prove:        "@, r.prove_ms);
    let t4 = timing_rows("║ Verify:       "@, r.verify_ms);
    let sz = seq![
        "╠════════════════════════════════════════════════════╣"@,
        "║ SIZES                                              ║"@,
        "╠════════════════════════════════════════════════════╣"@,
        size_row_spec("║ Proving Key:  "@, r.pk_bytes),
        size_row_spec("║ Verifying Key:"@, r.vk_bytes),
    ];
    let pr = if r.proof_bytes > 0 {
        seq![size_row_spec("║ Proof:        "@, r.proof_bytes)]
    } else {
        Seq::<Seq<char>>::empty()
    };
    let bot = seq!["╚════════════════════════════════════════════════════╝"@];
    let a1 = h + t1;
    let a2 = a1 + t2;
    let a3 = a2 + t3;
    let a4 = a3 + t4;
    let a5 = a4 + sz;
    let a6 = a5 + pr;
    assert(results_lines(r) == a6 + bot);
    if r.setup_ms is Some {
        lemma_in_right(h, t1, 0);
        lemma_in_left(a1, t2, t1[0]);
        lemma_in_left(a2, t3, t1[0]);
        lemma_in_left(a3, t4, t1[0]);
        lemma_in_left(a4, sz, t1[0]);
        lemma_in_left(a5, pr, t1[0]);
        lemma_in_left(a6, bot, t1[0]);
    }
    if r.prep_prove_ms is Some {
        lemma_in_right(a1, t2, 0);
        lemma_in_left(a2, t3, t2[0]);
        lemma_in_left(a3, t4, t2[0]);
        lemma_in_left(a4, sz, t2[0]);
        lemma_in_left(a5, pr, t2[0]);
        lemma_in_left(a6, bot, t2[0]);
    }
    if r.prove_ms is Some {
        lemma_in_right(a2, t3, 0);
        lemma_in_left(a3, t4, t3[0]);
        lemma_in_left(a4, sz, t3[0]);
        lemma_in_left(a5, pr, t3[0]);
        lemma_in_left(a6, bot, t3[0]);
    }
    if r.verify_ms is Some {
        lemma_in_right(a3, t4, 0);
        lemma_in_left(a4, sz, t4[0]);
        lemma_in_left(a5, pr, t4[0]);
        lemma_in_left(a6, bot, t4[0]);
    }
    lemma_in_right(a4, sz, 3);
    lemma_in_left(a5, pr, sz[3]);
    lemma_in_left(a6, bot, sz[3]);
    lemma_in_right(a4, sz, 4);
    lemma_in_left(a5, pr, sz[4]);
    lemma_in_left(a6, bot, sz[4]);
    if r.proof_bytes > 0 {
        lemma_in_right(a5, pr, 0);
        lemma_in_left(a6, bot, pr[0]);
    }
}

} // verus!

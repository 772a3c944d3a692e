//! The console report of the RS256 benchmark pipeline: the banner printed
//! before it starts and the table of timings and sizes printed at the end.
use vstd::prelude::*;
use vstd::string::{StrSliceExecFns, StringExecFns};
use crate::size_format::{decimal, format_size, format_size_spec, push_decimal};

verus! {

/// What `str::to_uppercase` gives for `s`.
pub uninterp spec fn uppercase(s: Seq<char>) -> Seq<char>;

/// Whether every character of `s` is ASCII.
pub open spec fn ascii_text(s: Seq<char>) -> bool {
    forall|i: int| 0 <= i < s.len() ==> (#[trigger] s[i]) as u32 <= 0x7f
}

/// ASCII upper case of one character: `a`..`z` become `A`..`Z`.
pub open spec fn ascii_upper(c: char) -> char {
    if 'a' <= c <= 'z' {
        ((c as u32) - 32) as char
    } else {
        c
    }
}

/// Calls `str::to_uppercase`. Claims that the result is `uppercase` of the
/// text (a function of the text alone) and that on ASCII text it maps
/// `a`..`z` to `A`..`Z` and keeps every other character, which is the
/// Unicode upper-case mapping std documents that it applies. What it gives
/// for other characters is left unsaid.
#[verifier::external_body]
fn to_uppercase(s: &str) -> (r: String)
    ensures
        r@ == uppercase(s@),
        ascii_text(s@) ==> r@ == s@.map_values(|c: char| ascii_upper(c)),
{
    s.to_uppercase()
}

/// `s` right-aligned in `width` characters, as `{:>width}` prints it.
pub open spec fn pad_left(s: Seq<char>, width: nat) -> Seq<char> {
    if s.len() < width {
        Seq::new((width - s.len()) as nat, |i: int| ' ') + s
    } else {
        s
    }
}

/// What the RS256 benchmark measured.
#[derive(Clone, Copy, Debug, PartialEq, Eq, Structural)]
pub struct Rs256Measures {
    pub witness_gen_ms: u128,
    pub setup_ms: u128,
    pub prove_ms: u128,
    pub verify_ms: u128,
    pub proving_key_bytes: u64,
    pub verifying_key_bytes: u64,
    pub proof_bytes: u64,
    pub witness_bytes: u64,
}

/// The banner printed before the pipeline starts, one entry per line.
pub open spec fn banner_spec(circuit_name: Seq<char>) -> Seq<Seq<char>> {
    seq![
        "\n╔════════════════════════════════════════════════╗"@,
        "║  "@ + uppercase(circuit_name) + " BENCHMARK PIPELINE  ║"@,
        "╚════════════════════════════════════════════════╝\n"@,
    ]
}

pub open spec fn timing_line(label: Seq<char>, ms: u128) -> Seq<char> {
    label + pad_left(decimal(ms as nat), 10) + " ms        ║"@
}

pub open spec fn size_line(label: Seq<char>, bytes: u64) -> Seq<char> {
    label + pad_left(format_size_spec(bytes as nat), 12) + "        ║"@
}

/// The results table, one entry per line.
pub open spec fn results_spec(m: Rs256Measures) -> Seq<Seq<char>> {
    seq![
        "\n╔════════════════════════════════════════════════╗"@,
        "║         RS256 BENCHMARK RESULTS                ║"@,
        "╠════════════════════════════════════════════════╣"@,
        "║ TIMING                                         ║"@,
        "╠════════════════════════════════════════════════╣"@,
        timing_line("║ Witness Gen:              "@, m.witness_gen_ms),
        timing_line("║ Setup:                    "@, m.setup_ms),
        timing_line("║ Prove:                    "@, m.prove_ms),
        timing_line("║ Verify:                   "@, m.verify_ms),
        "╠════════════════════════════════════════════════╣"@,
        "║ SIZES                                          ║"@,
        "╠════════════════════════════════════════════════╣"@,
        size_line("║ Proving Key:               "@, m.proving_key_bytes),
        size_line("║ Verifying Key:             "@, m.verifying_key_bytes),
        size_line("║ Proof:                     "@, m.proof_bytes),
        size_line("║ Witness:                   "@, m.witness_bytes),
        "╚════════════════════════════════════════════════╝\n"@,
    ]
}

pub open spec fn lines_view(v: Seq<String>) -> Seq<Seq<char>> {
    v.map_values(|s: String| s@)
}

/// Appends `s` right-aligned in `width` characters.
pub(crate) fn push_padded(out: &mut String, s: &str, width: usize)
    ensures
        final(out)@ == old(out)@ + pad_left(s@, width as nat),
{
    let n = s.unicode_len();
    let mut k: usize = n;
    while k < width
        invariant
            n == s@.len(),
            n <= k,
            k <= width || n >= width,
            n >= width ==> k == n,
            out@ == old(out)@ + Seq::new((k - n) as nat, |i: int| ' '),
        decreases width - k,
    {
        let ghost before = out@;
        out.append(" ");
        proof {
            reveal_strlit(" ");
        }
        k = k + 1;
        assert(out@ =~= old(out)@ + Seq::new((k - n) as nat, |i: int| ' '));
    }
    let ghost pad = out@;
    out.append(s);
    proof {
        if n < width {
            assert(k == width);
            assert(out@ =~= old(out)@ + pad_left(s@, width as nat));
        } else {
            assert(k == n);
            assert(out@ =~= old(out)@ + pad_left(s@, width as nat));
        }
    }
}

fn timing_row(label: &str, ms: u128) -> (r: String)
    ensures
        r@ == timing_line(label@, ms),
{
    let mut v = String::new();
    push_decimal(&mut v, ms);
    let mut r = String::from_str(label);
    push_padded(&mut r, v.as_str(), 10);
    r.append(" ms        ║");
    r
}

fn size_row(label: &str, bytes: u64) -> (r: String)
    ensures
        r@ == size_line(label@, bytes),
{
    let v = format_size(bytes);
    let mut r = String::from_str(label);
    push_padded(&mut r, v.as_str(), 12);
    r.append("        ║");
    r
}

/// The banner printed before the pipeline for `circuit_name` starts.
pub fn rs256_banner(circuit_name: &str) -> (r: Vec<String>)
    ensures
        lines_view(r@) == banner_spec(circuit_name@),
{
    let mut title = String::from_str("║  ");
    let upper = to_uppercase(circuit_name);
    title.append(upper.as_str());
    title.append(" BENCHMARK PIPELINE  ║");
    let mut r: Vec<String> = Vec::new();
    r.push(String::from_str("\n╔════════════════════════════════════════════════╗"));
    r.push(title);
    r.push(String::from_str("╚════════════════════════════════════════════════╝\n"));
    assert(lines_view(r@) =~= banner_spec(circuit_name@));
    r
}

/// The results table printed at the end of the pipeline.
pub fn rs256_results(m: &Rs256Measures) -> (r: Vec<String>)
    ensures
        lines_view(r@) == results_spec(*m),
{
    let mut r: Vec<String> = Vec::new();
    r.push(String::from_str("\n╔════════════════════════════════════════════════╗"));
    r.push(String::from_str("║         RS256 BENCHMARK RESULTS                ║"));
    r.push(String::from_str("╠════════════════════════════════════════════════╣"));
    r.push(String::from_str("║ TIMING                                         ║"));
    r.push(String::from_str("╠════════════════════════════════════════════════╣"));
    r.push(timing_row("║ Witness Gen:              ", m.witness_gen_ms));
    r.push(timing_row("║ Setup:                    ", m.setup_ms));
    r.push(timing_row("║ Prove:                    ", m.prove_ms));
    r.push(timing_row("║ Verify:                   ", m.verify_ms));
    r.push(String::from_str("╠════════════════════════════════════════════════╣"));
    r.push(String::from_str("║ SIZES                                          ║"));
    r.push(String::from_str("╠════════════════════════════════════════════════╣"));
    r.push(size_row("║ Proving Key:               ", m.proving_key_bytes));
    r.push(size_row("║ Verifying Key:             ", m.verifying_key_bytes));
    r.push(size_row("║ Proof:                     ", m.proof_bytes));
    r.push(size_row("║ Witness:                   ", m.witness_bytes));
    r.push(String::from_str("╚════════════════════════════════════════════════╝\n"));
    assert(lines_view(r@) =~= results_spec(*m));
    r
}

} // verus!

//! The SLH-DSA-128s witness input JSON.
//!
//! Expected shape (byte arrays; each byte a decimal string or a number):
//!   pk       : [32]          public input
//!   msg      : [1024]        public input
//!   r        : [16]          private input
//!   sig_fors : [14][13][16]  private input
//!   sig_ht   : [7][44][16]   private input
//!
//! Reading flattens the two signature arrays and normalises every value to
//! the decimal text of the integer it stands for; writing gives the arrays
//! back their nested shape.
use vstd::prelude::*;
use vstd::string::StringExecFns;
use crate::cli::{all_digits, digit_value, digits_value, is_digit};
use crate::size_format::{decimal, digit_char, push_decimal};

verus! {

/// A JSON value where a byte is expected.
pub enum JsonScalar {
    Str(String),
    /// A number that fits in `u64`.
    U64(u64),
    /// Anything else (null, bool, negative or fractional number, array, object).
    Other,
}

/// A JSON value where an array of bytes is expected: `None` when the key
/// is absent or the value is not an array.
pub type JsonRow = Option<Vec<JsonScalar>>;

/// A JSON value where an array of arrays is expected.
pub type JsonPlane = Option<Vec<JsonRow>>;

/// A JSON value where an array of arrays of arrays is expected.
pub type JsonCube = Option<Vec<JsonPlane>>;

/// The fields of the input JSON that are read.
pub struct SlhDsaJsonInput {
    pub pk: JsonRow,
    pub msg: JsonRow,
    pub r: JsonRow,
    pub sig_fors: JsonCube,
    pub sig_ht: JsonCube,
}

/// The witness inputs, each value as canonical decimal text.
pub struct SlhDsaInputs {
    pub pk: Vec<String>,
    pub msg: Vec<String>,
    pub r: Vec<String>,
    /// Flattened `[14][13][16]`.
    pub sig_fors: Vec<String>,
    /// Flattened `[7][44][16]`.
    pub sig_ht: Vec<String>,
}

/// Why the inputs could not be read or written.
#[derive(Clone, Copy, Debug, PartialEq, Eq, Structural)]
pub enum InputError {
    /// A field is missing, not an array, or holds a value that is not an integer.
    AssignmentMissing,
    /// A signature array has the wrong number of values.
    Unsatisfiable,
}

pub open spec fn texts_view(v: Seq<String>) -> Seq<Seq<char>> {
    v.map_values(|s: String| s@)
}

// ---------------------------------------------------------------------------
// Integer text, as `num_bigint::BigInt` reads and prints it
// ---------------------------------------------------------------------------

pub open spec fn digit_or_underscore(s: Seq<char>) -> bool {
    forall|i: int| 0 <= i < s.len() ==> (is_digit(#[trigger] s[i]) || s[i] == '_')
}

/// `s` without its underscores.
pub open spec fn remove_underscores(s: Seq<char>) -> Seq<char>
    decreases s.len(),
{
    if s.len() == 0 {
        s
    } else if s.last() == '_' {
        remove_underscores(s.drop_last())
    } else {
        remove_underscores(s.drop_last()).push(s.last())
    }
}

/// The text `BigInt::from_str(s)` then `to_string()` give: an optional `-`
/// (not followed by `+`), an optional `+` (not followed by another), then
/// decimal digits and underscores, not starting with an underscore; the
/// value printed without leading zeros, negative only when non-zero.
pub open spec fn bigint_text(s: Seq<char>) -> Option<Seq<char>> {
    let neg = s.len() > 0 && s[0] == '-';
    let t = if neg {
        s.skip(1)
    } else {
        s
    };
    if neg && t.len() > 0 && t[0] == '+' {
        None
    } else {
        let u = if t.len() > 0 && t[0] == '+' && !(t.len() > 1 && t[1] == '+') {
            t.skip(1)
        } else {
            t
        };
        if u.len() == 0 || u[0] == '_' || !digit_or_underscore(u) {
            None
        } else {
            let v = digits_value(remove_underscores(u));
            Some(
                if neg && v != 0 {
                    seq!['-'] + decimal(v)
                } else {
                    decimal(v)
                },
            )
        }
    }
}

/// Calls `BigInt::from_str(s)` and prints the result with `to_string()`.
/// Claims the result is `bigint_text(s)`: the acceptance rules and the
/// printing that `num-bigint`'s `from_str_radix` (radix 10) and `Display`
/// implement.
#[verifier::external_body]
pub(crate) fn bigint_decimal_text(s: &str) -> (r: Option<String>)
    ensures
        match bigint_text(s@) {
            Some(t) => r matches Some(x) && x@ == t,
            None => r is None,
        },
{
    match s.parse::<num_bigint::BigInt>() {
        Ok(b) => Some(b.to_string()),
        Err(_) => None,
    }
}

/// The decimal text of one JSON byte value.
pub open spec fn scalar_text(v: JsonScalar) -> Option<Seq<char>> {
    match v {
        JsonScalar::Str(s) => bigint_text(s@),
        JsonScalar::U64(n) => Some(decimal(n as nat)),
        JsonScalar::Other => None,
    }
}

/// The texts of a row of values, if every value is an integer.
pub open spec fn row_texts(row: Seq<JsonScalar>) -> Option<Seq<Seq<char>>>
    decreases row.len(),
{
    if row.len() == 0 {
        Some(Seq::empty())
    } else {
        match (row_texts(row.drop_last()), scalar_text(row.last())) {
            (Some(a), Some(t)) => Some(a.push(t)),
            _ => None,
        }
    }
}

pub open spec fn array_texts(a: JsonRow) -> Option<Seq<Seq<char>>> {
    match a {
        Some(v) => row_texts(v@),
        None => None,
    }
}

/// The texts of a plane, rows in order, if every row is an array of integers.
pub open spec fn plane_texts(rows: Seq<JsonRow>) -> Option<Seq<Seq<char>>>
    decreases rows.len(),
{
    if rows.len() == 0 {
        Some(Seq::empty())
    } else {
        match (plane_texts(rows.drop_last()), array_texts(rows.last())) {
            (Some(a), Some(t)) => Some(a + t),
            _ => None,
        }
    }
}

/// The texts of a cube, planes in order.
pub open spec fn cube_planes_texts(planes: Seq<JsonPlane>) -> Option<Seq<Seq<char>>>
    decreases planes.len(),
{
    if planes.len() == 0 {
        Some(Seq::empty())
    } else {
        let last = match planes.last() {
            Some(rows) => plane_texts(rows@),
            None => None,
        };
        match (cube_planes_texts(planes.drop_last()), last) {
            (Some(a), Some(t)) => Some(a + t),
            _ => None,
        }
    }
}

pub open spec fn cube_texts(c: JsonCube) -> Option<Seq<Seq<char>>> {
    match c {
        Some(planes) => cube_planes_texts(planes@),
        None => None,
    }
}

pub struct InputsModel {
    pub pk: Seq<Seq<char>>,
    pub msg: Seq<Seq<char>>,
    pub r: Seq<Seq<char>>,
    pub sig_fors: Seq<Seq<char>>,
    pub sig_ht: Seq<Seq<char>>,
}

pub open spec fn inputs_view(i: SlhDsaInputs) -> InputsModel {
    InputsModel {
        pk: texts_view(i.pk@),
        msg: texts_view(i.msg@),
        r: texts_view(i.r@),
        sig_fors: texts_view(i.sig_fors@),
        sig_ht: texts_view(i.sig_ht@),
    }
}

/// The inputs of a JSON document, if every field is present and well formed.
pub open spec fn inputs_spec(j: SlhDsaJsonInput) -> Option<InputsModel> {
    match (
        array_texts(j.pk),
        array_texts(j.msg),
        array_texts(j.r),
        cube_texts(j.sig_fors),
        cube_texts(j.sig_ht),
    ) {
        (Some(pk), Some(msg), Some(r), Some(f), Some(h)) => Some(
            InputsModel { pk, msg, r, sig_fors: f, sig_ht: h },
        ),
        _ => None,
    }
}

fn parse_byte_value(v: &JsonScalar) -> (r: Option<String>)
    ensures
        match scalar_text(*v) {
            Some(t) => r matches Some(x) && x@ == t,
            None => r is None,
        },
{
    match v {
        JsonScalar::Str(s) => bigint_decimal_text(s.as_str()),
        JsonScalar::U64(n) => {
            let mut out = String::new();
            push_decimal(&mut out, *n as u128);
            Some(out)
        },
        JsonScalar::Other => None,
    }
}

/// Appends the texts of a row of values.
fn push_row(out: &mut Vec<String>, row: &Vec<JsonScalar>) -> (ok: bool)
    ensures
        match row_texts(row@) {
            Some(t) => ok && texts_view(final(out)@) == texts_view(old(out)@) + t,
            None => !ok,
        },
{
    let mut i: usize = 0;
    let ghost start = texts_view(out@);
    while i < row.len()
        invariant
            i <= row@.len(),
            start == texts_view(old(out)@),
            row_texts(row@.take(i as int)) matches Some(t) && texts_view(out@) == start + t,
        decreases row@.len() - i,
    {
        let ghost before = texts_view(out@);
        proof {
            assert(row@.take(i + 1).drop_last() =~= row@.take(i as int));
            assert(row@.take(i + 1).last() == row@[i as int]);
        }
        match parse_byte_value(&row[i]) {
            Some(t) => {
                out.push(t);
                proof {
                    assert(texts_view(out@) =~= before.push(t@));
                    let prev = row_texts(row@.take(i as int))->Some_0;
                    assert(start + prev.push(t@) =~= (start + prev).push(t@));
                }
            },
            None => {
                proof {
                    lemma_row_texts_none(row@, i as int + 1);
                }
                return false;
            },
        }
        i = i + 1;
    }
    assert(row@.take(i as int) =~= row@);
    true
}

proof fn lemma_row_texts_none(row: Seq<JsonScalar>, k: int)
    requires
        0 <= k <= row.len(),
        row_texts(row.take(k)) is None,
    ensures
        row_texts(row) is None,
    decreases row.len() - k,
{
    if k < row.len() {
        assert(row.take(k + 1).drop_last() =~= row.take(k));
        lemma_row_texts_none(row, k + 1);
    } else {
        assert(row.take(k) =~= row);
    }
}

proof fn lemma_plane_texts_none(rows: Seq<JsonRow>, k: int)
    requires
        0 <= k <= rows.len(),
        plane_texts(rows.take(k)) is None,
    ensures
        plane_texts(rows) is None,
    decreases rows.len() - k,
{
    if k < rows.len() {
        assert(rows.take(k + 1).drop_last() =~= rows.take(k));
        lemma_plane_texts_none(rows, k + 1);
    } else {
        assert(rows.take(k) =~= rows);
    }
}

proof fn lemma_cube_texts_none(planes: Seq<JsonPlane>, k: int)
    requires
        0 <= k <= planes.len(),
        cube_planes_texts(planes.take(k)) is None,
    ensures
        cube_planes_texts(planes) is None,
    decreases planes.len() - k,
{
    if k < planes.len() {
        assert(planes.take(k + 1).drop_last() =~= planes.take(k));
        lemma_cube_texts_none(planes, k + 1);
    } else {
        assert(planes.take(k) =~= planes);
    }
}

/// Reads a one-dimensional byte array (`parse_byte_array`).
pub fn parse_byte_array(a: &JsonRow) -> (r: Result<Vec<String>, InputError>)
    ensures
        match array_texts(*a) {
            Some(t) => r matches Ok(v) && texts_view(v@) == t,
            None => r == Err::<Vec<String>, InputError>(InputError::AssignmentMissing),
        },
{
    match a {
        None => Err(InputError::AssignmentMissing),
        Some(row) => {
            let mut out: Vec<String> = Vec::new();
            assert(texts_view(out@) =~= Seq::<Seq<char>>::empty());
            if push_row(&mut out, row) {
                assert(texts_view(out@) =~= Seq::<Seq<char>>::empty() + row_texts(row@)->Some_0);
                Ok(out)
            } else {
                Err(InputError::AssignmentMissing)
            }
        },
    }
}

/// Reads a three-dimensional byte array, flattened in order
/// (`parse_3d_byte_array`).
pub fn parse_3d_byte_array(c: &JsonCube) -> (r: Result<Vec<String>, InputError>)
    ensures
        match cube_texts(*c) {
            Some(t) => r matches Ok(v) && texts_view(v@) == t,
            None => r == Err::<Vec<String>, InputError>(InputError::AssignmentMissing),
        },
{
    let planes = match c {
        None => {
            return Err(InputError::AssignmentMissing);
        },
        Some(p) => p,
    };
    assert(*c == Some(*planes));
    let mut out: Vec<String> = Vec::new();
    let mut i: usize = 0;
    assert(texts_view(out@) =~= Seq::<Seq<char>>::empty());
    while i < planes.len()
        invariant
            *c == Some(*planes),
            i <= planes@.len(),
            cube_planes_texts(planes@.take(i as int)) == Some(texts_view(out@)),
        decreases planes@.len() - i,
    {
        proof {
            assert(planes@.take(i + 1).drop_last() =~= planes@.take(i as int));
            assert(planes@.take(i + 1).last() == planes@[i as int]);
        }
        let ghost plane_start = texts_view(out@);
        let rows = match &planes[i] {
            None => {
                proof {
                    lemma_cube_texts_none(planes@, i as int + 1);
                }
                return Err(InputError::AssignmentMissing);
            },
            Some(rows) => rows,
        };
        let mut j: usize = 0;
        assert(rows@.take(0) =~= Seq::<JsonRow>::empty());
        assert(planes@[i as int] == Some(*rows));
        while j < rows.len()
            invariant
                i < planes@.len(),
                planes@[i as int] == Some(*rows),
                *c == Some(*planes),
                cube_planes_texts(planes@.take(i as int)) == Some(plane_start),
                planes@.take(i + 1).drop_last() == planes@.take(i as int),
                planes@.take(i + 1).last() == planes@[i as int],
                j <= rows@.len(),
                plane_texts(rows@.take(j as int)) matches Some(t) && texts_view(out@)
                    == plane_start + t,
            decreases rows@.len() - j,
        {
            proof {
                assert(rows@.take(j + 1).drop_last() =~= rows@.take(j as int));
                assert(rows@.take(j + 1).last() == rows@[j as int]);
            }
            let ghost before = texts_view(out@);
            match &rows[j] {
                None => {
                    proof {
                        lemma_plane_texts_none(rows@, j as int + 1);
                        lemma_cube_texts_none(planes@, i as int + 1);
                    }
                    return Err(InputError::AssignmentMissing);
                },
                Some(row) => {
                    if !push_row(&mut out, row) {
                        proof {
                            lemma_plane_texts_none(rows@, j as int + 1);
                            lemma_cube_texts_none(planes@, i as int + 1);
                        }
                        return Err(InputError::AssignmentMissing);
                    }
                    proof {
                        let prev = plane_texts(rows@.take(j as int))->Some_0;
                        let t = row_texts(row@)->Some_0;
                        assert(plane_start + (prev + t) =~= (plane_start + prev) + t);
                    }
                },
            }
            j = j + 1;
        }
        proof {
            assert(rows@.take(j as int) =~= rows@);
        }
        i = i + 1;
    }
    proof {
        assert(planes@.take(i as int) =~= planes@);
    }
    Ok(out)
}

/// Reads the witness inputs of an SLH-DSA input document.
pub fn parse_slh_dsa_inputs(json: &SlhDsaJsonInput) -> (r: Result<SlhDsaInputs, InputError>)
    ensures
        match inputs_spec(*json) {
            Some(m) => r matches Ok(i) && inputs_view(i) == m,
            None => r == Err::<SlhDsaInputs, InputError>(InputError::AssignmentMissing),
        },
{
    let pk = parse_byte_array(&json.pk)?;
    let msg = parse_byte_array(&json.msg)?;
    let r = parse_byte_array(&json.r)?;
    let sig_fors = parse_3d_byte_array(&json.sig_fors)?;
    let sig_ht = parse_3d_byte_array(&json.sig_ht)?;
    Ok(SlhDsaInputs { pk, msg, r, sig_fors, sig_ht })
}

// ---------------------------------------------------------------------------
// Writing the inputs back in nested form
// ---------------------------------------------------------------------------

/// Dimensions of `sig_fors`.
pub const FORS_SHAPE: (usize, usize, usize) = (14, 13, 16);

/// Dimensions of `sig_ht`.
pub const HT_SHAPE: (usize, usize, usize) = (7, 44, 16);

pub open spec fn cube_view(c: Seq<Vec<Vec<String>>>) -> Seq<Seq<Seq<Seq<char>>>> {
    c.map_values(|p: Vec<Vec<String>>| p@.map_values(|r: Vec<String>| texts_view(r@)))
}

/// `vals` arranged as `outer` planes of `mid` rows of `inner` values:
/// element `(i, j, k)` is `vals[i * mid * inner + j * inner + k]`.
pub open spec fn reshaped(vals: Seq<Seq<char>>, outer: nat, mid: nat, inner: nat) -> Seq<
    Seq<Seq<Seq<char>>>,
> {
    Seq::new(
        outer,
        |i: int|
            Seq::new(
                mid,
                |j: int| Seq::new(inner, |k: int| vals[i * mid * inner + j * inner + k]),
            ),
    )
}

/// The planes of a cube, rows and values in order, back to one sequence.
pub open spec fn flatten3(c: Seq<Seq<Seq<Seq<char>>>>) -> Seq<Seq<char>> {
    c.map_values(|p: Seq<Seq<Seq<char>>>| p.flatten()).flatten()
}

/// Arranges `vals` as `outer x mid x inner`, refusing a wrong count.
pub fn reshape_3d(vals: &[String], outer: usize, mid: usize, inner: usize) -> (r: Result<
    Vec<Vec<Vec<String>>>,
    InputError,
>)
    requires
        outer * mid <= usize::MAX,
        outer * mid * inner <= usize::MAX,
    ensures
        vals@.len() == outer * mid * inner ==> (r matches Ok(c) && cube_view(c@) == reshaped(
            texts_view(vals@),
            outer as nat,
            mid as nat,
            inner as nat,
        )),
        vals@.len() != outer * mid * inner ==> r == Err::<Vec<Vec<Vec<String>>>, InputError>(
            InputError::Unsatisfiable,
        ),
{
    if vals.len() != outer * mid * inner {
        return Err(InputError::Unsatisfiable);
    }
    let ghost tv = texts_view(vals@);
    let ghost want = reshaped(tv, outer as nat, mid as nat, inner as nat);
    let mut out_arr: Vec<Vec<Vec<String>>> = Vec::new();
    let mut pos: usize = 0;
    let mut i: usize = 0;
    while i < outer
        invariant
            vals@.len() == outer * mid * inner,
            tv == texts_view(vals@),
            want == reshaped(tv, outer as nat, mid as nat, inner as nat),
            i <= outer,
            pos == i * mid * inner,
            cube_view(out_arr@) == want.take(i as int),
        decreases outer - i,
    {
        let mut mid_arr: Vec<Vec<String>> = Vec::new();
        let mut j: usize = 0;
        while j < mid
            invariant
                vals@.len() == outer * mid * inner,
                tv == texts_view(vals@),
                want == reshaped(tv, outer as nat, mid as nat, inner as nat),
                i < outer,
                j <= mid,
                pos == i * mid * inner + j * inner,
                mid_arr@.map_values(|r: Vec<String>| texts_view(r@)) == want[i as int].take(
                    j as int,
                ),
            decreases mid - j,
        {
            let mut inner_arr: Vec<String> = Vec::new();
            let mut k: usize = 0;
            while k < inner
                invariant
                    vals@.len() == outer * mid * inner,
                    tv == texts_view(vals@),
                    want == reshaped(tv, outer as nat, mid as nat, inner as nat),
                    i < outer,
                    j < mid,
                    k <= inner,
                    pos == i * mid * inner + j * inner + k,
                    texts_view(inner_arr@) == want[i as int][j as int].take(k as int),
                decreases inner - k,
            {
                proof {
                    lemma_index_in_bounds(i as int, j as int, k as int, outer as int, mid as int, inner as int);
                }
                let v = vals[pos].clone();
                assert(v@ == tv[pos as int]);
                assert(want[i as int][j as int][k as int] == tv[pos as int]);
                let ghost before = inner_arr@;
                inner_arr.push(v);
                assert(texts_view(inner_arr@) =~= texts_view(before).push(v@));
                k = k + 1;
                pos = pos + 1;
                assert(texts_view(inner_arr@) =~= want[i as int][j as int].take(k as int));
            }
            let ghost before_mid = mid_arr@;
            mid_arr.push(inner_arr);
            proof {
                assert(want[i as int][j as int].take(inner as int) =~= want[i as int][j as int]);
                assert(mid_arr@.map_values(|r: Vec<String>| texts_view(r@)) =~= before_mid.map_values(
                    |r: Vec<String>| texts_view(r@),
                ).push(want[i as int][j as int]));
                assert(i * mid * inner + j * inner + inner == i * mid * inner + (j + 1) * inner)
                    by (nonlinear_arith);
            }
            j = j + 1;
            assert(mid_arr@.map_values(|r: Vec<String>| texts_view(r@)) =~= want[i as int].take(
                j as int,
            ));
        }
        let ghost before_out = out_arr@;
        out_arr.push(mid_arr);
        proof {
            assert(want[i as int].take(mid as int) =~= want[i as int]);
            assert(cube_view(out_arr@) =~= cube_view(before_out).push(want[i as int]));
            assert(i * mid * inner + mid * inner == (i + 1) * mid * inner) by (nonlinear_arith);
        }
        i = i + 1;
        assert(cube_view(out_arr@) =~= want.take(i as int));
    }
    assert(want.take(outer as int) =~= want);
    Ok(out_arr)
}

/// Index arithmetic of `reshape_3d` stays inside the array.
pub(crate) proof fn lemma_index_in_bounds(i: int, j: int, k: int, outer: int, mid: int, inner: int)
    requires
        0 <= i < outer,
        0 <= j < mid,
        0 <= k < inner,
    ensures
        0 <= i * mid * inner,
        0 <= j * inner,
        i * mid * inner + j * inner + k < outer * mid * inner,
{
    assert(j * inner + k < mid * inner) by (nonlinear_arith)
        requires
            0 <= j < mid,
            0 <= k < inner,
    ;
    assert(i * mid * inner + mid * inner <= outer * mid * inner) by (nonlinear_arith)
        requires
            0 <= i < outer,
            0 <= mid,
            0 <= inner,
    ;
    assert(0 <= i * mid * inner) by (nonlinear_arith)
        requires
            0 <= i,
            0 <= mid,
            0 <= inner,
    ;
    assert(0 <= j * inner) by (nonlinear_arith)
        requires
            0 <= j,
            0 <= inner,
    ;
}

/// The inputs in the shape the witness generator reads: the signature
/// arrays nested again.
pub struct WitnessInputs {
    pub pk: Vec<String>,
    pub msg: Vec<String>,
    pub r: Vec<String>,
    pub sig_fors: Vec<Vec<Vec<String>>>,
    pub sig_ht: Vec<Vec<Vec<String>>>,
}

/// Nests the signature arrays again (`[14][13][16]` and `[7][44][16]`);
/// a signature array of the wrong length is refused.
pub fn witness_inputs(inputs: &SlhDsaInputs) -> (r: Result<WitnessInputs, InputError>)
    ensures
        inputs.sig_fors@.len() == 14 * 13 * 16 && inputs.sig_ht@.len() == 7 * 44 * 16 <==> r is Ok,
        r is Err ==> r == Err::<WitnessInputs, InputError>(InputError::Unsatisfiable),
        r matches Ok(w) ==> {
            &&& texts_view(w.pk@) == texts_view(inputs.pk@)
            &&& texts_view(w.msg@) == texts_view(inputs.msg@)
            &&& texts_view(w.r@) == texts_view(inputs.r@)
            &&& cube_view(w.sig_fors@) == reshaped(texts_view(inputs.sig_fors@), 14, 13, 16)
            &&& cube_view(w.sig_ht@) == reshaped(texts_view(inputs.sig_ht@), 7, 44, 16)
        },
{
    let sig_fors = reshape_3d(inputs.sig_fors.as_slice(), 14, 13, 16)?;
    let sig_ht = reshape_3d(inputs.sig_ht.as_slice(), 7, 44, 16)?;
    Ok(
        WitnessInputs {
            pk: clone_texts(&inputs.pk),
            msg: clone_texts(&inputs.msg),
            r: clone_texts(&inputs.r),
            sig_fors,
            sig_ht,
        },
    )
}

fn clone_texts(v: &Vec<String>) -> (r: Vec<String>)
    ensures
        texts_view(r@) == texts_view(v@),
{
    let mut out: Vec<String> = Vec::new();
    let mut i: usize = 0;
    while i < v.len()
        invariant
            i <= v@.len(),
            texts_view(out@) == texts_view(v@).take(i as int),
        decreases v@.len() - i,
    {
        let x = v[i].clone();
        assert(x@ == v@[i as int]@);
        let ghost before = out@;
        out.push(x);
        assert(texts_view(out@) =~= texts_view(before).push(x@));
        i = i + 1;
        assert(texts_view(out@) =~= texts_view(v@).take(i as int));
    }
    assert(texts_view(v@).take(i as int) =~= texts_view(v@));
    out
}

// ---------------------------------------------------------------------------
// Normal form of the values
// ---------------------------------------------------------------------------

proof fn lemma_decimal_digits(n: nat)
    ensures
        decimal(n).len() > 0,
        all_digits(decimal(n)),
        digits_value(decimal(n)) == n,
    decreases n,
{
    let d = n % 10;
    assert(digit_value(digit_char(d)) == d);
    assert(is_digit(digit_char(d)));
    if n >= 10 {
        lemma_decimal_digits(n / 10);
        let s = decimal(n / 10);
        let t = s.push(digit_char(d));
        assert(decimal(n) == t);
        assert(t.drop_last() =~= s);
        assert(t.last() == digit_char(d));
        assert(digits_value(t) == digits_value(s) * 10 + digit_value(digit_char(d)));
        assert((n / 10) * 10 + n % 10 == n);
        assert forall|i: int| 0 <= i < t.len() implies is_digit(#[trigger] t[i]) by {
            if i < s.len() {
                assert(t[i] == s[i]);
            }
        }
    } else {
        let t = seq![digit_char(n)];
        assert(decimal(n) == t);
        assert(t.drop_last() =~= Seq::<char>::empty());
        assert(t.last() == digit_char(n));
        assert(digits_value(t) == digits_value(Seq::<char>::empty()) * 10 + digit_value(digit_char(n)));
    }
}

proof fn lemma_no_underscores(s: Seq<char>)
    requires
        all_digits(s),
    ensures
        remove_underscores(s) == s,
    decreases s.len(),
{
    if s.len() > 0 {
        assert(all_digits(s.drop_last())) by {
            assert forall|i: int| 0 <= i < s.drop_last().len() implies is_digit(
                #[trigger] s.drop_last()[i],
            ) by {
                assert(s.drop_last()[i] == s[i]);
            }
        }
        lemma_no_underscores(s.drop_last());
        assert(is_digit(s[s.len() - 1]));
        assert(s.last() != '_');
        assert(s.drop_last().push(s.last()) =~= s);
    }
}

/// Law: the text a value is written as is already in normal form: reading
/// it again gives it back unchanged, so the witness generator reads the
/// integer that the input document held.
pub proof fn law_bigint_text_is_normal(s: Seq<char>)
    requires
        bigint_text(s) is Some,
    ensures
        bigint_text(bigint_text(s)->Some_0) == bigint_text(s),
{
    let neg = s.len() > 0 && s[0] == '-';
    let t = if neg {
        s.skip(1)
    } else {
        s
    };
    let u = if t.len() > 0 && t[0] == '+' && !(t.len() > 1 && t[1] == '+') {
        t.skip(1)
    } else {
        t
    };
    let v = digits_value(remove_underscores(u));
    lemma_decimal_digits(v);
    lemma_no_underscores(decimal(v));
    let d = decimal(v);
    assert(is_digit(d[0]));
    assert(digit_or_underscore(d)) by {
        assert forall|i: int| 0 <= i < d.len() implies (is_digit(#[trigger] d[i]) || d[i] == '_') by {}
    }
    if neg && v != 0 {
        let w = seq!['-'] + d;
        assert(w.skip(1) =~= d);
        assert(w[0] == '-');
    }
}

/// The decimal text of a number is in normal form.
pub proof fn lemma_decimal_is_normal(n: nat)
    ensures
        bigint_text(decimal(n)) == Some(decimal(n)),
{
    lemma_decimal_digits(n);
    lemma_no_underscores(decimal(n));
    let d = decimal(n);
    assert(is_digit(d[0]));
    assert(digit_or_underscore(d)) by {
        assert forall|i: int| 0 <= i < d.len() implies (is_digit(#[trigger] d[i]) || d[i] == '_') by {}
    }
}

} // verus!

//! The input document handed to the SLH-DSA witness generator: the witness
//! inputs as JSON arrays of decimal strings, the signature arrays nested.
//! Reading that document back gives the inputs it was written from.
use vstd::prelude::*;
use crate::reshape_laws::law_reshape_keeps_values;
use crate::slh_inputs::{
    array_texts, bigint_text, cube_planes_texts, cube_texts, cube_view, flatten3, inputs_spec,
    inputs_view, lemma_decimal_is_normal, lemma_index_in_bounds, law_bigint_text_is_normal,
    plane_texts, reshaped, row_texts, scalar_text, texts_view, InputsModel, JsonCube, JsonPlane,
    JsonRow, JsonScalar, SlhDsaInputs, SlhDsaJsonInput, WitnessInputs,
};

verus! {

/// A value text that reading gives back unchanged.
pub open spec fn normal(t: Seq<char>) -> bool {
    bigint_text(t) == Some(t)
}

pub open spec fn all_normal(ts: Seq<Seq<char>>) -> bool {
    forall|k: int| 0 <= k < ts.len() ==> normal(#[trigger] ts[k])
}

/// `r` is an array holding the strings `t`, in order.
pub open spec fn row_holds(r: JsonRow, t: Seq<Seq<char>>) -> bool {
    r matches Some(v) && items_hold(v@, t)
}

pub open spec fn items_hold(x: Seq<JsonScalar>, t: Seq<Seq<char>>) -> bool {
    &&& x.len() == t.len()
    &&& forall|k: int| 0 <= k < t.len() ==> (#[trigger] x[k] matches JsonScalar::Str(s) && s@ == t[k])
}

/// `p` is an array of arrays holding the rows `rows`.
pub open spec fn plane_holds(p: JsonPlane, rows: Seq<Seq<Seq<char>>>) -> bool {
    p matches Some(v) && rows_hold(v@, rows)
}

pub open spec fn rows_hold(x: Seq<JsonRow>, rows: Seq<Seq<Seq<char>>>) -> bool {
    &&& x.len() == rows.len()
    &&& forall|j: int| 0 <= j < rows.len() ==> row_holds(#[trigger] x[j], rows[j])
}

/// `c` is a three-level array holding the cube `cube`.
pub open spec fn cube_holds(c: JsonCube, cube: Seq<Seq<Seq<Seq<char>>>>) -> bool {
    c matches Some(v) && planes_hold(v@, cube)
}

pub open spec fn planes_hold(x: Seq<JsonPlane>, cube: Seq<Seq<Seq<Seq<char>>>>) -> bool {
    &&& x.len() == cube.len()
    &&& forall|i: int| 0 <= i < cube.len() ==> plane_holds(#[trigger] x[i], cube[i])
}

/// `j` is the document of the witness inputs `w`.
pub open spec fn document_of(j: SlhDsaJsonInput, w: WitnessInputs) -> bool {
    &&& row_holds(j.pk, texts_view(w.pk@))
    &&& row_holds(j.msg, texts_view(w.msg@))
    &&& row_holds(j.r, texts_view(w.r@))
    &&& cube_holds(j.sig_fors, cube_view(w.sig_fors@))
    &&& cube_holds(j.sig_ht, cube_view(w.sig_ht@))
}

/// What `witness_inputs` gives for `i` when it succeeds.
pub open spec fn nests(i: SlhDsaInputs, w: WitnessInputs) -> bool {
    &&& texts_view(w.pk@) == texts_view(i.pk@)
    &&& texts_view(w.msg@) == texts_view(i.msg@)
    &&& texts_view(w.r@) == texts_view(i.r@)
    &&& i.sig_fors@.len() == 14 * 13 * 16
    &&& i.sig_ht@.len() == 7 * 44 * 16
    &&& cube_view(w.sig_fors@) == reshaped(texts_view(i.sig_fors@), 14, 13, 16)
    &&& cube_view(w.sig_ht@) == reshaped(texts_view(i.sig_ht@), 7, 44, 16)
}

// ---------------------------------------------------------------------------
// Writing the document
// ---------------------------------------------------------------------------

fn document_row(v: &Vec<String>) -> (r: JsonRow)
    ensures
        row_holds(r, texts_view(v@)),
{
    let mut out: Vec<JsonScalar> = Vec::new();
    let mut k: usize = 0;
    while k < v.len()
        invariant
            k <= v@.len(),
            items_hold(out@, texts_view(v@).take(k as int)),
        decreases v@.len() - k,
    {
        out.push(JsonScalar::Str(v[k].clone()));
        k = k + 1;
        assert forall|m: int| 0 <= m < k implies (#[trigger] out@[m] matches JsonScalar::Str(s)
            && s@ == texts_view(v@).take(k as int)[m]) by {}
    }
    assert(texts_view(v@).take(k as int) =~= texts_view(v@));
    Some(out)
}

pub open spec fn rows_view(p: Seq<Vec<String>>) -> Seq<Seq<Seq<char>>> {
    p.map_values(|r: Vec<String>| texts_view(r@))
}

fn document_plane(p: &Vec<Vec<String>>) -> (r: JsonPlane)
    ensures
        plane_holds(r, rows_view(p@)),
{
    let mut out: Vec<JsonRow> = Vec::new();
    let mut j: usize = 0;
    while j < p.len()
        invariant
            j <= p@.len(),
            rows_hold(out@, rows_view(p@).take(j as int)),
        decreases p@.len() - j,
    {
        let row = document_row(&p[j]);
        out.push(row);
        j = j + 1;
        assert forall|m: int| 0 <= m < j implies row_holds(
            #[trigger] out@[m],
            rows_view(p@).take(j as int)[m],
        ) by {}
    }
    assert(rows_view(p@).take(j as int) =~= rows_view(p@));
    Some(out)
}

fn document_cube(c: &Vec<Vec<Vec<String>>>) -> (r: JsonCube)
    ensures
        cube_holds(r, cube_view(c@)),
{
    let mut out: Vec<JsonPlane> = Vec::new();
    let mut i: usize = 0;
    while i < c.len()
        invariant
            i <= c@.len(),
            planes_hold(out@, cube_view(c@).take(i as int)),
        decreases c@.len() - i,
    {
        let plane = document_plane(&c[i]);
        assert(rows_view(c@[i as int]@) == cube_view(c@)[i as int]);
        out.push(plane);
        i = i + 1;
        assert forall|m: int| 0 <= m < i implies plane_holds(
            #[trigger] out@[m],
            cube_view(c@).take(i as int)[m],
        ) by {}
    }
    assert(cube_view(c@).take(i as int) =~= cube_view(c@));
    Some(out)
}

/// The document handed to the witness generator for the inputs `w`: each
/// value a JSON string, the arrays nested as in `w`.
pub fn witness_document(w: &WitnessInputs) -> (j: SlhDsaJsonInput)
    ensures
        document_of(j, *w),
{
    SlhDsaJsonInput {
        pk: document_row(&w.pk),
        msg: document_row(&w.msg),
        r: document_row(&w.r),
        sig_fors: document_cube(&w.sig_fors),
        sig_ht: document_cube(&w.sig_ht),
    }
}

// ---------------------------------------------------------------------------
// Every text that reading gives is normal
// ---------------------------------------------------------------------------

proof fn lemma_scalar_normal(v: JsonScalar)
    requires
        scalar_text(v) is Some,
    ensures
        normal(scalar_text(v)->Some_0),
{
    match v {
        JsonScalar::Str(s) => law_bigint_text_is_normal(s@),
        JsonScalar::U64(n) => lemma_decimal_is_normal(n as nat),
        JsonScalar::Other => {},
    }
}

proof fn lemma_row_normal(row: Seq<JsonScalar>)
    requires
        row_texts(row) is Some,
    ensures
        all_normal(row_texts(row)->Some_0),
    decreases row.len(),
{
    if row.len() > 0 {
        lemma_row_normal(row.drop_last());
        lemma_scalar_normal(row.last());
        let a = row_texts(row.drop_last())->Some_0;
        let t = scalar_text(row.last())->Some_0;
        assert forall|k: int| 0 <= k < a.push(t).len() implies normal(#[trigger] a.push(t)[k]) by {
            if k < a.len() {
                assert(a.push(t)[k] == a[k]);
            }
        }
    }
}

proof fn lemma_concat_normal(a: Seq<Seq<char>>, b: Seq<Seq<char>>)
    requires
        all_normal(a),
        all_normal(b),
    ensures
        all_normal(a + b),
{
    assert forall|k: int| 0 <= k < (a + b).len() implies normal(#[trigger] (a + b)[k]) by {
        if k < a.len() {
            assert((a + b)[k] == a[k]);
        } else {
            assert((a + b)[k] == b[k - a.len()]);
        }
    }
}

proof fn lemma_plane_normal(rows: Seq<JsonRow>)
    requires
        plane_texts(rows) is Some,
    ensures
        all_normal(plane_texts(rows)->Some_0),
    decreases rows.len(),
{
    if rows.len() > 0 {
        lemma_plane_normal(rows.drop_last());
        let r = rows.last()->Some_0;
        lemma_row_normal(r@);
        lemma_concat_normal(plane_texts(rows.drop_last())->Some_0, array_texts(rows.last())->Some_0);
    }
}

proof fn lemma_cube_normal(planes: Seq<JsonPlane>)
    requires
        cube_planes_texts(planes) is Some,
    ensures
        all_normal(cube_planes_texts(planes)->Some_0),
    decreases planes.len(),
{
    if planes.len() > 0 {
        lemma_cube_normal(planes.drop_last());
        let rows = planes.last()->Some_0;
        lemma_plane_normal(rows@);
        lemma_concat_normal(
            cube_planes_texts(planes.drop_last())->Some_0,
            plane_texts(rows@)->Some_0,
        );
    }
}

// ---------------------------------------------------------------------------
// Reading the document back
// ---------------------------------------------------------------------------

proof fn lemma_read_items(x: Seq<JsonScalar>, t: Seq<Seq<char>>)
    requires
        items_hold(x, t),
        all_normal(t),
    ensures
        row_texts(x) == Some(t),
    decreases x.len(),
{
    if x.len() > 0 {
        let tl = t.drop_last();
        assert(items_hold(x.drop_last(), tl)) by {
            assert forall|k: int| 0 <= k < tl.len() implies (#[trigger] x.drop_last()[k] matches JsonScalar::Str(s)
                && s@ == tl[k]) by {
                assert(x.drop_last()[k] == x[k]);
            }
        }
        assert(all_normal(tl)) by {
            assert forall|k: int| 0 <= k < tl.len() implies normal(#[trigger] tl[k]) by {
                assert(tl[k] == t[k]);
            }
        }
        lemma_read_items(x.drop_last(), tl);
        let last = x[x.len() - 1];
        assert(last matches JsonScalar::Str(s) && s@ == t[t.len() - 1]);
        assert(normal(t[t.len() - 1]));
        assert(tl.push(t.last()) =~= t);
    }
}

proof fn lemma_read_rows(x: Seq<JsonRow>, rows: Seq<Seq<Seq<char>>>)
    requires
        rows_hold(x, rows),
        forall|j: int| 0 <= j < rows.len() ==> all_normal(#[trigger] rows[j]),
    ensures
        plane_texts(x) == Some(rows.flatten_alt()),
    decreases x.len(),
{
    if x.len() > 0 {
        let rl = rows.drop_last();
        assert(rows_hold(x.drop_last(), rl)) by {
            assert forall|j: int| 0 <= j < rl.len() implies row_holds(#[trigger] x.drop_last()[j], rl[j]) by {
                assert(x.drop_last()[j] == x[j]);
            }
        }
        assert forall|j: int| 0 <= j < rl.len() implies all_normal(#[trigger] rl[j]) by {
            assert(rl[j] == rows[j]);
        }
        lemma_read_rows(x.drop_last(), rl);
        let n = x.len() - 1;
        assert(row_holds(x[n], rows[n]));
        assert(all_normal(rows[n]));
        lemma_read_items(x[n]->Some_0@, rows[n]);
        assert(x.last() == x[n]);
    }
}

pub open spec fn planes_flat(cube: Seq<Seq<Seq<Seq<char>>>>) -> Seq<Seq<Seq<char>>> {
    cube.map_values(|p: Seq<Seq<Seq<char>>>| p.flatten_alt())
}

proof fn lemma_read_planes(x: Seq<JsonPlane>, cube: Seq<Seq<Seq<Seq<char>>>>)
    requires
        planes_hold(x, cube),
        forall|i: int, j: int|
            0 <= i < cube.len() && 0 <= j < cube[i].len() ==> all_normal(#[trigger] cube[i][j]),
    ensures
        cube_planes_texts(x) == Some(planes_flat(cube).flatten_alt()),
    decreases x.len(),
{
    if x.len() > 0 {
        let cl = cube.drop_last();
        assert(planes_hold(x.drop_last(), cl)) by {
            assert forall|i: int| 0 <= i < cl.len() implies plane_holds(#[trigger] x.drop_last()[i], cl[i]) by {
                assert(x.drop_last()[i] == x[i]);
            }
        }
        assert forall|i: int, j: int| 0 <= i < cl.len() && 0 <= j < cl[i].len() implies all_normal(
            #[trigger] cl[i][j],
        ) by {
            assert(cl[i] == cube[i]);
        }
        lemma_read_planes(x.drop_last(), cl);
        let n = x.len() - 1;
        assert(plane_holds(x[n], cube[n]));
        assert forall|j: int| 0 <= j < cube[n].len() implies all_normal(#[trigger] cube[n][j]) by {}
        lemma_read_rows(x[n]->Some_0@, cube[n]);
        assert(x.last() == x[n]);
        assert(planes_flat(cube).drop_last() =~= planes_flat(cl));
        assert(planes_flat(cube).last() == cube[n].flatten_alt());
    }
}

proof fn lemma_flatten3_alt(c: Seq<Seq<Seq<Seq<char>>>>)
    ensures
        flatten3(c) == planes_flat(c).flatten_alt(),
{
    let m = c.map_values(|p: Seq<Seq<Seq<char>>>| p.flatten());
    assert forall|i: int| 0 <= i < c.len() implies #[trigger] m[i] == planes_flat(c)[i] by {
        c[i].lemma_flatten_and_flatten_alt_are_equivalent();
    }
    assert(m =~= planes_flat(c));
    assert(flatten3(c) == m.flatten());
    m.lemma_flatten_and_flatten_alt_are_equivalent();
}

/// Reading the document of a reshaped signature array gives back its values.
proof fn lemma_read_cube(
    jc: JsonCube,
    vals: Seq<Seq<char>>,
    outer: nat,
    mid: nat,
    inner: nat,
)
    requires
        vals.len() == outer * mid * inner,
        all_normal(vals),
        cube_holds(jc, reshaped(vals, outer, mid, inner)),
    ensures
        cube_texts(jc) == Some(vals),
{
    let cube = reshaped(vals, outer, mid, inner);
    assert forall|i: int, j: int| 0 <= i < cube.len() && 0 <= j < cube[i].len() implies all_normal(
        #[trigger] cube[i][j],
    ) by {
        assert forall|k: int| 0 <= k < cube[i][j].len() implies normal(#[trigger] cube[i][j][k]) by {
            lemma_index_in_bounds(i, j, k, outer as int, mid as int, inner as int);
        }
    }
    lemma_read_planes(jc->Some_0@, cube);
    lemma_flatten3_alt(cube);
    law_reshape_keeps_values(vals, outer, mid, inner);
}

/// Law: the document written for the witness generator reads back as the
/// inputs it was written from. If `i` is what reading an input document
/// gave, `w` the inputs nested for the witness generator and `j` the
/// document written for `w`, reading `j` gives `i` again.
pub proof fn law_witness_document_reads_back(
    j0: SlhDsaJsonInput,
    i: SlhDsaInputs,
    w: WitnessInputs,
    j: SlhDsaJsonInput,
)
    requires
        inputs_spec(j0) == Some(inputs_view(i)),
        nests(i, w),
        document_of(j, w),
    ensures
        inputs_spec(j) == Some(inputs_view(i)),
{
    let m = inputs_view(i);
    lemma_row_normal(j0.pk->Some_0@);
    lemma_row_normal(j0.msg->Some_0@);
    lemma_row_normal(j0.r->Some_0@);
    lemma_cube_normal(j0.sig_fors->Some_0@);
    lemma_cube_normal(j0.sig_ht->Some_0@);
    lemma_read_items(j.pk->Some_0@, m.pk);
    lemma_read_items(j.msg->Some_0@, m.msg);
    lemma_read_items(j.r->Some_0@, m.r);
    lemma_read_cube(j.sig_fors, m.sig_fors, 14, 13, 16);
    lemma_read_cube(j.sig_ht, m.sig_ht, 7, 44, 16);
    let got = inputs_spec(j)->Some_0;
    assert(got == m);
}

} // verus!

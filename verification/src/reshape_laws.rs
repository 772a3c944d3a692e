use vstd::prelude::*;

use crate::slh_inputs::{flatten3, reshaped};

verus! {

/// A sequence of `len` rows of `n` values each.
pub open spec fn uniform<A>(s: Seq<Seq<A>>, n: nat) -> bool {
    forall|i: int| 0 <= i < s.len() ==> (#[trigger] s[i]).len() == n
}

/// A cube of `outer` planes of `mid` rows of `inner` values each.
pub open spec fn cube_shaped(c: Seq<Seq<Seq<Seq<char>>>>, outer: nat, mid: nat, inner: nat) -> bool {
    &&& c.len() == outer
    &&& forall|i: int| 0 <= i < outer ==> uniform(#[trigger] c[i], inner) && c[i].len() == mid
}

proof fn lemma_row_index(i: int, k: int, n: int, len: int)
    requires
        0 <= i < len,
        0 <= k < n,
    ensures
        0 <= i * n + k < len * n,
        i < len - 1 ==> i * n + k < (len - 1) * n,
        i == len - 1 ==> i * n + k - (len - 1) * n == k,
        (len - 1) * n + n == len * n,
{
    assert(0 <= i * n + k < len * n) by (nonlinear_arith)
        requires
            0 <= i < len,
            0 <= k < n,
    ;
    assert(i < len - 1 ==> i * n + k < (len - 1) * n) by (nonlinear_arith)
        requires
            0 <= i,
            0 <= k < n,
    ;
    assert((len - 1) * n + n == len * n) by (nonlinear_arith);
}

/// Flattening rows of equal length `n`: the value at column `k` of row `i`
/// lands at `i * n + k`.
proof fn lemma_flatten_uniform<A>(s: Seq<Seq<A>>, n: nat)
    requires
        uniform(s, n),
    ensures
        s.flatten().len() == s.len() * n,
        forall|i: int, k: int|
            0 <= i < s.len() && 0 <= k < n ==> #[trigger] s.flatten()[i * n + k] == s[i][k],
    decreases s.len(),
{
    if s.len() == 0 {
        assert(s.flatten().len() == 0);
    } else {
        let p = s.drop_last();
        assert(s == p.push(s.last()));
        assert(uniform(p, n));
        lemma_flatten_uniform(p, n);
        p.lemma_flatten_push(s.last());
        assert(s.flatten() == p.flatten() + s.last());
        lemma_row_index(0, 0, 1, 1);
        assert((s.len() - 1) * n + n == s.len() * n) by (nonlinear_arith);
        assert forall|i: int, k: int| 0 <= i < s.len() && 0 <= k < n implies #[trigger] s.flatten()[i
            * n + k] == s[i][k] by {
            lemma_row_index(i, k, n as int, s.len() as int);
            if i < s.len() - 1 {
                assert(p[i] == s[i]);
            }
        }
    }
}

/// The planes of a cube, each flattened.
spec fn flat_planes(c: Seq<Seq<Seq<Seq<char>>>>) -> Seq<Seq<Seq<char>>> {
    c.map_values(|p: Seq<Seq<Seq<char>>>| p.flatten())
}

/// Law: reshaping the values of a cube, read plane by plane and row by row,
/// to the cube's own dimensions gives the cube back; so the signature
/// arrays that reading flattens get their nested form back when written.
pub proof fn law_reshape_restores_cube(c: Seq<Seq<Seq<Seq<char>>>>, outer: nat, mid: nat, inner: nat)
    requires
        cube_shaped(c, outer, mid, inner),
    ensures
        reshaped(flatten3(c), outer, mid, inner) == c,
{
    let fp = flat_planes(c);
    assert forall|i: int| 0 <= i < fp.len() implies (#[trigger] fp[i]).len() == mid * inner by {
        lemma_flatten_uniform(c[i], inner);
    }
    assert(uniform(fp, mid * inner));
    lemma_flatten_uniform(fp, mid * inner);
    assert(flatten3(c) == fp.flatten());
    let r = reshaped(flatten3(c), outer, mid, inner);
    assert forall|i: int| 0 <= i < outer implies #[trigger] r[i] == c[i] by {
        lemma_flatten_uniform(c[i], inner);
        assert forall|j: int| 0 <= j < mid implies #[trigger] r[i][j] == c[i][j] by {
            assert forall|k: int| 0 <= k < inner implies #[trigger] r[i][j][k] == c[i][j][k] by {
                lemma_row_index(j, k, inner as int, mid as int);
                assert(i * mid * inner == i * (mid * inner)) by (nonlinear_arith);
                assert(fp.flatten()[i * (mid * inner) + (j * inner + k)] == fp[i][j * inner + k]);
                assert(fp[i] == c[i].flatten());
                assert(c[i].flatten()[j * inner + k] == c[i][j][k]);
            }
            assert(r[i][j] =~= c[i][j]);
        }
        assert(r[i] =~= c[i]);
    }
    assert(r =~= c);
}

/// Law: reshaping keeps every value, in order: flattening the reshaped
/// cube gives back the values it was made from.
pub proof fn law_reshape_keeps_values(vals: Seq<Seq<char>>, outer: nat, mid: nat, inner: nat)
    requires
        vals.len() == outer * mid * inner,
    ensures
        flatten3(reshaped(vals, outer, mid, inner)) == vals,
{
    let r = reshaped(vals, outer, mid, inner);
    let fp = flat_planes(r);
    assert forall|i: int| 0 <= i < fp.len() implies (#[trigger] fp[i]).len() == mid * inner by {
        assert(uniform(r[i], inner));
        lemma_flatten_uniform(r[i], inner);
    }
    assert(uniform(fp, mid * inner));
    lemma_flatten_uniform(fp, mid * inner);
    let f = flatten3(r);
    assert(f == fp.flatten());
    assert(outer * (mid * inner) == outer * mid * inner) by (nonlinear_arith);
    assert forall|x: int| 0 <= x < vals.len() implies #[trigger] f[x] == vals[x] by {
        let n = (mid * inner) as int;
        assert(n > 0) by (nonlinear_arith)
            requires
                n == mid * inner,
                0 <= x < outer * (mid * inner),
                0 <= mid,
                0 <= inner,
        ;
        assert(inner > 0) by (nonlinear_arith)
            requires
                n == mid * inner,
                n > 0,
                0 <= mid,
                0 <= inner,
        ;
        let i = x / n;
        let t = x % n;
        vstd::arithmetic::div_mod::lemma_fundamental_div_mod(x, n);
        vstd::arithmetic::div_mod::lemma_mod_bound(x, n);
        assert(n * i == i * n) by (nonlinear_arith);
        assert(0 <= i < outer) by (nonlinear_arith)
            requires
                x == i * n + t,
                0 <= t < n,
                0 <= x < outer * n,
        ;
        let j = t / (inner as int);
        let k = t % (inner as int);
        vstd::arithmetic::div_mod::lemma_fundamental_div_mod(t, inner as int);
        vstd::arithmetic::div_mod::lemma_mod_bound(t, inner as int);
        assert(inner * j == j * inner) by (nonlinear_arith);
        assert(0 <= j < mid) by (nonlinear_arith)
            requires
                t == j * inner + k,
                0 <= k < inner,
                0 <= t < mid * inner,
        ;
        assert(uniform(r[i], inner));
        lemma_flatten_uniform(r[i], inner);
        assert(f[i * n + t] == fp[i][t]);
        assert(fp[i] == r[i].flatten());
        assert(r[i].flatten()[j * inner + k] == r[i][j][k]);
        assert(i * mid * inner == i * n) by (nonlinear_arith)
            requires
                n == mid * inner,
        ;
        assert(r[i][j][k] == vals[i * mid * inner + j * inner + k]);
    }
    assert(f =~= vals);
}

} // verus!

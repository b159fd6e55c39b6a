use vstd::prelude::*;

use crate::error::KspaceError;
use crate::field::COORD_BOUND;
use crate::field::DerivativeVector;

verus! {

/// One projected output row: the two local k-space gradient components
/// contributed by a single sample row.
#[derive(Clone, Copy, Debug, PartialEq, Eq, Structural)]
pub struct OutputRow {
    /// Component along the first spatial-frequency axis.
    pub k1: i64,
    /// Component along the second spatial-frequency axis.
    pub k2: i64,
}

/// The `∂/∂x` components of a derivative list, as mathematical integers.
pub open spec fn weights_x(d: Seq<DerivativeVector>) -> Seq<int> {
    d.map(|i: int, v: DerivativeVector| v.dx as int)
}

/// The `∂/∂y` components of a derivative list, as mathematical integers.
pub open spec fn weights_y(d: Seq<DerivativeVector>) -> Seq<int> {
    d.map(|i: int, v: DerivativeVector| v.dy as int)
}

/// A sample row as mathematical integers.
pub open spec fn sample_ints(s: Seq<i64>) -> Seq<int> {
    s.map(|i: int, v: i64| v as int)
}

/// The left-to-right partial dot product of the first `n` columns.
pub open spec fn dot_prefix(w: Seq<int>, s: Seq<int>, n: int) -> int
    decreases n,
{
    if n <= 0 {
        0
    } else {
        dot_prefix(w, s, n - 1) + w[n - 1] * s[n - 1]
    }
}

/// The dot product of a weight row and a sample row of equal length,
/// accumulated left to right.
pub open spec fn dot(w: Seq<int>, s: Seq<int>) -> int {
    dot_prefix(w, s, s.len() as int)
}

/// A partial dot product of columns bounded by `wb` and `sb` is itself
/// bounded by `n * wb * sb`.
pub proof fn lemma_dot_prefix_bound(w: Seq<int>, s: Seq<int>, n: int, wb: int, sb: int)
    requires
        0 <= n,
        0 <= wb,
        0 <= sb,
        forall|i: int| 0 <= i < n ==> -wb <= #[trigger] w[i] <= wb,
        forall|i: int| 0 <= i < n ==> -sb <= #[trigger] s[i] <= sb,
    ensures
        -(n * wb * sb) <= dot_prefix(w, s, n) <= n * wb * sb,
    decreases n,
{
    if n <= 0 {
        assert(n * wb * sb == 0) by (nonlinear_arith)
            requires n == 0 { }
    } else {
        lemma_dot_prefix_bound(w, s, n - 1, wb, sb);
        assert(-(wb * sb) <= w[n - 1] * s[n - 1] <= wb * sb) by (nonlinear_arith)
            requires
                -wb <= w[n - 1] <= wb,
                -sb <= s[n - 1] <= sb,
                0 <= wb,
                0 <= sb,
        { }
        assert((n - 1) * wb * sb + wb * sb == n * wb * sb) by (nonlinear_arith) { }
    }
}

/// The pointwise linear combination `a*s1 + b*s2` of two rows.
pub open spec fn linear_combination(a: int, s1: Seq<int>, b: int, s2: Seq<int>) -> Seq<int> {
    Seq::new(s1.len(), |i: int| a * s1[i] + b * s2[i])
}

proof fn lemma_dot_prefix_linear(w: Seq<int>, s1: Seq<int>, s2: Seq<int>, a: int, b: int, n: int)
    requires
        s1.len() == s2.len(),
        0 <= n <= s1.len(),
    ensures
        dot_prefix(w, linear_combination(a, s1, b, s2), n) == a * dot_prefix(w, s1, n) + b
            * dot_prefix(w, s2, n),
    decreases n,
{
    let c = linear_combination(a, s1, b, s2);
    if n > 0 {
        lemma_dot_prefix_linear(w, s1, s2, a, b, n - 1);
        assert(c[n - 1] == a * s1[n - 1] + b * s2[n - 1]);
        assert(w[n - 1] * (a * s1[n - 1] + b * s2[n - 1]) == a * (w[n - 1] * s1[n - 1]) + b * (w[n
            - 1] * s2[n - 1])) by (nonlinear_arith) { }
        assert(a * (dot_prefix(w, s1, n - 1) + w[n - 1] * s1[n - 1]) == a * dot_prefix(w, s1, n - 1)
            + a * (w[n - 1] * s1[n - 1])) by (nonlinear_arith) { }
        assert(b * (dot_prefix(w, s2, n - 1) + w[n - 1] * s2[n - 1]) == b * dot_prefix(w, s2, n - 1)
            + b * (w[n - 1] * s2[n - 1])) by (nonlinear_arith) { }
    }
}

/// Law: the projection is linear in the sample row. Projecting the
/// combination `a*s1 + b*s2` against a derivative list gives, in each
/// of the two output components, `a` times the projection of `s1` plus
/// `b` times the projection of `s2`.
pub proof fn lemma_project_linear(
    d: Seq<DerivativeVector>,
    s1: Seq<int>,
    s2: Seq<int>,
    a: int,
    b: int,
)
    requires
        s1.len() == d.len(),
        s2.len() == d.len(),
    ensures
        dot(weights_x(d), linear_combination(a, s1, b, s2)) == a * dot(weights_x(d), s1) + b * dot(
            weights_x(d),
            s2,
        ),
        dot(weights_y(d), linear_combination(a, s1, b, s2)) == a * dot(weights_y(d), s1) + b * dot(
            weights_y(d),
            s2,
        ),
{
    lemma_dot_prefix_linear(weights_x(d), s1, s2, a, b, s1.len() as int);
    lemma_dot_prefix_linear(weights_y(d), s1, s2, a, b, s1.len() as int);
}

/// Law: against the single derivative column `(1, 0)`, a one-column
/// sample `[v]` projects to exactly `(v, 0)`.
pub proof fn lemma_single_column_identity(v: int)
    ensures
        dot(weights_x(seq![(DerivativeVector { dx: 1, dy: 0 })]), seq![v]) == v,
        dot(weights_y(seq![(DerivativeVector { dx: 1, dy: 0 })]), seq![v]) == 0,
{
    let d = seq![(DerivativeVector { dx: 1, dy: 0 })];
    let s = seq![v];
    assert(weights_x(d)[0] == 1);
    assert(weights_y(d)[0] == 0);
    assert(dot_prefix(weights_x(d), s, 1) == dot_prefix(weights_x(d), s, 0) + 1 * v);
    assert(dot_prefix(weights_y(d), s, 1) == dot_prefix(weights_y(d), s, 0) + 0 * v);
}

/// Projects one sample row onto the two derivative-component rows:
/// `k1` is the dot product of the samples with the `∂/∂x` components,
/// `k2` with the `∂/∂y` components, both accumulated left to right.
/// Fails with [`KspaceError::DimensionMismatch`] exactly when the row's
/// column count differs from the derivative list's, and then produces
/// no output values at all. Samples, derivative components and the
/// column count are bounded by [`COORD_BOUND`] so that every exact sum
/// stays within `i64`.
pub fn localkspace(sample: &Vec<i64>, derivatives: &Vec<DerivativeVector>) -> (r: Result<
    OutputRow,
    KspaceError,
>)
    requires
        derivatives@.len() <= COORD_BOUND,
        forall|i: int| 0 <= i < derivatives@.len() ==> (#[trigger] derivatives@[i]).bounded(),
        forall|i: int|
            0 <= i < sample@.len() ==> -COORD_BOUND <= #[trigger] sample@[i] <= COORD_BOUND,
    ensures
        r.is_ok() <==> sample@.len() == derivatives@.len(),
        r matches Ok(k) ==> {
            &&& k.k1 as int == dot(weights_x(derivatives@), sample_ints(sample@))
            &&& k.k2 as int == dot(weights_y(derivatives@), sample_ints(sample@))
        },
        r matches Err(e) ==> e == KspaceError::DimensionMismatch,
{
    let n = sample.len();
    if n != derivatives.len() {
        return Err(KspaceError::DimensionMismatch);
    }
    let ghost wx = weights_x(derivatives@);
    let ghost wy = weights_y(derivatives@);
    let ghost sv = sample_ints(sample@);
    let mut k1: i64 = 0;
    let mut k2: i64 = 0;
    for i in 0..n
        invariant
            n == sample@.len(),
            n == derivatives@.len(),
            n <= COORD_BOUND,
            wx == weights_x(derivatives@),
            wy == weights_y(derivatives@),
            sv == sample_ints(sample@),
            forall|j: int| 0 <= j < n ==> (#[trigger] derivatives@[j]).bounded(),
            forall|j: int| 0 <= j < n ==> -COORD_BOUND <= #[trigger] sample@[j] <= COORD_BOUND,
            k1 as int == dot_prefix(wx, sv, i as int),
            k2 as int == dot_prefix(wy, sv, i as int),
    {
        proof {
            assert(forall|j: int| 0 <= j < n ==> -2 * COORD_BOUND <= #[trigger] wx[j] <= 2
                * COORD_BOUND);
            assert(forall|j: int| 0 <= j < n ==> -2 * COORD_BOUND <= #[trigger] wy[j] <= 2
                * COORD_BOUND);
            assert(forall|j: int| 0 <= j < n ==> -COORD_BOUND <= #[trigger] sv[j] <= COORD_BOUND);
            lemma_dot_prefix_bound(wx, sv, i as int, 2 * COORD_BOUND as int, COORD_BOUND as int);
            lemma_dot_prefix_bound(wy, sv, i as int, 2 * COORD_BOUND as int, COORD_BOUND as int);
            assert(i as int * (2 * COORD_BOUND) * COORD_BOUND <= COORD_BOUND * (2 * COORD_BOUND)
                * COORD_BOUND) by (nonlinear_arith)
                requires 0 <= i as int <= COORD_BOUND { }
            assert(-(2 * COORD_BOUND * COORD_BOUND) <= derivatives@[i as int].dx as int * (
            sample@[i as int] as int) <= 2 * COORD_BOUND * COORD_BOUND) by (nonlinear_arith)
                requires
                    -2 * COORD_BOUND <= derivatives@[i as int].dx as int <= 2 * COORD_BOUND,
                    -COORD_BOUND <= sample@[i as int] as int <= COORD_BOUND,
            { }
            assert(-(2 * COORD_BOUND * COORD_BOUND) <= derivatives@[i as int].dy as int * (
            sample@[i as int] as int) <= 2 * COORD_BOUND * COORD_BOUND) by (nonlinear_arith)
                requires
                    -2 * COORD_BOUND <= derivatives@[i as int].dy as int <= 2 * COORD_BOUND,
                    -COORD_BOUND <= sample@[i as int] as int <= COORD_BOUND,
            { }
        }
        k1 = k1 + derivatives[i].dx * sample[i];
        k2 = k2 + derivatives[i].dy * sample[i];
    }
    Ok(OutputRow { k1, k2 })
}

} // verus!

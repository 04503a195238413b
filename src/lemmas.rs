//! What holds of every store and every pair of matrices: completeness of the check, and the
//! shape of the challenge vectors.
use crate::field::{lemma_small_mod, modulus};
use crate::freivald::{accepts, geometric, is_challenge_store, is_geometric, trial_passes};
use crate::matrix::{column, dot, dot_upto, is_square, mat_mul, mat_vec};
use vstd::arithmetic::div_mod::{lemma_add_mod_noop, lemma_mul_mod_noop_left, lemma_mul_mod_noop_right};
use vstd::arithmetic::power::{lemma_pow0, lemma_pow1, lemma_pow_adds, pow};
use vstd::prelude::*;

verus! {

/// Each entry after the first is the one before it times `r`, in the field.
pub open spec fn is_progression(x: Seq<int>, r: int) -> bool {
    forall|i: int| 0 <= i < x.len() - 1 ==> #[trigger] x[i + 1] == (x[i] * r) % modulus()
}

/// The inner products of the rows of `b` with `x`, as integers.
spec fn row_dots(b: Seq<Seq<int>>, x: Seq<int>) -> Seq<int> {
    Seq::new(b.len(), |j: int| dot(b[j], x))
}

/// For each of `n` columns `k`, the inner product of `ai` with column `k` of `b` over its
/// first `rows` entries.
spec fn partial_cols(ai: Seq<int>, b: Seq<Seq<int>>, n: nat, rows: nat) -> Seq<int> {
    Seq::new(n, |k: int| dot_upto(ai, column(b, k), rows))
}

/// Inner products that agree term by term in the field agree in the field.
proof fn lemma_dot_congruent(u: Seq<int>, x: Seq<int>, u2: Seq<int>, x2: Seq<int>, m: nat)
    requires
        forall|j: int|
            0 <= j < m ==> (u[j] * x[j]) % modulus() == #[trigger] (u2[j] * x2[j]) % modulus(),
    ensures
        dot_upto(u, x, m) % modulus() == dot_upto(u2, x2, m) % modulus(),
    decreases m,
{
    if m > 0 {
        let k = (m - 1) as nat;
        let p = modulus();
        lemma_dot_congruent(u, x, u2, x2, k);
        assert((u[k as int] * x[k as int]) % p == (u2[k as int] * x2[k as int]) % p);
        lemma_add_mod_noop(dot_upto(u, x, k), u[k as int] * x[k as int], p);
        lemma_add_mod_noop(dot_upto(u2, x2, k), u2[k as int] * x2[k as int], p);
    }
}

/// The inner product of a zero vector is zero.
proof fn lemma_dot_zero(u: Seq<int>, x: Seq<int>, m: nat)
    requires
        forall|k: int| 0 <= k < m ==> #[trigger] u[k] == 0,
    ensures
        dot_upto(u, x, m) == 0,
    decreases m,
{
    if m > 0 {
        lemma_dot_zero(u, x, (m - 1) as nat);
        assert(u[m - 1] == 0);
    }
}

/// The inner product is linear in its first argument.
proof fn lemma_dot_linear(u: Seq<int>, v: Seq<int>, w: Seq<int>, c: int, x: Seq<int>, m: nat)
    requires
        forall|k: int| 0 <= k < m ==> #[trigger] w[k] == u[k] + c * v[k],
    ensures
        dot_upto(w, x, m) == dot_upto(u, x, m) + c * dot_upto(v, x, m),
    decreases m,
{
    if m > 0 {
        let k = (m - 1) as nat;
        lemma_dot_linear(u, v, w, c, x, k);
        let (uk, vk, xk, d) = (u[k as int], v[k as int], x[k as int], dot_upto(v, x, k));
        assert(w[k as int] == uk + c * vk);
        assert((uk + c * vk) * xk == uk * xk + c * (vk * xk)) by (nonlinear_arith);
        assert(c * (d + vk * xk) == c * d + c * (vk * xk)) by (nonlinear_arith);
    }
}

/// Summing `ai[j] * b[j][k] * x[k]` by rows first or by columns first gives the same integer.
proof fn lemma_exchange(ai: Seq<int>, b: Seq<Seq<int>>, x: Seq<int>, n: nat, rows: nat)
    requires
        is_square(b, n),
        x.len() == n,
        rows <= n,
    ensures
        dot_upto(ai, row_dots(b, x), rows) == dot_upto(partial_cols(ai, b, n, rows), x, n),
    decreases rows,
{
    if rows == 0 {
        lemma_dot_zero(partial_cols(ai, b, n, 0), x, n);
    } else {
        let r = (rows - 1) as nat;
        lemma_exchange(ai, b, x, n, r);
        let u = partial_cols(ai, b, n, r);
        let w = partial_cols(ai, b, n, rows);
        assert forall|k: int| 0 <= k < n implies #[trigger] w[k] == u[k] + ai[r as int] * b[
            r as int][k] by {
            assert(column(b, k)[r as int] == b[r as int][k]);
        }
        lemma_dot_linear(u, b[r as int], w, ai[r as int], x, n);
        assert(b[r as int].len() == n);
        assert(row_dots(b, x)[r as int] == dot_upto(b[r as int], x, n));
    }
}

/// One trial on a true product passes, whatever the challenge vector.
proof fn lemma_trial_complete(a: Seq<Seq<int>>, b: Seq<Seq<int>>, x: Seq<int>, n: nat)
    requires
        is_square(a, n),
        is_square(b, n),
        x.len() == n,
    ensures
        trial_passes(a, b, mat_mul(a, b), x),
{
    let p = modulus();
    let y = mat_vec(b, x);
    let c = mat_mul(a, b);
    let rd = row_dots(b, x);
    if n > 0 {
        assert(b[0].len() == n);
    }
    assert forall|i: int| 0 <= i < n implies mat_vec(a, y)[i] == #[trigger] mat_vec(c, x)[i] by {
        let ai = a[i];
        let s = partial_cols(ai, b, n, n);
        assert(ai.len() == n);
        lemma_exchange(ai, b, x, n, n);
        assert forall|j: int| 0 <= j < n implies (ai[j] * y[j]) % p == #[trigger] (ai[j]
            * rd[j]) % p by {
            lemma_mul_mod_noop_right(ai[j], rd[j], p);
        }
        lemma_dot_congruent(ai, y, ai, rd, n);
        assert forall|k: int| 0 <= k < n implies (c[i][k] * x[k]) % p == #[trigger] (s[k]
            * x[k]) % p by {
            lemma_mul_mod_noop_left(s[k], x[k], p);
        }
        lemma_dot_congruent(c[i], x, s, x, n);
    }
    assert(mat_vec(a, y) =~= mat_vec(c, x));
}

/// Completeness: for `n × n` matrices `a` and `b` and any store of dimension `n`, the check
/// accepts `c = a·b`. The test never rejects a true product.
pub proof fn lemma_completeness(a: Seq<Seq<int>>, b: Seq<Seq<int>>, xs: Seq<Seq<int>>, n: nat)
    requires
        is_square(a, n),
        is_square(b, n),
        is_challenge_store(xs, n),
    ensures
        accepts(a, b, mat_mul(a, b), xs),
{
    assert forall|j: int| 0 <= j < xs.len() implies #[trigger] trial_passes(
        a,
        b,
        mat_mul(a, b),
        xs[j],
    ) by {
        assert(is_geometric(xs[j], n));
        let r = choose|r: int| 0 <= r < modulus() && xs[j] == #[trigger] geometric(r, n);
        lemma_trial_complete(a, b, xs[j], n);
    }
}

/// Completeness in both orders: the check accepts `a·b` for `(a, b)` and `b·a` for `(b, a)`.
/// These are two separate products; nothing here says that `a·b = b·a`.
pub proof fn lemma_completeness_both_orders(
    a: Seq<Seq<int>>,
    b: Seq<Seq<int>>,
    xs: Seq<Seq<int>>,
    n: nat,
)
    requires
        is_square(a, n),
        is_square(b, n),
        is_challenge_store(xs, n),
    ensures
        accepts(a, b, mat_mul(a, b), xs),
        accepts(b, a, mat_mul(b, a), xs),
{
    lemma_completeness(a, b, xs, n);
    lemma_completeness(b, a, xs, n);
}

/// The geometric vector of `r` starts at one and steps by `r`.
proof fn lemma_geometric_shape(r: int, n: nat)
    requires
        n >= 1,
    ensures
        geometric(r, n).len() == n,
        geometric(r, n)[0] == 1,
        is_progression(geometric(r, n), r),
{
    let p = modulus();
    let x = geometric(r, n);
    lemma_small_mod(1);
    lemma_pow0(r);
    assert(x[0] == pow(r, 0) % p);
    assert forall|i: int| 0 <= i < x.len() - 1 implies #[trigger] x[i + 1] == (x[i] * r) % p by {
        let q = pow(r, i as nat);
        lemma_pow_adds(r, i as nat, 1);
        lemma_pow1(r);
        assert(pow(r, (i + 1) as nat) == q * r);
        lemma_mul_mod_noop_left(q, r, p);
    }
}

/// Every vector of a store of dimension `n` has length `n`, starts at one, and steps by a
/// single field element `r`, its seed: `x[i + 1] = x[i] · r`.
pub proof fn lemma_challenge_shape(xs: Seq<Seq<int>>, n: nat)
    requires
        is_challenge_store(xs, n),
    ensures
        forall|j: int|
            0 <= j < xs.len() ==> (#[trigger] xs[j]).len() == n && xs[j][0] == 1 && exists|r: int|
                0 <= r < modulus() && is_progression(xs[j], r),
{
    assert forall|j: int| 0 <= j < xs.len() implies (#[trigger] xs[j]).len() == n && xs[j][0]
        == 1 && exists|r: int| 0 <= r < modulus() && is_progression(xs[j], r) by {
        assert(is_geometric(xs[j], n));
        let r = choose|r: int| 0 <= r < modulus() && xs[j] == #[trigger] geometric(r, n);
        lemma_geometric_shape(r, n);
    }
}

} // verus!

//! Completeness of the subspace-membership argument: a proof produced from
//! the proving key over a witness vector `x` is accepted by the verifier for
//! the output vector `y = M x`, whenever the keys came from key generation
//! over the matrix `M` with the generators as bases.
use vstd::prelude::*;
use crate::algebra::{dot_vals, fr_val, g1_val, g2_val, q, vals_fr, vals_g1, Fr, G1};
use crate::arith::{dot_take_push, mod_add_noop, mod_mul_noop, mod_mul_noop_right, mod_small,
    mod_sub_noop, qi};
use crate::link::matrix::{sparse_ip, CoeffPos};
use crate::link::snark::{c_combined, ek_wf, keygen_rel, link_accepts, p_combined, vk_wf,
    LinkEVKey};

verus! {

/// Sum of the values of the column's entries that sit in row `i`.
pub open spec fn col_dense(col: Seq<CoeffPos<G1>>, i: int) -> int
    decreases col.len(),
{
    if col.len() == 0 {
        0
    } else {
        col_dense(col.drop_last(), i) + if col.last().pos == i {
            g1_val(col.last().val) as int
        } else {
            0
        }
    }
}

/// `sum_{i < n} kv[i] * col_dense(col, i)`.
pub open spec fn kv_dot_dense(col: Seq<CoeffPos<G1>>, kv: Seq<nat>, n: int) -> int
    decreases n,
{
    if n <= 0 {
        0
    } else {
        kv_dot_dense(col, kv, n - 1) + kv[n - 1] * col_dense(col, n - 1)
    }
}

/// Row `i` of the dense product `M x`, over the first `m` columns.
pub open spec fn y_dense(mcols: Seq<Seq<CoeffPos<G1>>>, x: Seq<nat>, i: int, m: int) -> int
    decreases m,
{
    if m <= 0 {
        0
    } else {
        y_dense(mcols, x, i, m - 1) + x[m - 1] * col_dense(mcols[m - 1], i)
    }
}

/// `sum_{j < m} x[j] * sparse_ip(mcols[j], kv)`.
pub open spec fn lhs_sum(mcols: Seq<Seq<CoeffPos<G1>>>, x: Seq<nat>, kv: Seq<nat>, m: int) -> int
    decreases m,
{
    if m <= 0 {
        0
    } else {
        lhs_sum(mcols, x, kv, m - 1) + x[m - 1] * sparse_ip(mcols[m - 1], kv)
    }
}

/// `sum_{i < n} kv[i] * y_dense(mcols, x, i, m)`.
pub open spec fn rhs_sum(
    mcols: Seq<Seq<CoeffPos<G1>>>,
    x: Seq<nat>,
    kv: Seq<nat>,
    n: int,
    m: int,
) -> int
    decreases n,
{
    if n <= 0 {
        0
    } else {
        rhs_sum(mcols, x, kv, n - 1, m) + kv[n - 1] * y_dense(mcols, x, n - 1, m)
    }
}

/// `sum_{j < n} a[j] * b[j]` over integers.
pub open spec fn dotn(a: Seq<nat>, b: Seq<int>, n: int) -> int
    decreases n,
{
    if n <= 0 {
        0
    } else {
        dotn(a, b, n - 1) + a[n - 1] * b[n - 1]
    }
}


/// `(a0 w + a1 x + t (a0 y + a1 z)) g` distributes into the four scaled
/// products.
#[verifier::rlimit(100)]
proof fn lemma_distr4(a0: int, a1: int, t: int, w: int, x: int, y: int, z: int, g: int)
    ensures
        (a0 * w + a1 * x + t * (a0 * y + a1 * z)) * g == a0 * (w * g) + a1 * (x * g) + t * (a0 * (
        y * g) + a1 * (z * g)),
{
    vstd::arithmetic::mul::lemma_mul_is_distributive_add_other_way(
        g,
        a0 * w + a1 * x,
        t * (a0 * y + a1 * z),
    );
    vstd::arithmetic::mul::lemma_mul_is_distributive_add_other_way(g, a0 * w, a1 * x);
    vstd::arithmetic::mul::lemma_mul_is_associative(a0, w, g);
    vstd::arithmetic::mul::lemma_mul_is_associative(a1, x, g);
    vstd::arithmetic::mul::lemma_mul_is_associative(t, a0 * y + a1 * z, g);
    vstd::arithmetic::mul::lemma_mul_is_distributive_add_other_way(g, a0 * y, a1 * z);
    vstd::arithmetic::mul::lemma_mul_is_associative(a0, y, g);
    vstd::arithmetic::mul::lemma_mul_is_associative(a1, z, g);
}

/// `c (u + v) == c u + c v`.
proof fn lemma_pull(c: int, u: int, v: int)
    ensures
        c * (u + v) == c * u + c * v,
{
    vstd::arithmetic::mul::lemma_mul_is_distributive_add(c, u, v);
}

/// `x (a s) == a (x s)`.
proof fn lemma_swap3(x: int, a: int, st: int)
    ensures
        x * (a * st) == a * (x * st),
{
    vstd::arithmetic::mul::lemma_mul_is_associative(x, a, st);
    vstd::arithmetic::mul::lemma_mul_is_commutative(x, a);
    vstd::arithmetic::mul::lemma_mul_is_associative(a, x, st);
}

proof fn lemma_kvdd_empty(col: Seq<CoeffPos<G1>>, kv: Seq<nat>, n: int)
    requires
        col.len() == 0,
    ensures
        kv_dot_dense(col, kv, n) == 0,
    decreases n,
{
    if n > 0 {
        lemma_kvdd_empty(col, kv, n - 1);
    }
}

proof fn lemma_kvdd_push(col: Seq<CoeffPos<G1>>, e: CoeffPos<G1>, kv: Seq<nat>, n: int)
    ensures
        kv_dot_dense(col.push(e), kv, n) == kv_dot_dense(col, kv, n) + if 0 <= e.pos < n {
            kv[e.pos as int] * g1_val(e.val)
        } else {
            0
        },
    decreases n,
{
    if n > 0 {
        lemma_kvdd_push(col, e, kv, n - 1);
        assert(col.push(e).drop_last() =~= col);
        assert(col_dense(col.push(e), n - 1) == col_dense(col, n - 1) + if e.pos == n - 1 {
            g1_val(e.val) as int
        } else {
            0
        });
        if e.pos == n - 1 {
            assert(kv[n - 1] * (col_dense(col, n - 1) + g1_val(e.val)) == kv[n - 1] * col_dense(
                col,
                n - 1,
            ) + kv[n - 1] * g1_val(e.val)) by (nonlinear_arith);
        }
    }
}

/// The sparse inner product equals the dense one over any row bound that
/// covers every entry.
proof fn lemma_sparse_dense(col: Seq<CoeffPos<G1>>, kv: Seq<nat>, n: int)
    requires
        forall|e: int| 0 <= e < col.len() ==> 0 <= (#[trigger] col[e]).pos < n,
    ensures
        sparse_ip(col, kv) == kv_dot_dense(col, kv, n),
    decreases col.len(),
{
    if col.len() == 0 {
        lemma_kvdd_empty(col, kv, n);
    } else {
        let w = col.drop_last();
        let e = col.last();
        assert(forall|i: int| 0 <= i < w.len() ==> 0 <= (#[trigger] w[i]).pos < n);
        lemma_sparse_dense(w, kv, n);
        assert(col =~= w.push(e));
        lemma_kvdd_push(w, e, kv, n);
    }
}

proof fn lemma_rhs_empty(mcols: Seq<Seq<CoeffPos<G1>>>, x: Seq<nat>, kv: Seq<nat>, n: int)
    ensures
        rhs_sum(mcols, x, kv, n, 0) == 0,
    decreases n,
{
    if n > 0 {
        lemma_rhs_empty(mcols, x, kv, n - 1);
    }
}

proof fn lemma_rhs_extend(
    mcols: Seq<Seq<CoeffPos<G1>>>,
    x: Seq<nat>,
    kv: Seq<nat>,
    n: int,
    m: int,
)
    requires
        0 <= m,
    ensures
        rhs_sum(mcols, x, kv, n, m + 1) == rhs_sum(mcols, x, kv, n, m) + x[m] * kv_dot_dense(
            mcols[m],
            kv,
            n,
        ),
    decreases n,
{
    if n > 0 {
        lemma_rhs_extend(mcols, x, kv, n - 1, m);
        assert(y_dense(mcols, x, n - 1, m + 1) == y_dense(mcols, x, n - 1, m) + x[m] * col_dense(
            mcols[m],
            n - 1,
        ));
        assert(kv[n - 1] * (y_dense(mcols, x, n - 1, m) + x[m] * col_dense(mcols[m], n - 1))
            == kv[n - 1] * y_dense(mcols, x, n - 1, m) + x[m] * (kv[n - 1] * col_dense(
            mcols[m],
            n - 1,
        ))) by (nonlinear_arith);
        assert(x[m] * (kv_dot_dense(mcols[m], kv, n - 1) + kv[n - 1] * col_dense(mcols[m], n - 1))
            == x[m] * kv_dot_dense(mcols[m], kv, n - 1) + x[m] * (kv[n - 1] * col_dense(
            mcols[m],
            n - 1,
        ))) by (nonlinear_arith);
    }
}

/// Exchanging the two summations: summing the witness against every sparse
/// column product equals summing the hidden scalars against every dense
/// output row.
proof fn lemma_exchange(
    mcols: Seq<Seq<CoeffPos<G1>>>,
    x: Seq<nat>,
    kv: Seq<nat>,
    n: int,
    m: int,
)
    requires
        0 <= m <= mcols.len(),
        forall|j: int, e: int|
            0 <= j < mcols.len() && 0 <= e < mcols[j].len() ==> 0 <= (
            #[trigger] mcols[j][e]).pos < n,
    ensures
        lhs_sum(mcols, x, kv, m) == rhs_sum(mcols, x, kv, n, m),
    decreases m,
{
    if m == 0 {
        lemma_rhs_empty(mcols, x, kv, n);
    } else {
        lemma_exchange(mcols, x, kv, n, m - 1);
        assert(forall|e: int|
            0 <= e < mcols[m - 1].len() ==> 0 <= (#[trigger] mcols[m - 1][e]).pos < n);
        lemma_sparse_dense(mcols[m - 1], kv, n);
        lemma_rhs_extend(mcols, x, kv, n, m - 1);
    }
}

/// The sparse inner product is linear in the scalar vector: against the
/// combined vector `a0 K0c0 + a1 K0c1 + tau (a0 K1c0 + a1 K1c1)` it splits
/// into the four products.
proof fn lemma_sparse_linear(
    col: Seq<CoeffPos<G1>>,
    k00: Seq<nat>,
    k01: Seq<nat>,
    k10: Seq<nat>,
    k11: Seq<nat>,
    a0: nat,
    a1: nat,
    tauv: nat,
    kv: Seq<nat>,
    n: int,
)
    requires
        k00.len() == n,
        k01.len() == n,
        k10.len() == n,
        k11.len() == n,
        kv.len() == n,
        forall|i: int|
            0 <= i < n ==> #[trigger] kv[i] == a0 * k00[i] + a1 * k01[i] + tauv * (a0 * k10[i]
                + a1 * k11[i]),
        forall|e: int| 0 <= e < col.len() ==> 0 <= (#[trigger] col[e]).pos < n,
    ensures
        sparse_ip(col, kv) == a0 * sparse_ip(col, k00) + a1 * sparse_ip(col, k01) + tauv * (a0
            * sparse_ip(col, k10) + a1 * sparse_ip(col, k11)),
    decreases col.len(),
{
    if col.len() > 0 {
        let w = col.drop_last();
        let e = col.last();
        assert(forall|i: int| 0 <= i < w.len() ==> 0 <= (#[trigger] w[i]).pos < n);
        lemma_sparse_linear(w, k00, k01, k10, k11, a0, a1, tauv, kv, n);
        let p = e.pos as int;
        let gv = g1_val(e.val) as int;
        let w00 = k00[p] as int;
        let w01 = k01[p] as int;
        let w10 = k10[p] as int;
        let w11 = k11[p] as int;
        assert(kv[p] == a0 * k00[p] + a1 * k01[p] + tauv * (a0 * k10[p] + a1 * k11[p]));
        lemma_distr4(a0 as int, a1 as int, tauv as int, w00, w01, w10, w11, gv);
        assert(sparse_ip(col, kv) == sparse_ip(w, kv) + kv[p] * gv);
        assert(sparse_ip(col, k00) == sparse_ip(w, k00) + w00 * gv);
        assert(sparse_ip(col, k01) == sparse_ip(w, k01) + w01 * gv);
        assert(sparse_ip(col, k10) == sparse_ip(w, k10) + w10 * gv);
        assert(sparse_ip(col, k11) == sparse_ip(w, k11) + w11 * gv);
        lemma_pull(a0 as int, sparse_ip(w, k00), w00 * gv);
        lemma_pull(a1 as int, sparse_ip(w, k01), w01 * gv);
        lemma_pull(tauv as int, a0 * sparse_ip(w, k10) + a1 * sparse_ip(w, k11), a0 * (w10 * gv)
            + a1 * (w11 * gv));
        lemma_pull(a0 as int, sparse_ip(w, k10), w10 * gv);
        lemma_pull(a1 as int, sparse_ip(w, k11), w11 * gv);
        assert(kv[p] * gv == a0 * (w00 * gv) + a1 * (w01 * gv) + tauv * (a0 * (w10 * gv) + a1 * (
        w11 * gv)));
        assert(a0 * sparse_ip(col, k00) == a0 * sparse_ip(w, k00) + a0 * (w00 * gv));
        assert(a1 * sparse_ip(col, k01) == a1 * sparse_ip(w, k01) + a1 * (w01 * gv));
        assert(a0 * sparse_ip(col, k10) == a0 * sparse_ip(w, k10) + a0 * (w10 * gv));
        assert(a1 * sparse_ip(col, k11) == a1 * sparse_ip(w, k11) + a1 * (w11 * gv));
        lemma_pull(
            tauv as int,
            a0 * sparse_ip(w, k10) + a1 * sparse_ip(w, k11),
            a0 * (w10 * gv) + a1 * (w11 * gv),
        );
        assert(tauv * (a0 * sparse_ip(col, k10) + a1 * sparse_ip(col, k11)) == tauv * (a0
            * sparse_ip(w, k10) + a1 * sparse_ip(w, k11)) + tauv * (a0 * (w10 * gv) + a1 * (w11
            * gv)));
        assert(sparse_ip(col, kv) == a0 * sparse_ip(col, k00) + a1 * sparse_ip(col, k01) + tauv
            * (a0 * sparse_ip(col, k10) + a1 * sparse_ip(col, k11)));
    } else {
        assert(sparse_ip(col, kv) == 0);
        assert(sparse_ip(col, k00) == 0);
        assert(sparse_ip(col, k01) == 0);
        assert(sparse_ip(col, k10) == 0);
        assert(sparse_ip(col, k11) == 0);
        assert(a0 * sparse_ip(col, k00) == 0) by (nonlinear_arith)
            requires
                sparse_ip(col, k00) == 0,
        ;
        assert(a1 * sparse_ip(col, k01) == 0) by (nonlinear_arith)
            requires
                sparse_ip(col, k01) == 0,
        ;
        assert(a0 * sparse_ip(col, k10) == 0) by (nonlinear_arith)
            requires
                sparse_ip(col, k10) == 0,
        ;
        assert(a1 * sparse_ip(col, k11) == 0) by (nonlinear_arith)
            requires
                sparse_ip(col, k11) == 0,
        ;
        assert(tauv * (a0 * sparse_ip(col, k10) + a1 * sparse_ip(col, k11)) == 0)
            by (nonlinear_arith)
            requires
                a0 * sparse_ip(col, k10) == 0 && a1 * sparse_ip(col, k11) == 0,
        ;
    }
}

/// The witness-weighted sum of combined sparse products splits into the two
/// proof sums under `a0` and `a1`.
proof fn lemma_lhs_split(
    mcols: Seq<Seq<CoeffPos<G1>>>,
    x: Seq<nat>,
    k00: Seq<nat>,
    k01: Seq<nat>,
    k10: Seq<nat>,
    k11: Seq<nat>,
    a0: nat,
    a1: nat,
    tauv: nat,
    kv: Seq<nat>,
    n: int,
    m: int,
    pc0: Seq<int>,
    pc1: Seq<int>,
)
    requires
        0 <= m <= mcols.len(),
        k00.len() == n,
        k01.len() == n,
        k10.len() == n,
        k11.len() == n,
        kv.len() == n,
        forall|i: int|
            0 <= i < n ==> #[trigger] kv[i] == a0 * k00[i] + a1 * k01[i] + tauv * (a0 * k10[i]
                + a1 * k11[i]),
        forall|j: int, e: int|
            0 <= j < mcols.len() && 0 <= e < mcols[j].len() ==> 0 <= (
            #[trigger] mcols[j][e]).pos < n,
        m <= pc0.len(),
        m <= pc1.len(),
        forall|j: int|
            0 <= j < m ==> #[trigger] pc0[j] == sparse_ip(mcols[j], k00) + tauv * sparse_ip(
                mcols[j],
                k10,
            ),
        forall|j: int|
            0 <= j < m ==> #[trigger] pc1[j] == sparse_ip(mcols[j], k01) + tauv * sparse_ip(
                mcols[j],
                k11,
            ),
    ensures
        lhs_sum(mcols, x, kv, m) == a0 * dotn(x, pc0, m) + a1 * dotn(x, pc1, m),
    decreases m,
{
    if m > 0 {
        lemma_lhs_split(mcols, x, k00, k01, k10, k11, a0, a1, tauv, kv, n, m - 1, pc0, pc1);
        lemma_sparse_linear(mcols[m - 1], k00, k01, k10, k11, a0, a1, tauv, kv, n);
        let sp00 = sparse_ip(mcols[m - 1], k00);
        let sp01 = sparse_ip(mcols[m - 1], k01);
        let sp10 = sparse_ip(mcols[m - 1], k10);
        let sp11 = sparse_ip(mcols[m - 1], k11);
        let xm = x[m - 1] as int;
        let a0i = a0 as int;
        let a1i = a1 as int;
        let ti = tauv as int;
        assert(xm * (a0i * sp00 + a1i * sp01 + ti * (a0i * sp10 + a1i * sp11)) == a0i * (xm * (
        sp00 + ti * sp10)) + a1i * (xm * (sp01 + ti * sp11))) by {
            lemma_pull(xm, a0i * sp00 + a1i * sp01, ti * (a0i * sp10 + a1i * sp11));
            lemma_pull(xm, a0i * sp00, a1i * sp01);
            lemma_swap3(xm, a0i, sp00);
            lemma_swap3(xm, a1i, sp01);
            lemma_swap3(xm, ti, a0i * sp10 + a1i * sp11);
            lemma_pull(xm, a0i * sp10, a1i * sp11);
            lemma_swap3(xm, a0i, sp10);
            lemma_swap3(xm, a1i, sp11);
            lemma_pull(ti, a0i * (xm * sp10), a1i * (xm * sp11));
            lemma_swap3(ti, a0i, xm * sp10);
            lemma_swap3(ti, a1i, xm * sp11);
            lemma_pull(xm, sp00, ti * sp10);
            lemma_pull(xm, sp01, ti * sp11);
            lemma_pull(a0i, xm * sp00, xm * (ti * sp10));
            lemma_pull(a1i, xm * sp01, xm * (ti * sp11));
            lemma_swap3(xm, ti, sp10);
            lemma_swap3(xm, ti, sp11);
            lemma_swap3(a0i, ti, xm * sp10);
            lemma_swap3(a1i, ti, xm * sp11);
        }
        lemma_pull(a0 as int, dotn(x, pc0, m - 1), xm * pc0[m - 1]);
        lemma_pull(a1 as int, dotn(x, pc1, m - 1), xm * pc1[m - 1]);
        assert(pc0[m - 1] == sp00 + tauv * sp10);
        assert(pc1[m - 1] == sp01 + tauv * sp11);
    }
}

/// A dot product of reduced sequences is congruent to the integer dot
/// product of what they reduce.
proof fn lemma_dot_reduced(a: Seq<nat>, bred: Seq<nat>, b: Seq<int>, n: int)
    requires
        0 <= n <= a.len(),
        n <= bred.len(),
        n <= b.len(),
        forall|i: int| 0 <= i < n ==> #[trigger] bred[i] == (b[i] % qi()) as nat,
    ensures
        dot_vals(a.take(n), bred.take(n)) % qi() == dotn(a, b, n) % qi(),
    decreases n,
{
    if n == 0 {
        assert(a.take(0) =~= Seq::<nat>::empty());
        assert(bred.take(0) =~= Seq::<nat>::empty());
    } else {
        lemma_dot_reduced(a, bred, b, n - 1);
        dot_take_push(a, bred, n - 1);
        // dv(n) = dv(n-1) + a[n-1] * (b[n-1] % q)
        mod_mul_noop_right(a[n - 1] as int, b[n - 1]);
        mod_add_noop(dot_vals(a.take(n - 1), bred.take(n - 1)), (a[n - 1] * bred[n - 1]) as int);
        mod_add_noop(dotn(a, b, n - 1), a[n - 1] * b[n - 1]);
        vstd::arithmetic::div_mod::lemma_mod_twice(
            dot_vals(a.take(n - 1), bred.take(n - 1)),
            qi(),
        );
        assert(((a[n - 1] * bred[n - 1]) as int) % qi() == (a[n - 1] * b[n - 1]) % qi()) by {
            mod_small(bred[n - 1]);
            mod_mul_noop_right(a[n - 1] as int, b[n - 1]);
        }
    }
}

/// Entrywise congruent integer sequences give congruent dot products.
proof fn lemma_dotn_congruent(a: Seq<nat>, b1: Seq<int>, b2: Seq<int>, n: int)
    requires
        forall|i: int| 0 <= i < n ==> #[trigger] b1[i] % qi() == b2[i] % qi(),
    ensures
        dotn(a, b1, n) % qi() == dotn(a, b2, n) % qi(),
    decreases n,
{
    if n > 0 {
        lemma_dotn_congruent(a, b1, b2, n - 1);
        mod_mul_noop_right(a[n - 1] as int, b1[n - 1]);
        mod_mul_noop_right(a[n - 1] as int, b2[n - 1]);
        mod_add_noop(dotn(a, b1, n - 1), a[n - 1] * b1[n - 1]);
        mod_add_noop(dotn(a, b2, n - 1), a[n - 1] * b2[n - 1]);
    }
}

/// Completeness of the subspace argument: a proof over `x` built from keys
/// that key generation produced over the matrix (with the plain generators
/// as bases) is accepted for the outputs `y = M x`.
#[verifier::rlimit(100)]
/// The assembled congruence: once every verifier-side value is known as the
/// reduction of its integer counterpart, the acceptance sum vanishes.
#[verifier::rlimit(100)]
proof fn lemma_accept_assemble(
    mcols: Seq<Seq<CoeffPos<G1>>>,
    xv: Seq<nat>,
    kv: Seq<nat>,
    k00: Seq<nat>,
    k01: Seq<nat>,
    k10: Seq<nat>,
    k11: Seq<nat>,
    a0: nat,
    a1: nat,
    tauv: nat,
    yred: Seq<nat>,
    cred: Seq<nat>,
    yint: Seq<int>,
    cint: Seq<int>,
    pc0: Seq<int>,
    pc1: Seq<int>,
    pr0: Seq<nat>,
    pr1: Seq<nat>,
    pi0v: nat,
    pi1v: nat,
    a0g: nat,
    a1g: nat,
    n: int,
    m: int,
)
    requires
        0 <= n,
        0 <= m <= mcols.len(),
        xv.len() == m,
        kv.len() == n,
        k00.len() == n,
        k01.len() == n,
        k10.len() == n,
        k11.len() == n,
        yred.len() == n,
        cred.len() == n,
        yint.len() == n,
        cint.len() == n,
        pc0.len() == m,
        pc1.len() == m,
        pr0.len() == m,
        pr1.len() == m,
        forall|j: int, e: int|
            0 <= j < mcols.len() && 0 <= e < mcols[j].len() ==> 0 <= (
            #[trigger] mcols[j][e]).pos < n,
        forall|i: int|
            0 <= i < n ==> #[trigger] kv[i] == a0 * k00[i] + a1 * k01[i] + tauv * (a0 * k10[i]
                + a1 * k11[i]),
        forall|i: int| 0 <= i < n ==> #[trigger] cint[i] == kv[i] as int,
        forall|i: int| 0 <= i < n ==> #[trigger] yint[i] == y_dense(mcols, xv, i, m),
        forall|i: int| 0 <= i < n ==> #[trigger] yred[i] == (yint[i] % qi()) as nat,
        forall|i: int| 0 <= i < n ==> #[trigger] cred[i] == (cint[i] % qi()) as nat,
        forall|j: int|
            0 <= j < m ==> #[trigger] pc0[j] == sparse_ip(mcols[j], k00) + tauv * sparse_ip(
                mcols[j],
                k10,
            ),
        forall|j: int|
            0 <= j < m ==> #[trigger] pc1[j] == sparse_ip(mcols[j], k01) + tauv * sparse_ip(
                mcols[j],
                k11,
            ),
        forall|j: int| 0 <= j < m ==> #[trigger] pr0[j] == (pc0[j] % qi()) as nat,
        forall|j: int| 0 <= j < m ==> #[trigger] pr1[j] == (pc1[j] % qi()) as nat,
        pi0v == dot_vals(xv, pr0) % qi(),
        pi1v == dot_vals(xv, pr1) % qi(),
        a0g == (a0 as int) % qi(),
        a1g == (a1 as int) % qi(),
    ensures
        (dot_vals(yred, cred) - pi0v * a0g - pi1v * a1g) % qi() == 0,
{
    let dv = dot_vals(yred, cred);
    let s = rhs_sum(mcols, xv, kv, n, m);
    let dn0 = dotn(xv, pc0, m);
    let dn1 = dotn(xv, pc1, m);

    lemma_dot_both_reduced(yred, cred, yint, cint, n);
    lemma_prod_is_rhs(mcols, xv, kv, yint, cint, n, m);
    assert(dv % qi() == s % qi());

    lemma_exchange(mcols, xv, kv, n, m);
    lemma_lhs_split(mcols, xv, k00, k01, k10, k11, a0, a1, tauv, kv, n, m, pc0, pc1);
    assert(s == a0 * dn0 + a1 * dn1);

    lemma_dot_reduced(xv, pr0, pc0, m);
    lemma_dot_reduced(xv, pr1, pc1, m);
    assert(xv.take(m) =~= xv);
    assert(pr0.take(m) =~= pr0);
    assert(pr1.take(m) =~= pr1);
    assert(pi0v == dn0 % qi());
    assert(pi1v == dn1 % qi());

    assert(((pi0v * a0g) as int) % qi() == (dn0 * a0) % qi()) by {
        mod_mul_noop(dn0, a0 as int);
        vstd::arithmetic::div_mod::lemma_mod_twice(dn0, qi());
        vstd::arithmetic::div_mod::lemma_mod_twice(a0 as int, qi());
    }
    assert(((pi1v * a1g) as int) % qi() == (dn1 * a1) % qi()) by {
        mod_mul_noop(dn1, a1 as int);
        vstd::arithmetic::div_mod::lemma_mod_twice(dn1, qi());
        vstd::arithmetic::div_mod::lemma_mod_twice(a1 as int, qi());
    }

    mod_sub_noop(dv, (pi0v * a0g) as int);
    mod_sub_noop(s, dn0 * a0);
    vstd::arithmetic::div_mod::lemma_mod_twice(dv, qi());
    vstd::arithmetic::div_mod::lemma_mod_twice(s, qi());
    vstd::arithmetic::div_mod::lemma_mod_twice((pi0v * a0g) as int, qi());
    vstd::arithmetic::div_mod::lemma_mod_twice(dn0 * a0, qi());
    assert(a0 * dn0 == dn0 * a0) by (nonlinear_arith);
    assert(a1 * dn1 == dn1 * a1) by (nonlinear_arith);
    assert((dv - pi0v * a0g) % qi() == (s - dn0 * a0) % qi());
    mod_sub_noop(dv - pi0v * a0g, (pi1v * a1g) as int);
    mod_sub_noop(s - dn0 * a0, dn1 * a1);
    vstd::arithmetic::div_mod::lemma_mod_twice(dv - pi0v * a0g, qi());
    vstd::arithmetic::div_mod::lemma_mod_twice(s - dn0 * a0, qi());
    vstd::arithmetic::div_mod::lemma_mod_twice((pi1v * a1g) as int, qi());
    vstd::arithmetic::div_mod::lemma_mod_twice(dn1 * a1, qi());
    assert((dv - pi0v * a0g - pi1v * a1g) % qi() == (s - dn0 * a0 - dn1 * a1) % qi());
    assert(s - dn0 * a0 - dn1 * a1 == 0);
    mod_small(0);
}

/// Completeness of the subspace argument: a proof over `x` built from keys
/// that key generation produced over the matrix (with the plain generators
/// as bases) is accepted for the outputs `y = M x`.
#[verifier::rlimit(100)]
pub proof fn lemma_link_completeness(
    evk: LinkEVKey,
    mcols: Seq<Seq<CoeffPos<G1>>>,
    nr: nat,
    nc: nat,
    k00: Seq<nat>,
    k01: Seq<nat>,
    k10: Seq<nat>,
    k11: Seq<nat>,
    a0: nat,
    a1: nat,
    x: Seq<Fr>,
    y: Seq<G1>,
    pi: Seq<G1>,
)
    requires
        keygen_rel(evk, mcols, nr, nc, 1, k00, k01, k10, k11, a0, a1),
        forall|j: int, e: int|
            0 <= j < mcols.len() && 0 <= e < mcols[j].len() ==> 0 <= (
            #[trigger] mcols[j][e]).pos < nr,
        x.len() == nc,
        y.len() == nr,
        forall|i: int|
            0 <= i < nr ==> g1_val(#[trigger] y[i]) == y_dense(mcols, vals_fr(x), i, nc as int)
                % qi(),
        pi.len() == 2,
        g1_val(pi[0]) == dot_vals(vals_fr(x), p_combined(evk.ek, 0)) % qi(),
        g1_val(pi[1]) == dot_vals(vals_fr(x), p_combined(evk.ek, 1)) % qi(),
    ensures
        link_accepts(
            vals_g1(y),
            c_combined(evk.vk),
            g2_val(evk.vk.a@[0]),
            g2_val(evk.vk.a@[1]),
            g1_val(pi[0]),
            g1_val(pi[1]),
        ),
{
    let xv = vals_fr(x);
    let n = nr as int;
    let m = nc as int;
    let tauv = fr_val(evk.vk.tau);

    let kv = Seq::new(nr, |i: int| (a0 * k00[i] + a1 * k01[i] + tauv * (a0 * k10[i] + a1 * k11[i]))
        as nat);
    let cint = Seq::new(nr, |i: int| kv[i] as int);
    let yint = Seq::new(nr, |i: int| y_dense(mcols, xv, i, m));
    let pc0 = Seq::new(nc, |j: int| sparse_ip(mcols[j], k00) + tauv * sparse_ip(mcols[j], k10));
    let pc1 = Seq::new(nc, |j: int| sparse_ip(mcols[j], k01) + tauv * sparse_ip(mcols[j], k11));

    assert forall|i: int| 0 <= i < n implies #[trigger] c_combined(evk.vk)[i] == (cint[i] % qi())
        as nat by {
        let c0i = (k00[i] * a0 + k01[i] * a1) as int;
        let c1i = (k10[i] * a0 + k11[i] * a1) as int;
        assert(g2_val(evk.vk.c_0@[i]) == ((c0i % qi()) * 1) % qi());
        assert(g2_val(evk.vk.c_1@[i]) == ((c1i % qi()) * 1) % qi());
        assert((c0i % qi()) * 1 == c0i % qi());
        vstd::arithmetic::div_mod::lemma_mod_twice(c0i, qi());
        vstd::arithmetic::div_mod::lemma_mod_twice(c1i, qi());
        mod_mul_noop_right(tauv as int, c1i);
        vstd::arithmetic::div_mod::lemma_add_mod_noop(c0i, tauv * c1i, qi());
        vstd::arithmetic::div_mod::lemma_mod_twice(tauv * c1i, qi());
        assert(a0 * k00[i] == k00[i] * a0) by (nonlinear_arith);
        assert(a1 * k01[i] == k01[i] * a1) by (nonlinear_arith);
        assert(a0 * k10[i] == k10[i] * a0) by (nonlinear_arith);
        assert(a1 * k11[i] == k11[i] * a1) by (nonlinear_arith);
        assert(tauv * (a0 * k10[i] + a1 * k11[i]) == tauv * c1i) by {
            lemma_pull(tauv as int, (a0 * k10[i]) as int, (a1 * k11[i]) as int);
            lemma_pull(tauv as int, (k10[i] * a0) as int, (k11[i] * a1) as int);
        }
    }
    assert forall|j: int| 0 <= j < m implies #[trigger] p_combined(evk.ek, 0)[j] == (pc0[j] % qi())
        as nat by {
        let sp0 = sparse_ip(mcols[j], k00);
        let sp1 = sparse_ip(mcols[j], k10);
        assert(g1_val(evk.ek.p_0@[0]@[j]) == sp0 % qi());
        assert(g1_val(evk.ek.p_1@[0]@[j]) == sp1 % qi());
        mod_mul_noop_right(tauv as int, sp1);
        vstd::arithmetic::div_mod::lemma_add_mod_noop(sp0, tauv * sp1, qi());
        vstd::arithmetic::div_mod::lemma_mod_twice(sp0, qi());
        vstd::arithmetic::div_mod::lemma_mod_twice(tauv * sp1, qi());
    }
    assert forall|j: int| 0 <= j < m implies #[trigger] p_combined(evk.ek, 1)[j] == (pc1[j] % qi())
        as nat by {
        let sp0 = sparse_ip(mcols[j], k01);
        let sp1 = sparse_ip(mcols[j], k11);
        assert(g1_val(evk.ek.p_0@[1]@[j]) == sp0 % qi());
        assert(g1_val(evk.ek.p_1@[1]@[j]) == sp1 % qi());
        mod_mul_noop_right(tauv as int, sp1);
        vstd::arithmetic::div_mod::lemma_add_mod_noop(sp0, tauv * sp1, qi());
        vstd::arithmetic::div_mod::lemma_mod_twice(sp0, qi());
        vstd::arithmetic::div_mod::lemma_mod_twice(tauv * sp1, qi());
    }
    assert(vals_fr(x) =~= xv);
    assert((a0 * 1) as int == a0 as int);
    assert((a1 * 1) as int == a1 as int);
    lemma_accept_assemble(
        mcols,
        xv,
        kv,
        k00,
        k01,
        k10,
        k11,
        a0,
        a1,
        tauv,
        vals_g1(y),
        c_combined(evk.vk),
        yint,
        cint,
        pc0,
        pc1,
        p_combined(evk.ek, 0),
        p_combined(evk.ek, 1),
        g1_val(pi[0]),
        g1_val(pi[1]),
        g2_val(evk.vk.a@[0]),
        g2_val(evk.vk.a@[1]),
        n,
        m,
    );
}

/// A dot product of two reduced sequences is congruent to the integer sum of
/// the unreduced products.
proof fn lemma_dot_both_reduced(
    ared: Seq<nat>,
    bred: Seq<nat>,
    a: Seq<int>,
    b: Seq<int>,
    n: int,
)
    requires
        0 <= n,
        ared.len() == n,
        bred.len() == n,
        n <= a.len(),
        n <= b.len(),
        forall|i: int| 0 <= i < n ==> #[trigger] ared[i] == (a[i] % qi()) as nat,
        forall|i: int| 0 <= i < n ==> #[trigger] bred[i] == (b[i] % qi()) as nat,
    ensures
        dot_vals(ared, bred) % qi() == sum_prods(a, b, n) % qi(),
    decreases n,
{
    if n == 0 {
    } else {
        let ap = ared.drop_last();
        let bp = bred.drop_last();
        assert(ap =~= ared.take(n - 1));
        assert(bp =~= bred.take(n - 1));
        lemma_dot_both_reduced(ap, bp, a, b, n - 1);
        // last product: (a % q)(b % q) == ab (mod q)
        mod_mul_noop(a[n - 1], b[n - 1]);
        mod_add_noop(dot_vals(ap, bp), (ared[n - 1] * bred[n - 1]) as int);
        mod_add_noop(sum_prods(a, b, n - 1), a[n - 1] * b[n - 1]);
        vstd::arithmetic::div_mod::lemma_mod_twice(dot_vals(ap, bp), qi());
        vstd::arithmetic::div_mod::lemma_mod_twice(a[n - 1] * b[n - 1], qi());
    }
}

/// `sum_{i < n} a[i] * b[i]` over integer sequences.
pub open spec fn sum_prods(a: Seq<int>, b: Seq<int>, n: int) -> int
    decreases n,
{
    if n <= 0 {
        0
    } else {
        sum_prods(a, b, n - 1) + a[n - 1] * b[n - 1]
    }
}

/// The integer product sum of the output rows against the combined scalars
/// is the double sum.
proof fn lemma_prod_is_rhs(
    mcols: Seq<Seq<CoeffPos<G1>>>,
    xv: Seq<nat>,
    kv: Seq<nat>,
    yint: Seq<int>,
    cint: Seq<int>,
    n: int,
    m: int,
)
    requires
        0 <= n,
        n <= yint.len(),
        n <= cint.len(),
        n <= kv.len(),
        forall|i: int| 0 <= i < n ==> #[trigger] yint[i] == y_dense(mcols, xv, i, m),
        forall|i: int| 0 <= i < n ==> #[trigger] cint[i] == kv[i] as int,
    ensures
        sum_prods(yint, cint, n) == rhs_sum(mcols, xv, kv, n, m),
    decreases n,
{
    if n > 0 {
        lemma_prod_is_rhs(mcols, xv, kv, yint, cint, n - 1, m);
        assert(yint[n - 1] * cint[n - 1] == kv[n - 1] * y_dense(mcols, xv, n - 1, m))
            by (nonlinear_arith)
            requires
                yint[n - 1] == y_dense(mcols, xv, n - 1, m) && cint[n - 1] == kv[n - 1] as int,
        ;
    }
}

} // verus!

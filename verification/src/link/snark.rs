//! The subspace-membership argument: it proves that a vector of group
//! elements `y` equals `M x` for a public sparse matrix `M` of group
//! elements and a hidden scalar vector `x`, by one pairing-product check.
use vstd::prelude::*;
use crate::algebra::{dot_vals, fr_add, fr_mul, fr_rand, fr_val, g1_add, g1_mul, g1_val, g2_add,
    g2_mul, g2_neg, g2_ok_seq, g2_val, gt_add, gt_eq, gt_val, gt_zero, pairing, q, vals_fr,
    vals_g1, Fr, G1, G2, Rng};
use crate::arith::{dot_take_all, dot_take_push, mod_add_noop, mod_add_noop_right, mod_bound,
    mod_mul_noop_right, mod_small, qi};
use crate::link::matrix::{sparse_ip, CoeffPos, SparseLinAlgebra, SparseMatrix};

verus! {

/// Public parameters of the argument: the matrix shape and the two group
/// generators every key element is built from.
pub struct PP {
    pub nr: usize,
    pub nc: usize,
    pub g1: G1,
    pub g2: G2,
}

impl PP {
    pub fn new(nr: usize, nc: usize, g1: &G1, g2: &G2) -> (r: PP)
        ensures
            r.nr == nr,
            r.nc == nc,
            r.g1 == *g1,
            r.g2 == *g2,
    {
        PP { nr, nc, g1: *g1, g2: *g2 }
    }
}

/// Proving key: the blinding scalar and the two matrices `P_k = M^T K_k`,
/// each held as its two columns.
pub struct EK {
    pub tau: Fr,
    pub p_0: Vec<Vec<G1>>,
    pub p_1: Vec<Vec<G1>>,
}

/// Verifying key: the blinding scalar, the two column vectors `C_k = K_k A`
/// and the vector `A`, all lifted to the second group.
pub struct VK {
    pub tau: Fr,
    pub c_0: Vec<G2>,
    pub c_1: Vec<G2>,
    pub a: Vec<G2>,
}

/// The combined output of key generation.
pub struct LinkEVKey {
    pub pp: PP,
    pub ek: EK,
    pub vk: VK,
}

/// The proving key has two rows of `nc` elements in each matrix.
pub open spec fn ek_wf(ek: EK, nc: nat) -> bool {
    &&& ek.p_0@.len() == 2
    &&& ek.p_1@.len() == 2
    &&& ek.p_0@[0]@.len() == nc
    &&& ek.p_0@[1]@.len() == nc
    &&& ek.p_1@[0]@.len() == nc
    &&& ek.p_1@[1]@.len() == nc
}

/// The verifying key has `nr` elements in each `C` vector, two in `A`, and
/// every element lies in the prime-order subgroup.
pub open spec fn vk_wf(vk: VK, nr: nat) -> bool {
    &&& vk.c_0@.len() == nr
    &&& vk.c_1@.len() == nr
    &&& vk.a@.len() == 2
    &&& g2_ok_seq(vk.c_0@)
    &&& g2_ok_seq(vk.c_1@)
    &&& g2_ok_seq(vk.a@)
}

/// The discrete logarithms of the prover-side combination
/// `P_0[row] + tau * P_1[row]`, one entry per matrix column.
pub open spec fn p_combined(ek: EK, row: int) -> Seq<nat> {
    Seq::new(
        ek.p_0@[row]@.len(),
        |j: int| (g1_val(ek.p_0@[row]@[j]) + fr_val(ek.tau) * g1_val(ek.p_1@[row]@[j])) % q(),
    )
}

/// The discrete logarithms of the verifier-side combination
/// `C_0 + tau * C_1`, one entry per matrix row.
pub open spec fn c_combined(vk: VK) -> Seq<nat> {
    Seq::new(
        vk.c_0@.len(),
        |i: int| (g2_val(vk.c_0@[i]) + fr_val(vk.tau) * g2_val(vk.c_1@[i])) % q(),
    )
}

/// The verifier's acceptance condition over discrete logarithms: the pairing
/// product `prod e(y_i, C_i) * e(pi_0, -A_0) * e(pi_1, -A_1)` is the
/// identity.
pub open spec fn link_accepts(
    yv: Seq<nat>,
    cv: Seq<nat>,
    a0: nat,
    a1: nat,
    pi0: nat,
    pi1: nat,
) -> bool {
    (dot_vals(yv, cv) - pi0 * a0 - pi1 * a1) % qi() == 0
}

/// What key generation guarantees of its output, with the sampled scalars
/// quantified away: each key element is the stated combination of the matrix
/// columns, the hidden matrices `K_0`, `K_1` and the hidden vector `A`.
pub open spec fn keygen_rel(
    evk: LinkEVKey,
    mcols: Seq<Seq<CoeffPos<G1>>>,
    nr: nat,
    nc: nat,
    g2v: nat,
    k00: Seq<nat>,
    k01: Seq<nat>,
    k10: Seq<nat>,
    k11: Seq<nat>,
    a0: nat,
    a1: nat,
) -> bool {
    &&& mcols.len() == nc
    &&& k00.len() == nr
    &&& k01.len() == nr
    &&& k10.len() == nr
    &&& k11.len() == nr
    &&& ek_wf(evk.ek, nc)
    &&& vk_wf(evk.vk, nr)
    &&& fr_val(evk.vk.tau) == fr_val(evk.ek.tau)
    &&& forall|j: int|
        0 <= j < nc ==> g1_val(#[trigger] evk.ek.p_0@[0]@[j]) == sparse_ip(mcols[j], k00) % qi()
    &&& forall|j: int|
        0 <= j < nc ==> g1_val(#[trigger] evk.ek.p_0@[1]@[j]) == sparse_ip(mcols[j], k01) % qi()
    &&& forall|j: int|
        0 <= j < nc ==> g1_val(#[trigger] evk.ek.p_1@[0]@[j]) == sparse_ip(mcols[j], k10) % qi()
    &&& forall|j: int|
        0 <= j < nc ==> g1_val(#[trigger] evk.ek.p_1@[1]@[j]) == sparse_ip(mcols[j], k11) % qi()
    &&& forall|i: int|
        0 <= i < nr ==> g2_val(#[trigger] evk.vk.c_0@[i]) == (((k00[i] * a0 + k01[i] * a1) % q())
            * g2v) % q()
    &&& forall|i: int|
        0 <= i < nr ==> g2_val(#[trigger] evk.vk.c_1@[i]) == (((k10[i] * a0 + k11[i] * a1) % q())
            * g2v) % q()
    &&& g2_val(evk.vk.a@[0]) == (a0 * g2v) % q()
    &&& g2_val(evk.vk.a@[1]) == (a1 * g2v) % q()
}

/// Lifts a scalar vector to the second group over the parameter generator.
fn vec_to_g2(pp: &PP, v: &Vec<Fr>) -> (r: Vec<G2>)
    requires
        g2_val(pp.g2) < q(),
    ensures
        r@.len() == v@.len(),
        forall|i: int|
            0 <= i < v@.len() ==> g2_val(#[trigger] r@[i]) == (fr_val(v@[i]) * g2_val(pp.g2))
                % q(),
        g2_ok_seq(r@),
{
    let mut r: Vec<G2> = Vec::new();
    let mut i: usize = 0;
    while i < v.len()
        invariant
            i <= v@.len(),
            g2_val(pp.g2) < q(),
            r@.len() == i,
            forall|k: int|
                0 <= k < i ==> g2_val(#[trigger] r@[k]) == (fr_val(v@[k]) * g2_val(pp.g2)) % q(),
        decreases v@.len() - i,
    {
        let x = g2_mul(&pp.g2, &v[i]);
        proof {
            mod_bound((fr_val(v@[i as int]) * g2_val(pp.g2)) as int);
        }
        r.push(x);
        i = i + 1;
    }
    r
}

/// The pairing-based subspace argument over the library's fixed curve.
pub struct PESubspaceSnark {
}

impl PESubspaceSnark {
    /// Builds the key pair from already sampled secret scalars: the two
    /// matrices `K_0`, `K_1` (given as their two columns each), the vector
    /// `A` and the blinding scalar `tau`.
    pub fn keygen_from_scalars(
        pp: &PP,
        m: &SparseMatrix<G1>,
        k00: &Vec<Fr>,
        k01: &Vec<Fr>,
        k10: &Vec<Fr>,
        k11: &Vec<Fr>,
        a0: &Fr,
        a1: &Fr,
        tau: &Fr,
    ) -> (r: LinkEVKey)
        requires
            m.wf(),
            m.nr == pp.nr,
            m.nc == pp.nc,
            m.rows_ok(m.nr as nat),
            k00@.len() == pp.nr,
            k01@.len() == pp.nr,
            k10@.len() == pp.nr,
            k11@.len() == pp.nr,
            g2_val(pp.g2) < q(),
        ensures
            keygen_rel(
                r,
                m.col_seq(),
                pp.nr as nat,
                pp.nc as nat,
                g2_val(pp.g2),
                vals_fr(k00@),
                vals_fr(k01@),
                vals_fr(k10@),
                vals_fr(k11@),
                fr_val(*a0),
                fr_val(*a1),
            ),
            r.pp.nr == pp.nr,
            r.pp.nc == pp.nc,
            r.pp.g1 == pp.g1,
            r.pp.g2 == pp.g2,
            fr_val(r.ek.tau) == fr_val(*tau),
    {
        let p_0_c0 = SparseLinAlgebra::sparse_vector_matrix_mult(k00, m, pp.nc);
        let p_0_c1 = SparseLinAlgebra::sparse_vector_matrix_mult(k01, m, pp.nc);
        let p_1_c0 = SparseLinAlgebra::sparse_vector_matrix_mult(k10, m, pp.nc);
        let p_1_c1 = SparseLinAlgebra::sparse_vector_matrix_mult(k11, m, pp.nc);

        let mut p_0: Vec<Vec<G1>> = Vec::new();
        p_0.push(p_0_c0);
        p_0.push(p_0_c1);
        let mut p_1: Vec<Vec<G1>> = Vec::new();
        p_1.push(p_1_c0);
        p_1.push(p_1_c1);

        let mut c_0: Vec<Fr> = Vec::new();
        let mut c_1: Vec<Fr> = Vec::new();
        let mut i: usize = 0;
        while i < pp.nr
            invariant
                i <= pp.nr,
                k00@.len() == pp.nr,
                k01@.len() == pp.nr,
                k10@.len() == pp.nr,
                k11@.len() == pp.nr,
                c_0@.len() == i,
                c_1@.len() == i,
                forall|k: int|
                    0 <= k < i ==> fr_val(#[trigger] c_0@[k]) == (fr_val(k00@[k]) * fr_val(*a0)
                        + fr_val(k01@[k]) * fr_val(*a1)) % q(),
                forall|k: int|
                    0 <= k < i ==> fr_val(#[trigger] c_1@[k]) == (fr_val(k10@[k]) * fr_val(*a0)
                        + fr_val(k11@[k]) * fr_val(*a1)) % q(),
            decreases pp.nr - i,
        {
            let t00 = fr_mul(&k00[i], a0);
            let t01 = fr_mul(&k01[i], a1);
            let t10 = fr_mul(&k10[i], a0);
            let t11 = fr_mul(&k11[i], a1);
            let s0 = fr_add(&t00, &t01);
            let s1 = fr_add(&t10, &t11);
            proof {
                mod_add_noop((fr_val(k00@[i as int]) * fr_val(*a0)) as int, (fr_val(k01@[i as int])
                    * fr_val(*a1)) as int);
                mod_add_noop((fr_val(k10@[i as int]) * fr_val(*a0)) as int, (fr_val(k11@[i as int])
                    * fr_val(*a1)) as int);
            }
            c_0.push(s0);
            c_1.push(s1);
            i = i + 1;
        }

        let c_0_g2 = vec_to_g2(pp, &c_0);
        let c_1_g2 = vec_to_g2(pp, &c_1);
        let mut a_vec: Vec<Fr> = Vec::new();
        a_vec.push(*a0);
        a_vec.push(*a1);
        let a_g2 = vec_to_g2(pp, &a_vec);

        let ek = EK { tau: *tau, p_0, p_1 };
        let vk = VK { tau: *tau, c_0: c_0_g2, c_1: c_1_g2, a: a_g2 };
        let evk = LinkEVKey {
            pp: PP { nr: pp.nr, nc: pp.nc, g1: pp.g1, g2: pp.g2 },
            ek,
            vk,
        };
        evk
    }

    /// Key generation: samples the secret matrices `K_0`, `K_1`, the vector
    /// `A` and the blinding scalar `tau`, and derives the key pair; the
    /// sampled secrets leave no trace but the relation below.
    pub fn keygen(rng: &mut Rng, pp: &PP, m: &SparseMatrix<G1>) -> (r: LinkEVKey)
        requires
            m.wf(),
            m.nr == pp.nr,
            m.nc == pp.nc,
            m.rows_ok(m.nr as nat),
            g2_val(pp.g2) < q(),
        ensures
            exists|k00: Seq<nat>, k01: Seq<nat>, k10: Seq<nat>, k11: Seq<nat>, a0: nat, a1: nat|
                keygen_rel(
                    r,
                    m.col_seq(),
                    pp.nr as nat,
                    pp.nc as nat,
                    g2_val(pp.g2),
                    k00,
                    k01,
                    k10,
                    k11,
                    a0,
                    a1,
                ),
            r.pp.nr == pp.nr,
            r.pp.nc == pp.nc,
            r.pp.g1 == pp.g1,
            r.pp.g2 == pp.g2,
    {
        let mut k00: Vec<Fr> = Vec::new();
        let mut k01: Vec<Fr> = Vec::new();
        let mut k10: Vec<Fr> = Vec::new();
        let mut k11: Vec<Fr> = Vec::new();
        let mut i: usize = 0;
        while i < pp.nr
            invariant
                i <= pp.nr,
                k00@.len() == i,
                k01@.len() == i,
                k10@.len() == i,
                k11@.len() == i,
            decreases pp.nr - i,
        {
            k00.push(fr_rand(rng));
            k01.push(fr_rand(rng));
            k10.push(fr_rand(rng));
            k11.push(fr_rand(rng));
            i = i + 1;
        }
        let a0 = fr_rand(rng);
        let a1 = fr_rand(rng);
        let tau = fr_rand(rng);
        let evk = Self::keygen_from_scalars(pp, m, &k00, &k01, &k10, &k11, &a0, &a1, &tau);
        proof {
            assert(keygen_rel(
                evk,
                m.col_seq(),
                pp.nr as nat,
                pp.nc as nat,
                g2_val(pp.g2),
                vals_fr(k00@),
                vals_fr(k01@),
                vals_fr(k10@),
                vals_fr(k11@),
                fr_val(a0),
                fr_val(a1),
            ));
        }
        evk
    }

    /// Builds the two-element proof `pi_k = sum_j x_j (P_0 + tau P_1)[k][j]`.
    pub fn prove(pp: &PP, ek: &EK, x: &Vec<Fr>) -> (r: Vec<G1>)
        requires
            ek_wf(*ek, pp.nc as nat),
            x@.len() == pp.nc,
        ensures
            r@.len() == 2,
            g1_val(r@[0]) == dot_vals(vals_fr(x@), p_combined(*ek, 0)) % qi(),
            g1_val(r@[1]) == dot_vals(vals_fr(x@), p_combined(*ek, 1)) % qi(),
    {
        let mut p_c0: Vec<G1> = Vec::new();
        let mut p_c1: Vec<G1> = Vec::new();
        let mut i: usize = 0;
        while i < pp.nc
            invariant
                i <= pp.nc,
                ek_wf(*ek, pp.nc as nat),
                p_c0@.len() == i,
                p_c1@.len() == i,
                forall|k: int| 0 <= k < i ==> g1_val(#[trigger] p_c0@[k]) == p_combined(*ek, 0)[k],
                forall|k: int| 0 <= k < i ==> g1_val(#[trigger] p_c1@[k]) == p_combined(*ek, 1)[k],
            decreases pp.nc - i,
        {
            let row0 = &ek.p_0[0];
            let row1 = &ek.p_0[1];
            let s_row0 = &ek.p_1[0];
            let s_row1 = &ek.p_1[1];
            let i0 = g1_add(&row0[i], &g1_mul(&s_row0[i], &ek.tau));
            let i1 = g1_add(&row1[i], &g1_mul(&s_row1[i], &ek.tau));
            proof {
                let j = i as int;
                mod_add_noop_right(
                    g1_val(ek.p_0@[0]@[j]) as int,
                    (fr_val(ek.tau) * g1_val(ek.p_1@[0]@[j])) as int,
                );
                mod_add_noop_right(
                    g1_val(ek.p_0@[1]@[j]) as int,
                    (fr_val(ek.tau) * g1_val(ek.p_1@[1]@[j])) as int,
                );
            }
            p_c0.push(i0);
            p_c1.push(i1);
            i = i + 1;
        }
        proof {
            assert(vals_g1(p_c0@) =~= p_combined(*ek, 0));
            assert(vals_g1(p_c1@) =~= p_combined(*ek, 1));
        }
        let pi_0 = crate::link::matrix::inner_product(x, &p_c0);
        let pi_1 = crate::link::matrix::inner_product(x, &p_c1);
        let mut pi: Vec<G1> = Vec::new();
        pi.push(pi_0);
        pi.push(pi_1);
        pi
    }

    /// Checks the pairing-product equation
    /// `prod_i e(y_i, C_i) * e(pi_0, -A_0) * e(pi_1, -A_1) == identity`
    /// with `C = C_0 + tau C_1`; returns exactly whether it holds.
    pub fn verify(pp: &PP, vk: &VK, y: &Vec<G1>, pi: &Vec<G1>) -> (r: bool)
        requires
            vk_wf(*vk, pp.nr as nat),
            y@.len() == pp.nr,
            pi@.len() == 2,
        ensures
            r == link_accepts(
                vals_g1(y@),
                c_combined(*vk),
                g2_val(vk.a@[0]),
                g2_val(vk.a@[1]),
                g1_val(pi@[0]),
                g1_val(pi@[1]),
            ),
    {
        let mut c: Vec<G2> = Vec::new();
        let mut i: usize = 0;
        while i < pp.nr
            invariant
                i <= pp.nr,
                vk_wf(*vk, pp.nr as nat),
                c@.len() == i,
                forall|k: int| 0 <= k < i ==> g2_val(#[trigger] c@[k]) == c_combined(*vk)[k],
            decreases pp.nr - i,
        {
            let scaled = g2_mul(&vk.c_1[i], &vk.tau);
            proof {
                mod_bound((fr_val(vk.tau) * g2_val(vk.c_1@[i as int])) as int);
            }
            let combined = g2_add(&vk.c_0[i], &scaled);
            proof {
                let j = i as int;
                mod_add_noop_right(
                    g2_val(vk.c_0@[j]) as int,
                    (fr_val(vk.tau) * g2_val(vk.c_1@[j])) as int,
                );
            }
            c.push(combined);
            i = i + 1;
        }

        let mut acc = gt_zero();
        let mut k: usize = 0;
        proof {
            mod_small(0);
            assert(vals_g1(y@).take(0) =~= Seq::<nat>::empty());
        }
        while k < pp.nr
            invariant
                k <= pp.nr,
                vk_wf(*vk, pp.nr as nat),
                y@.len() == pp.nr,
                c@.len() == pp.nr,
                forall|j: int| 0 <= j < pp.nr ==> g2_val(#[trigger] c@[j]) == c_combined(*vk)[j],
                gt_val(acc) == dot_vals(
                    vals_g1(y@).take(k as int),
                    c_combined(*vk).take(k as int),
                ) % qi(),
            decreases pp.nr - k,
        {
            proof {
                mod_bound(c_combined(*vk)[k as int] as int);
            }
            let term = pairing(&y[k], &c[k]);
            let next = gt_add(&acc, &term);
            proof {
                mod_bound(dot_vals(vals_g1(y@).take(k as int), c_combined(*vk).take(k as int)));
                dot_take_push(vals_g1(y@), c_combined(*vk), k as int);
                mod_add_noop(
                    dot_vals(vals_g1(y@).take(k as int), c_combined(*vk).take(k as int)),
                    (g1_val(y@[k as int]) * c_combined(*vk)[k as int]) as int,
                );
                mod_small((g1_val(y@[k as int]) * g2_val(c@[k as int])) % q());
            }
            acc = next;
            k = k + 1;
        }
        proof {
            dot_take_all(vals_g1(y@), c_combined(*vk));
            assert(vals_g1(y@).take(vals_g1(y@).len() as int) =~= vals_g1(y@));
        }

        let na0 = g2_neg(&vk.a[0]);
        let na1 = g2_neg(&vk.a[1]);
        let t0 = pairing(&pi[0], &na0);
        let t1 = pairing(&pi[1], &na1);
        proof {
            mod_bound(0 - g2_val(vk.a@[0]) as int);
            mod_bound(0 - g2_val(vk.a@[1]) as int);
        }
        let acc1 = gt_add(&acc, &t0);
        let acc2 = gt_add(&acc1, &t1);
        let zero = gt_zero();
        let result = gt_eq(&acc2, &zero);
        proof {
            let d = dot_vals(vals_g1(y@), c_combined(*vk));
            let p0 = g1_val(pi@[0]) as int;
            let p1 = g1_val(pi@[1]) as int;
            let a0 = g2_val(vk.a@[0]) as int;
            let a1 = g2_val(vk.a@[1]) as int;
            mod_mul_noop_right(p0, 0 - a0);
            mod_bound(d);
            mod_add_noop(d, p0 * (0 - a0));
            assert(p0 * (0 - a0) == 0 - p0 * a0) by (nonlinear_arith);
            mod_mul_noop_right(p1, 0 - a1);
            mod_bound(d - p0 * a0);
            mod_add_noop(d - p0 * a0, p1 * (0 - a1));
            assert(p1 * (0 - a1) == 0 - p1 * a1) by (nonlinear_arith);
            assert(gt_val(acc2) == (d - p0 * a0 - p1 * a1) % qi());
        }
        result
    }
}

} // verus!

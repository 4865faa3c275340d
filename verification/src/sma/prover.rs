//! Proving for the set-membership argument.  The six exponent vectors are
//! built by pure scatter constructions with per-position closed forms, then
//! aggregated under the six delta challenges into `pi`; the three outsourced
//! polynomials are committed and opened at a batching point through one
//! combined quotient.
use vstd::prelude::*;
use crate::algebra::{dot_vals, fr_add, fr_mul, fr_ok_seq, fr_one, fr_rand, fr_val, g1_add,
    g1_mul, g1_val, g2_val, msm_g1, msm_g2, pow_mod, q, vals_fr, vals_g1, vals_g2, Fr, G1, Rng};
use crate::arith::{mod_add_noop_right, mod_bound, mod_mul_noop_right, mod_small, qi};
use crate::r1cs::fr_zero_vec;
use crate::sma::structures::{comm_wf, crs_wf, ring_wf, sma_proof_wf, SmaCRS, SmaComm,
    SmaProof};
use crate::sma::utils::{kzg_evaluate, poly_eval};
use crate::sma::verify::{p1_seq, p2_seq, p3_seq};
use crate::sma::vectors::{add_at, build_sma_polys, d_b_of, d_tag_of, derive_s, dg1_of, dg2_of,
    hash_with_fr, hash_with_g1, hash_with_g2, hash_with_len, hash_with_tag, place_at, poly1_at, poly2_at,
    poly3_at, powers_of, scatter, scatter_at, s_of, t_of, u_of, vec_mul_pointwise, z_of};
use crate::link::matrix::scalar_vector_mult;
use crate::vecs::{bytes_extend, vec_take};

verus! {

/// The powers `x^0 .. x^n`.
pub open spec fn pows(x: nat, n: int) -> Seq<nat> {
    Seq::new((n + 1) as nat, |i: int| pow_mod(x, i as nat))
}

/// Value at position `k` of the cross-consistency vector.
#[verifier::opaque]
pub open spec fn eq_at(
    k: int,
    n: int,
    idx: int,
    sv: Seq<nat>,
    tv: Seq<nat>,
    rsv: nat,
    rbv: nat,
) -> int {
    let st = Seq::new((n + 1) as nat, |i: int| (sv[i] * tv[i]) % q());
    let rb_st = Seq::new((n + 1) as nat, |i: int| (rbv * ((sv[i] * tv[i]) % q())) % q());
    let rs_t = Seq::new((n + 1) as nat, |i: int| (rsv * tv[i]) % q());
    let sidx_t = Seq::new((n + 1) as nat, |i: int| (sv[idx] * tv[i]) % q());
    scatter_at(k, 1, n, n + 1, false, rb_st) + scatter_at(k, 1, n, n + 1 + idx, false, st)
        - scatter_at(k, 1, n, 0, true, rs_t) - scatter_at(k, 1, n, n + 1 - idx, true, sidx_t)
}

/// Value at position `k` of the selector-is-binary vector.
#[verifier::opaque]
pub open spec fn b_at(
    k: int,
    n: int,
    idx: int,
    sv: Seq<nat>,
    rsv: nat,
    rbv: nat,
) -> int {
    let rb_s = Seq::new((n + 1) as nat, |i: int| (rbv * sv[i]) % q());
    place_at(k, 0, (rsv * rbv) % q()) - scatter_at(k, 1, n, n + 1, false, rb_s) + place_at(
        k,
        n + 1 - idx,
        (rbv * sv[idx]) % q(),
    ) + place_at(k, idx, rsv) - scatter_at(k, 1, n, n + 1 + idx, false, sv)
}

/// Value at position `k` of the exactly-one-selector vector.
#[verifier::opaque]
pub open spec fn o_at(k: int, n: int, nreal: int, idx: int, rbv: nat) -> int {
    let rb_const = Seq::new((nreal + 1) as nat, |i: int| rbv);
    let ones = Seq::new((nreal + 1) as nat, |i: int| 1nat);
    scatter_at(k, 1, nreal, n + 1, false, rb_const) + scatter_at(
        k,
        1,
        nreal,
        n + 1 + idx,
        false,
        ones,
    )
}

/// Value at position `k` of the no-high-basis vector.
#[verifier::opaque]
pub open spec fn d2_at(k: int, n: int, rv: nat, ringidx: nat) -> int {
    place_at(k, n - 1, rv) + place_at(k, n, ringidx)
}

/// Value at position `k` of the low-coordinates-vanish vector.
#[verifier::opaque]
pub open spec fn d1_at(k: int, n: int, uv: Seq<nat>, rv: nat, ringidx: nat) -> int {
    let r_u = Seq::new((n + 1) as nat, |i: int| (rv * uv[i]) % q());
    let ring_u = Seq::new((n + 1) as nat, |i: int| (ringidx * uv[i]) % q());
    scatter_at(k, 2, n, n + 1, false, r_u) + scatter_at(k, 2, n, n + 2, false, ring_u)
}

/// Value at position `k` of the inner-product vector.
#[verifier::opaque]
pub open spec fn phi_at(
    k: int,
    n: int,
    nreal: int,
    idx: int,
    ringv: Seq<nat>,
    rv: nat,
    rbv: nat,
) -> int {
    let rb_ring = Seq::new((nreal + 1) as nat, |i: int| (rbv * ringv[i]) % q());
    let ring_c = Seq::new((nreal + 1) as nat, |i: int| ringv[i]);
    (0 - place_at(k, n, rv)) + scatter_at(k, 1, nreal, n + 1, false, rb_ring) + scatter_at(
        k,
        1,
        nreal,
        n + 1 + idx,
        false,
        ring_c,
    )
}

/// Value at position `k` of the aggregated exponent vector: the six vectors
/// under their delta challenges.
pub open spec fn pi_exps_at(
    k: int,
    n: int,
    nreal: int,
    idx: int,
    sv: Seq<nat>,
    tv: Seq<nat>,
    uv: Seq<nat>,
    ringv: Seq<nat>,
    rv: nat,
    rbv: nat,
    rsv: nat,
    deq: nat,
    db: nat,
    dov: nat,
    dd2: nat,
    dd1: nat,
    dphi: nat,
) -> int {
    deq * eq_at(k, n, idx, sv, tv, rsv, rbv) + db * b_at(k, n, idx, sv, rsv, rbv) + dov * o_at(
        k,
        n,
        nreal,
        idx,
        rbv,
    ) + dd2 * d2_at(k, n, rv, ringv[idx]) + dd1 * d1_at(k, n, uv, rv, ringv[idx]) + dphi * phi_at(
        k,
        n,
        nreal,
        idx,
        ringv,
        rv,
        rbv,
    )
}

/// The sequence of reduced aggregated exponents.
pub open spec fn pi_exps_seq(
    n: int,
    nreal: int,
    idx: int,
    sv: Seq<nat>,
    tv: Seq<nat>,
    uv: Seq<nat>,
    ringv: Seq<nat>,
    rv: nat,
    rbv: nat,
    rsv: nat,
    deq: nat,
    db: nat,
    dov: nat,
    dd2: nat,
    dd1: nat,
    dphi: nat,
) -> Seq<nat> {
    Seq::new(
        (2 * n + 1) as nat,
        |k: int|
            (pi_exps_at(
                k,
                n,
                nreal,
                idx,
                sv,
                tv,
                uv,
                ringv,
                rv,
                rbv,
                rsv,
                deq,
                db,
                dov,
                dd2,
                dd1,
                dphi,
            ) % qi()) as nat,
    )
}

/// The synthetic-division recurrence: `psi` is the quotient of the
/// polynomial `p` by `x - z`, defined from the top coefficient down.
pub open spec fn div_rec(psi: Seq<nat>, p: Seq<nat>, zv: nat) -> bool {
    &&& psi.len() == p.len()
    &&& psi.len() >= 1
    &&& psi[psi.len() - 1] == 0
    &&& forall|j: int|
        0 <= j < psi.len() - 1 ==> #[trigger] psi[j] == ((((p[j + 1] + zv * psi[j + 1]) as int)
            % qi()) as nat)
}

/// `acc + c * x`, pointwise.
fn axpy(acc: &Vec<Fr>, c: &Fr, x: &Vec<Fr>) -> (r: Vec<Fr>)
    requires
        acc@.len() == x@.len(),
    ensures
        r@.len() == acc@.len(),
        forall|i: int|
            0 <= i < acc@.len() ==> fr_val(#[trigger] r@[i]) == ((fr_val(acc@[i]) as int)
                + fr_val(*c) * fr_val(x@[i])) % qi(),
{
    let mut r: Vec<Fr> = Vec::new();
    let mut i: usize = 0;
    while i < acc.len()
        invariant
            i <= acc@.len(),
            acc@.len() == x@.len(),
            r@.len() == i,
            forall|k: int|
                0 <= k < i ==> fr_val(#[trigger] r@[k]) == ((fr_val(acc@[k]) as int) + fr_val(*c)
                    * fr_val(x@[k])) % qi(),
        decreases acc@.len() - i,
    {
        let term = fr_mul(c, &x[i]);
        let sum = fr_add(&acc[i], &term);
        proof {
            mod_add_noop_right(
                fr_val(acc@[i as int]) as int,
                (fr_val(*c) * fr_val(x@[i as int])) as int,
            );
        }
        r.push(sum);
        i = i + 1;
    }
    r
}

/// A vector of `len` copies of one scalar.
fn fr_const_vec(x: &Fr, len: usize) -> (r: Vec<Fr>)
    ensures
        r@.len() == len,
        forall|i: int| 0 <= i < len ==> fr_val(#[trigger] r@[i]) == fr_val(*x),
{
    let mut r: Vec<Fr> = Vec::new();
    let mut i: usize = 0;
    while i < len
        invariant
            i <= len,
            r@.len() == i,
            forall|k: int| 0 <= k < i ==> fr_val(#[trigger] r@[k]) == fr_val(*x),
        decreases len - i,
    {
        r.push(*x);
        i = i + 1;
    }
    r
}

/// The quotient of `p` by `x - z`, by synthetic division from the top.
fn synth_div(p: &Vec<Fr>, z: &Fr) -> (psi: Vec<Fr>)
    requires
        p@.len() >= 1,
        fr_ok_seq(p@),
    ensures
        div_rec(vals_fr(psi@), vals_fr(p@), fr_val(*z)),
        fr_ok_seq(psi@),
        psi@.len() == p@.len(),
{
    let n = p.len() - 1;
    let mut psi = fr_zero_vec(p.len());
    let mut cur = p[n];
    let mut j = n;
    proof {
        mod_small(fr_val(p@[n as int]));
    }
    while j > 0
        invariant
            j <= n,
            p@.len() == n + 1,
            fr_ok_seq(p@),
            psi@.len() == n + 1,
            fr_val(psi@[n as int]) == 0,
            fr_ok_seq(psi@),
            forall|k: int|
                j <= k < n ==> fr_val(#[trigger] psi@[k]) == ((fr_val(p@[k + 1]) as int) + fr_val(
                    *z,
                ) * fr_val(psi@[k + 1])) % qi(),
            fr_val(cur) as int == if j == n {
                fr_val(p@[n as int]) as int
            } else {
                ((fr_val(p@[j as int]) as int) + fr_val(*z) * fr_val(psi@[j as int])) % qi()
            },
            fr_val(cur) < q(),
        decreases j,
    {
        j = j - 1;
        let ghost pre = psi@;
        psi.set(j, cur);
        let scaled = fr_mul(&cur, z);
        let next = fr_add(&p[j], &scaled);
        proof {
            mod_small(fr_val(p@[j as int]));
            mod_add_noop_right(
                fr_val(p@[j as int]) as int,
                (fr_val(psi@[j as int]) * fr_val(*z)) as int,
            );
            vstd::arithmetic::mul::lemma_mul_is_commutative(
                fr_val(psi@[j as int]) as int,
                fr_val(*z) as int,
            );
            assert(fr_val(psi@[j as int]) == fr_val(cur));
            if j + 1 == n {
                mod_small(fr_val(p@[n as int]));
                assert(fr_val(psi@[j as int]) == fr_val(p@[j + 1]));
                assert(fr_val(psi@[j + 1]) == 0);
                assert(fr_val(*z) * fr_val(psi@[j + 1]) == 0) by (nonlinear_arith)
                    requires
                        fr_val(psi@[j + 1]) == 0,
                ;
                assert(((fr_val(p@[j + 1]) as int) + fr_val(*z) * fr_val(psi@[j + 1])) % qi()
                    == fr_val(p@[j + 1]) as int);
            }
            mod_bound((fr_val(p@[j as int]) as int) + fr_val(*z) * fr_val(psi@[j as int]));
        }
        cur = next;
    }
    psi
}

/// What a produced membership proof is, element by element: the index
/// commitment under fresh randomness, the aggregated relation vector under
/// the transcript's delta challenges, the three outsourced polynomial
/// commitments, and the batched quotient opening, all as stated
/// multi-exponentiations over the reference string.
pub open spec fn sma_prover_rel(
    msg: Seq<u8>,
    crs: SmaCRS,
    comm: SmaComm,
    ringv: Seq<nat>,
    idx: int,
    rv: nat,
    rbv: nat,
    p: SmaProof,
) -> bool {
    let n = crs.ring_size_max as int;
    let nreal = ringv.len() - 1;
    let cgv = g1_val(comm.c_g1);
    let cbv = g2_val(comm.c_b_g2);
    let csv = g1_val(p.c_s_g1);
    let sval = crate::sma::vectors::s_of(msg, cgv, cbv);
    let tval = crate::sma::vectors::t_of(msg, cgv, cbv, csv);
    let uval = crate::sma::vectors::u_of(msg, cgv, cbv, csv, nreal as u64);
    let deq = crate::sma::vectors::d_tag_of(msg, cgv, cbv, csv, 1);
    let db = crate::sma::vectors::d_b_of(msg, cgv, cbv, csv);
    let dov = crate::sma::vectors::d_tag_of(msg, cgv, cbv, csv, 3);
    let dd2 = crate::sma::vectors::d_tag_of(msg, cgv, cbv, csv, 4);
    let dd1 = crate::sma::vectors::d_tag_of(msg, cgv, cbv, csv, 5);
    let dphi = crate::sma::vectors::d_tag_of(msg, cgv, cbv, csv, 6);
    let zval = crate::sma::vectors::z_of(msg, cgv, cbv, csv, g1_val(p.pi));
    let dh = crate::sma::vectors::dg1_of(msg, cgv, cbv, csv, g1_val(p.c_h_g1));
    let du = crate::sma::vectors::dg2_of(msg, cgv, cbv, csv, g2_val(p.c_u_g2));
    let dt = crate::sma::vectors::dg2_of(msg, cgv, cbv, csv, g2_val(p.c_t_g2));
    let sv = pows(sval, n);
    let tv = pows(tval, n);
    let uv = pows(uval, n);
    let p1 = p1_seq(n, nreal, sval, tval, ringv, deq, db, dov, dphi);
    let p2 = p2_seq(n, uval, dd1);
    let p3 = p3_seq(n, tval, deq);
    &&& exists|rsv: nat|
        rsv < q() && csv == ((rsv as int) + pow_mod(sval, idx as nat) * g1_val(
            crs.crs_g1s@[n + 1 - idx],
        )) % qi() && g1_val(p.pi) == dot_vals(
            #[trigger] pi_exps_seq(
                n,
                nreal,
                idx,
                sv,
                tv,
                uv,
                ringv,
                rv,
                rbv,
                rsv,
                deq,
                db,
                dov,
                dd2,
                dd1,
                dphi,
            ),
            vals_g1(crs.crs_g1s@),
        ) % qi()
    &&& g1_val(p.c_h_g1) == dot_vals(p1, vals_g1(crs.crs_g1s@.take(n + 1))) % qi()
    &&& g2_val(p.c_u_g2) == dot_vals(p2, vals_g2(crs.crs_g2s@)) % qi()
    &&& g2_val(p.c_t_g2) == dot_vals(p3, vals_g2(crs.crs_g2s@)) % qi()
    &&& exists|psi1: Seq<nat>, psi2: Seq<nat>, psi3: Seq<nat>|
        div_rec(psi1, adjust_at_zero(p1, zval), zval) && div_rec(
            psi2,
            adjust_at_zero(p2, zval),
            zval,
        ) && div_rec(psi3, adjust_at_zero(p3, zval), zval) && g1_val(p.pi_kzg) == dot_vals(
            #[trigger] kzg_combo(psi1, psi2, psi3, dh, du, dt, (n + 1) as nat),
            vals_g1(crs.crs_g1s@.take(n + 1)),
        ) % qi()
}

/// The coefficient sequence of a polynomial after its value at `z` is
/// drawn out of the constant term.
pub open spec fn adjust_at_zero(p: Seq<nat>, zv: nat) -> Seq<nat> {
    Seq::new(
        p.len(),
        |k: int|
            if k == 0 {
                (((p[0] - poly_eval(p, zv) % qi()) % qi())) as nat
            } else {
                p[k]
            },
    )
}

/// The batched quotient combination under the three opening weights.
pub open spec fn kzg_combo(psi1: Seq<nat>, psi2: Seq<nat>, psi3: Seq<nat>, dh: nat, du: nat,
    dt: nat, len: nat) -> Seq<nat> {
    Seq::new(
        len,
        |k: int| (((dh * psi1[k] + du * psi2[k] + dt * psi3[k]) as int) % qi()) as nat,
    )
}

/// The cross-consistency vector.
#[verifier::rlimit(100)]
fn build_eq_vec(
    n: usize,
    nreal: usize,
    idx: usize,
    ring: &Vec<Fr>,
    s: &Fr,
    t: &Fr,
    u: &Fr,
    s_pows: &Vec<Fr>,
    t_pows: &Vec<Fr>,
    u_pows: &Vec<Fr>,
    r_s: &Fr,
    r0: &Fr,
    r_b: &Fr,
) -> (r: Vec<Fr>)
    requires
        1 <= nreal <= n,
        1 <= idx <= nreal,
        2 * n + 1 <= usize::MAX,
        ring@.len() > nreal,
        s_pows@.len() == n + 1,
        t_pows@.len() == n + 1,
        u_pows@.len() == n + 1,
        vals_fr(s_pows@) == pows(fr_val(*s), n as int),
        vals_fr(t_pows@) == pows(fr_val(*t), n as int),
        vals_fr(u_pows@) == pows(fr_val(*u), n as int),
    ensures
        r@.len() == 2 * n + 1,
        forall|k: int|
            0 <= k < 2 * n + 1 ==> fr_val(#[trigger] r@[k]) == eq_at(
                k,
                n as int,
                idx as int,
                pows(fr_val(*s), n as int),
                pows(fr_val(*t), n as int),
                fr_val(*r_s),
                fr_val(*r_b),
            ) % qi(),
{
    let total = 2 * n + 1;
    let ghost nn = n as int;
    let ghost nreal_i = nreal as int;
    let ghost idx_i = idx as int;
    let ghost rsv = fr_val(*r_s);
    let ghost rv = fr_val(*r0);
    let ghost rbv = fr_val(*r_b);
    let ghost ringv = vals_fr(ring@);
    let ghost sv = pows(fr_val(*s), nn);
    let ghost tv = pows(fr_val(*t), nn);
    let ghost uv = pows(fr_val(*u), nn);
    let st = vec_mul_pointwise(&s_pows, &t_pows);
    let rb_st = scalar_vector_mult(r_b, &st, 0);
    let rs_t = scalar_vector_mult(r_s, &t_pows, 0);
    let sidx_t = scalar_vector_mult(&s_pows[idx], &t_pows, 0);
    let ghost t_eq1 = Seq::new((nn + 1) as nat, |i: int| (rbv * ((sv[i] * tv[i]) % q())) % q());
    let ghost t_eq2 = Seq::new((nn + 1) as nat, |i: int| (sv[i] * tv[i]) % q());
    let ghost t_eq3 = Seq::new((nn + 1) as nat, |i: int| (rsv * tv[i]) % q());
    let ghost t_eq4 = Seq::new((nn + 1) as nat, |i: int| (sv[idx_i] * tv[i]) % q());
    proof {
        assert(vals_fr(st@) =~= t_eq2);
        assert(vals_fr(rb_st@) =~= t_eq1);
        assert(vals_fr(rs_t@) =~= t_eq3);
        assert(vals_fr(sidx_t@) =~= t_eq4);
    }
    let mut eq_vec = fr_zero_vec(total);
    scatter(&mut eq_vec, 1, n, n + 1, false, false, &rb_st);
    let ghost eqs1 = eq_vec@;
    scatter(&mut eq_vec, 1, n, n + 1 + idx, false, false, &st);
    let ghost eqs2 = eq_vec@;
    scatter(&mut eq_vec, 1, n, 0, true, true, &rs_t);
    let ghost eqs3 = eq_vec@;
    scatter(&mut eq_vec, 1, n, n + 1 - idx, true, true, &sidx_t);
    proof {
        assert forall|k: int| 0 <= k < total implies fr_val(#[trigger] eq_vec@[k]) == eq_at(
            k,
            nn,
            idx_i,
            sv,
            tv,
            rsv,
            rbv,
        ) % qi() by {
            reveal(eq_at);
            let t1 = scatter_at(k, 1, nn, nn + 1, false, t_eq1);
            let t2 = scatter_at(k, 1, nn, nn + 1 + idx_i, false, t_eq2);
            let t3 = scatter_at(k, 1, nn, 0, true, t_eq3);
            let t4 = scatter_at(k, 1, nn, nn + 1 - idx_i, true, t_eq4);
            assert(fr_val(eqs1[k]) == (0 + 1 * t1) % qi());
            assert(fr_val(eqs2[k]) == (fr_val(eqs1[k]) + 1 * t2) % qi());
            assert(fr_val(eqs3[k]) == (fr_val(eqs2[k]) + (-1) * t3) % qi());
            assert(fr_val(eq_vec@[k]) == (fr_val(eqs3[k]) + (-1) * t4) % qi());
            mod_add_noop_right(t2, t1);
            mod_add_noop_right(0 - t3, t1 + t2);
            mod_add_noop_right(0 - t4, t1 + t2 - t3);
            assert(eq_at(k, nn, idx_i, sv, tv, rsv, rbv) == t1 + t2 - t3 - t4);
        }
    }

    eq_vec
}

/// The selector-is-binary vector.
#[verifier::rlimit(100)]
fn build_b_vec(
    n: usize,
    nreal: usize,
    idx: usize,
    ring: &Vec<Fr>,
    s: &Fr,
    t: &Fr,
    u: &Fr,
    s_pows: &Vec<Fr>,
    t_pows: &Vec<Fr>,
    u_pows: &Vec<Fr>,
    r_s: &Fr,
    r0: &Fr,
    r_b: &Fr,
) -> (r: Vec<Fr>)
    requires
        1 <= nreal <= n,
        1 <= idx <= nreal,
        2 * n + 1 <= usize::MAX,
        ring@.len() > nreal,
        s_pows@.len() == n + 1,
        t_pows@.len() == n + 1,
        u_pows@.len() == n + 1,
        vals_fr(s_pows@) == pows(fr_val(*s), n as int),
        vals_fr(t_pows@) == pows(fr_val(*t), n as int),
        vals_fr(u_pows@) == pows(fr_val(*u), n as int),
    ensures
        r@.len() == 2 * n + 1,
        forall|k: int|
            0 <= k < 2 * n + 1 ==> fr_val(#[trigger] r@[k]) == b_at(
                k,
                n as int,
                idx as int,
                pows(fr_val(*s), n as int),
                fr_val(*r_s),
                fr_val(*r_b),
            ) % qi(),
{
    let total = 2 * n + 1;
    let ghost nn = n as int;
    let ghost nreal_i = nreal as int;
    let ghost idx_i = idx as int;
    let ghost rsv = fr_val(*r_s);
    let ghost rv = fr_val(*r0);
    let ghost rbv = fr_val(*r_b);
    let ghost ringv = vals_fr(ring@);
    let ghost sv = pows(fr_val(*s), nn);
    let ghost tv = pows(fr_val(*t), nn);
    let ghost uv = pows(fr_val(*u), nn);
    let rb_s = scalar_vector_mult(r_b, &s_pows, 0);
    let rs_rb = fr_mul(r_s, r_b);
    let rb_sidx = fr_mul(r_b, &s_pows[idx]);
    let ghost t_b2 = Seq::new((nn + 1) as nat, |i: int| (rbv * sv[i]) % q());
    proof {
        assert(vals_fr(rb_s@) =~= t_b2);
    }
    let mut b_vec = fr_zero_vec(total);
    add_at(&mut b_vec, 0, &rs_rb, false);
    let ghost bs1 = b_vec@;
    scatter(&mut b_vec, 1, n, n + 1, false, true, &rb_s);
    let ghost bs2 = b_vec@;
    add_at(&mut b_vec, n + 1 - idx, &rb_sidx, false);
    let ghost bs3 = b_vec@;
    add_at(&mut b_vec, idx, r_s, false);
    let ghost bs4 = b_vec@;
    scatter(&mut b_vec, 1, n, n + 1 + idx, false, true, &s_pows);
    proof {
        assert forall|k: int| 0 <= k < total implies fr_val(#[trigger] b_vec@[k]) == b_at(
            k,
            nn,
            idx_i,
            sv,
            rsv,
            rbv,
        ) % qi() by {
            reveal(b_at);
            let t1 = place_at(k, 0, (rsv * rbv) % q());
            let t2 = scatter_at(k, 1, nn, nn + 1, false, t_b2);
            let t3 = place_at(k, nn + 1 - idx_i, (rbv * sv[idx_i]) % q());
            let t4 = place_at(k, idx_i, rsv);
            let t5 = scatter_at(k, 1, nn, nn + 1 + idx_i, false, sv);
            assert(fr_val(bs1[k]) == (0 + 1 * t1) % qi());
            assert(fr_val(bs2[k]) == (fr_val(bs1[k]) + (-1) * t2) % qi());
            assert(fr_val(bs3[k]) == (fr_val(bs2[k]) + 1 * t3) % qi());
            assert(fr_val(bs4[k]) == (fr_val(bs3[k]) + 1 * t4) % qi());
            assert(fr_val(b_vec@[k]) == (fr_val(bs4[k]) + (-1) * t5) % qi());
            mod_add_noop_right(0 - t2, t1);
            mod_add_noop_right(t3, t1 - t2);
            mod_add_noop_right(t4, t1 - t2 + t3);
            mod_add_noop_right(0 - t5, t1 - t2 + t3 + t4);
            assert(b_at(k, nn, idx_i, sv, rsv, rbv) == t1 - t2 + t3 + t4 - t5);
        }
    }

    b_vec
}

/// The exactly-one-selector vector.
#[verifier::rlimit(100)]
fn build_o_vec(
    n: usize,
    nreal: usize,
    idx: usize,
    ring: &Vec<Fr>,
    s: &Fr,
    t: &Fr,
    u: &Fr,
    s_pows: &Vec<Fr>,
    t_pows: &Vec<Fr>,
    u_pows: &Vec<Fr>,
    r_s: &Fr,
    r0: &Fr,
    r_b: &Fr,
) -> (r: Vec<Fr>)
    requires
        1 <= nreal <= n,
        1 <= idx <= nreal,
        2 * n + 1 <= usize::MAX,
        ring@.len() > nreal,
        s_pows@.len() == n + 1,
        t_pows@.len() == n + 1,
        u_pows@.len() == n + 1,
        vals_fr(s_pows@) == pows(fr_val(*s), n as int),
        vals_fr(t_pows@) == pows(fr_val(*t), n as int),
        vals_fr(u_pows@) == pows(fr_val(*u), n as int),
    ensures
        r@.len() == 2 * n + 1,
        forall|k: int|
            0 <= k < 2 * n + 1 ==> fr_val(#[trigger] r@[k]) == o_at(
                k,
                n as int,
                nreal as int,
                idx as int,
                fr_val(*r_b),
            ) % qi(),
{
    let total = 2 * n + 1;
    let ghost nn = n as int;
    let ghost nreal_i = nreal as int;
    let ghost idx_i = idx as int;
    let ghost rsv = fr_val(*r_s);
    let ghost rv = fr_val(*r0);
    let ghost rbv = fr_val(*r_b);
    let ghost ringv = vals_fr(ring@);
    let ghost sv = pows(fr_val(*s), nn);
    let ghost tv = pows(fr_val(*t), nn);
    let ghost uv = pows(fr_val(*u), nn);
    let one = fr_one();
    let rb_const = fr_const_vec(r_b, nreal + 1);
    let ones = fr_const_vec(&one, nreal + 1);
    let ghost t_o1 = Seq::new((nreal_i + 1) as nat, |i: int| rbv);
    let ghost t_o2 = Seq::new((nreal_i + 1) as nat, |i: int| 1nat);
    proof {
        assert(vals_fr(rb_const@) =~= t_o1);
        assert(vals_fr(ones@) =~= t_o2);
    }
    let mut o_vec = fr_zero_vec(total);
    scatter(&mut o_vec, 1, nreal, n + 1, false, false, &rb_const);
    let ghost os1 = o_vec@;
    scatter(&mut o_vec, 1, nreal, n + 1 + idx, false, false, &ones);
    proof {
        assert forall|k: int| 0 <= k < total implies fr_val(#[trigger] o_vec@[k]) == o_at(
            k,
            nn,
            nreal_i,
            idx_i,
            rbv,
        ) % qi() by {
            reveal(o_at);
            let t1 = scatter_at(k, 1, nreal_i, nn + 1, false, t_o1);
            let t2 = scatter_at(k, 1, nreal_i, nn + 1 + idx_i, false, t_o2);
            assert(fr_val(os1[k]) == (0 + 1 * t1) % qi());
            assert(fr_val(o_vec@[k]) == (fr_val(os1[k]) + 1 * t2) % qi());
            mod_add_noop_right(t2, t1);
            assert(o_at(k, nn, nreal_i, idx_i, rbv) == t1 + t2);
        }
    }

    o_vec
}

/// The no-high-basis vector.
#[verifier::rlimit(100)]
fn build_d2_vec(
    n: usize,
    nreal: usize,
    idx: usize,
    ring: &Vec<Fr>,
    s: &Fr,
    t: &Fr,
    u: &Fr,
    s_pows: &Vec<Fr>,
    t_pows: &Vec<Fr>,
    u_pows: &Vec<Fr>,
    r_s: &Fr,
    r0: &Fr,
    r_b: &Fr,
) -> (r: Vec<Fr>)
    requires
        1 <= nreal <= n,
        1 <= idx <= nreal,
        2 * n + 1 <= usize::MAX,
        ring@.len() > nreal,
        s_pows@.len() == n + 1,
        t_pows@.len() == n + 1,
        u_pows@.len() == n + 1,
        vals_fr(s_pows@) == pows(fr_val(*s), n as int),
        vals_fr(t_pows@) == pows(fr_val(*t), n as int),
        vals_fr(u_pows@) == pows(fr_val(*u), n as int),
    ensures
        r@.len() == 2 * n + 1,
        forall|k: int|
            0 <= k < 2 * n + 1 ==> fr_val(#[trigger] r@[k]) == d2_at(
                k,
                n as int,
                fr_val(*r0),
                vals_fr(ring@)[idx as int],
            ) % qi(),
{
    let total = 2 * n + 1;
    let ghost nn = n as int;
    let ghost nreal_i = nreal as int;
    let ghost idx_i = idx as int;
    let ghost rsv = fr_val(*r_s);
    let ghost rv = fr_val(*r0);
    let ghost rbv = fr_val(*r_b);
    let ghost ringv = vals_fr(ring@);
    let ghost sv = pows(fr_val(*s), nn);
    let ghost tv = pows(fr_val(*t), nn);
    let ghost uv = pows(fr_val(*u), nn);
    let mut d2_vec = fr_zero_vec(total);
    add_at(&mut d2_vec, n - 1, r0, false);
    let ghost d2s1 = d2_vec@;
    add_at(&mut d2_vec, n, &ring[idx], false);
    proof {
        assert forall|k: int| 0 <= k < total implies fr_val(#[trigger] d2_vec@[k]) == d2_at(
            k,
            nn,
            rv,
            ringv[idx_i],
        ) % qi() by {
            reveal(d2_at);
            let t1 = place_at(k, nn - 1, rv);
            let t2 = place_at(k, nn, ringv[idx_i]);
            assert(fr_val(d2s1[k]) == (0 + 1 * t1) % qi());
            assert(fr_val(d2_vec@[k]) == (fr_val(d2s1[k]) + 1 * t2) % qi());
            mod_add_noop_right(t2, t1);
        }
    }

    d2_vec
}

/// The low-coordinates-vanish vector.
#[verifier::rlimit(100)]
fn build_d1_vec(
    n: usize,
    nreal: usize,
    idx: usize,
    ring: &Vec<Fr>,
    s: &Fr,
    t: &Fr,
    u: &Fr,
    s_pows: &Vec<Fr>,
    t_pows: &Vec<Fr>,
    u_pows: &Vec<Fr>,
    r_s: &Fr,
    r0: &Fr,
    r_b: &Fr,
) -> (r: Vec<Fr>)
    requires
        1 <= nreal <= n,
        1 <= idx <= nreal,
        2 * n + 1 <= usize::MAX,
        ring@.len() > nreal,
        s_pows@.len() == n + 1,
        t_pows@.len() == n + 1,
        u_pows@.len() == n + 1,
        vals_fr(s_pows@) == pows(fr_val(*s), n as int),
        vals_fr(t_pows@) == pows(fr_val(*t), n as int),
        vals_fr(u_pows@) == pows(fr_val(*u), n as int),
    ensures
        r@.len() == 2 * n + 1,
        forall|k: int|
            0 <= k < 2 * n + 1 ==> fr_val(#[trigger] r@[k]) == d1_at(
                k,
                n as int,
                pows(fr_val(*u), n as int),
                fr_val(*r0),
                vals_fr(ring@)[idx as int],
            ) % qi(),
{
    let total = 2 * n + 1;
    let ghost nn = n as int;
    let ghost nreal_i = nreal as int;
    let ghost idx_i = idx as int;
    let ghost rsv = fr_val(*r_s);
    let ghost rv = fr_val(*r0);
    let ghost rbv = fr_val(*r_b);
    let ghost ringv = vals_fr(ring@);
    let ghost sv = pows(fr_val(*s), nn);
    let ghost tv = pows(fr_val(*t), nn);
    let ghost uv = pows(fr_val(*u), nn);
    let r_u = scalar_vector_mult(r0, &u_pows, 0);
    let ring_u = scalar_vector_mult(&ring[idx], &u_pows, 0);
    let ghost t_d1a = Seq::new((nn + 1) as nat, |i: int| (rv * uv[i]) % q());
    let ghost t_d1b = Seq::new((nn + 1) as nat, |i: int| (ringv[idx_i] * uv[i]) % q());
    proof {
        assert(vals_fr(r_u@) =~= t_d1a);
        assert(vals_fr(ring_u@) =~= t_d1b);
    }
    let mut d1_vec = fr_zero_vec(total);
    if 2 <= n {
        scatter(&mut d1_vec, 2, n, n + 1, false, false, &r_u);
        let ghost d1s1 = d1_vec@;
        scatter(&mut d1_vec, 2, n, n + 2, false, false, &ring_u);
        proof {
            assert forall|k: int| 0 <= k < total implies fr_val(#[trigger] d1_vec@[k]) == d1_at(
                k,
                nn,
                uv,
                rv,
                ringv[idx_i],
            ) % qi() by {
                reveal(d1_at);
                let t1 = scatter_at(k, 2, nn, nn + 1, false, t_d1a);
                let t2 = scatter_at(k, 2, nn, nn + 2, false, t_d1b);
                assert(fr_val(d1s1[k]) == (0 + 1 * t1) % qi());
                assert(fr_val(d1_vec@[k]) == (fr_val(d1s1[k]) + 1 * t2) % qi());
                mod_add_noop_right(t2, t1);
            }
        }
    } else {
        proof {
            assert forall|k: int| 0 <= k < total implies fr_val(#[trigger] d1_vec@[k]) == d1_at(
                k,
                nn,
                uv,
                rv,
                ringv[idx_i],
            ) % qi() by {
                reveal(d1_at);
                assert(scatter_at(k, 2, nn, nn + 1, false, t_d1a) == 0);
                assert(scatter_at(k, 2, nn, nn + 2, false, t_d1b) == 0);
                mod_small(0);
            }
        }
    }

    d1_vec
}

/// The inner-product vector.
#[verifier::rlimit(100)]
fn build_phi_vec(
    n: usize,
    nreal: usize,
    idx: usize,
    ring: &Vec<Fr>,
    s: &Fr,
    t: &Fr,
    u: &Fr,
    s_pows: &Vec<Fr>,
    t_pows: &Vec<Fr>,
    u_pows: &Vec<Fr>,
    r_s: &Fr,
    r0: &Fr,
    r_b: &Fr,
) -> (r: Vec<Fr>)
    requires
        1 <= nreal <= n,
        1 <= idx <= nreal,
        2 * n + 1 <= usize::MAX,
        ring@.len() > nreal,
        s_pows@.len() == n + 1,
        t_pows@.len() == n + 1,
        u_pows@.len() == n + 1,
        vals_fr(s_pows@) == pows(fr_val(*s), n as int),
        vals_fr(t_pows@) == pows(fr_val(*t), n as int),
        vals_fr(u_pows@) == pows(fr_val(*u), n as int),
    ensures
        r@.len() == 2 * n + 1,
        forall|k: int|
            0 <= k < 2 * n + 1 ==> fr_val(#[trigger] r@[k]) == phi_at(
                k,
                n as int,
                nreal as int,
                idx as int,
                vals_fr(ring@),
                fr_val(*r0),
                fr_val(*r_b),
            ) % qi(),
{
    let total = 2 * n + 1;
    let ghost nn = n as int;
    let ghost nreal_i = nreal as int;
    let ghost idx_i = idx as int;
    let ghost rsv = fr_val(*r_s);
    let ghost rv = fr_val(*r0);
    let ghost rbv = fr_val(*r_b);
    let ghost ringv = vals_fr(ring@);
    let ghost sv = pows(fr_val(*s), nn);
    let ghost tv = pows(fr_val(*t), nn);
    let ghost uv = pows(fr_val(*u), nn);
    let rb_ring_full = scalar_vector_mult(r_b, &ring, 0);
    let rb_ring = vec_take(&rb_ring_full, nreal + 1);
    let ring_c = vec_take(&ring, nreal + 1);
    let ghost t_p2 = Seq::new((nreal_i + 1) as nat, |i: int| (rbv * ringv[i]) % q());
    let ghost t_p3 = Seq::new((nreal_i + 1) as nat, |i: int| ringv[i]);
    proof {
        assert(vals_fr(rb_ring@) =~= t_p2);
        assert(vals_fr(ring_c@) =~= t_p3);
    }
    let mut phi_vec = fr_zero_vec(total);
    add_at(&mut phi_vec, n, r0, true);
    let ghost ps1 = phi_vec@;
    scatter(&mut phi_vec, 1, nreal, n + 1, false, false, &rb_ring);
    let ghost ps2 = phi_vec@;
    scatter(&mut phi_vec, 1, nreal, n + 1 + idx, false, false, &ring_c);
    proof {
        assert forall|k: int| 0 <= k < total implies fr_val(#[trigger] phi_vec@[k]) == phi_at(
            k,
            nn,
            nreal_i,
            idx_i,
            ringv,
            rv,
            rbv,
        ) % qi() by {
            reveal(phi_at);
            let t1 = place_at(k, nn, rv);
            let t2 = scatter_at(k, 1, nreal_i, nn + 1, false, t_p2);
            let t3 = scatter_at(k, 1, nreal_i, nn + 1 + idx_i, false, t_p3);
            assert(fr_val(ps1[k]) == (0 + (-1) * t1) % qi());
            assert(fr_val(ps2[k]) == (fr_val(ps1[k]) + 1 * t2) % qi());
            assert(fr_val(phi_vec@[k]) == (fr_val(ps2[k]) + 1 * t3) % qi());
            mod_add_noop_right(t2, 0 - t1);
            mod_add_noop_right(t3, 0 - t1 + t2);
            assert(phi_at(k, nn, nreal_i, idx_i, ringv, rv, rbv) == (0 - t1) + t2 + t3);
        }
    }

    phi_vec
}

/// Folding six delta-weighted reduced terms one at a time yields the
/// reduction of the full combination.
#[verifier::rlimit(100)]
proof fn lemma_fold6(
    e1: int,
    e2: int,
    e3: int,
    e4: int,
    e5: int,
    e6: int,
    d1: nat,
    d2: nat,
    d3: nat,
    d4: nat,
    d5: nat,
    d6: nat,
    w1: nat,
    w2: nat,
    w3: nat,
    w4: nat,
    w5: nat,
    w6: nat,
    f1: nat,
    f2: nat,
    f3: nat,
    f4: nat,
    f5: nat,
    f6: nat,
)
    requires
        w1 == (e1 % qi()) as nat,
        w2 == (e2 % qi()) as nat,
        w3 == (e3 % qi()) as nat,
        w4 == (e4 % qi()) as nat,
        w5 == (e5 % qi()) as nat,
        w6 == (e6 % qi()) as nat,
        f1 == ((0 + (d1 * w1) as int) % qi()) as nat,
        f2 == (((f1 as int) + (d2 * w2) as int) % qi()) as nat,
        f3 == (((f2 as int) + (d3 * w3) as int) % qi()) as nat,
        f4 == (((f3 as int) + (d4 * w4) as int) % qi()) as nat,
        f5 == (((f4 as int) + (d5 * w5) as int) % qi()) as nat,
        f6 == (((f5 as int) + (d6 * w6) as int) % qi()) as nat,
    ensures
        f6 as int == (d1 * e1 + d2 * e2 + d3 * e3 + d4 * e4 + d5 * e5 + d6 * e6) % qi(),
{
    assert(((d1 * w1) as int) % qi() == (d1 * e1) % qi()) by {
        mod_mul_noop_right(d1 as int, e1);
    }
    assert(f1 as int == (d1 * e1) % qi());
    assert(f2 as int == (d1 * e1 + d2 * e2) % qi()) by {
        vstd::arithmetic::div_mod::lemma_add_mod_noop(d1 * e1, (d2 * w2) as int, qi());
        mod_mul_noop_right(d2 as int, e2);
        mod_add_noop_right((d2 * w2) as int, d1 * e1);
        vstd::arithmetic::div_mod::lemma_mod_twice((d2 * w2) as int, qi());
        vstd::arithmetic::div_mod::lemma_add_mod_noop(d1 * e1, d2 * e2, qi());
    }
    assert(f3 as int == (d1 * e1 + d2 * e2 + d3 * e3) % qi()) by {
        vstd::arithmetic::div_mod::lemma_add_mod_noop(
            d1 * e1 + d2 * e2,
            (d3 * w3) as int,
            qi(),
        );
        mod_mul_noop_right(d3 as int, e3);
        mod_add_noop_right((d3 * w3) as int, d1 * e1 + d2 * e2);
        vstd::arithmetic::div_mod::lemma_mod_twice((d3 * w3) as int, qi());
        vstd::arithmetic::div_mod::lemma_add_mod_noop(d1 * e1 + d2 * e2, d3 * e3, qi());
    }
    assert(f4 as int == (d1 * e1 + d2 * e2 + d3 * e3 + d4 * e4) % qi()) by {
        vstd::arithmetic::div_mod::lemma_add_mod_noop(
            d1 * e1 + d2 * e2 + d3 * e3,
            (d4 * w4) as int,
            qi(),
        );
        mod_mul_noop_right(d4 as int, e4);
        mod_add_noop_right((d4 * w4) as int, d1 * e1 + d2 * e2 + d3 * e3);
        vstd::arithmetic::div_mod::lemma_mod_twice((d4 * w4) as int, qi());
        vstd::arithmetic::div_mod::lemma_add_mod_noop(
            d1 * e1 + d2 * e2 + d3 * e3,
            d4 * e4,
            qi(),
        );
    }
    assert(f5 as int == (d1 * e1 + d2 * e2 + d3 * e3 + d4 * e4 + d5 * e5) % qi()) by {
        vstd::arithmetic::div_mod::lemma_add_mod_noop(
            d1 * e1 + d2 * e2 + d3 * e3 + d4 * e4,
            (d5 * w5) as int,
            qi(),
        );
        mod_mul_noop_right(d5 as int, e5);
        mod_add_noop_right((d5 * w5) as int, d1 * e1 + d2 * e2 + d3 * e3 + d4 * e4);
        vstd::arithmetic::div_mod::lemma_mod_twice((d5 * w5) as int, qi());
        vstd::arithmetic::div_mod::lemma_add_mod_noop(
            d1 * e1 + d2 * e2 + d3 * e3 + d4 * e4,
            d5 * e5,
            qi(),
        );
    }
    assert(f6 as int == (d1 * e1 + d2 * e2 + d3 * e3 + d4 * e4 + d5 * e5 + d6 * e6) % qi()) by {
        vstd::arithmetic::div_mod::lemma_add_mod_noop(
            d1 * e1 + d2 * e2 + d3 * e3 + d4 * e4 + d5 * e5,
            (d6 * w6) as int,
            qi(),
        );
        mod_mul_noop_right(d6 as int, e6);
        mod_add_noop_right((d6 * w6) as int, d1 * e1 + d2 * e2 + d3 * e3 + d4 * e4 + d5 * e5);
        vstd::arithmetic::div_mod::lemma_mod_twice((d6 * w6) as int, qi());
        vstd::arithmetic::div_mod::lemma_add_mod_noop(
            d1 * e1 + d2 * e2 + d3 * e3 + d4 * e4 + d5 * e5,
            d6 * e6,
            qi(),
        );
    }
}

/// Builds the aggregated exponent vector: the six relation vectors under
/// the six delta challenges.
#[verifier::rlimit(100)]
fn build_pi_exps(
    n: usize,
    nreal: usize,
    idx: usize,
    ring: &Vec<Fr>,
    s: &Fr,
    t: &Fr,
    u: &Fr,
    s_pows: &Vec<Fr>,
    t_pows: &Vec<Fr>,
    u_pows: &Vec<Fr>,
    r_s: &Fr,
    r0: &Fr,
    r_b: &Fr,
    d_eq: &Fr,
    d_b: &Fr,
    d_o: &Fr,
    d_d2: &Fr,
    d_d1: &Fr,
    d_phi: &Fr,
) -> (r: Vec<Fr>)
    requires
        1 <= nreal <= n,
        1 <= idx <= nreal,
        2 * n + 1 <= usize::MAX,
        ring@.len() > nreal,
        s_pows@.len() == n + 1,
        t_pows@.len() == n + 1,
        u_pows@.len() == n + 1,
        vals_fr(s_pows@) == pows(fr_val(*s), n as int),
        vals_fr(t_pows@) == pows(fr_val(*t), n as int),
        vals_fr(u_pows@) == pows(fr_val(*u), n as int),
    ensures
        r@.len() == 2 * n + 1,
        vals_fr(r@) == pi_exps_seq(
            n as int,
            nreal as int,
            idx as int,
            pows(fr_val(*s), n as int),
            pows(fr_val(*t), n as int),
            pows(fr_val(*u), n as int),
            vals_fr(ring@),
            fr_val(*r0),
            fr_val(*r_b),
            fr_val(*r_s),
            fr_val(*d_eq),
            fr_val(*d_b),
            fr_val(*d_o),
            fr_val(*d_d2),
            fr_val(*d_d1),
            fr_val(*d_phi),
        ),
{
    let total = 2 * n + 1;
    let ghost nn = n as int;
    let ghost nreal_i = nreal as int;
    let ghost idx_i = idx as int;
    let ghost rsv = fr_val(*r_s);
    let ghost rv = fr_val(*r0);
    let ghost rbv = fr_val(*r_b);
    let ghost ringv = vals_fr(ring@);
    let ghost sv = pows(fr_val(*s), nn);
    let ghost tv = pows(fr_val(*t), nn);
    let ghost uv = pows(fr_val(*u), nn);
    let eq_vec = build_eq_vec(n, nreal, idx, ring, s, t, u, s_pows, t_pows, u_pows, r_s, r0, r_b);
    let b_vec = build_b_vec(n, nreal, idx, ring, s, t, u, s_pows, t_pows, u_pows, r_s, r0, r_b);
    let o_vec = build_o_vec(n, nreal, idx, ring, s, t, u, s_pows, t_pows, u_pows, r_s, r0, r_b);
    let d2_vec = build_d2_vec(n, nreal, idx, ring, s, t, u, s_pows, t_pows, u_pows, r_s, r0, r_b);
    let d1_vec = build_d1_vec(n, nreal, idx, ring, s, t, u, s_pows, t_pows, u_pows, r_s, r0, r_b);
    let phi_vec = build_phi_vec(
        n,
        nreal,
        idx,
        ring,
        s,
        t,
        u,
        s_pows,
        t_pows,
        u_pows,
        r_s,
        r0,
        r_b,
    );
    // aggregate under the deltas
    let zero_vec = fr_zero_vec(total);
    let a1 = axpy(&zero_vec, d_eq, &eq_vec);
    let a2 = axpy(&a1, d_b, &b_vec);
    let a3 = axpy(&a2, d_o, &o_vec);
    let a4 = axpy(&a3, d_d2, &d2_vec);
    let a5 = axpy(&a4, d_d1, &d1_vec);
    let pi_exps = axpy(&a5, d_phi, &phi_vec);
    let ghost deqv = fr_val(*d_eq);
    let ghost dbv = fr_val(*d_b);
    let ghost dovv = fr_val(*d_o);
    let ghost dd2v = fr_val(*d_d2);
    let ghost dd1v = fr_val(*d_d1);
    let ghost dphiv = fr_val(*d_phi);
    proof {
        assert forall|k: int| 0 <= k < total implies fr_val(#[trigger] pi_exps@[k]) == pi_exps_at(
            k,
            nn,
            nreal_i,
            idx_i,
            sv,
            tv,
            uv,
            ringv,
            rv,
            rbv,
            rsv,
            deqv,
            dbv,
            dovv,
            dd2v,
            dd1v,
            dphiv,
        ) % qi() by {
            let e1 = eq_at(k, nn, idx_i, sv, tv, rsv, rbv);
            let e2 = b_at(k, nn, idx_i, sv, rsv, rbv);
            let e3 = o_at(k, nn, nreal_i, idx_i, rbv);
            let e4 = d2_at(k, nn, rv, ringv[idx_i]);
            let e5 = d1_at(k, nn, uv, rv, ringv[idx_i]);
            let e6 = phi_at(k, nn, nreal_i, idx_i, ringv, rv, rbv);
            lemma_fold6(
                e1,
                e2,
                e3,
                e4,
                e5,
                e6,
                fr_val(*d_eq),
                fr_val(*d_b),
                fr_val(*d_o),
                fr_val(*d_d2),
                fr_val(*d_d1),
                fr_val(*d_phi),
                fr_val(eq_vec@[k]),
                fr_val(b_vec@[k]),
                fr_val(o_vec@[k]),
                fr_val(d2_vec@[k]),
                fr_val(d1_vec@[k]),
                fr_val(phi_vec@[k]),
                fr_val(a1@[k]),
                fr_val(a2@[k]),
                fr_val(a3@[k]),
                fr_val(a4@[k]),
                fr_val(a5@[k]),
                fr_val(pi_exps@[k]),
            );
        }
        assert(vals_fr(pi_exps@) =~= pi_exps_seq(
            nn,
            nreal_i,
            idx_i,
            sv,
            tv,
            uv,
            ringv,
            rv,
            rbv,
            rsv,
            deqv,
            dbv,
            dovv,
            dd2v,
            dd1v,
            dphiv,
        ));
    }

    pi_exps
}

/// Opens the three outsourced polynomials at the batching point: evaluates
/// each, divides out `x - z`, and commits the weighted quotient combination.
#[verifier::rlimit(100)]
fn build_kzg_opening(
    poly_1: &Vec<Fr>,
    poly_2: &Vec<Fr>,
    poly_3: &Vec<Fr>,
    z: &Fr,
    d_h: &Fr,
    d_u: &Fr,
    d_t: &Fr,
    crs_head: &Vec<G1>,
) -> (r: (Vec<Fr>, Vec<Fr>, Vec<Fr>, G1))
    requires
        poly_1@.len() >= 1,
        poly_1@.len() == poly_2@.len(),
        poly_1@.len() == poly_3@.len(),
        poly_1@.len() == crs_head@.len(),
        fr_ok_seq(poly_1@),
        fr_ok_seq(poly_2@),
        fr_ok_seq(poly_3@),
    ensures
        div_rec(vals_fr(r.0@), adjust_at_zero(vals_fr(poly_1@), fr_val(*z)), fr_val(*z)),
        div_rec(vals_fr(r.1@), adjust_at_zero(vals_fr(poly_2@), fr_val(*z)), fr_val(*z)),
        div_rec(vals_fr(r.2@), adjust_at_zero(vals_fr(poly_3@), fr_val(*z)), fr_val(*z)),
        g1_val(r.3) == dot_vals(
            kzg_combo(
                vals_fr(r.0@),
                vals_fr(r.1@),
                vals_fr(r.2@),
                fr_val(*d_h),
                fr_val(*d_u),
                fr_val(*d_t),
                poly_1@.len(),
            ),
            vals_g1(crs_head@),
        ) % qi(),
{
    let len = poly_1.len();
    let ghost zval = fr_val(*z);
    let ghost p1v = vals_fr(poly_1@);
    let ghost p2v = vals_fr(poly_2@);
    let ghost p3v = vals_fr(poly_3@);
    let eval_1 = kzg_evaluate(poly_1, z);
    let eval_2 = kzg_evaluate(poly_2, z);
    let eval_3 = kzg_evaluate(poly_3, z);
    let mut p1_adj = crate::vecs::vec_take(poly_1, len);
    let mut p2_adj = crate::vecs::vec_take(poly_2, len);
    let mut p3_adj = crate::vecs::vec_take(poly_3, len);
    add_at(&mut p1_adj, 0, &eval_1, true);
    add_at(&mut p2_adj, 0, &eval_2, true);
    add_at(&mut p3_adj, 0, &eval_3, true);
    proof {
        assert forall|k: int| 0 <= k < len implies fr_val(#[trigger] p1_adj@[k])
            == adjust_at_zero(p1v, zval)[k] by {
            if k != 0 {
                mod_small(p1v[k]);
            }
        }
        assert(vals_fr(p1_adj@) =~= adjust_at_zero(p1v, zval));
        assert forall|k: int| 0 <= k < len implies fr_val(#[trigger] p2_adj@[k])
            == adjust_at_zero(p2v, zval)[k] by {
            if k != 0 {
                mod_small(p2v[k]);
            }
        }
        assert(vals_fr(p2_adj@) =~= adjust_at_zero(p2v, zval));
        assert forall|k: int| 0 <= k < len implies fr_val(#[trigger] p3_adj@[k])
            == adjust_at_zero(p3v, zval)[k] by {
            if k != 0 {
                mod_small(p3v[k]);
            }
        }
        assert(vals_fr(p3_adj@) =~= adjust_at_zero(p3v, zval));
    }

    let psi_1 = synth_div(&p1_adj, z);
    let psi_2 = synth_div(&p2_adj, z);
    let psi_3 = synth_div(&p3_adj, z);

    let zero_kzg = fr_zero_vec(len);
    let k1 = axpy(&zero_kzg, d_h, &psi_1);
    let k2 = axpy(&k1, d_u, &psi_2);
    let poly_pi_kzg = axpy(&k2, d_t, &psi_3);
    proof {
        assert forall|k: int| 0 <= k < len implies fr_val(#[trigger] poly_pi_kzg@[k])
            == kzg_combo(
            vals_fr(psi_1@),
            vals_fr(psi_2@),
            vals_fr(psi_3@),
            fr_val(*d_h),
            fr_val(*d_u),
            fr_val(*d_t),
            poly_1@.len(),
        )[k] by {
            let u1 = fr_val(psi_1@[k]) as int;
            let u2 = fr_val(psi_2@[k]) as int;
            let u3 = fr_val(psi_3@[k]) as int;
            mod_add_noop_right((fr_val(*d_h) * u1) as int, 0);
            mod_add_noop_right((fr_val(*d_u) * u2) as int, fr_val(*d_h) * u1);
            mod_add_noop_right((fr_val(*d_t) * u3) as int, fr_val(*d_h) * u1 + fr_val(*d_u) * u2);
        }
        assert(vals_fr(poly_pi_kzg@) =~= kzg_combo(
            vals_fr(psi_1@),
            vals_fr(psi_2@),
            vals_fr(psi_3@),
            fr_val(*d_h),
            fr_val(*d_u),
            fr_val(*d_t),
            poly_1@.len(),
        ));
    }
    let pi_kzg = msm_g1(crs_head, &poly_pi_kzg);
    (psi_1, psi_2, psi_3, pi_kzg)
}

/// Produces a membership proof for the commitment's hidden index.  Each
/// output element is the stated multi-exponentiation over the reference
/// string: `pi` carries the six aggregated relation vectors under the delta
/// challenges, the three outsourced commitments carry the shared public
/// polynomials, and `pi_kzg` carries their batched quotient at the
/// transcript's evaluation point.
#[verifier::rlimit(100)]
pub fn set_member_proof_opt(
    message: &Vec<u8>,
    sma_crs: &SmaCRS,
    comm: &SmaComm,
    ring: &Vec<Fr>,
    signer_index: usize,
    rng: &mut Rng,
) -> (r: SmaProof)
    requires
        crs_wf(*sma_crs),
        comm_wf(*comm),
        ring_wf(ring@),
        fr_val(comm.r) < q(),
        fr_val(comm.r_b) < q(),
        1 <= signer_index <= ring@.len() - 1,
        ring@.len() - 1 <= sma_crs.ring_size_max,
    ensures
        r.c_b_g2 == comm.c_b_g2,
        sma_proof_wf(r),
        sma_prover_rel(
            message@,
            *sma_crs,
            *comm,
            vals_fr(ring@),
            signer_index as int,
            fr_val(comm.r),
            fr_val(comm.r_b),
            r,
        ),
{
    let n = sma_crs.ring_size_max;
    let nreal = ring.len() - 1;
    let idx = signer_index;
    let r_s = fr_rand(rng);

    let (mut common, s) = derive_s(message, &comm.c_g1, &comm.c_b_g2);
    let s_pows = powers_of(&s, n);

    // c_s = r_s G1 + s^idx crs_g1s[n + 1 - idx]
    let blind = g1_mul(&sma_crs.g1_generator, &r_s);
    let shifted = g1_mul(&sma_crs.crs_g1s[n + 1 - idx], &s_pows[idx]);
    let c_s_g1 = g1_add(&blind, &shifted);
    proof {
        mod_small(fr_val(r_s));
        mod_add_noop_right(
            fr_val(r_s) as int,
            (pow_mod(fr_val(s), idx as nat) * g1_val(sma_crs.crs_g1s@[n + 1 - idx])) as int,
        );
    }

    let cs_bytes = crate::algebra::g1_serialize(&c_s_g1);
    bytes_extend(&mut common, &cs_bytes);
    let ghost msgv = message@;
    let ghost cgv = g1_val(comm.c_g1);
    let ghost cbv = g2_val(comm.c_b_g2);
    let ghost csv = g1_val(c_s_g1);
    proof {
        assert(common@ =~= crate::sma::vectors::tr_cs(msgv, cgv, cbv, csv));
    }
    let t = crate::algebra::hash_to_field(&common);
    let u = hash_with_len(&common, nreal as u64);
    let t_pows = powers_of(&t, n);
    let u_pows = powers_of(&u, n);

    let d_eq = hash_with_tag(&common, 1);
    let d_b = hash_with_fr(&common, &s);
    let d_o = hash_with_tag(&common, 3);
    let d_d2 = hash_with_tag(&common, 4);
    let d_d1 = hash_with_tag(&common, 5);
    let d_phi = hash_with_tag(&common, 6);

    let ghost nn = n as int;
    let ghost nreal_i = nreal as int;
    let ghost idx_i = idx as int;
    let ghost sval = fr_val(s);
    let ghost tval = fr_val(t);
    let ghost uval = fr_val(u);
    let ghost rsv = fr_val(r_s);
    let ghost rv = fr_val(comm.r);
    let ghost rbv = fr_val(comm.r_b);
    let ghost ringv = vals_fr(ring@);
    let ghost sv = pows(sval, nn);
    let ghost tv = pows(tval, nn);
    let ghost uv = pows(uval, nn);
    let ghost deqv = fr_val(d_eq);
    let ghost dbv = fr_val(d_b);
    let ghost dovv = fr_val(d_o);
    let ghost dd2v = fr_val(d_d2);
    let ghost dd1v = fr_val(d_d1);
    let ghost dphiv = fr_val(d_phi);
    proof {
        assert(vals_fr(s_pows@) =~= sv);
        assert(vals_fr(t_pows@) =~= tv);
        assert(vals_fr(u_pows@) =~= uv);
    }
    let pi_exps = build_pi_exps(
        n,
        nreal,
        idx,
        ring,
        &s,
        &t,
        &u,
        &s_pows,
        &t_pows,
        &u_pows,
        &r_s,
        &comm.r,
        &comm.r_b,
        &d_eq,
        &d_b,
        &d_o,
        &d_d2,
        &d_d1,
        &d_phi,
    );
    let pi = msm_g1(&sma_crs.crs_g1s, &pi_exps);

    // the outsourced polynomials and their commitments
    let (poly_1, poly_2, poly_3) = build_sma_polys(
        ring,
        n,
        nreal,
        &s_pows,
        &t_pows,
        &u_pows,
        &d_eq,
        &d_b,
        &d_o,
        &d_d1,
        &d_phi,
    );
    let ghost p1spec = p1_seq(nn, nreal_i, sval, tval, ringv, deqv, dbv, dovv, dphiv);
    let ghost p2spec = p2_seq(nn, uval, dd1v);
    let ghost p3spec = p3_seq(nn, tval, deqv);
    proof {
        assert(vals_fr(poly_1@) =~= p1spec);
        assert(vals_fr(poly_2@) =~= p2spec);
        assert(vals_fr(poly_3@) =~= p3spec);
    }
    let crs_head = vec_take(&sma_crs.crs_g1s, n + 1);
    let c_h_g1 = msm_g1(&crs_head, &poly_1);
    let c_u_g2 = msm_g2(&sma_crs.crs_g2s, &poly_2);
    let c_t_g2 = msm_g2(&sma_crs.crs_g2s, &poly_3);

    let z = hash_with_g1(&common, &pi);
    let d_h = hash_with_g1(&common, &c_h_g1);
    let d_u = hash_with_g2(&common, &c_u_g2);
    let d_t = hash_with_g2(&common, &c_t_g2);
    let ghost zval = fr_val(z);
    let ghost dhv = fr_val(d_h);
    let ghost duv = fr_val(d_u);
    let ghost dtv = fr_val(d_t);

    let opening = build_kzg_opening(&poly_1, &poly_2, &poly_3, &z, &d_h, &d_u, &d_t, &crs_head);
    let psi_1 = opening.0;
    let psi_2 = opening.1;
    let psi_3 = opening.2;
    let pi_kzg = opening.3;

    proof {
        mod_bound((fr_val(comm.r_b) * g2_val(sma_crs.g2_generator)) as int);
    }
    let result = SmaProof {
        c_b_g2: comm.c_b_g2,
        c_s_g1,
        pi,
        c_h_g1,
        c_u_g2,
        c_t_g2,
        pi_kzg,
    };
    proof {
        assert(vals_g1(crs_head@) =~= vals_g1(sma_crs.crs_g1s@.take(nn + 1)));
        assert(g1_val(result.c_h_g1) == dot_vals(p1spec, vals_g1(sma_crs.crs_g1s@.take(nn + 1)))
            % qi());
        assert(g2_val(result.c_u_g2) == dot_vals(p2spec, vals_g2(sma_crs.crs_g2s@)) % qi());
        assert(g2_val(result.c_t_g2) == dot_vals(p3spec, vals_g2(sma_crs.crs_g2s@)) % qi());
        assert(rsv < q() && g1_val(result.c_s_g1) == ((rsv as int) + pow_mod(sval, idx_i as nat)
            * g1_val(sma_crs.crs_g1s@[nn + 1 - idx_i])) % qi() && g1_val(result.pi) == dot_vals(
            pi_exps_seq(
                nn,
                nreal_i,
                idx_i,
                sv,
                tv,
                uv,
                ringv,
                rv,
                rbv,
                rsv,
                deqv,
                dbv,
                dovv,
                dd2v,
                dd1v,
                dphiv,
            ),
            vals_g1(sma_crs.crs_g1s@),
        ) % qi());
        assert(div_rec(vals_fr(psi_1@), adjust_at_zero(p1spec, zval), zval) && div_rec(
            vals_fr(psi_2@),
            adjust_at_zero(p2spec, zval),
            zval,
        ) && div_rec(vals_fr(psi_3@), adjust_at_zero(p3spec, zval), zval) && g1_val(result.pi_kzg)
            == dot_vals(
            kzg_combo(
                vals_fr(psi_1@),
                vals_fr(psi_2@),
                vals_fr(psi_3@),
                dhv,
                duv,
                dtv,
                (nn + 1) as nat,
            ),
            vals_g1(sma_crs.crs_g1s@.take(nn + 1)),
        ) % qi());
        assert(sval == crate::sma::vectors::s_of(msgv, cgv, cbv));
        assert(csv == g1_val(result.c_s_g1));
        assert(tval == crate::sma::vectors::t_of(msgv, cgv, cbv, csv));
        assert(uval == crate::sma::vectors::u_of(msgv, cgv, cbv, csv, (ringv.len() - 1) as u64));
        assert(deqv == crate::sma::vectors::d_tag_of(msgv, cgv, cbv, csv, 1));
        assert(dbv == crate::sma::vectors::d_b_of(msgv, cgv, cbv, csv));
        assert(dovv == crate::sma::vectors::d_tag_of(msgv, cgv, cbv, csv, 3));
        assert(dd2v == crate::sma::vectors::d_tag_of(msgv, cgv, cbv, csv, 4));
        assert(dd1v == crate::sma::vectors::d_tag_of(msgv, cgv, cbv, csv, 5));
        assert(dphiv == crate::sma::vectors::d_tag_of(msgv, cgv, cbv, csv, 6));
        assert(zval == crate::sma::vectors::z_of(msgv, cgv, cbv, csv, g1_val(result.pi)));
        assert(dhv == crate::sma::vectors::dg1_of(msgv, cgv, cbv, csv, g1_val(result.c_h_g1)));
        assert(duv == crate::sma::vectors::dg2_of(msgv, cgv, cbv, csv, g2_val(result.c_u_g2)));
        assert(dtv == crate::sma::vectors::dg2_of(msgv, cgv, cbv, csv, g2_val(result.c_t_g2)));
        assert(sma_prover_rel(
            message@,
            *sma_crs,
            *comm,
            ringv,
            idx_i,
            rv,
            rbv,
            result,
        ));
    }
    result
}

} // verus!

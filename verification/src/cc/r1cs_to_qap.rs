//! The reduction from a rank-1 constraint system to a quadratic arithmetic
//! program: per-variable evaluations of the `A`/`B`/`C` basis polynomials at
//! a sample point (for key generation), and the quotient polynomial `H` of
//! the satisfied instance (for proving).
use vstd::prelude::*;
use crate::algebra::{coset_fft_vals, coset_ifft_vals, coset_offset, dom_size, domain_coset_fft,
    domain_coset_ifft, domain_ifft, domain_lagrange_coeffs, domain_size, domain_vanishing_at,
    fr_from_u64, fr_inverse, fr_mul, fr_ok_seq, fr_sub, fr_val, ifft_vals, lagrange_at, pow_mod,
    q, vals_fr, Domain, Fr};
use crate::arith::{mod_add_noop_right, mod_bound, mod_small, mod_sub_noop, qi};
use crate::error::Error;
use crate::r1cs::{eval_lc, fr_concat, fr_zero_vec, lc_eval, lc_scatter_add, row_coeff, Constraint,
    R1cs};

verus! {

/// The `A` rows of a constraint list.
pub open spec fn a_rows(cs: Seq<Constraint>) -> Seq<Seq<crate::r1cs::Term>> {
    Seq::new(cs.len(), |i: int| cs[i].a@)
}

/// The `B` rows of a constraint list.
pub open spec fn b_rows(cs: Seq<Constraint>) -> Seq<Seq<crate::r1cs::Term>> {
    Seq::new(cs.len(), |i: int| cs[i].b@)
}

/// The `C` rows of a constraint list.
pub open spec fn c_rows(cs: Seq<Constraint>) -> Seq<Seq<crate::r1cs::Term>> {
    Seq::new(cs.len(), |i: int| cs[i].c@)
}

/// `sum_i u[i] * (coefficient of variable v in row i)`: the value at the
/// sample point of variable `v`'s basis polynomial, before the instance
/// consistency rows.
pub open spec fn con_sum(rows: Seq<Seq<crate::r1cs::Term>>, u: Seq<nat>, v: int) -> int
    decreases rows.len(),
{
    if rows.len() == 0 {
        0
    } else {
        con_sum(rows.drop_last(), u, v) + u[rows.len() - 1] * row_coeff(rows.last(), v)
    }
}

proof fn con_sum_take_push(rows: Seq<Seq<crate::r1cs::Term>>, u: Seq<nat>, v: int, i: int)
    requires
        0 <= i < rows.len(),
    ensures
        con_sum(rows.take(i + 1), u, v) == con_sum(rows.take(i), u, v) + u[i] * row_coeff(
            rows[i],
            v,
        ),
{
    assert(rows.take(i + 1).drop_last() =~= rows.take(i));
    assert(rows.take(i + 1).last() == rows[i]);
}

/// Value at the sample point of variable `v`'s `A` basis polynomial: the
/// constraint rows plus, for instance variables, the consistency row
/// `L_{num_constraints + v}`.
pub open spec fn qap_a_at(r1cs: R1cs, u: Seq<nat>, v: int) -> int {
    (if 0 <= v < r1cs.num_instance {
        u[r1cs.constraints@.len() + v] as int
    } else {
        0
    }) + con_sum(a_rows(r1cs.constraints@), u, v)
}

/// Value at the sample point of variable `v`'s `B` basis polynomial.
pub open spec fn qap_b_at(r1cs: R1cs, u: Seq<nat>, v: int) -> int {
    con_sum(b_rows(r1cs.constraints@), u, v)
}

/// Value at the sample point of variable `v`'s `C` basis polynomial.
pub open spec fn qap_c_at(r1cs: R1cs, u: Seq<nat>, v: int) -> int {
    con_sum(c_rows(r1cs.constraints@), u, v)
}

/// The Lagrange basis values of the domain of size `n` at the sample point.
pub open spec fn u_at(n: nat, tv: nat) -> Seq<nat> {
    Seq::new(n, |i: int| lagrange_at(n, tv, i as nat))
}

/// The per-variable QAP evaluations at a sample point.
pub struct Qap {
    pub a: Vec<Fr>,
    pub b: Vec<Fr>,
    pub c: Vec<Fr>,
    pub zt: Fr,
}

/// The evaluations of the satisfied system's `A` polynomials over the domain
/// of size `n`: one value per constraint, then the instance values as
/// consistency rows, then zeroes.
pub open spec fn a_evals_spec(r1cs: R1cs, instv: Seq<nat>, asg: Seq<nat>, n: nat) -> Seq<nat> {
    Seq::new(
        n,
        |i: int|
            if i < r1cs.constraints@.len() {
                (lc_eval(r1cs.constraints@[i].a@, asg) % qi()) as nat
            } else if i < r1cs.constraints@.len() + r1cs.num_instance {
                instv[i - r1cs.constraints@.len()]
            } else {
                0nat
            },
    )
}

/// The evaluations of the `B` (or `C`) polynomials over the domain: one
/// value per constraint, then zeroes.
pub open spec fn bc_evals_spec(rows: Seq<Seq<crate::r1cs::Term>>, asg: Seq<nat>, n: nat) -> Seq<
    nat,
> {
    Seq::new(
        n,
        |i: int|
            if i < rows.len() {
                (lc_eval(rows[i], asg) % qi()) as nat
            } else {
                0nat
            },
    )
}

/// The quotient polynomial's coefficients, computed over the generator
/// coset: interpolate the three evaluation vectors, evaluate them over the
/// coset, combine pointwise as `(A*B - C) / Z` (the vanishing polynomial is
/// the constant `offset^n - 1` there, inverted as `zcinv`), and interpolate
/// back.
pub open spec fn h_chain(n: nat, aev: Seq<nat>, bev: Seq<nat>, cev: Seq<nat>, zcinv: nat) -> Seq<
    nat,
> {
    let ac = coset_fft_vals(n, ifft_vals(n, aev));
    let bc = coset_fft_vals(n, ifft_vals(n, bev));
    let cc = coset_fft_vals(n, ifft_vals(n, cev));
    coset_ifft_vals(
        n,
        Seq::new(
            n,
            |k: int| ((((ac[k] * bc[k] - cc[k]) % qi()) * zcinv) % qi()) as nat,
        ),
    )
}

/// The reduction.
pub struct R1CStoQAP {
}

impl R1CStoQAP {
    /// Per-variable evaluations of the `A`/`B`/`C` basis polynomials at the
    /// sample point `t`, and the vanishing polynomial's value there.
    pub fn instance_map_with_evaluation(r1cs: &R1cs, domain: &Domain, t: &Fr) -> (r: Qap)
        requires
            r1cs.wf(),
            dom_size(*domain) >= r1cs.constraints@.len() + r1cs.num_instance,
        ensures
            r.a@.len() == r1cs.num_vars(),
            r.b@.len() == r1cs.num_vars(),
            r.c@.len() == r1cs.num_vars(),
            forall|v: int|
                0 <= v < r1cs.num_vars() ==> fr_val(#[trigger] r.a@[v]) == qap_a_at(
                    *r1cs,
                    u_at(dom_size(*domain), fr_val(*t)),
                    v,
                ) % qi(),
            forall|v: int|
                0 <= v < r1cs.num_vars() ==> fr_val(#[trigger] r.b@[v]) == qap_b_at(
                    *r1cs,
                    u_at(dom_size(*domain), fr_val(*t)),
                    v,
                ) % qi(),
            forall|v: int|
                0 <= v < r1cs.num_vars() ==> fr_val(#[trigger] r.c@[v]) == qap_c_at(
                    *r1cs,
                    u_at(dom_size(*domain), fr_val(*t)),
                    v,
                ) % qi(),
            fr_val(r.zt) == (pow_mod(fr_val(*t), dom_size(*domain)) - 1) % qi(),
            fr_ok_seq(r.a@),
            fr_ok_seq(r.b@),
            fr_ok_seq(r.c@),
    {
        let ghost u_spec = u_at(dom_size(*domain), fr_val(*t));
        let nconstr = r1cs.constraints.len();
        let u = domain_lagrange_coeffs(domain, t);
        let zt = domain_vanishing_at(domain, t);
        proof {
            assert(vals_fr(u@) =~= u_spec);
        }
        let total = r1cs.num_instance + r1cs.num_witness;
        let mut a = fr_zero_vec(total);
        let mut b = fr_zero_vec(total);
        let mut c = fr_zero_vec(total);

        // Instance consistency rows of A.
        let ulen = u.len();
        let mut v: usize = 0;
        while v < r1cs.num_instance
            invariant
                v <= r1cs.num_instance,
                r1cs.constraints@.len() == nconstr,
                nconstr + r1cs.num_instance <= u@.len(),
                u@.len() == ulen,
                vals_fr(u@) == u_spec,
                a@.len() == total,
                total == r1cs.num_vars(),
                forall|k: int|
                    0 <= k < v ==> fr_val(#[trigger] a@[k]) == u_spec[nconstr + k] as int,
                forall|k: int| v <= k < total ==> fr_val(#[trigger] a@[k]) == 0,
            decreases r1cs.num_instance - v,
        {
            a.set(v, u[nconstr + v]);
            v = v + 1;
        }
        proof {
            assert forall|k: int| 0 <= k < total implies fr_val(#[trigger] a@[k]) == ((if 0 <= k
                < r1cs.num_instance {
                u_spec[nconstr + k] as int
            } else {
                0
            }) + con_sum(a_rows(r1cs.constraints@).take(0), u_spec, k)) % qi() by {
                assert(a_rows(r1cs.constraints@).take(0) =~= Seq::<Seq<crate::r1cs::Term>>::empty());
                if k < r1cs.num_instance {
                    mod_small(u_spec[nconstr + k]);
                } else {
                    mod_small(0);
                }
            }
            assert forall|k: int| 0 <= k < total implies fr_val(#[trigger] b@[k]) == con_sum(
                b_rows(r1cs.constraints@).take(0),
                u_spec,
                k,
            ) % qi() by {
                assert(b_rows(r1cs.constraints@).take(0) =~= Seq::<Seq<crate::r1cs::Term>>::empty());
                mod_small(0);
            }
            assert forall|k: int| 0 <= k < total implies fr_val(#[trigger] c@[k]) == con_sum(
                c_rows(r1cs.constraints@).take(0),
                u_spec,
                k,
            ) % qi() by {
                assert(c_rows(r1cs.constraints@).take(0) =~= Seq::<Seq<crate::r1cs::Term>>::empty());
                mod_small(0);
            }
        }

        let mut i: usize = 0;
        while i < nconstr
            invariant
                i <= nconstr,
                r1cs.wf(),
                r1cs.constraints@.len() == nconstr,
                nconstr + r1cs.num_instance <= u@.len(),
                vals_fr(u@) == u_spec,
                a@.len() == total,
                b@.len() == total,
                c@.len() == total,
                total == r1cs.num_vars(),
                forall|k: int|
                    0 <= k < total ==> fr_val(#[trigger] a@[k]) == ((if 0 <= k
                        < r1cs.num_instance {
                        u_spec[nconstr + k] as int
                    } else {
                        0
                    }) + con_sum(a_rows(r1cs.constraints@).take(i as int), u_spec, k)) % qi(),
                forall|k: int|
                    0 <= k < total ==> fr_val(#[trigger] b@[k]) == con_sum(
                        b_rows(r1cs.constraints@).take(i as int),
                        u_spec,
                        k,
                    ) % qi(),
                forall|k: int|
                    0 <= k < total ==> fr_val(#[trigger] c@[k]) == con_sum(
                        c_rows(r1cs.constraints@).take(i as int),
                        u_spec,
                        k,
                    ) % qi(),
            decreases nconstr - i,
        {
            let ghost a_pre = a@;
            let ghost b_pre = b@;
            let ghost c_pre = c@;
            proof {
                assert forall|k: int| 0 <= k < total implies fr_val(#[trigger] a@[k]) < q() by {
                    mod_bound(
                        (if 0 <= k < r1cs.num_instance {
                            u_spec[nconstr + k] as int
                        } else {
                            0
                        }) + con_sum(a_rows(r1cs.constraints@).take(i as int), u_spec, k),
                    );
                }
                assert forall|k: int| 0 <= k < total implies fr_val(#[trigger] b@[k]) < q() by {
                    mod_bound(con_sum(b_rows(r1cs.constraints@).take(i as int), u_spec, k));
                }
                assert forall|k: int| 0 <= k < total implies fr_val(#[trigger] c@[k]) < q() by {
                    mod_bound(con_sum(c_rows(r1cs.constraints@).take(i as int), u_spec, k));
                }
            }
            let con = &r1cs.constraints[i];
            lc_scatter_add(&mut a, &con.a, &u[i]);
            lc_scatter_add(&mut b, &con.b, &u[i]);
            lc_scatter_add(&mut c, &con.c, &u[i]);
            proof {
                let ii = i as int;
                assert forall|k: int| 0 <= k < total implies fr_val(#[trigger] a@[k]) == ((if 0
                    <= k < r1cs.num_instance {
                    u_spec[nconstr + k] as int
                } else {
                    0
                }) + con_sum(a_rows(r1cs.constraints@).take(ii + 1), u_spec, k)) % qi() by {
                    con_sum_take_push(a_rows(r1cs.constraints@), u_spec, k, ii);
                    let base = if 0 <= k < r1cs.num_instance {
                        u_spec[nconstr + k] as int
                    } else {
                        0
                    };
                    let pre_sum = base + con_sum(a_rows(r1cs.constraints@).take(ii), u_spec, k);
                    mod_add_noop_right(
                        (u_spec[ii] * row_coeff(r1cs.constraints@[ii].a@, k)) as int,
                        pre_sum,
                    );
                    assert(a_rows(r1cs.constraints@)[ii] == r1cs.constraints@[ii].a@);
                }
                assert forall|k: int| 0 <= k < total implies fr_val(#[trigger] b@[k]) == con_sum(
                    b_rows(r1cs.constraints@).take(ii + 1),
                    u_spec,
                    k,
                ) % qi() by {
                    con_sum_take_push(b_rows(r1cs.constraints@), u_spec, k, ii);
                    let pre_sum = con_sum(b_rows(r1cs.constraints@).take(ii), u_spec, k);
                    mod_add_noop_right(
                        (u_spec[ii] * row_coeff(r1cs.constraints@[ii].b@, k)) as int,
                        pre_sum,
                    );
                    assert(b_rows(r1cs.constraints@)[ii] == r1cs.constraints@[ii].b@);
                }
                assert forall|k: int| 0 <= k < total implies fr_val(#[trigger] c@[k]) == con_sum(
                    c_rows(r1cs.constraints@).take(ii + 1),
                    u_spec,
                    k,
                ) % qi() by {
                    con_sum_take_push(c_rows(r1cs.constraints@), u_spec, k, ii);
                    let pre_sum = con_sum(c_rows(r1cs.constraints@).take(ii), u_spec, k);
                    mod_add_noop_right(
                        (u_spec[ii] * row_coeff(r1cs.constraints@[ii].c@, k)) as int,
                        pre_sum,
                    );
                    assert(c_rows(r1cs.constraints@)[ii] == r1cs.constraints@[ii].c@);
                }
            }
            i = i + 1;
        }
        proof {
            assert(a_rows(r1cs.constraints@).take(nconstr as int) =~= a_rows(r1cs.constraints@));
            assert(b_rows(r1cs.constraints@).take(nconstr as int) =~= b_rows(r1cs.constraints@));
            assert(c_rows(r1cs.constraints@).take(nconstr as int) =~= c_rows(r1cs.constraints@));
            assert forall|k: int| 0 <= k < total implies fr_val(#[trigger] a@[k]) < q() by {
                mod_bound(qap_a_at(*r1cs, u_spec, k));
            }
            assert forall|k: int| 0 <= k < total implies fr_val(#[trigger] b@[k]) < q() by {
                mod_bound(qap_b_at(*r1cs, u_spec, k));
            }
            assert forall|k: int| 0 <= k < total implies fr_val(#[trigger] c@[k]) < q() by {
                mod_bound(qap_c_at(*r1cs, u_spec, k));
            }
        }
        Qap { a, b, c, zt }
    }

    /// The quotient polynomial `H` of a satisfied assignment, with one
    /// coefficient per domain position (the last one vanishing when the
    /// domain is sized correctly).  Fails only if the coset's constant
    /// vanishing value has no inverse, which no correctly sized domain
    /// produces.
    pub fn witness_map(r1cs: &R1cs, instance: &Vec<Fr>, witness: &Vec<Fr>, domain: &Domain) -> (r:
        Result<Vec<Fr>, Error>)
        requires
            r1cs.wf(),
            instance@.len() == r1cs.num_instance,
            witness@.len() == r1cs.num_witness,
            dom_size(*domain) >= r1cs.constraints@.len() + r1cs.num_instance,
            dom_size(*domain) <= usize::MAX,
        ensures
            r is Err <==> (pow_mod(coset_offset(), dom_size(*domain)) - 1) % qi() == 0,
            r is Err ==> r->Err_0 == Error::UnexpectedIdentity,
            r is Ok ==> r->Ok_0@.len() == dom_size(*domain),
            r is Ok ==> exists|zcinv: nat|
                zcinv < q() && ((pow_mod(coset_offset(), dom_size(*domain)) - 1) % qi()) * zcinv
                    % qi() == 1 && vals_fr(r->Ok_0@) == h_chain(
                    dom_size(*domain),
                    a_evals_spec(
                        *r1cs,
                        vals_fr(instance@),
                        vals_fr(instance@ + witness@),
                        dom_size(*domain),
                    ),
                    bc_evals_spec(
                        b_rows(r1cs.constraints@),
                        vals_fr(instance@ + witness@),
                        dom_size(*domain),
                    ),
                    bc_evals_spec(
                        c_rows(r1cs.constraints@),
                        vals_fr(instance@ + witness@),
                        dom_size(*domain),
                    ),
                    zcinv,
                ),
    {
        let n = domain_size(domain);
        let nconstr = r1cs.constraints.len();
        let full = fr_concat(instance, witness);
        let ghost asg = vals_fr(full@);
        let ghost aev_spec = a_evals_spec(*r1cs, vals_fr(instance@), asg, n as nat);
        let ghost bev_spec = bc_evals_spec(b_rows(r1cs.constraints@), asg, n as nat);
        let ghost cev_spec = bc_evals_spec(c_rows(r1cs.constraints@), asg, n as nat);

        let mut a_ev = fr_zero_vec(n);
        let mut b_ev = fr_zero_vec(n);
        let mut c_ev = fr_zero_vec(n);
        let mut i: usize = 0;
        while i < nconstr
            invariant
                i <= nconstr,
                r1cs.wf(),
                r1cs.constraints@.len() == nconstr,
                full@.len() == r1cs.num_vars(),
                asg == vals_fr(full@),
                nconstr + r1cs.num_instance <= n,
                a_ev@.len() == n,
                b_ev@.len() == n,
                c_ev@.len() == n,
                forall|k: int|
                    0 <= k < i ==> fr_val(#[trigger] a_ev@[k]) == lc_eval(
                        r1cs.constraints@[k].a@,
                        asg,
                    ) % qi(),
                forall|k: int|
                    0 <= k < i ==> fr_val(#[trigger] b_ev@[k]) == lc_eval(
                        r1cs.constraints@[k].b@,
                        asg,
                    ) % qi(),
                forall|k: int|
                    0 <= k < i ==> fr_val(#[trigger] c_ev@[k]) == lc_eval(
                        r1cs.constraints@[k].c@,
                        asg,
                    ) % qi(),
                forall|k: int| i <= k < n ==> fr_val(#[trigger] a_ev@[k]) == 0,
                forall|k: int| i <= k < n ==> fr_val(#[trigger] b_ev@[k]) == 0,
                forall|k: int| i <= k < n ==> fr_val(#[trigger] c_ev@[k]) == 0,
            decreases nconstr - i,
        {
            let con = &r1cs.constraints[i];
            let va = eval_lc(&con.a, &full);
            let vb = eval_lc(&con.b, &full);
            let vc = eval_lc(&con.c, &full);
            a_ev.set(i, va);
            b_ev.set(i, vb);
            c_ev.set(i, vc);
            i = i + 1;
        }
        let mut j: usize = 0;
        while j < r1cs.num_instance
            invariant
                j <= r1cs.num_instance,
                r1cs.constraints@.len() == nconstr,
                instance@.len() == r1cs.num_instance,
                nconstr + r1cs.num_instance <= n,
                a_ev@.len() == n,
                forall|k: int|
                    0 <= k < nconstr ==> fr_val(#[trigger] a_ev@[k]) == lc_eval(
                        r1cs.constraints@[k].a@,
                        asg,
                    ) % qi(),
                forall|k: int|
                    0 <= k < j ==> fr_val(#[trigger] a_ev@[nconstr + k]) == fr_val(instance@[k]),
                forall|k: int| nconstr + j <= k < n ==> fr_val(#[trigger] a_ev@[k]) == 0,
            decreases r1cs.num_instance - j,
        {
            a_ev.set(nconstr + j, instance[j]);
            j = j + 1;
        }
        proof {
            assert forall|k2: int| 0 <= k2 < n implies vals_fr(a_ev@)[k2] == aev_spec[k2] by {
                if k2 < nconstr {
                    mod_bound(lc_eval(r1cs.constraints@[k2].a@, asg));
                } else if k2 < nconstr + r1cs.num_instance {
                    assert(fr_val(a_ev@[nconstr + (k2 - nconstr)]) == fr_val(
                        instance@[k2 - nconstr],
                    ));
                }
            }
            assert forall|k2: int| 0 <= k2 < n implies vals_fr(b_ev@)[k2] == bev_spec[k2] by {
                if k2 < nconstr {
                    mod_bound(lc_eval(r1cs.constraints@[k2].b@, asg));
                }
            }
            assert forall|k2: int| 0 <= k2 < n implies vals_fr(c_ev@)[k2] == cev_spec[k2] by {
                if k2 < nconstr {
                    mod_bound(lc_eval(r1cs.constraints@[k2].c@, asg));
                }
            }
            assert(vals_fr(a_ev@) =~= aev_spec);
            assert(vals_fr(b_ev@) =~= bev_spec);
            assert(vals_fr(c_ev@) =~= cev_spec);
        }

        let a_poly = domain_ifft(domain, &a_ev);
        let b_poly = domain_ifft(domain, &b_ev);
        let c_poly = domain_ifft(domain, &c_ev);
        let a_cos = domain_coset_fft(domain, &a_poly);
        let b_cos = domain_coset_fft(domain, &b_poly);
        let c_cos = domain_coset_fft(domain, &c_poly);

        let offset = fr_from_u64(5);
        let zc = domain_vanishing_at(domain, &offset);
        let zcinv_opt = fr_inverse(&zc);
        let zcinv = match zcinv_opt {
            Some(v) => v,
            None => {
                return Err(Error::UnexpectedIdentity);
            },
        };

        let ghost ac = coset_fft_vals(n as nat, ifft_vals(n as nat, aev_spec));
        let ghost bc = coset_fft_vals(n as nat, ifft_vals(n as nat, bev_spec));
        let ghost cc = coset_fft_vals(n as nat, ifft_vals(n as nat, cev_spec));
        let mut scaled: Vec<Fr> = Vec::new();
        let mut k: usize = 0;
        while k < n
            invariant
                k <= n,
                a_cos@.len() == n,
                b_cos@.len() == n,
                c_cos@.len() == n,
                vals_fr(a_cos@) == ac,
                vals_fr(b_cos@) == bc,
                vals_fr(c_cos@) == cc,
                fr_ok_seq(c_cos@),
                scaled@.len() == k,
                forall|e: int|
                    0 <= e < k ==> fr_val(#[trigger] scaled@[e]) == (((ac[e] * bc[e] - cc[e])
                        % qi()) * fr_val(zcinv)) % qi(),
            decreases n - k,
        {
            let ab = fr_mul(&a_cos[k], &b_cos[k]);
            let diff = fr_sub(&ab, &c_cos[k]);
            let sc = fr_mul(&diff, &zcinv);
            proof {
                let e = k as int;
                mod_small(fr_val(c_cos@[e]));
                mod_sub_noop((ac[e] * bc[e]) as int, cc[e] as int);
                vstd::arithmetic::div_mod::lemma_mul_mod_noop_left(
                    (ac[e] * bc[e] - cc[e]) as int,
                    fr_val(zcinv) as int,
                    qi(),
                );
            }
            scaled.push(sc);
            k = k + 1;
        }
        let h = domain_coset_ifft(domain, &scaled);
        proof {
            let nn = n as nat;
            assert(vals_fr(scaled@) =~= Seq::new(
                nn,
                |e: int| ((((ac[e] * bc[e] - cc[e]) % qi()) * fr_val(zcinv)) % qi()) as nat,
            ));
            assert((((pow_mod(coset_offset(), nn) - 1) % qi()) * fr_val(zcinv)) % qi() == 1);
            assert(vals_fr(h@) == h_chain(nn, aev_spec, bev_spec, cev_spec, fr_val(zcinv)));
        }
        Ok(h)
    }
}

} // verus!

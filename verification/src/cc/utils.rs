//! Small built-in circuits and end-to-end helpers for the commit-carrying
//! proof system: set up keys, prove, verify, and report whether every step
//! succeeded and the proof was accepted.
use vstd::prelude::*;
use crate::algebra::{fr_mul, fr_one, fr_rand, fr_val, q, Fr, Rng};
use crate::cc::generator::{cc_keys_rel, generate_random_parameters, sample_ok};
use crate::cc::prover::create_random_proof;
use crate::cc::structures::CcPVKey;
use crate::cc::verify::verify_proof;
use crate::r1cs::{Constraint, R1cs, Term};
use crate::vecs::vec_tail;

verus! {

/// One multiplication constraint `vars.0 * vars.1 = vars.2`, with unit
/// coefficients.
fn mul_constraint(left: usize, right: usize, out: usize) -> (r: Constraint)
    ensures
        r.a@.len() == 1 && r.a@[0].index == left,
        r.b@.len() == 1 && r.b@[0].index == right,
        r.c@.len() == 1 && r.c@[0].index == out,
{
    let one = fr_one();
    let mut a: Vec<Term> = Vec::new();
    a.push(Term { index: left, coeff: one });
    let mut b: Vec<Term> = Vec::new();
    b.push(Term { index: right, coeff: one });
    let mut c: Vec<Term> = Vec::new();
    c.push(Term { index: out, coeff: one });
    Constraint { a, b, c }
}

/// A system with two witnesses `a`, `b`, one public product `c = a * b`,
/// and the same multiplication constraint repeated six times.
pub fn test_circuit_1() -> (r: R1cs)
    ensures
        r.wf(),
        r.num_instance == 2,
        r.num_witness == 2,
        r.constraints@.len() == 6,
{
    let mut constraints: Vec<Constraint> = Vec::new();
    let mut i: usize = 0;
    while i < 6
        invariant
            i <= 6,
            constraints@.len() == i,
            forall|k: int, t: int|
                0 <= k < i && 0 <= t < constraints@[k].a@.len()
                    ==> (#[trigger] constraints@[k].a@[t]).index < 4,
            forall|k: int, t: int|
                0 <= k < i && 0 <= t < constraints@[k].b@.len()
                    ==> (#[trigger] constraints@[k].b@[t]).index < 4,
            forall|k: int, t: int|
                0 <= k < i && 0 <= t < constraints@[k].c@.len()
                    ==> (#[trigger] constraints@[k].c@[t]).index < 4,
        decreases 6 - i,
    {
        constraints.push(mul_constraint(2, 3, 1));
        i = i + 1;
    }
    R1cs { num_instance: 2, num_witness: 2, constraints }
}

/// A system with four witnesses `a`, `b`, `e`, `f` and two public products
/// `c = a * b`, `d = e * f`, each constraint repeated twice.
pub fn test_circuit_2() -> (r: R1cs)
    ensures
        r.wf(),
        r.num_instance == 3,
        r.num_witness == 4,
        r.constraints@.len() == 4,
{
    let mut constraints: Vec<Constraint> = Vec::new();
    constraints.push(mul_constraint(3, 4, 1));
    constraints.push(mul_constraint(3, 4, 1));
    constraints.push(mul_constraint(5, 6, 2));
    constraints.push(mul_constraint(5, 6, 2));
    proof {
        assert forall|k: int, t: int|
            0 <= k < constraints@.len() && 0 <= t < constraints@[k].a@.len() implies (
        #[trigger] constraints@[k].a@[t]).index < 7nat by {
        }
        assert forall|k: int, t: int|
            0 <= k < constraints@.len() && 0 <= t < constraints@[k].b@.len() implies (
        #[trigger] constraints@[k].b@[t]).index < 7nat by {
        }
        assert forall|k: int, t: int|
            0 <= k < constraints@.len() && 0 <= t < constraints@[k].c@.len() implies (
        #[trigger] constraints@[k].c@[t]).index < 7nat by {
        }
    }
    R1cs { num_instance: 3, num_witness: 4, constraints }
}

/// Sets up keys for the system, proves once with the given assignment, and
/// verifies; reports whether every step succeeded and the verifier
/// accepted.
pub fn cc_prove_and_verify(
    r1cs: &R1cs,
    instance: &Vec<Fr>,
    witness: &Vec<Fr>,
    commit_witness_count: usize,
    rng: &mut Rng,
) -> (r: bool)
    requires
        r1cs.wf(),
        commit_witness_count <= r1cs.num_witness,
        r1cs.constraints@.len() + r1cs.num_instance <= usize::MAX,
        instance@.len() == r1cs.num_instance,
        instance@.len() >= 1,
{
    let keys: CcPVKey = match generate_random_parameters(r1cs, commit_witness_count, rng) {
        Ok(k) => k,
        Err(_) => {
            return false;
        },
    };
    proof {
        let (av, bv, dv, ev, gv, tval, dsize, ginv, dinv) = choose|
            av: nat,
            bv: nat,
            dv: nat,
            ev: nat,
            gv: nat,
            tval: nat,
            dsize: nat,
            ginv: nat,
            dinv: nat,
        |
            dsize == crate::algebra::domain_size_for(
                (r1cs.constraints@.len() + r1cs.num_instance) as nat,
            ) && dsize >= r1cs.constraints@.len() + r1cs.num_instance && crate::algebra::is_pow2(
                dsize,
            ) && sample_ok(tval, dsize) && cc_keys_rel(
                *r1cs,
                commit_witness_count as nat,
                av,
                bv,
                dv,
                ev,
                gv,
                tval,
                dsize,
                ginv,
                dinv,
                keys,
            );
        reveal(cc_keys_rel);
        assert(cc_keys_rel(
            *r1cs,
            commit_witness_count as nat,
            av,
            bv,
            dv,
            ev,
            gv,
            tval,
            dsize,
            ginv,
            dinv,
            keys,
        ));
    }
    let proved = match create_random_proof(r1cs, instance, witness, &keys.pk, rng) {
        Ok(t) => t,
        Err(_) => {
            return false;
        },
    };
    let public_inputs = vec_tail(instance);
    verify_proof(&keys.vk, &proved.0, &public_inputs)
}

/// The repeated-multiplication system with no committed witnesses, proved
/// and verified over fresh random assignments, `n_iters` times.
pub fn cc_prove_and_verify_1(n_iters: usize, rng: &mut Rng) -> (r: bool) {
    let r1cs = test_circuit_1();
    let mut ok = true;
    let mut it: usize = 0;
    while it < n_iters
        invariant
            r1cs.wf(),
            r1cs.num_instance == 2,
            r1cs.num_witness == 2,
            r1cs.constraints@.len() == 6,
        decreases n_iters - it,
    {
        let a = fr_rand(rng);
        let b = fr_rand(rng);
        let c = fr_mul(&a, &b);
        let one = fr_one();
        let mut instance: Vec<Fr> = Vec::new();
        instance.push(one);
        instance.push(c);
        let mut witness: Vec<Fr> = Vec::new();
        witness.push(a);
        witness.push(b);
        let this_ok = cc_prove_and_verify(&r1cs, &instance, &witness, 0, rng);
        ok = ok && this_ok;
        it = it + 1;
    }
    ok
}

/// The two-product system with no committed witnesses.
pub fn cc_prove_and_verify_2(n_iters: usize, rng: &mut Rng) -> (r: bool) {
    let r1cs = test_circuit_2();
    let mut ok = true;
    let mut it: usize = 0;
    while it < n_iters
        invariant
            r1cs.wf(),
            r1cs.num_instance == 3,
            r1cs.num_witness == 4,
            r1cs.constraints@.len() == 4,
        decreases n_iters - it,
    {
        let this_ok = prove_and_verify_circuit_2(&r1cs, 0, rng);
        ok = ok && this_ok;
        it = it + 1;
    }
    ok
}

/// The two-product system with the first two witnesses committed.
pub fn cc_prove_and_verify_3(n_iters: usize, rng: &mut Rng) -> (r: bool) {
    let r1cs = test_circuit_2();
    let mut ok = true;
    let mut it: usize = 0;
    while it < n_iters
        invariant
            r1cs.wf(),
            r1cs.num_instance == 3,
            r1cs.num_witness == 4,
            r1cs.constraints@.len() == 4,
        decreases n_iters - it,
    {
        let this_ok = prove_and_verify_circuit_2(&r1cs, 2, rng);
        ok = ok && this_ok;
        it = it + 1;
    }
    ok
}

/// One sampled run of the two-product system.
fn prove_and_verify_circuit_2(r1cs: &R1cs, commit_witness_count: usize, rng: &mut Rng) -> (r:
    bool)
    requires
        r1cs.wf(),
        r1cs.num_instance == 3,
        r1cs.num_witness == 4,
        r1cs.constraints@.len() == 4,
        commit_witness_count <= 4,
{
    let a = fr_rand(rng);
    let b = fr_rand(rng);
    let e = fr_rand(rng);
    let f = fr_rand(rng);
    let c = fr_mul(&a, &b);
    let d = fr_mul(&e, &f);
    let one = fr_one();
    let mut instance: Vec<Fr> = Vec::new();
    instance.push(one);
    instance.push(c);
    instance.push(d);
    let mut witness: Vec<Fr> = Vec::new();
    witness.push(a);
    witness.push(b);
    witness.push(e);
    witness.push(f);
    cc_prove_and_verify(r1cs, &instance, &witness, commit_witness_count, rng)
}

} // verus!

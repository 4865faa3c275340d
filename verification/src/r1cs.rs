//! The rank-1 constraint system the circuit loader hands to the core: a list
//! of `(A, B, C)` linear-combination triples over indexed variables, and the
//! assignment split into instance and witness ranges.  Variable `0` is the
//! constant-one variable; the committed witnesses are the first
//! `commit_witness_count` witness variables.
use vstd::prelude::*;
use crate::algebra::{fr_add, fr_mul, fr_ok_seq, fr_val, q, vals_fr, Fr};
use crate::arith::{mod_add_noop_right, mod_small, qi};

verus! {

/// One term of a linear combination: `coeff * variable`.
pub struct Term {
    pub index: usize,
    pub coeff: Fr,
}

impl Clone for Term {
    fn clone(&self) -> (r: Self)
        ensures
            r == *self,
    {
        Term { index: self.index, coeff: self.coeff }
    }
}

impl Copy for Term {

}

/// One constraint: `A(w) * B(w) = C(w)` for three linear combinations.
pub struct Constraint {
    pub a: Vec<Term>,
    pub b: Vec<Term>,
    pub c: Vec<Term>,
}

/// A rank-1 constraint system over the scalar field.  `num_instance` counts
/// the constant-one variable; witness variables follow the instance
/// variables in assignment order.
pub struct R1cs {
    pub num_instance: usize,
    pub num_witness: usize,
    pub constraints: Vec<Constraint>,
}

impl R1cs {
    /// Total number of variables.
    pub open spec fn num_vars(&self) -> nat {
        self.num_instance as nat + self.num_witness as nat
    }

    /// Every term of every constraint points at an existing variable, and
    /// the instance range holds at least the constant-one variable.
    pub open spec fn wf(&self) -> bool {
        &&& self.num_instance >= 1
        &&& self.num_instance + self.num_witness <= usize::MAX
        &&& forall|i: int, t: int|
            0 <= i < self.constraints@.len() && 0 <= t < self.constraints@[i].a@.len()
                ==> (#[trigger] self.constraints@[i].a@[t]).index < self.num_vars()
        &&& forall|i: int, t: int|
            0 <= i < self.constraints@.len() && 0 <= t < self.constraints@[i].b@.len()
                ==> (#[trigger] self.constraints@[i].b@[t]).index < self.num_vars()
        &&& forall|i: int, t: int|
            0 <= i < self.constraints@.len() && 0 <= t < self.constraints@[i].c@.len()
                ==> (#[trigger] self.constraints@[i].c@[t]).index < self.num_vars()
    }
}

/// Sum of the coefficients a linear combination gives to variable `v`.
pub open spec fn row_coeff(terms: Seq<Term>, v: int) -> int
    decreases terms.len(),
{
    if terms.len() == 0 {
        0
    } else {
        row_coeff(terms.drop_last(), v) + if terms.last().index == v {
            fr_val(terms.last().coeff) as int
        } else {
            0
        }
    }
}

/// Value of a linear combination under an assignment of representatives.
pub open spec fn lc_eval(terms: Seq<Term>, asg: Seq<nat>) -> int
    decreases terms.len(),
{
    if terms.len() == 0 {
        0
    } else {
        lc_eval(terms.drop_last(), asg) + fr_val(terms.last().coeff) * asg[
            terms.last().index as int
        ]
    }
}

proof fn row_coeff_take_push(terms: Seq<Term>, v: int, j: int)
    requires
        0 <= j < terms.len(),
    ensures
        row_coeff(terms.take(j + 1), v) == row_coeff(terms.take(j), v) + if terms[j].index == v {
            fr_val(terms[j].coeff) as int
        } else {
            0
        },
{
    assert(terms.take(j + 1).drop_last() =~= terms.take(j));
    assert(terms.take(j + 1).last() == terms[j]);
}

proof fn lc_eval_take_push(terms: Seq<Term>, asg: Seq<nat>, j: int)
    requires
        0 <= j < terms.len(),
    ensures
        lc_eval(terms.take(j + 1), asg) == lc_eval(terms.take(j), asg) + fr_val(terms[j].coeff)
            * asg[terms[j].index as int],
{
    assert(terms.take(j + 1).drop_last() =~= terms.take(j));
    assert(terms.take(j + 1).last() == terms[j]);
}

/// Adds `factor * lc` into a dense accumulator, one slot per variable: the
/// slot of each variable the combination mentions grows by `factor` times
/// the variable's total coefficient.
pub fn lc_scatter_add(acc: &mut Vec<Fr>, terms: &Vec<Term>, factor: &Fr)
    requires
        forall|t: int| 0 <= t < terms@.len() ==> (#[trigger] terms@[t]).index < old(acc)@.len(),
        fr_ok_seq(old(acc)@),
    ensures
        final(acc)@.len() == old(acc)@.len(),
        forall|v: int|
            0 <= v < old(acc)@.len() ==> fr_val(#[trigger] final(acc)@[v]) == (fr_val(
                old(acc)@[v],
            ) + fr_val(*factor) * row_coeff(terms@, v)) % qi(),
{
    let mut j: usize = 0;
    proof {
        assert forall|v: int| 0 <= v < old(acc)@.len() implies fr_val(#[trigger] acc@[v]) == (
        fr_val(old(acc)@[v]) + fr_val(*factor) * row_coeff(terms@.take(0), v)) % qi() by {
            assert(terms@.take(0) =~= Seq::<Term>::empty());
            assert(row_coeff(terms@.take(0), v) == 0);
            assert(fr_val(old(acc)@[v]) < q());
            mod_small(fr_val(old(acc)@[v]));
        }
    }
    while j < terms.len()
        invariant
            j <= terms@.len(),
            acc@.len() == old(acc)@.len(),
            forall|t: int| 0 <= t < terms@.len() ==> (#[trigger] terms@[t]).index < old(
                acc,
            )@.len(),
            forall|v: int|
                0 <= v < old(acc)@.len() ==> fr_val(#[trigger] acc@[v]) == (fr_val(old(acc)@[v])
                    + fr_val(*factor) * row_coeff(terms@.take(j as int), v)) % qi(),
        decreases terms@.len() - j,
    {
        let term = &terms[j];
        let add_on = fr_mul(factor, &term.coeff);
        let idx = term.index;
        let ghost pre = acc@;
        let updated = fr_add(&acc[idx], &add_on);
        acc.set(idx, updated);
        proof {
            let fv = fr_val(*factor) as int;
            let cv = fr_val(terms@[j as int].coeff) as int;
            assert forall|v: int| 0 <= v < old(acc)@.len() implies fr_val(#[trigger] acc@[v]) == (
            fr_val(old(acc)@[v]) + fr_val(*factor) * row_coeff(terms@.take(j + 1), v)) % qi() by {
                row_coeff_take_push(terms@, v, j as int);
                let before = fr_val(old(acc)@[v]) as int;
                let rc = row_coeff(terms@.take(j as int), v);
                if v == idx {
                    // acc[v] == ((before + fv*rc) % q + (fv*cv) % q) % q
                    vstd::arithmetic::div_mod::lemma_add_mod_noop(
                        before + fv * rc,
                        fv * cv,
                        qi(),
                    );
                    assert(fv * (rc + cv) == fv * rc + fv * cv) by (nonlinear_arith);
                } else {
                    assert(acc@[v] == pre[v]);
                }
            }
        }
        j = j + 1;
    }
    proof {
        assert(terms@.take(terms@.len() as int) =~= terms@);
    }
}

/// A vector of `n` zero scalars.
pub fn fr_zero_vec(n: usize) -> (r: Vec<Fr>)
    ensures
        r@.len() == n,
        forall|v: int| 0 <= v < n ==> fr_val(#[trigger] r@[v]) == 0,
{
    let mut r: Vec<Fr> = Vec::new();
    let mut i: usize = 0;
    while i < n
        invariant
            i <= n,
            r@.len() == i,
            forall|v: int| 0 <= v < i ==> fr_val(#[trigger] r@[v]) == 0,
        decreases n - i,
    {
        r.push(crate::algebra::fr_zero());
        i = i + 1;
    }
    r
}

/// The concatenation of two scalar vectors.
pub fn fr_concat(a: &Vec<Fr>, b: &Vec<Fr>) -> (r: Vec<Fr>)
    ensures
        r@ == a@ + b@,
{
    let mut r: Vec<Fr> = Vec::new();
    let mut i: usize = 0;
    while i < a.len()
        invariant
            i <= a@.len(),
            r@ == a@.take(i as int),
        decreases a@.len() - i,
    {
        r.push(a[i]);
        proof {
            assert(r@ =~= a@.take(i + 1));
        }
        i = i + 1;
    }
    proof {
        assert(r@ =~= a@);
    }
    let mut j: usize = 0;
    while j < b.len()
        invariant
            j <= b@.len(),
            r@ == a@ + b@.take(j as int),
        decreases b@.len() - j,
    {
        r.push(b[j]);
        proof {
            assert(r@ =~= a@ + b@.take(j + 1));
        }
        j = j + 1;
    }
    proof {
        assert(r@ =~= a@ + b@);
    }
    r
}

/// Evaluates a linear combination under the full assignment.
pub fn eval_lc(terms: &Vec<Term>, asg: &Vec<Fr>) -> (r: Fr)
    requires
        forall|t: int| 0 <= t < terms@.len() ==> (#[trigger] terms@[t]).index < asg@.len(),
    ensures
        fr_val(r) == lc_eval(terms@, vals_fr(asg@)) % qi(),
{
    let mut acc = crate::algebra::fr_zero();
    let mut j: usize = 0;
    proof {
        mod_small(0);
        assert(terms@.take(0) =~= Seq::<Term>::empty());
    }
    while j < terms.len()
        invariant
            j <= terms@.len(),
            forall|t: int| 0 <= t < terms@.len() ==> (#[trigger] terms@[t]).index < asg@.len(),
            fr_val(acc) == lc_eval(terms@.take(j as int), vals_fr(asg@)) % qi(),
        decreases terms@.len() - j,
    {
        let term = &terms[j];
        let prod = fr_mul(&term.coeff, &asg[term.index]);
        let next = fr_add(&acc, &prod);
        proof {
            lc_eval_take_push(terms@, vals_fr(asg@), j as int);
            vstd::arithmetic::div_mod::lemma_add_mod_noop(
                lc_eval(terms@.take(j as int), vals_fr(asg@)),
                (fr_val(terms@[j as int].coeff) * vals_fr(asg@)[terms@[j as int].index as int])
                    as int,
                qi(),
            );
        }
        acc = next;
        j = j + 1;
    }
    proof {
        assert(terms@.take(terms@.len() as int) =~= terms@);
    }
    acc
}

} // verus!

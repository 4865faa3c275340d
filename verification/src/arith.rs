//! Modular-arithmetic and inner-product reasoning over the scalar field's
//! order, shared by all argument systems.
use vstd::prelude::*;
use vstd::arithmetic::div_mod::{
    lemma_add_mod_noop, lemma_add_mod_noop_right, lemma_mod_bound, lemma_mul_mod_noop, lemma_mul_mod_noop_right,
    lemma_small_mod, lemma_sub_mod_noop,
};
use crate::algebra::{dot_vals, pow_mod, q};

verus! {

/// The group order as an `int`, for statements that mix signs.
pub open spec fn qi() -> int {
    q() as int
}

/// Adding modulo `q()` ignores prior reductions of either summand.
pub proof fn mod_add_noop(a: int, b: int)
    ensures
        ((a % qi()) + (b % qi())) % qi() == (a + b) % qi(),
{
    lemma_add_mod_noop(a, b, qi());
}

/// Subtracting modulo `q()` ignores prior reductions of either side.
pub proof fn mod_sub_noop(a: int, b: int)
    ensures
        ((a % qi()) - (b % qi())) % qi() == (a - b) % qi(),
{
    lemma_sub_mod_noop(a, b, qi());
}

/// Multiplying modulo `q()` ignores prior reductions of either factor.
pub proof fn mod_mul_noop(a: int, b: int)
    ensures
        ((a % qi()) * (b % qi())) % qi() == (a * b) % qi(),
{
    lemma_mul_mod_noop(a, b, qi());
}

/// Adding a reduced summand modulo `q()` ignores that reduction.
pub proof fn mod_add_noop_right(a: int, b: int)
    ensures
        (a + (b % qi())) % qi() == (a + b) % qi(),
{
    lemma_add_mod_noop_right(a, b, qi());
}

/// Multiplying by a reduced factor modulo `q()` ignores that reduction.
pub proof fn mod_mul_noop_right(a: int, b: int)
    ensures
        (a * (b % qi())) % qi() == (a * b) % qi(),
{
    lemma_mul_mod_noop_right(a, b, qi());
}

/// A residue is already reduced.
pub proof fn mod_small(a: nat)
    requires
        a < q(),
    ensures
        a % q() == a,
{
    lemma_small_mod(a, q());
}

/// A reduction lands in `[0, q())`.
pub proof fn mod_bound(a: int)
    ensures
        0 <= a % qi() < qi(),
{
    lemma_mod_bound(a, qi());
}

/// Taking one more element of both sequences extends their inner product by
/// one product term.
pub proof fn dot_take_push(a: Seq<nat>, b: Seq<nat>, i: int)
    requires
        0 <= i < a.len(),
        i < b.len(),
    ensures
        dot_vals(a.take(i + 1), b.take(i + 1)) == dot_vals(a.take(i), b.take(i)) + a[i] * b[i],
{
    assert(a.take(i + 1).drop_last() =~= a.take(i));
    assert(b.take(i + 1).drop_last() =~= b.take(i));
    assert(a.take(i + 1).last() == a[i]);
    assert(b.take(i + 1).last() == b[i]);
}

/// A whole sequence is the `take` of its own length.
pub proof fn dot_take_all(a: Seq<nat>, b: Seq<nat>)
    ensures
        dot_vals(a.take(a.len() as int), b.take(b.len() as int)) == dot_vals(a, b),
{
    assert(a.take(a.len() as int) =~= a);
    assert(b.take(b.len() as int) =~= b);
}

/// An inner product of sequences of naturals is not negative.
pub proof fn dot_nonneg(a: Seq<nat>, b: Seq<nat>)
    ensures
        dot_vals(a, b) >= 0,
    decreases a.len(),
{
    if a.len() != 0 && b.len() != 0 {
        dot_nonneg(a.drop_last(), b.drop_last());
    }
}

/// A scalar has at most one multiplicative inverse among the residues.
pub proof fn inverse_unique(z: int, a: nat, b: nat)
    requires
        a < q(),
        b < q(),
        (z * a) % qi() == 1,
        (z * b) % qi() == 1,
    ensures
        a == b,
{
    // b == b * ((z a) % q) == (b (z a)) % q == ((z b) a) % q
    //   == (((z b) % q) a) % q == (1 a) % q == a
    lemma_mul_mod_noop_right(b as int, z * a, qi());
    vstd::arithmetic::mul::lemma_mul_is_associative(b as int, z, a as int);
    vstd::arithmetic::mul::lemma_mul_is_commutative(b as int, z);
    vstd::arithmetic::mul::lemma_mul_is_associative(z, b as int, a as int);
    vstd::arithmetic::div_mod::lemma_mul_mod_noop_left(z * b, a as int, qi());
    lemma_small_mod(a, q());
    lemma_small_mod(b, q());
    assert(b as int == (b * ((z * a) % qi())) % qi());
    assert((b * (z * a)) % qi() == ((z * b) * a) % qi());
    assert(((z * b) * a) % qi() == (1 * (a as int)) % qi());
}

/// A power modulo `q()` is reduced.
pub proof fn pow_mod_bound(base: nat, exp: nat)
    ensures
        pow_mod(base, exp) < q(),
{
    if exp == 0 {
        lemma_mod_bound(1int, qi());
    } else {
        lemma_mod_bound((base * pow_mod(base, (exp - 1) as nat)) as int, qi());
    }
}

} // verus!

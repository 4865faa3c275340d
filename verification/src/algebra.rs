//! Trusted interface to the algebra provider: the scalar field `Fr`, the two
//! pairing groups `G1`/`G2`, the pairing target group `Gt`, evaluation
//! domains and transcript hashing.  Each type holds the provider's value in
//! an opaque field; each operation is a thin trusted wrapper around one
//! provider call.
//!
//! The model: the three groups are cyclic of prime order `q()`.  A field
//! element is modelled by its canonical representative `fr_val` in `[0, q)`;
//! a group element of the prime-order subgroup by its discrete logarithm
//! (`g1_val`, `g2_val`, `gt_val`) with respect to the fixed standard
//! generator (for the target group: the pairing of the two generators).
//! `G1` has cofactor one, so `g1_val` is a bijection onto `[0, q)` and the
//! `G1` contracts hold without preconditions.  A `G2` or target-group value
//! outside the prime-order subgroup (which this library never constructs) is
//! mapped injectively to a number `>= q()`, so the contracts that need
//! subgroup membership ask for `< q()`.
use vstd::prelude::*;

verus! {

/// Order of the scalar field (and of all three groups) of the pairing curve
/// this library is instantiated with.
pub open spec fn q() -> nat {
    21888242871839275222246405745257275088548364400416034343698204186575808495617nat
}

/// Largest evaluation-domain size the scalar field supports: the two-adicity
/// of `q() - 1` is 28.
pub open spec fn max_domain_size() -> nat {
    268435456nat
}

/// `base ^ exp` modulo `q()`.
pub open spec fn pow_mod(base: nat, exp: nat) -> nat
    decreases exp,
{
    if exp == 0 {
        1nat % q()
    } else {
        (base * pow_mod(base, (exp - 1) as nat)) % q()
    }
}

/// `n` is a power of two.
pub open spec fn is_pow2(n: nat) -> bool
    decreases n,
{
    if n == 0 {
        false
    } else if n == 1 {
        true
    } else {
        n % 2 == 0 && is_pow2(n / 2)
    }
}

/// A scalar-field element of the algebra provider.
#[verifier::external_body]
pub struct Fr {
    inner: ark_bn254::Fr,
}

/// An element of the first pairing group.
#[verifier::external_body]
pub struct G1 {
    inner: ark_bn254::G1Projective,
}

/// An element of the second pairing group.
#[verifier::external_body]
pub struct G2 {
    inner: ark_bn254::G2Projective,
}

/// An element of the pairing's target group.
#[verifier::external_body]
pub struct Gt {
    inner: ark_ec::pairing::PairingOutput<ark_bn254::Bn254>,
}

/// A radix-2 multiplicative evaluation domain of the scalar field.  Values
/// of this type are only ever the plain subgroup domain (coset offset one):
/// construction goes through `domain_new` alone, and the coset evaluations
/// below build their shifted domain internally.
#[verifier::external_body]
pub struct Domain {
    inner: ark_poly::domain::radix2::Radix2EvaluationDomain<ark_bn254::Fr>,
}

/// A caller-supplied randomness source.
#[verifier::external_body]
pub struct Rng {
    inner: ark_std::rand::rngs::StdRng,
}



impl Clone for Fr {
    /// Relies on the provider's `Copy` for the held value.
    #[verifier::external_body]
    fn clone(&self) -> (r: Self)
        ensures
            fr_val(r) == fr_val(*self),
    {
        Fr { inner: self.inner }
    }
}

impl Copy for Fr {

}

impl Clone for G1 {
    /// Relies on the provider's `Copy` for the held value.
    #[verifier::external_body]
    fn clone(&self) -> (r: Self)
        ensures
            g1_val(r) == g1_val(*self),
    {
        G1 { inner: self.inner }
    }
}

impl Copy for G1 {

}

impl Clone for G2 {
    /// Relies on the provider's `Copy` for the held value.
    #[verifier::external_body]
    fn clone(&self) -> (r: Self)
        ensures
            g2_val(r) == g2_val(*self),
    {
        G2 { inner: self.inner }
    }
}

impl Copy for G2 {

}

impl Clone for Gt {
    /// Relies on the provider's `Copy` for the held value.
    #[verifier::external_body]
    fn clone(&self) -> (r: Self)
        ensures
            gt_val(r) == gt_val(*self),
    {
        Gt { inner: self.inner }
    }
}

impl Copy for Gt {

}

impl Clone for Domain {
    /// Relies on the provider's `Copy` for the held value.
    #[verifier::external_body]
    fn clone(&self) -> (r: Self)
        ensures
            dom_size(r) == dom_size(*self),
    {
        Domain { inner: self.inner }
    }
}

impl Copy for Domain {

}

/// Canonical integer representative of a scalar, in `[0, q())`.
pub uninterp spec fn fr_val(x: Fr) -> nat;

/// Discrete logarithm of a `G1` element with respect to the standard
/// generator; total and `< q()` because the first group has cofactor one.
pub uninterp spec fn g1_val(x: G1) -> nat;

/// Discrete logarithm of a `G2` element of the prime-order subgroup with
/// respect to the standard generator; injectively `>= q()` outside it.
pub uninterp spec fn g2_val(x: G2) -> nat;

/// Discrete logarithm of a target-group element with respect to the pairing
/// of the two standard generators; injectively `>= q()` outside that
/// subgroup.
pub uninterp spec fn gt_val(x: Gt) -> nat;

/// Size of an evaluation domain.
pub uninterp spec fn dom_size(d: Domain) -> nat;

/// The size of the domain that a successful construction for the given
/// request returns: construction is deterministic.
pub uninterp spec fn domain_size_for(num_coeffs: nat) -> nat;

/// Canonical compressed encoding of a scalar.
pub uninterp spec fn ser_fr(v: nat) -> Seq<u8>;

/// Canonical compressed encoding of the `G1` element with the given
/// discrete logarithm.
pub uninterp spec fn ser_g1(v: nat) -> Seq<u8>;

/// Canonical compressed encoding of the `G2` element with the given
/// discrete logarithm (an injective renaming of the element, so this is
/// well defined).
pub uninterp spec fn ser_g2(v: nat) -> Seq<u8>;

/// What the transcript hash returns on a byte string, as a canonical
/// representative in `[0, q())`.
pub uninterp spec fn hash_fr(bytes: Seq<u8>) -> nat;

/// Value of the `i`-th Lagrange basis polynomial of the evaluation domain of
/// the given size, evaluated at `t` (a function of the domain size alone,
/// since the field has one multiplicative subgroup of each size).
pub uninterp spec fn lagrange_at(size: nat, t: nat, i: nat) -> nat;

/// Coefficients interpolating the given evaluations over the domain of the
/// given size.
pub uninterp spec fn ifft_vals(size: nat, evals: Seq<nat>) -> Seq<nat>;

/// Evaluations of the polynomial with the given coefficients over the
/// domain's coset by the field's standard multiplicative generator.
pub uninterp spec fn coset_fft_vals(size: nat, coeffs: Seq<nat>) -> Seq<nat>;

/// Coefficients of the polynomial with the given evaluations over the
/// domain's coset by the field's standard multiplicative generator.
pub uninterp spec fn coset_ifft_vals(size: nat, evals: Seq<nat>) -> Seq<nat>;

/// The coset offset behind `coset_fft_vals` and `coset_ifft_vals`: the
/// standard multiplicative generator of the scalar field.
pub open spec fn coset_offset() -> nat {
    5nat
}

/// The canonical representatives of a sequence of scalars.
pub open spec fn vals_fr(s: Seq<Fr>) -> Seq<nat> {
    Seq::new(s.len(), |i: int| fr_val(s[i]))
}

/// The discrete logarithms of a sequence of `G1` elements.
pub open spec fn vals_g1(s: Seq<G1>) -> Seq<nat> {
    Seq::new(s.len(), |i: int| g1_val(s[i]))
}

/// The discrete logarithms of a sequence of `G2` elements.
pub open spec fn vals_g2(s: Seq<G2>) -> Seq<nat> {
    Seq::new(s.len(), |i: int| g2_val(s[i]))
}

/// Every element of the sequence lies in the prime-order subgroup.
pub open spec fn g2_ok_seq(s: Seq<G2>) -> bool {
    forall|i: int| 0 <= i < s.len() ==> g2_val(s[i]) < q()
}

/// Every scalar of the sequence is known canonical (its representative lies
/// in `[0, q())`).
pub open spec fn fr_ok_seq(s: Seq<Fr>) -> bool {
    forall|i: int| 0 <= i < s.len() ==> fr_val(s[i]) < q()
}

/// Sum of pairwise products of two equally long sequences, over the plain
/// integers.
pub open spec fn dot_vals(a: Seq<nat>, b: Seq<nat>) -> int
    decreases a.len(),
{
    if a.len() == 0 || b.len() == 0 {
        0
    } else {
        dot_vals(a.drop_last(), b.drop_last()) + a.last() * b.last()
    }
}

// ---------------------------------------------------------------------------
// Scalar field
// ---------------------------------------------------------------------------

/// Relies on `ark_ff::Zero::zero`: the additive identity of the field.
#[verifier::external_body]
pub fn fr_zero() -> (r: Fr)
    ensures
        fr_val(r) == 0,
{
    Fr { inner: <ark_bn254::Fr as ark_ff::Zero>::zero() }
}

/// Relies on `ark_ff::One::one`: the multiplicative identity of the field.
#[verifier::external_body]
pub fn fr_one() -> (r: Fr)
    ensures
        fr_val(r) == 1,
{
    Fr { inner: <ark_bn254::Fr as ark_ff::One>::one() }
}

/// Relies on `From<u64>` for `ark_ff::Fp`: embeds an integer (always below
/// the modulus) into the field.
#[verifier::external_body]
pub fn fr_from_u64(x: u64) -> (r: Fr)
    ensures
        fr_val(r) == x as nat,
{
    Fr { inner: <ark_bn254::Fr as core::convert::From<u64>>::from(x) }
}

/// Relies on `core::str::FromStr` for `ark_ff::Fp`: reads a scalar from its
/// decimal writing; `None` where the string is not a canonical decimal
/// scalar.  Offered for the circuit loader; nothing is promised of the
/// value.
#[verifier::external_body]
pub fn fr_from_decimal(s: &str) -> (r: Option<Fr>)
    ensures
        r is Some ==> fr_val(r->Some_0) < q(),
{
    match <ark_bn254::Fr as core::str::FromStr>::from_str(s) {
        Ok(v) => Some(Fr { inner: v }),
        Err(_) => None,
    }
}

/// Relies on `core::ops::Add` for `ark_ff::Fp`: field addition.
#[verifier::external_body]
pub fn fr_add(a: &Fr, b: &Fr) -> (r: Fr)
    ensures
        fr_val(r) == (fr_val(*a) + fr_val(*b)) % q(),
{
    Fr { inner: a.inner + b.inner }
}

/// Relies on `core::ops::Sub` for `ark_ff::Fp`: field subtraction.
#[verifier::external_body]
pub fn fr_sub(a: &Fr, b: &Fr) -> (r: Fr)
    ensures
        fr_val(r) == (fr_val(*a) - fr_val(*b)) % (q() as int),
{
    Fr { inner: a.inner - b.inner }
}

/// Relies on `core::ops::Neg` for `ark_ff::Fp`: field negation.
#[verifier::external_body]
pub fn fr_neg(a: &Fr) -> (r: Fr)
    ensures
        fr_val(r) == (0 - fr_val(*a)) % (q() as int),
{
    Fr { inner: -a.inner }
}

/// Relies on `core::ops::Mul` for `ark_ff::Fp`: field multiplication.
#[verifier::external_body]
pub fn fr_mul(a: &Fr, b: &Fr) -> (r: Fr)
    ensures
        fr_val(r) == (fr_val(*a) * fr_val(*b)) % q(),
{
    Fr { inner: a.inner * b.inner }
}

/// Relies on `ark_ff::Field::inverse`: `Some` of the multiplicative inverse
/// for nonzero inputs, `None` exactly on zero.
#[verifier::external_body]
pub fn fr_inverse(a: &Fr) -> (r: Option<Fr>)
    ensures
        r is Some <==> fr_val(*a) != 0,
        r is Some ==> (fr_val(*a) * fr_val(r->Some_0)) % q() == 1,
        r is Some ==> fr_val(r->Some_0) < q(),
{
    match ark_ff::Field::inverse(&a.inner) {
        Some(v) => Some(Fr { inner: v }),
        None => None,
    }
}

/// Relies on `PartialEq` for `ark_ff::Fp`: equality of canonical
/// representatives.
#[verifier::external_body]
pub fn fr_eq(a: &Fr, b: &Fr) -> (r: bool)
    ensures
        r <==> fr_val(*a) == fr_val(*b),
{
    a.inner == b.inner
}

/// Relies on `ark_ff::UniformRand::rand`: a scalar sampled from the given
/// randomness source; nothing is promised of its value beyond canonicity.
#[verifier::external_body]
pub fn fr_rand(rng: &mut Rng) -> (r: Fr)
    ensures
        fr_val(r) < q(),
{
    Fr { inner: <ark_bn254::Fr as ark_ff::UniformRand>::rand(&mut rng.inner) }
}

/// Relies on `ark_serialize::CanonicalSerialize::serialize_compressed` for
/// `ark_ff::Fp`: the canonical fixed-size encoding (writing to a byte
/// vector cannot fail).
#[verifier::external_body]
pub fn fr_serialize(x: &Fr) -> (r: Vec<u8>)
    ensures
        r@ == ser_fr(fr_val(*x)),
{
    let mut out = Vec::new();
    ark_serialize::CanonicalSerialize::serialize_compressed(&x.inner, &mut out).unwrap();
    out
}

// ---------------------------------------------------------------------------
// First group
// ---------------------------------------------------------------------------

/// Relies on `ark_ff::Zero::zero` for the group: the identity element.
#[verifier::external_body]
pub fn g1_zero() -> (r: G1)
    ensures
        g1_val(r) == 0,
{
    G1 { inner: <ark_bn254::G1Projective as ark_ff::Zero>::zero() }
}

/// Relies on `ark_ec::Group::generator`: the standard generator.
#[verifier::external_body]
pub fn g1_generator() -> (r: G1)
    ensures
        g1_val(r) == 1,
{
    G1 { inner: <ark_bn254::G1Projective as ark_ec::Group>::generator() }
}

/// Relies on `core::ops::Add` for `ark_ec::short_weierstrass::Projective`:
/// the group operation.
#[verifier::external_body]
pub fn g1_add(a: &G1, b: &G1) -> (r: G1)
    ensures
        g1_val(r) == (g1_val(*a) + g1_val(*b)) % q(),
{
    G1 { inner: a.inner + b.inner }
}

/// Relies on `core::ops::Sub` for `ark_ec::short_weierstrass::Projective`:
/// the group operation with the second element inverted.
#[verifier::external_body]
pub fn g1_sub(a: &G1, b: &G1) -> (r: G1)
    ensures
        g1_val(r) == (g1_val(*a) - g1_val(*b)) % (q() as int),
{
    G1 { inner: a.inner - b.inner }
}

/// Relies on `core::ops::Neg` for `ark_ec::short_weierstrass::Projective`:
/// the group inverse.
#[verifier::external_body]
pub fn g1_neg(a: &G1) -> (r: G1)
    ensures
        g1_val(r) == (0 - g1_val(*a)) % (q() as int),
{
    G1 { inner: -a.inner }
}

/// Relies on `core::ops::Mul<Fr>` for
/// `ark_ec::short_weierstrass::Projective`: scalar multiplication.
#[verifier::external_body]
pub fn g1_mul(p: &G1, s: &Fr) -> (r: G1)
    ensures
        g1_val(r) == (fr_val(*s) * g1_val(*p)) % q(),
{
    G1 { inner: p.inner * s.inner }
}

/// Relies on `PartialEq` for `ark_ec::short_weierstrass::Projective`:
/// equality of group elements (projective comparison normalizes).
#[verifier::external_body]
pub fn g1_eq(a: &G1, b: &G1) -> (r: bool)
    ensures
        r <==> g1_val(*a) == g1_val(*b),
{
    a.inner == b.inner
}

/// Relies on `ark_serialize::CanonicalSerialize::serialize_compressed` for
/// `ark_ec::short_weierstrass::Projective`: the canonical affine encoding
/// (writing to a byte vector cannot fail).
#[verifier::external_body]
pub fn g1_serialize(x: &G1) -> (r: Vec<u8>)
    ensures
        r@ == ser_g1(g1_val(*x)),
{
    let mut out = Vec::new();
    ark_serialize::CanonicalSerialize::serialize_compressed(&x.inner, &mut out).unwrap();
    out
}

/// Relies on `ark_ec::VariableBaseMSM::msm` (with
/// `ark_ec::CurveGroup::normalize_batch` to prepare the bases): the
/// multi-scalar multiplication `sum scalars[i] * bases[i]`; with equally
/// long inputs the call cannot fail.
#[verifier::external_body]
pub fn msm_g1(bases: &Vec<G1>, scalars: &Vec<Fr>) -> (r: G1)
    requires
        bases@.len() == scalars@.len(),
    ensures
        g1_val(r) == dot_vals(vals_fr(scalars@), vals_g1(bases@)) % (q() as int),
{
    let pts: Vec<ark_bn254::G1Projective> = bases.iter().map(|b| b.inner).collect();
    let affine = ark_ec::CurveGroup::normalize_batch(pts.as_slice());
    let sc: Vec<ark_bn254::Fr> = scalars.iter().map(|s| s.inner).collect();
    match <ark_bn254::G1Projective as ark_ec::VariableBaseMSM>::msm(&affine, sc.as_slice()) {
        Ok(r) => G1 { inner: r },
        Err(_) => G1 { inner: <ark_bn254::G1Projective as ark_ff::Zero>::zero() },
    }
}

// ---------------------------------------------------------------------------
// Second group
// ---------------------------------------------------------------------------

/// Relies on `ark_ff::Zero::zero` for the group: the identity element.
#[verifier::external_body]
pub fn g2_zero() -> (r: G2)
    ensures
        g2_val(r) == 0,
{
    G2 { inner: <ark_bn254::G2Projective as ark_ff::Zero>::zero() }
}

/// Relies on `ark_ec::Group::generator`: the standard generator.
#[verifier::external_body]
pub fn g2_generator() -> (r: G2)
    ensures
        g2_val(r) == 1,
{
    G2 { inner: <ark_bn254::G2Projective as ark_ec::Group>::generator() }
}

/// Relies on `core::ops::Add` for `ark_ec::short_weierstrass::Projective`:
/// the group operation, within the prime-order subgroup.
#[verifier::external_body]
pub fn g2_add(a: &G2, b: &G2) -> (r: G2)
    requires
        g2_val(*a) < q(),
        g2_val(*b) < q(),
    ensures
        g2_val(r) == (g2_val(*a) + g2_val(*b)) % q(),
{
    G2 { inner: a.inner + b.inner }
}

/// Relies on `core::ops::Sub` for `ark_ec::short_weierstrass::Projective`:
/// the group operation with the second element inverted, within the
/// prime-order subgroup.
#[verifier::external_body]
pub fn g2_sub(a: &G2, b: &G2) -> (r: G2)
    requires
        g2_val(*a) < q(),
        g2_val(*b) < q(),
    ensures
        g2_val(r) == (g2_val(*a) - g2_val(*b)) % (q() as int),
{
    G2 { inner: a.inner - b.inner }
}

/// Relies on `core::ops::Neg` for `ark_ec::short_weierstrass::Projective`:
/// the group inverse, within the prime-order subgroup.
#[verifier::external_body]
pub fn g2_neg(a: &G2) -> (r: G2)
    requires
        g2_val(*a) < q(),
    ensures
        g2_val(r) == (0 - g2_val(*a)) % (q() as int),
{
    G2 { inner: -a.inner }
}

/// Relies on `core::ops::Mul<Fr>` for
/// `ark_ec::short_weierstrass::Projective`: scalar multiplication, within
/// the prime-order subgroup.
#[verifier::external_body]
pub fn g2_mul(p: &G2, s: &Fr) -> (r: G2)
    requires
        g2_val(*p) < q(),
    ensures
        g2_val(r) == (fr_val(*s) * g2_val(*p)) % q(),
{
    G2 { inner: p.inner * s.inner }
}

/// Relies on `PartialEq` for `ark_ec::short_weierstrass::Projective`:
/// equality of group elements (projective comparison normalizes).
#[verifier::external_body]
pub fn g2_eq(a: &G2, b: &G2) -> (r: bool)
    ensures
        r <==> g2_val(*a) == g2_val(*b),
{
    a.inner == b.inner
}

/// Relies on `ark_serialize::CanonicalSerialize::serialize_compressed` for
/// `ark_ec::short_weierstrass::Projective`: the canonical affine encoding
/// (writing to a byte vector cannot fail).
#[verifier::external_body]
pub fn g2_serialize(x: &G2) -> (r: Vec<u8>)
    ensures
        r@ == ser_g2(g2_val(*x)),
{
    let mut out = Vec::new();
    ark_serialize::CanonicalSerialize::serialize_compressed(&x.inner, &mut out).unwrap();
    out
}

/// Relies on `ark_ec::VariableBaseMSM::msm` (with
/// `ark_ec::CurveGroup::normalize_batch` to prepare the bases): the
/// multi-scalar multiplication `sum scalars[i] * bases[i]`; with equally
/// long inputs the call cannot fail.
#[verifier::external_body]
pub fn msm_g2(bases: &Vec<G2>, scalars: &Vec<Fr>) -> (r: G2)
    requires
        bases@.len() == scalars@.len(),
        g2_ok_seq(bases@),
    ensures
        g2_val(r) == dot_vals(vals_fr(scalars@), vals_g2(bases@)) % (q() as int),
{
    let pts: Vec<ark_bn254::G2Projective> = bases.iter().map(|b| b.inner).collect();
    let affine = ark_ec::CurveGroup::normalize_batch(pts.as_slice());
    let sc: Vec<ark_bn254::Fr> = scalars.iter().map(|s| s.inner).collect();
    match <ark_bn254::G2Projective as ark_ec::VariableBaseMSM>::msm(&affine, sc.as_slice()) {
        Ok(r) => G2 { inner: r },
        Err(_) => G2 { inner: <ark_bn254::G2Projective as ark_ff::Zero>::zero() },
    }
}

// ---------------------------------------------------------------------------
// Pairing and target group
// ---------------------------------------------------------------------------

/// Relies on `ark_ec::pairing::Pairing::pairing` for the curve: the bilinear
/// pairing, whose discrete logarithm (base the pairing of the generators) is
/// the product of the arguments' discrete logarithms; it does not panic on
/// points of the prime-order subgroups.
#[verifier::external_body]
pub fn pairing(p: &G1, r2: &G2) -> (r: Gt)
    requires
        g2_val(*r2) < q(),
    ensures
        gt_val(r) == (g1_val(*p) * g2_val(*r2)) % q(),
{
    Gt { inner: <ark_bn254::Bn254 as ark_ec::pairing::Pairing>::pairing(p.inner, r2.inner) }
}

/// Relies on `ark_ff::Zero::zero` for `ark_ec::pairing::PairingOutput`: the
/// identity of the target group.
#[verifier::external_body]
pub fn gt_zero() -> (r: Gt)
    ensures
        gt_val(r) == 0,
{
    Gt {
        inner: <ark_ec::pairing::PairingOutput<ark_bn254::Bn254> as ark_ff::Zero>::zero(),
    }
}

/// Relies on `core::ops::Add` for `ark_ec::pairing::PairingOutput`: the
/// target-group operation, within the pairing's image subgroup.
#[verifier::external_body]
pub fn gt_add(a: &Gt, b: &Gt) -> (r: Gt)
    requires
        gt_val(*a) < q(),
        gt_val(*b) < q(),
    ensures
        gt_val(r) == (gt_val(*a) + gt_val(*b)) % q(),
{
    Gt { inner: a.inner + b.inner }
}

/// Relies on `core::ops::Neg` for `ark_ec::pairing::PairingOutput`: the
/// target-group inverse, within the pairing's image subgroup.
#[verifier::external_body]
pub fn gt_neg(a: &Gt) -> (r: Gt)
    requires
        gt_val(*a) < q(),
    ensures
        gt_val(r) == (0 - gt_val(*a)) % (q() as int),
{
    Gt { inner: -a.inner }
}

/// Relies on `PartialEq` for `ark_ec::pairing::PairingOutput`: equality of
/// target-group elements.
#[verifier::external_body]
pub fn gt_eq(a: &Gt, b: &Gt) -> (r: bool)
    ensures
        r <==> gt_val(*a) == gt_val(*b),
{
    a.inner == b.inner
}

// ---------------------------------------------------------------------------
// Evaluation domain
// ---------------------------------------------------------------------------

/// Relies on `ark_poly::EvaluationDomain::new` for the radix-2 domain:
/// succeeds exactly when the next power of two of the request fits the
/// field's two-adicity, and then returns the smallest sufficient domain,
/// whose size is a power of two.
#[verifier::external_body]
pub fn domain_new(num_coeffs: usize) -> (r: Option<Domain>)
    ensures
        r is Some <==> num_coeffs as nat <= max_domain_size(),
        r is Some ==> dom_size(r->Some_0) >= num_coeffs,
        r is Some ==> 1 <= dom_size(r->Some_0) <= max_domain_size(),
        r is Some ==> is_pow2(dom_size(r->Some_0)),
        r is Some ==> dom_size(r->Some_0) == domain_size_for(num_coeffs as nat),
{
    match <ark_poly::domain::radix2::Radix2EvaluationDomain<
        ark_bn254::Fr,
    > as ark_poly::EvaluationDomain<ark_bn254::Fr>>::new(num_coeffs) {
        Some(d) => Some(Domain { inner: d }),
        None => None,
    }
}

/// Relies on `ark_poly::EvaluationDomain::size`.
#[verifier::external_body]
pub fn domain_size(d: &Domain) -> (r: usize)
    ensures
        r as nat == dom_size(*d),
{
    ark_poly::EvaluationDomain::size(&d.inner)
}

/// Relies on `ark_poly::EvaluationDomain::sample_element_outside_domain`:
/// a random scalar on which the domain's vanishing polynomial does not
/// vanish.
#[verifier::external_body]
pub fn domain_sample_outside(d: &Domain, rng: &mut Rng) -> (r: Fr)
    ensures
        fr_val(r) < q(),
        (pow_mod(fr_val(r), dom_size(*d)) - 1) % (q() as int) != 0,
{
    Fr {
        inner: ark_poly::EvaluationDomain::sample_element_outside_domain(
            &d.inner,
            &mut rng.inner,
        ),
    }
}

/// Relies on `ark_poly::EvaluationDomain::evaluate_vanishing_polynomial`:
/// for this (non-coset) domain it returns `t^size - 1`.
#[verifier::external_body]
pub fn domain_vanishing_at(d: &Domain, t: &Fr) -> (r: Fr)
    ensures
        fr_val(r) == (pow_mod(fr_val(*t), dom_size(*d)) - 1) % (q() as int),
{
    Fr { inner: ark_poly::EvaluationDomain::evaluate_vanishing_polynomial(&d.inner, t.inner) }
}

/// Relies on
/// `ark_poly::EvaluationDomain::evaluate_all_lagrange_coefficients`: the
/// values at `t` of all Lagrange basis polynomials of the domain.
#[verifier::external_body]
pub fn domain_lagrange_coeffs(d: &Domain, t: &Fr) -> (r: Vec<Fr>)
    ensures
        r@.len() == dom_size(*d),
        forall|i: int|
            0 <= i < r@.len() ==> fr_val(r@[i]) == lagrange_at(dom_size(*d), fr_val(*t), i as nat),
        fr_ok_seq(r@),
{
    ark_poly::EvaluationDomain::evaluate_all_lagrange_coefficients(&d.inner, t.inner)
        .into_iter()
        .map(|v| Fr { inner: v })
        .collect()
}

/// Relies on `ark_poly::EvaluationDomain::ifft`: interpolation of a full
/// vector of evaluations over the domain.
#[verifier::external_body]
pub fn domain_ifft(d: &Domain, evals: &Vec<Fr>) -> (r: Vec<Fr>)
    requires
        evals@.len() == dom_size(*d),
    ensures
        r@.len() == dom_size(*d),
        vals_fr(r@) == ifft_vals(dom_size(*d), vals_fr(evals@)),
        fr_ok_seq(r@),
{
    let v: Vec<ark_bn254::Fr> = evals.iter().map(|x| x.inner).collect();
    ark_poly::EvaluationDomain::ifft(&d.inner, v.as_slice())
        .into_iter()
        .map(|v| Fr { inner: v })
        .collect()
}

/// Relies on `ark_poly::EvaluationDomain::get_coset` (with the field's
/// standard multiplicative generator as offset, so the call cannot fail) and
/// `ark_poly::EvaluationDomain::fft`: evaluation of a full coefficient
/// vector over the domain's generator coset.
#[verifier::external_body]
pub fn domain_coset_fft(d: &Domain, coeffs: &Vec<Fr>) -> (r: Vec<Fr>)
    requires
        coeffs@.len() == dom_size(*d),
    ensures
        r@.len() == dom_size(*d),
        vals_fr(r@) == coset_fft_vals(dom_size(*d), vals_fr(coeffs@)),
        fr_ok_seq(r@),
{
    let coset = ark_poly::EvaluationDomain::get_coset(
        &d.inner,
        <ark_bn254::Fr as ark_ff::FftField>::GENERATOR,
    ).unwrap();
    let v: Vec<ark_bn254::Fr> = coeffs.iter().map(|x| x.inner).collect();
    ark_poly::EvaluationDomain::fft(&coset, v.as_slice())
        .into_iter()
        .map(|v| Fr { inner: v })
        .collect()
}

/// Relies on `ark_poly::EvaluationDomain::get_coset` (with the field's
/// standard multiplicative generator as offset, so the call cannot fail) and
/// `ark_poly::EvaluationDomain::ifft`: interpolation of a full vector of
/// evaluations over the domain's generator coset.
#[verifier::external_body]
pub fn domain_coset_ifft(d: &Domain, evals: &Vec<Fr>) -> (r: Vec<Fr>)
    requires
        evals@.len() == dom_size(*d),
    ensures
        r@.len() == dom_size(*d),
        vals_fr(r@) == coset_ifft_vals(dom_size(*d), vals_fr(evals@)),
        fr_ok_seq(r@),
{
    let coset = ark_poly::EvaluationDomain::get_coset(
        &d.inner,
        <ark_bn254::Fr as ark_ff::FftField>::GENERATOR,
    ).unwrap();
    let v: Vec<ark_bn254::Fr> = evals.iter().map(|x| x.inner).collect();
    ark_poly::EvaluationDomain::ifft(&coset, v.as_slice())
        .into_iter()
        .map(|v| Fr { inner: v })
        .collect()
}

// ---------------------------------------------------------------------------
// Transcript hashing, randomness sources, clocks
// ---------------------------------------------------------------------------

/// Relies on `sha2::Sha256` and `ark_ff::PrimeField::from_le_bytes_mod_order`:
/// hashes a transcript to a scalar; a deterministic function of the bytes
/// alone, with a canonical result.
#[verifier::external_body]
pub fn hash_to_field(bytes: &Vec<u8>) -> (r: Fr)
    ensures
        fr_val(r) == hash_fr(bytes@),
        fr_val(r) < q(),
{
    let digest = <sha2::Sha256 as sha2::Digest>::digest(bytes.as_slice());
    Fr { inner: <ark_bn254::Fr as ark_ff::PrimeField>::from_le_bytes_mod_order(&digest) }
}

/// Relies on `ark_std::rand::SeedableRng::seed_from_u64`: a deterministic
/// randomness source for the given seed.
#[verifier::external_body]
pub fn rng_from_seed(seed: u64) -> (r: Rng)
{
    Rng { inner: <ark_std::rand::rngs::StdRng as ark_std::rand::SeedableRng>::seed_from_u64(seed) }
}

/// Relies on `std::time::SystemTime::now`: a wall-clock reading in
/// nanoseconds, for the optional timing reports; nothing is promised of it.
#[verifier::external_body]
pub fn now_nanos() -> (r: u64)
{
    match std::time::SystemTime::now().duration_since(std::time::SystemTime::UNIX_EPOCH) {
        Ok(d) => d.as_nanos() as u64,
        Err(_) => 0,
    }
}

} // verus!

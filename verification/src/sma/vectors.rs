//! The exponent-vector and polynomial constructions of the set-membership
//! argument, and its transcript derivation.  The six exponent vectors and
//! the three outsourced polynomials are built by scattering coefficient runs
//! into dense vectors; each builder's contract gives the per-position closed
//! form, stated through `scatter_at`.
use vstd::prelude::*;
use crate::algebra::{fr_add, fr_mul, fr_ok_seq, fr_sub, fr_val, g1_serialize, g1_val,
    g2_serialize, g2_val, hash_fr, hash_to_field, pow_mod, q, ser_fr, ser_g1, ser_g2, vals_fr,
    Fr, G1, G2};
use crate::arith::{mod_add_noop_right, mod_bound, mod_small, qi};
use crate::vecs::bytes_extend;

verus! {

/// The contribution a scattered run leaves at position `k`: the run places
/// coefficient `cv[i]` at position `base + i` (or `base - i`) for each
/// `i` in `[lo, hi]`.
pub open spec fn scatter_at(
    k: int,
    lo: int,
    hi: int,
    base: int,
    add_i: bool,
    cv: Seq<nat>,
) -> int {
    if add_i {
        if base + lo <= k <= base + hi {
            cv[k - base] as int
        } else {
            0
        }
    } else {
        if base - hi <= k <= base - lo {
            cv[base - k] as int
        } else {
            0
        }
    }
}

/// Adds (or subtracts) the coefficient run `cv[lo..=hi]` into the
/// accumulator at positions `base + i` (or `base - i`).
pub fn scatter(
    acc: &mut Vec<Fr>,
    lo: usize,
    hi: usize,
    base: usize,
    add_i: bool,
    negate: bool,
    cv: &Vec<Fr>,
)
    requires
        lo <= hi,
        hi < cv@.len(),
        add_i ==> base + hi < old(acc)@.len(),
        !add_i ==> base >= hi && base - lo < old(acc)@.len(),
        fr_ok_seq(old(acc)@),
    ensures
        final(acc)@.len() == old(acc)@.len(),
        fr_ok_seq(final(acc)@),
        forall|k: int|
            0 <= k < old(acc)@.len() ==> fr_val(#[trigger] final(acc)@[k]) == (fr_val(
                old(acc)@[k],
            ) + (if negate {
                -1
            } else {
                1
            }) * scatter_at(k, lo as int, hi as int, base as int, add_i, vals_fr(cv@))) % qi(),
{
    let ghost cvv = vals_fr(cv@);
    let ghost sgn: int = if negate { -1int } else { 1int };
    let alen = acc.len();
    let clen = cv.len();
    let mut i: usize = lo;
    proof {
        assert forall|k: int| 0 <= k < old(acc)@.len() implies fr_val(#[trigger] acc@[k]) == (
        fr_val(old(acc)@[k]) + sgn * scatter_at(
            k,
            lo as int,
            lo - 1,
            base as int,
            add_i,
            cvv,
        )) % qi() by {
            mod_small(fr_val(old(acc)@[k]));
        }
    }
    while i <= hi
        invariant
            lo <= i <= hi + 1,
            hi < cv@.len(),
            acc@.len() == alen,
            cv@.len() == clen,
            fr_ok_seq(old(acc)@),
            cvv == vals_fr(cv@),
            sgn == if negate { -1int } else { 1int },
            add_i ==> base + hi < old(acc)@.len(),
            !add_i ==> base >= hi && base - lo < old(acc)@.len(),
            acc@.len() == old(acc)@.len(),
            forall|k: int|
                0 <= k < old(acc)@.len() ==> fr_val(#[trigger] acc@[k]) == (fr_val(old(acc)@[k])
                    + sgn * scatter_at(k, lo as int, i - 1, base as int, add_i, cvv)) % qi(),
        decreases hi + 1 - i,
    {
        let pos = if add_i {
            base + i
        } else {
            base - i
        };
        let ghost pre = acc@;
        let cur = acc[pos];
        let updated = if negate {
            fr_sub(&cur, &cv[i])
        } else {
            fr_add(&cur, &cv[i])
        };
        acc.set(pos, updated);
        proof {
            let p = pos as int;
            assert forall|k: int| 0 <= k < old(acc)@.len() implies fr_val(#[trigger] acc@[k]) == (
            fr_val(old(acc)@[k]) + sgn * scatter_at(
                k,
                lo as int,
                i as int,
                base as int,
                add_i,
                cvv,
            )) % qi() by {
                if k == p {
                    assert(scatter_at(k, lo as int, i - 1, base as int, add_i, cvv) == 0);
                    assert(sgn * 0 == 0);
                    assert(fr_val(pre[k]) == (fr_val(old(acc)@[k]) + sgn * scatter_at(
                        k,
                        lo as int,
                        i - 1,
                        base as int,
                        add_i,
                        cvv,
                    )) % qi());
                    mod_small(fr_val(old(acc)@[k]));
                    assert(fr_val(pre[k]) == fr_val(old(acc)@[k]));
                    assert(scatter_at(k, lo as int, i as int, base as int, add_i, cvv)
                        == cvv[i as int] as int);
                    assert(fr_val(cv@[i as int]) == cvv[i as int]);
                    if negate {
                        assert(fr_val(acc@[k]) == (fr_val(pre[k]) - fr_val(cv@[i as int]))
                            % qi());
                        assert(fr_val(acc@[k]) == (fr_val(old(acc)@[k]) + sgn * (cvv[i as int]
                            as int)) % qi()) by {
                            assert(sgn * (cvv[i as int] as int) == 0 - (cvv[i as int] as int))
                                by (nonlinear_arith)
                                requires
                                    sgn == -1int,
                            ;
                        }
                    } else {
                        assert(fr_val(acc@[k]) == (fr_val(pre[k]) + fr_val(cv@[i as int]))
                            % q());
                        assert(fr_val(acc@[k]) == (fr_val(old(acc)@[k]) + sgn * (cvv[i as int]
                            as int)) % qi()) by {
                            assert(sgn * (cvv[i as int] as int) == cvv[i as int] as int)
                                by (nonlinear_arith)
                                requires
                                    sgn == 1int,
                            ;
                        }
                    }
                } else {
                    assert(acc@[k] == pre[k]);
                    assert(scatter_at(k, lo as int, i as int, base as int, add_i, cvv)
                        == scatter_at(k, lo as int, i - 1, base as int, add_i, cvv));
                }
            }
        }
        i = i + 1;
    }
    proof {
        assert forall|k: int| 0 <= k < old(acc)@.len() implies fr_val(#[trigger] acc@[k])
            < q() by {
            mod_bound(fr_val(old(acc)@[k]) + sgn * scatter_at(
                k,
                lo as int,
                hi as int,
                base as int,
                add_i,
                cvv,
            ));
        }
    }
}

/// The contribution a single placement of `x` at `pos` leaves at `k`.
pub open spec fn place_at(k: int, pos: int, x: nat) -> int {
    if k == pos {
        x as int
    } else {
        0
    }
}

/// Adds (or subtracts) one value at one position.
pub fn add_at(acc: &mut Vec<Fr>, pos: usize, x: &Fr, negate: bool)
    requires
        pos < old(acc)@.len(),
        fr_ok_seq(old(acc)@),
    ensures
        final(acc)@.len() == old(acc)@.len(),
        fr_ok_seq(final(acc)@),
        forall|k: int|
            0 <= k < old(acc)@.len() ==> fr_val(#[trigger] final(acc)@[k]) == (fr_val(
                old(acc)@[k],
            ) + (if negate {
                -1
            } else {
                1
            }) * place_at(k, pos as int, fr_val(*x))) % qi(),
{
    let cur = acc[pos];
    let updated = if negate {
        fr_sub(&cur, x)
    } else {
        fr_add(&cur, x)
    };
    let ghost pre = acc@;
    acc.set(pos, updated);
    proof {
        let ghost sg: int = if negate { -1int } else { 1int };
        assert forall|k: int| 0 <= k < old(acc)@.len() implies fr_val(#[trigger] acc@[k]) == (
        fr_val(old(acc)@[k]) + (if negate {
            -1int
        } else {
            1int
        }) * place_at(k, pos as int, fr_val(*x))) % qi() by {
            if k != pos {
                assert(acc@[k] == pre[k]);
                assert(place_at(k, pos as int, fr_val(*x)) == 0);
                assert(sg * 0 == 0) by (nonlinear_arith);
                mod_small(fr_val(old(acc)@[k]));
            } else {
                assert(place_at(k, pos as int, fr_val(*x)) == fr_val(*x) as int);
                if negate {
                    assert(fr_val(acc@[k]) == (fr_val(pre[k]) - fr_val(*x)) % qi());
                    assert(sg * (fr_val(*x) as int) == 0 - fr_val(*x) as int)
                        by (nonlinear_arith)
                        requires
                            sg == -1int,
                    ;
                } else {
                    assert(fr_val(acc@[k]) == (fr_val(pre[k]) + fr_val(*x)) % q());
                    assert(sg * (fr_val(*x) as int) == fr_val(*x) as int) by (nonlinear_arith)
                        requires
                            sg == 1int,
                    ;
                }
            }
        }
        assert forall|k: int| 0 <= k < old(acc)@.len() implies fr_val(#[trigger] acc@[k])
            < q() by {
            mod_bound(fr_val(old(acc)@[k]) + (if negate {
                -1int
            } else {
                1int
            }) * place_at(k, pos as int, fr_val(*x)));
        }
    }
}

/// The pointwise product of two scalar vectors.
pub fn vec_mul_pointwise(a: &Vec<Fr>, b: &Vec<Fr>) -> (r: Vec<Fr>)
    requires
        a@.len() == b@.len(),
    ensures
        r@.len() == a@.len(),
        forall|i: int|
            0 <= i < a@.len() ==> fr_val(#[trigger] r@[i]) == (fr_val(a@[i]) * fr_val(b@[i]))
                % q(),
{
    let mut r: Vec<Fr> = Vec::new();
    let mut i: usize = 0;
    while i < a.len()
        invariant
            i <= a@.len(),
            a@.len() == b@.len(),
            r@.len() == i,
            forall|k: int|
                0 <= k < i ==> fr_val(#[trigger] r@[k]) == (fr_val(a@[k]) * fr_val(b@[k])) % q(),
        decreases a@.len() - i,
    {
        r.push(fr_mul(&a[i], &b[i]));
        i = i + 1;
    }
    r
}

/// Adds a constant to every entry of a scalar vector.
pub fn vec_add_const(a: &Vec<Fr>, c: &Fr) -> (r: Vec<Fr>)
    ensures
        r@.len() == a@.len(),
        forall|i: int|
            0 <= i < a@.len() ==> fr_val(#[trigger] r@[i]) == (fr_val(a@[i]) + fr_val(*c)) % q(),
{
    let mut r: Vec<Fr> = Vec::new();
    let mut i: usize = 0;
    while i < a.len()
        invariant
            i <= a@.len(),
            r@.len() == i,
            forall|k: int|
                0 <= k < i ==> fr_val(#[trigger] r@[k]) == (fr_val(a@[k]) + fr_val(*c)) % q(),
        decreases a@.len() - i,
    {
        r.push(fr_add(&a[i], c));
        i = i + 1;
    }
    r
}

/// Subtracts a constant from every entry of a scalar vector.
pub fn vec_sub_const(a: &Vec<Fr>, c: &Fr) -> (r: Vec<Fr>)
    ensures
        r@.len() == a@.len(),
        forall|i: int|
            0 <= i < a@.len() ==> fr_val(#[trigger] r@[i]) == (fr_val(a@[i]) - fr_val(*c))
                % qi(),
{
    let mut r: Vec<Fr> = Vec::new();
    let mut i: usize = 0;
    while i < a.len()
        invariant
            i <= a@.len(),
            r@.len() == i,
            forall|k: int|
                0 <= k < i ==> fr_val(#[trigger] r@[k]) == (fr_val(a@[k]) - fr_val(*c)) % qi(),
        decreases a@.len() - i,
    {
        r.push(fr_sub(&a[i], c));
        i = i + 1;
    }
    r
}

/// A vector of the powers `x^0 .. x^n`.
pub fn powers_of(x: &Fr, n: usize) -> (r: Vec<Fr>)
    requires
        n + 1 <= usize::MAX,
    ensures
        r@.len() == n + 1,
        forall|i: int| 0 <= i <= n ==> fr_val(#[trigger] r@[i]) == pow_mod(fr_val(*x), i as nat),
        fr_ok_seq(r@),
{
    let mut r: Vec<Fr> = Vec::new();
    let mut pow = crate::algebra::fr_one();
    let mut i: usize = 0;
    proof {
        mod_small(1);
    }
    while i <= n
        invariant
            i <= n + 1,
            n + 1 <= usize::MAX,
            fr_val(pow) == pow_mod(fr_val(*x), i as nat),
            r@.len() == i,
            forall|k: int|
                0 <= k < i ==> fr_val(#[trigger] r@[k]) == pow_mod(fr_val(*x), k as nat),
        decreases n + 1 - i,
    {
        r.push(pow);
        let next = fr_mul(&pow, x);
        proof {
            crate::arith::pow_mod_bound(fr_val(*x), i as nat);
            crate::arith::pow_mod_bound(fr_val(*x), (i + 1) as nat);
            mod_small(pow_mod(fr_val(*x), i as nat));
            vstd::arithmetic::div_mod::lemma_mul_mod_noop(
                fr_val(pow) as int,
                fr_val(*x) as int,
                qi(),
            );
            vstd::arithmetic::mul::lemma_mul_is_commutative(fr_val(pow) as int, fr_val(*x) as int);
        }
        pow = next;
        i = i + 1;
    }
    proof {
        assert forall|k: int| 0 <= k < r@.len() implies fr_val(#[trigger] r@[k]) < q() by {
            crate::arith::pow_mod_bound(fr_val(*x), k as nat);
        }
    }
    r
}

// ---------------------------------------------------------------------------
// Transcript derivation
// ---------------------------------------------------------------------------

/// The little-endian bytes of a 64-bit length, as the transcript encodes it.
pub open spec fn le8(x: u64) -> Seq<u8> {
    seq![
        x as u8,
        (x >> 8) as u8,
        (x >> 16) as u8,
        (x >> 24) as u8,
        (x >> 32) as u8,
        (x >> 40) as u8,
        (x >> 48) as u8,
        (x >> 56) as u8,
    ]
}

/// A four-byte little-endian domain-separation tag (tags stay below 128).
pub open spec fn tag4(t: u8) -> Seq<u8> {
    seq![t, 0u8, 0u8, 0u8]
}

/// The opening transcript: the message followed by the two commitment
/// elements.
pub open spec fn tr_base(msg: Seq<u8>, cgv: nat, cbv: nat) -> Seq<u8> {
    msg + ser_g1(cgv) + ser_g2(cbv)
}

/// The transcript once the second index commitment is appended.
pub open spec fn tr_cs(msg: Seq<u8>, cgv: nat, cbv: nat, csv: nat) -> Seq<u8> {
    tr_base(msg, cgv, cbv) + ser_g1(csv)
}

/// Starts the transcript and derives the first challenge `s`.
pub fn derive_s(message: &Vec<u8>, c_g1: &G1, c_b_g2: &G2) -> (r: (Vec<u8>, Fr))
    ensures
        r.0@ == tr_base(message@, g1_val(*c_g1), g2_val(*c_b_g2)),
        fr_val(r.1) == hash_fr(tr_base(message@, g1_val(*c_g1), g2_val(*c_b_g2))),
        fr_val(r.1) < q(),
{
    let mut common: Vec<u8> = Vec::new();
    bytes_extend(&mut common, message);
    let cg = g1_serialize(c_g1);
    bytes_extend(&mut common, &cg);
    let cb = g2_serialize(c_b_g2);
    bytes_extend(&mut common, &cb);
    proof {
        assert(common@ =~= tr_base(message@, g1_val(*c_g1), g2_val(*c_b_g2)));
    }
    let s = hash_to_field(&common);
    (common, s)
}

/// Appends one element's encoding to a transcript copy and hashes it.
pub fn hash_with_g1(common: &Vec<u8>, p: &G1) -> (r: Fr)
    ensures
        fr_val(r) == hash_fr(common@ + ser_g1(g1_val(*p))),
        fr_val(r) < q(),
{
    let mut bytes = common.clone();
    let enc = g1_serialize(p);
    bytes_extend(&mut bytes, &enc);
    hash_to_field(&bytes)
}

/// Appends one second-group element's encoding to a transcript copy and
/// hashes it.
pub fn hash_with_g2(common: &Vec<u8>, p: &G2) -> (r: Fr)
    ensures
        fr_val(r) == hash_fr(common@ + ser_g2(g2_val(*p))),
        fr_val(r) < q(),
{
    let mut bytes = common.clone();
    let enc = g2_serialize(p);
    bytes_extend(&mut bytes, &enc);
    hash_to_field(&bytes)
}

/// Appends a scalar's encoding to a transcript copy and hashes it.
pub fn hash_with_fr(common: &Vec<u8>, x: &Fr) -> (r: Fr)
    ensures
        fr_val(r) == hash_fr(common@ + ser_fr(fr_val(*x))),
        fr_val(r) < q(),
{
    let mut bytes = common.clone();
    let enc = crate::algebra::fr_serialize(x);
    bytes_extend(&mut bytes, &enc);
    hash_to_field(&bytes)
}

/// Appends a four-byte tag to a transcript copy and hashes it.
pub fn hash_with_tag(common: &Vec<u8>, t: u8) -> (r: Fr)
    requires
        t < 128,
    ensures
        fr_val(r) == hash_fr(common@ + tag4(t)),
        fr_val(r) < q(),
{
    let mut bytes = common.clone();
    bytes.push(t);
    bytes.push(0);
    bytes.push(0);
    bytes.push(0);
    proof {
        assert(bytes@ =~= common@ + tag4(t));
    }
    hash_to_field(&bytes)
}

/// Appends an eight-byte little-endian length to a transcript copy and
/// hashes it.
pub fn hash_with_len(common: &Vec<u8>, x: u64) -> (r: Fr)
    ensures
        fr_val(r) == hash_fr(common@ + le8(x)),
        fr_val(r) < q(),
{
    let mut bytes = common.clone();
    bytes.push(x as u8);
    bytes.push((x >> 8) as u8);
    bytes.push((x >> 16) as u8);
    bytes.push((x >> 24) as u8);
    bytes.push((x >> 32) as u8);
    bytes.push((x >> 40) as u8);
    bytes.push((x >> 48) as u8);
    bytes.push((x >> 56) as u8);
    proof {
        assert(bytes@ =~= common@ + le8(x));
    }
    hash_to_field(&bytes)
}

// ---------------------------------------------------------------------------
// Challenge values
// ---------------------------------------------------------------------------

/// The challenge `s`.
pub open spec fn s_of(msg: Seq<u8>, cgv: nat, cbv: nat) -> nat {
    hash_fr(tr_base(msg, cgv, cbv))
}

/// The challenge `t`.
pub open spec fn t_of(msg: Seq<u8>, cgv: nat, cbv: nat, csv: nat) -> nat {
    hash_fr(tr_cs(msg, cgv, cbv, csv))
}

/// The challenge `u`, bound to the real ring size.
pub open spec fn u_of(msg: Seq<u8>, cgv: nat, cbv: nat, csv: nat, nreal: u64) -> nat {
    hash_fr(tr_cs(msg, cgv, cbv, csv) + le8(nreal))
}

/// A tag-separated delta challenge.
pub open spec fn d_tag_of(msg: Seq<u8>, cgv: nat, cbv: nat, csv: nat, tag: u8) -> nat {
    hash_fr(tr_cs(msg, cgv, cbv, csv) + tag4(tag))
}

/// The delta challenge bound to `s` itself.
pub open spec fn d_b_of(msg: Seq<u8>, cgv: nat, cbv: nat, csv: nat) -> nat {
    hash_fr(tr_cs(msg, cgv, cbv, csv) + ser_fr(s_of(msg, cgv, cbv)))
}

/// The batching point `z`, bound to the aggregated proof element.
pub open spec fn z_of(msg: Seq<u8>, cgv: nat, cbv: nat, csv: nat, piv: nat) -> nat {
    hash_fr(tr_cs(msg, cgv, cbv, csv) + ser_g1(piv))
}

/// A batching weight bound to a first-group commitment.
pub open spec fn dg1_of(msg: Seq<u8>, cgv: nat, cbv: nat, csv: nat, pv: nat) -> nat {
    hash_fr(tr_cs(msg, cgv, cbv, csv) + ser_g1(pv))
}

/// A batching weight bound to a second-group commitment.
pub open spec fn dg2_of(msg: Seq<u8>, cgv: nat, cbv: nat, csv: nat, pv: nat) -> nat {
    hash_fr(tr_cs(msg, cgv, cbv, csv) + ser_g2(pv))
}

// ---------------------------------------------------------------------------
// The three outsourced polynomials
// ---------------------------------------------------------------------------

/// Coefficients `(d_eq t^i - d_b) s^i` of the first outsourced polynomial.
pub open spec fn cv_poly1a(n: int, sv: Seq<nat>, tv: Seq<nat>, deq: nat, db: nat) -> Seq<nat> {
    Seq::new((n + 1) as nat, |i: int| ((((((deq * tv[i]) % q()) - db) % qi()) * sv[i]) % qi()) as nat)
}

/// Coefficients `d_o + d_phi ring[i]` of the first outsourced polynomial's
/// real-ring part.
pub open spec fn cv_poly1b(nreal: int, ringv: Seq<nat>, dphi: nat, dov: nat) -> Seq<nat> {
    Seq::new((nreal + 1) as nat, |i: int| ((((dphi * ringv[i]) % q()) + dov) % q()))
}

/// Coefficients `d_d1 u^i` of the second outsourced polynomial.
pub open spec fn cv_poly2(n: int, uv: Seq<nat>, dd1: nat) -> Seq<nat> {
    Seq::new((n + 1) as nat, |i: int| (dd1 * uv[i]) % q())
}

/// Coefficients `d_eq t^i` of the third outsourced polynomial.
pub open spec fn cv_poly3(n: int, tv: Seq<nat>, deq: nat) -> Seq<nat> {
    Seq::new((n + 1) as nat, |i: int| (deq * tv[i]) % q())
}

/// Value at position `k` of the first outsourced polynomial.
pub open spec fn poly1_at(
    k: int,
    n: int,
    nreal: int,
    sv: Seq<nat>,
    tv: Seq<nat>,
    ringv: Seq<nat>,
    deq: nat,
    db: nat,
    dov: nat,
    dphi: nat,
) -> int {
    scatter_at(k, 1, n, n + 1, false, cv_poly1a(n, sv, tv, deq, db)) + scatter_at(
        k,
        1,
        nreal,
        n + 1,
        false,
        cv_poly1b(nreal, ringv, dphi, dov),
    )
}

/// Value at position `k` of the second outsourced polynomial.
pub open spec fn poly2_at(k: int, n: int, uv: Seq<nat>, dd1: nat) -> int {
    0 - scatter_at(k, 2, n, n + 1, false, cv_poly2(n, uv, dd1))
}

/// Value at position `k` of the third outsourced polynomial.
pub open spec fn poly3_at(k: int, n: int, tv: Seq<nat>, deq: nat) -> int {
    scatter_at(k, 1, n, 0, true, cv_poly3(n, tv, deq))
}

/// Builds the three outsourced polynomials from public data: the ring, the
/// power tables and the delta challenges.  Both the prover and the verifier
/// derive them through this one function.
pub fn build_sma_polys(
    ring: &Vec<Fr>,
    n: usize,
    nreal: usize,
    s_pows: &Vec<Fr>,
    t_pows: &Vec<Fr>,
    u_pows: &Vec<Fr>,
    d_eq: &Fr,
    d_b: &Fr,
    d_o: &Fr,
    d_d1: &Fr,
    d_phi: &Fr,
) -> (r: (Vec<Fr>, Vec<Fr>, Vec<Fr>))
    requires
        1 <= nreal <= n,
        n + 2 <= usize::MAX,
        s_pows@.len() == n + 1,
        t_pows@.len() == n + 1,
        u_pows@.len() == n + 1,
        ring@.len() > nreal,
    ensures
        r.0@.len() == n + 1,
        r.1@.len() == n + 1,
        r.2@.len() == n + 1,
        fr_ok_seq(r.0@),
        fr_ok_seq(r.1@),
        fr_ok_seq(r.2@),
        forall|k: int|
            0 <= k <= n ==> fr_val(#[trigger] r.0@[k]) == poly1_at(
                k,
                n as int,
                nreal as int,
                vals_fr(s_pows@),
                vals_fr(t_pows@),
                vals_fr(ring@),
                fr_val(*d_eq),
                fr_val(*d_b),
                fr_val(*d_o),
                fr_val(*d_phi),
            ) % qi(),
        forall|k: int|
            0 <= k <= n ==> fr_val(#[trigger] r.1@[k]) == poly2_at(
                k,
                n as int,
                vals_fr(u_pows@),
                fr_val(*d_d1),
            ) % qi(),
        forall|k: int|
            0 <= k <= n ==> fr_val(#[trigger] r.2@[k]) == poly3_at(
                k,
                n as int,
                vals_fr(t_pows@),
                fr_val(*d_eq),
            ) % qi(),
{
    let ghost sv = vals_fr(s_pows@);
    let ghost tv = vals_fr(t_pows@);
    let ghost uv = vals_fr(u_pows@);
    let ghost ringv = vals_fr(ring@);

    let mut p1 = crate::r1cs::fr_zero_vec(n + 1);
    let mut p2 = crate::r1cs::fr_zero_vec(n + 1);
    let mut p3 = crate::r1cs::fr_zero_vec(n + 1);

    let cv_a = vec_mul_pointwise(
        &vec_sub_const(&crate::link::matrix::scalar_vector_mult(d_eq, t_pows, 0), d_b),
        s_pows,
    );
    proof {
        assert(vals_fr(cv_a@) =~= cv_poly1a(n as int, sv, tv, fr_val(*d_eq), fr_val(*d_b)));
    }
    let ghost p1_0 = p1@;
    scatter(&mut p1, 1, n, n + 1, false, false, &cv_a);
    let ring_scaled = crate::link::matrix::scalar_vector_mult(d_phi, ring, 0);
    let cv_b_full = vec_add_const(&ring_scaled, d_o);
    let cv_b = crate::vecs::vec_take(&cv_b_full, nreal + 1);
    proof {
        assert(vals_fr(cv_b@) =~= cv_poly1b(
            nreal as int,
            ringv,
            fr_val(*d_phi),
            fr_val(*d_o),
        ));
    }
    let ghost p1_1 = p1@;
    scatter(&mut p1, 1, nreal, n + 1, false, false, &cv_b);
    proof {
        assert forall|k: int| 0 <= k <= n implies fr_val(#[trigger] p1@[k]) == poly1_at(
            k,
            n as int,
            nreal as int,
            sv,
            tv,
            ringv,
            fr_val(*d_eq),
            fr_val(*d_b),
            fr_val(*d_o),
            fr_val(*d_phi),
        ) % qi() by {
            let t1 = scatter_at(k, 1, n as int, n + 1, false, cv_poly1a(
                n as int,
                sv,
                tv,
                fr_val(*d_eq),
                fr_val(*d_b),
            ));
            let t2 = scatter_at(k, 1, nreal as int, n + 1, false, cv_poly1b(
                nreal as int,
                ringv,
                fr_val(*d_phi),
                fr_val(*d_o),
            ));
            mod_add_noop_right(t2, t1);
        }
    }

    let cv_c = crate::link::matrix::scalar_vector_mult(d_d1, u_pows, 0);
    proof {
        assert(vals_fr(cv_c@) =~= cv_poly2(n as int, uv, fr_val(*d_d1)));
    }
    if 2 <= n {
        scatter(&mut p2, 2, n, n + 1, false, true, &cv_c);
    }
    proof {
        assert forall|k: int| 0 <= k <= n implies fr_val(#[trigger] p2@[k]) == poly2_at(
            k,
            n as int,
            uv,
            fr_val(*d_d1),
        ) % qi() by {
            if !(2 <= n) {
                assert(scatter_at(k, 2, n as int, n + 1, false, cv_poly2(
                    n as int,
                    uv,
                    fr_val(*d_d1),
                )) == 0);
                mod_small(0);
            }
        }
    }

    let cv_d = crate::link::matrix::scalar_vector_mult(d_eq, t_pows, 0);
    proof {
        assert(vals_fr(cv_d@) =~= cv_poly3(n as int, tv, fr_val(*d_eq)));
    }
    scatter(&mut p3, 1, n, 0, true, false, &cv_d);

    (p1, p2, p3)
}

} // verus!

//! Long-term setup of the signature scheme: the membership reference
//! string, the commit-carrying key pair, and the linking key over the matrix
//! that ties the commitment openings of both to one witness vector.
use vstd::prelude::*;
use crate::algebra::{g1_generator, g1_val, g2_generator, g2_val, max_domain_size, q, Rng, G1};
use crate::cc::generator::{cc_keys_rel, generate_random_parameters, sample_ok};
use crate::cc::structures::{CcPVKey, ProvingKey};
use crate::error::Error;
use crate::link::matrix::{CoeffPos, SparseMatrix};
use crate::link::snark::{keygen_rel, PESubspaceSnark, PP};
use crate::lrs::structures::{pvkey_wf, LrsPVKey};
use crate::r1cs::R1cs;
use crate::sma::generator::crs_key_gen;
use crate::sma::structures::{crs_rel, SmaCRS};
use crate::vecs::vec_take;

verus! {

/// The linking matrix the key aggregate is built over, column by column:
/// row zero carries the two membership anchors `crs_g1s[1]`, `crs_g1s[0]`
/// in the first two columns; row one carries the committed-witness query in
/// the first `ncw` columns and the cross-protocol anchor
/// `eta_gamma_inv_g1` in the last column; the column before last is empty.
pub open spec fn link_matrix_cols(crs_sma: SmaCRS, pk: ProvingKey, ncw: int) -> Seq<
    Seq<CoeffPos<G1>>,
> {
    Seq::new(
        (ncw + 2) as nat,
        |j: int|
            (if j == 0 {
                seq![CoeffPos { val: crs_sma.crs_g1s@[1], pos: 0 }]
            } else if j == 1 {
                seq![CoeffPos { val: crs_sma.crs_g1s@[0], pos: 0 }]
            } else {
                Seq::<CoeffPos<G1>>::empty()
            }) + (if j < ncw {
                seq![CoeffPos { val: pk.comm_wit_abc_query@[j], pos: 1 }]
            } else {
                Seq::<CoeffPos<G1>>::empty()
            }) + (if j == ncw + 1 {
                seq![CoeffPos { val: pk.eta_gamma_inv_g1, pos: 1 }]
            } else {
                Seq::<CoeffPos<G1>>::empty()
            }),
    )
}

/// Builds the long-term key aggregate for one circuit and one maximal ring
/// size.  All trapdoors are sampled inside and leave no trace beyond the
/// stated key relations.  Fails exactly as commit-carrying key generation
/// does.
#[verifier::rlimit(100)]
pub fn setup(
    security_par: String,
    ring_size_max: usize,
    r1cs: &R1cs,
    num_commit_witness: usize,
    rng: &mut Rng,
) -> (r: Result<LrsPVKey, Error>)
    requires
        r1cs.wf(),
        num_commit_witness <= r1cs.num_witness,
        num_commit_witness + 2 <= usize::MAX,
        r1cs.constraints@.len() + r1cs.num_instance <= usize::MAX,
        1 <= ring_size_max,
        2 * ring_size_max + 1 <= usize::MAX,
    ensures
        r matches Err(e) ==> (e == Error::DegreeTooLarge || e == Error::UnexpectedIdentity),
        r matches Err(e) && e == Error::DegreeTooLarge <==> r1cs.constraints@.len()
            + r1cs.num_instance > max_domain_size(),
        r is Ok ==> pvkey_wf(
            r->Ok_0,
            *r1cs,
            num_commit_witness as nat,
            ring_size_max as nat,
        ),
        r is Ok ==> exists|alphav: nat| #[trigger] crs_rel(r->Ok_0.crs_sma, alphav),
        r is Ok ==> exists|
            av: nat,
            bv: nat,
            dv: nat,
            ev: nat,
            gv: nat,
            tval: nat,
            dsize: nat,
            ginv: nat,
            dinv: nat,
        |
            sample_ok(tval, dsize) && #[trigger] cc_keys_rel(
                *r1cs,
                num_commit_witness as nat,
                av,
                bv,
                dv,
                ev,
                gv,
                tval,
                dsize,
                ginv,
                dinv,
                r->Ok_0.crs_cc,
            ),
        r is Ok ==> exists|
            k00: Seq<nat>,
            k01: Seq<nat>,
            k10: Seq<nat>,
            k11: Seq<nat>,
            a0: nat,
            a1: nat,
        |
            #[trigger] keygen_rel(
                r->Ok_0.crs_link,
                link_matrix_cols(
                    r->Ok_0.crs_sma,
                    r->Ok_0.crs_cc.pk,
                    num_commit_witness as int,
                ),
                2,
                (num_commit_witness + 2) as nat,
                1,
                k00,
                k01,
                k10,
                k11,
                a0,
                a1,
            ),
{
    let crs_sma = crs_key_gen(security_par, ring_size_max, rng);

    let crs_cc: CcPVKey = match generate_random_parameters(r1cs, num_commit_witness, rng) {
        Ok(k) => k,
        Err(e) => {
            return Err(e);
        },
    };
    proof {
        let (av, bv, dv, ev, gv, tval, dsize, ginv, dinv) = choose|
            av: nat,
            bv: nat,
            dv: nat,
            ev: nat,
            gv: nat,
            tval: nat,
            dsize: nat,
            ginv: nat,
            dinv: nat,
        |
            dsize == crate::algebra::domain_size_for(
                (r1cs.constraints@.len() + r1cs.num_instance) as nat,
            ) && dsize >= r1cs.constraints@.len() + r1cs.num_instance && crate::algebra::is_pow2(
                dsize,
            ) && sample_ok(tval, dsize) && cc_keys_rel(
                *r1cs,
                num_commit_witness as nat,
                av,
                bv,
                dv,
                ev,
                gv,
                tval,
                dsize,
                ginv,
                dinv,
                crs_cc,
            );
        reveal(cc_keys_rel);
        assert(cc_keys_rel(
            *r1cs,
            num_commit_witness as nat,
            av,
            bv,
            dv,
            ev,
            gv,
            tval,
            dsize,
            ginv,
            dinv,
            crs_cc,
        ));
    }

    let link_rows: usize = 2;
    let link_cols = num_commit_witness + 2;
    let g1_gen = g1_generator();
    let g2_gen = g2_generator();
    let link_pp = PP::new(link_rows, link_cols, &g1_gen, &g2_gen);

    let mut link_m: SparseMatrix<G1> = SparseMatrix::new(link_rows, link_cols);
    let ghost m0 = link_m.col_seq();
    let mut anchor_row: Vec<G1> = Vec::new();
    anchor_row.push(crs_sma.crs_g1s[1]);
    anchor_row.push(crs_sma.crs_g1s[0]);
    let ghost ar = anchor_row@;
    link_m.insert_row_slice(0, 0, anchor_row);
    let ghost m1 = link_m.col_seq();
    let comm_query_copy = vec_take(&crs_cc.pk.comm_wit_abc_query, crs_cc.pk.comm_wit_abc_query.len());
    let ghost cq = comm_query_copy@;
    link_m.insert_row_slice(1, 0, comm_query_copy);
    let ghost m2 = link_m.col_seq();
    let mut cross_anchor: Vec<G1> = Vec::new();
    cross_anchor.push(crs_cc.pk.eta_gamma_inv_g1);
    link_m.insert_row_slice(1, num_commit_witness + 1, cross_anchor);
    let ghost mspec = link_matrix_cols(crs_sma, crs_cc.pk, num_commit_witness as int);
    proof {
        let ncw = num_commit_witness as int;
        assert forall|j: int| 0 <= j < ncw + 2 implies link_m.col_seq()[j] == mspec[j] by {
            if j < 2 {
                assert(m1[0 + j] == m0[0 + j].push(CoeffPos { val: ar[j], pos: 0 }));
                assert(m1[j] =~= seq![CoeffPos { val: ar[j], pos: 0 }]);
            } else {
                assert(m1[j] == m0[j]);
            }
            if j < ncw {
                assert(m2[0 + j] == m1[0 + j].push(CoeffPos { val: cq[j], pos: 1 }));
            } else {
                assert(m2[j] == m1[j]);
            }
            if j == ncw + 1 {
                assert(link_m.col_seq()[(num_commit_witness + 1) + 0] == m2[(num_commit_witness
                    + 1) + 0].push(CoeffPos { val: crs_cc.pk.eta_gamma_inv_g1, pos: 1 }));
            } else {
                assert(link_m.col_seq()[j] == m2[j]);
            }
            assert(link_m.col_seq()[j] =~= mspec[j]);
        }
        assert(link_m.col_seq() =~= mspec);
    }

    let crs_link = PESubspaceSnark::keygen(rng, &link_pp, &link_m);

    let result: Result<LrsPVKey, Error> = Ok(LrsPVKey { crs_link, crs_cc, crs_sma });
    proof {
        let key = result->Ok_0;
        assert(key.crs_sma == crs_sma);
        let aw = choose|alphav: nat| crs_rel(crs_sma, alphav);
        assert(crs_rel(key.crs_sma, aw));
        let (k00, k01, k10, k11, a0, a1) = choose|
            k00: Seq<nat>,
            k01: Seq<nat>,
            k10: Seq<nat>,
            k11: Seq<nat>,
            a0: nat,
            a1: nat,
        |
            #[trigger] keygen_rel(
                crs_link,
                link_m.col_seq(),
                2,
                (num_commit_witness + 2) as nat,
                1,
                k00,
                k01,
                k10,
                k11,
                a0,
                a1,
            );
        assert(link_m.col_seq() == link_matrix_cols(key.crs_sma, key.crs_cc.pk,
            num_commit_witness as int));
        assert(keygen_rel(
            key.crs_link,
            link_matrix_cols(key.crs_sma, key.crs_cc.pk, num_commit_witness as int),
            2,
            (num_commit_witness + 2) as nat,
            1,
            k00,
            k01,
            k10,
            k11,
            a0,
            a1,
        ));
    }
    result
}

} // verus!

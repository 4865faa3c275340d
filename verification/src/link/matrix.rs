//! Column-major sparse matrices over an arbitrary copyable entry type, and
//! the small linear-algebra helpers of the subspace argument.  The column
//! representation fits the one product the argument needs, `M^T k`: one
//! inner product per column.
use vstd::prelude::*;
use crate::algebra::{dot_vals, fr_mul, fr_val, g1_add, g1_mul, g1_val, g1_zero, q, vals_fr,
    vals_g1, Fr, G1};
use crate::arith::{dot_take_all, dot_take_push, mod_add_noop, mod_small, qi};

verus! {

/// One matrix entry: a value and the row it sits in.
pub struct CoeffPos<T> {
    pub val: T,
    pub pos: usize,
}

impl<T: Copy> Clone for CoeffPos<T> {
    fn clone(&self) -> (r: Self)
        ensures
            r == *self,
    {
        CoeffPos { val: self.val, pos: self.pos }
    }
}

impl<T: Copy> Copy for CoeffPos<T> {

}

/// Column-major sparse matrix: a vector of columns, each a vector of
/// entries.
pub struct SparseMatrix<T> {
    pub cols: Vec<Vec<CoeffPos<T>>>,
    pub nr: usize,
    pub nc: usize,
}

impl<T: Copy> SparseMatrix<T> {
    /// The columns as sequences of entries.
    pub open spec fn col_seq(&self) -> Seq<Seq<CoeffPos<T>>> {
        Seq::new(self.cols@.len(), |j: int| self.cols@[j]@)
    }

    /// The column vector matches the declared column count.
    pub open spec fn wf(&self) -> bool {
        self.cols@.len() == self.nc
    }

    /// Every entry's row index lies below `n`.
    pub open spec fn rows_ok(&self, n: nat) -> bool {
        forall|j: int, e: int|
            0 <= j < self.col_seq().len() && 0 <= e < self.col_seq()[j].len()
                ==> #[trigger] self.col_seq()[j][e].pos < n
    }

    /// An empty matrix of the given shape.
    pub fn new(nr: usize, nc: usize) -> (r: SparseMatrix<T>)
        ensures
            r.wf(),
            r.nr == nr,
            r.nc == nc,
            forall|j: int| 0 <= j < nc ==> #[trigger] r.col_seq()[j].len() == 0,
            r.rows_ok(nr as nat),
    {
        let mut cols: Vec<Vec<CoeffPos<T>>> = Vec::new();
        let mut j: usize = 0;
        while j < nc
            invariant
                j <= nc,
                cols@.len() == j,
                forall|k: int| 0 <= k < j ==> #[trigger] cols@[k]@.len() == 0,
            decreases nc - j,
        {
            cols.push(Vec::new());
            j = j + 1;
        }
        SparseMatrix { cols, nr, nc }
    }

    /// Appends the value `v` at row `r` to column `c`.
    pub fn insert_val(&mut self, r: usize, c: usize, v: &T)
        requires
            old(self).wf(),
            c < old(self).nc,
        ensures
            final(self).wf(),
            final(self).nr == old(self).nr,
            final(self).nc == old(self).nc,
            final(self).col_seq()[c as int] == old(self).col_seq()[c as int].push(
                CoeffPos { val: *v, pos: r },
            ),
            forall|j: int|
                0 <= j < old(self).col_seq().len() && j != c
                    ==> #[trigger] final(self).col_seq()[j] == old(self).col_seq()[j],
            old(self).rows_ok(old(self).nr as nat) && r < old(self).nr ==> final(self).rows_ok(
                final(self).nr as nat,
            ),
    {
        let coeff_pos = CoeffPos { pos: r, val: *v };
        let col = &mut self.cols[c];
        col.push(coeff_pos);
        assert(final(self).col_seq() =~= old(self).col_seq().update(
            c as int,
            old(self).col_seq()[c as int].push(CoeffPos { val: *v, pos: r }),
        ));
        proof {
            if old(self).rows_ok(old(self).nr as nat) && r < old(self).nr {
                assert forall|j: int, e: int|
                    0 <= j < self.col_seq().len() && 0 <= e < self.col_seq()[j].len() implies (
                #[trigger] self.col_seq()[j][e]).pos < self.nr as nat by {
                    if j == c && e == self.col_seq()[j].len() - 1 {
                    } else {
                        assert(self.col_seq()[j][e] == old(self).col_seq()[j][e]);
                    }
                }
            }
        }
    }

    /// Appends a contiguous run of values at row `r`, starting at column
    /// `c_offset`.
    pub fn insert_row_slice(&mut self, r: usize, c_offset: usize, vs: Vec<T>)
        requires
            old(self).wf(),
            c_offset + vs@.len() <= old(self).nc,
        ensures
            final(self).wf(),
            final(self).nr == old(self).nr,
            final(self).nc == old(self).nc,
            forall|i: int|
                0 <= i < vs@.len() ==> #[trigger] final(self).col_seq()[c_offset + i]
                    == old(self).col_seq()[c_offset + i].push(CoeffPos { val: vs@[i], pos: r }),
            forall|j: int|
                0 <= j < old(self).col_seq().len() && !(c_offset <= j < c_offset + vs@.len())
                    ==> #[trigger] final(self).col_seq()[j] == old(self).col_seq()[j],
            old(self).rows_ok(old(self).nr as nat) && r < old(self).nr ==> final(self).rows_ok(
                final(self).nr as nat,
            ),
    {
        let mut i: usize = 0;
        while i < vs.len()
            invariant
                i <= vs@.len(),
                old(self).wf(),
                c_offset + vs@.len() <= old(self).nc,
                self.wf(),
                self.nr == old(self).nr,
                self.nc == old(self).nc,
                forall|k: int|
                    0 <= k < i ==> #[trigger] self.col_seq()[c_offset + k] == old(
                        self,
                    ).col_seq()[c_offset + k].push(CoeffPos { val: vs@[k], pos: r }),
                forall|j: int|
                    0 <= j < old(self).col_seq().len() && !(c_offset <= j < c_offset + i)
                        ==> #[trigger] self.col_seq()[j] == old(self).col_seq()[j],
                old(self).rows_ok(old(self).nr as nat) && r < old(self).nr ==> self.rows_ok(
                    self.nr as nat,
                ),
            decreases vs@.len() - i,
        {
            let ghost pre = *self;
            proof {
                assert forall|j: int|
                    0 <= j < old(self).col_seq().len() && !(c_offset <= j < c_offset + i)
                    implies #[trigger] pre.col_seq()[j] == old(self).col_seq()[j] by {
                    assert(self.col_seq()[j] == old(self).col_seq()[j]);
                }
                assert forall|k: int| 0 <= k < i implies #[trigger] pre.col_seq()[c_offset + k]
                    == old(self).col_seq()[c_offset + k].push(
                    CoeffPos { val: vs@[k], pos: r },
                ) by {
                    assert(self.col_seq()[c_offset + k] == old(self).col_seq()[c_offset + k].push(
                        CoeffPos { val: vs@[k], pos: r },
                    ));
                }
            }
            self.insert_val(r, c_offset + i, &vs[i]);
            proof {
                assert(self.col_seq()[(c_offset + i) as int] == pre.col_seq()[(c_offset
                    + i) as int].push(CoeffPos { val: vs@[i as int], pos: r }));
                assert(forall|j: int|
                    0 <= j < pre.col_seq().len() && j != c_offset + i
                        ==> #[trigger] self.col_seq()[j] == pre.col_seq()[j]);
                assert forall|k: int| 0 <= k < i + 1 implies #[trigger] self.col_seq()[c_offset
                    + k] == old(self).col_seq()[c_offset + k].push(
                    CoeffPos { val: vs@[k], pos: r },
                ) by {
                    if k < i {
                        assert(self.col_seq()[c_offset + k] == pre.col_seq()[c_offset + k]);
                    } else {
                        let j0 = c_offset + i as int;
                        assert(0 <= j0 < old(self).col_seq().len());
                        assert(!(c_offset <= j0 < c_offset + i));
                        assert(pre.col_seq()[j0] == old(self).col_seq()[j0]);
                    }
                }
                assert forall|j: int|
                    0 <= j < old(self).col_seq().len() && !(c_offset <= j < c_offset + i + 1)
                    implies #[trigger] self.col_seq()[j] == old(self).col_seq()[j] by {
                    assert(0 <= j < pre.col_seq().len());
                    assert(j != c_offset + i);
                    assert(self.col_seq()[j] == pre.col_seq()[j]);
                    assert(pre.col_seq()[j] == old(self).col_seq()[j]);
                }
            }
            i = i + 1;
        }
    }

    /// The entries of column `c`.
    pub fn get_col(&self, c: usize) -> (r: &Vec<CoeffPos<T>>)
        requires
            self.wf(),
            c < self.nc,
        ensures
            r@ == self.col_seq()[c as int],
    {
        &self.cols[c]
    }
}

/// Inner product of a sparse column of group elements with a dense vector
/// of scalar representatives: the sum of `v[pos] * val` over the column's
/// entries.
pub open spec fn sparse_ip(w: Seq<CoeffPos<G1>>, v: Seq<nat>) -> int
    decreases w.len(),
{
    if w.len() == 0 {
        0
    } else {
        sparse_ip(w.drop_last(), v) + v[w.last().pos as int] * g1_val(w.last().val)
    }
}

/// Extending the column by one entry extends the inner product by one term.
proof fn sparse_ip_take_push(w: Seq<CoeffPos<G1>>, v: Seq<nat>, i: int)
    requires
        0 <= i < w.len(),
    ensures
        sparse_ip(w.take(i + 1), v) == sparse_ip(w.take(i), v) + v[w[i].pos as int]
            * g1_val(w[i].val),
{
    assert(w.take(i + 1).drop_last() =~= w.take(i));
    assert(w.take(i + 1).last() == w[i]);
}

/// Dense linear algebra between scalar vectors and sparse matrices of group
/// elements.
pub struct SparseLinAlgebra {
}

impl SparseLinAlgebra {
    /// Inner product of a column of a sparse matrix and a dense vector: a
    /// small multi-exponentiation.
    pub fn sparse_inner_product(v: &Vec<Fr>, w: &Vec<CoeffPos<G1>>) -> (r: G1)
        requires
            forall|e: int| 0 <= e < w@.len() ==> #[trigger] w@[e].pos < v@.len(),
        ensures
            g1_val(r) == sparse_ip(w@, vals_fr(v@)) % qi(),
    {
        let mut res = g1_zero();
        let mut i: usize = 0;
        proof {
            mod_small(0);
            assert(w@.take(0) =~= Seq::<CoeffPos<G1>>::empty());
        }
        while i < w.len()
            invariant
                i <= w@.len(),
                forall|e: int| 0 <= e < w@.len() ==> #[trigger] w@[e].pos < v@.len(),
                g1_val(res) == sparse_ip(w@.take(i as int), vals_fr(v@)) % qi(),
            decreases w@.len() - i,
        {
            let entry = &w[i];
            let tmp = g1_mul(&entry.val, &v[entry.pos]);
            let sum = g1_add(&res, &tmp);
            proof {
                sparse_ip_take_push(w@, vals_fr(v@), i as int);
                let pre = sparse_ip(w@.take(i as int), vals_fr(v@));
                let t = vals_fr(v@)[w@[i as int].pos as int] * g1_val(w@[i as int].val);
                mod_add_noop(pre, t as int);
            }
            res = sum;
            i = i + 1;
        }
        proof {
            assert(w@.take(w@.len() as int) =~= w@);
        }
        res
    }

    /// Product of a dense vector with every column of a sparse matrix.
    pub fn sparse_vector_matrix_mult(v: &Vec<Fr>, m: &SparseMatrix<G1>, nc: usize) -> (r: Vec<G1>)
        requires
            m.wf(),
            nc == m.nc,
            v@.len() == m.nr,
            m.rows_ok(m.nr as nat),
        ensures
            r@.len() == nc,
            forall|c: int|
                0 <= c < nc ==> g1_val(#[trigger] r@[c]) == sparse_ip(m.col_seq()[c], vals_fr(v@))
                    % qi(),
    {
        let mut res: Vec<G1> = Vec::new();
        let mut c: usize = 0;
        while c < m.nc
            invariant
                c <= m.nc,
                m.wf(),
                v@.len() == m.nr,
                m.rows_ok(m.nr as nat),
                res@.len() == c,
                forall|k: int|
                    0 <= k < c ==> g1_val(#[trigger] res@[k]) == sparse_ip(
                        m.col_seq()[k],
                        vals_fr(v@),
                    ) % qi(),
            decreases m.nc - c,
        {
            res.push(Self::sparse_inner_product(v, m.get_col(c)));
            c = c + 1;
        }
        res
    }
}

/// Inner product of a dense scalar vector and a dense vector of group
/// elements.
pub fn inner_product(v: &Vec<Fr>, w: &Vec<G1>) -> (r: G1)
    requires
        v@.len() == w@.len(),
    ensures
        g1_val(r) == dot_vals(vals_fr(v@), vals_g1(w@)) % qi(),
{
    let mut res = g1_zero();
    let mut i: usize = 0;
    proof {
        mod_small(0);
        assert(vals_fr(v@).take(0) =~= Seq::<nat>::empty());
    }
    while i < v.len()
        invariant
            i <= v@.len(),
            v@.len() == w@.len(),
            g1_val(res) == dot_vals(vals_fr(v@).take(i as int), vals_g1(w@).take(i as int))
                % qi(),
        decreases v@.len() - i,
    {
        let tmp = g1_mul(&w[i], &v[i]);
        let sum = g1_add(&res, &tmp);
        proof {
            dot_take_push(vals_fr(v@), vals_g1(w@), i as int);
            let pre = dot_vals(vals_fr(v@).take(i as int), vals_g1(w@).take(i as int));
            mod_add_noop(pre, (fr_val(v@[i as int]) * g1_val(w@[i as int])) as int);
        }
        res = sum;
        i = i + 1;
    }
    proof {
        dot_take_all(vals_fr(v@), vals_g1(w@));
    }
    res
}

/// Product of one scalar with every entry of a scalar vector.
pub fn scalar_vector_mult(a: &Fr, v: &Vec<Fr>, r: usize) -> (res: Vec<Fr>)
    ensures
        res@.len() == v@.len(),
        forall|i: int|
            0 <= i < v@.len() ==> fr_val(#[trigger] res@[i]) == (fr_val(*a) * fr_val(v@[i]))
                % q(),
{
    let mut res: Vec<Fr> = Vec::new();
    let mut i: usize = 0;
    while i < v.len()
        invariant
            i <= v@.len(),
            res@.len() == i,
            forall|k: int|
                0 <= k < i ==> fr_val(#[trigger] res@[k]) == (fr_val(*a) * fr_val(v@[k])) % q(),
        decreases v@.len() - i,
    {
        let x = fr_mul(a, &v[i]);
        res.push(x);
        i = i + 1;
    }
    res
}

} // verus!

//! Laws relating the matrix operations, stated over the same spec
//! functions that the operations' contracts use.

use crate::matrix::seq_diff;
use crate::matrix::seq_sum;
use crate::matrix::to_ints;
use crate::matrix::Matrix;
use vstd::prelude::*;

verus! {

/// Matrix addition is commutative: for well-formed matrices of equal
/// shape, the elementwise sum of `(a, b)` equals that of `(b, a)`.
/// Together with `add`'s postcondition this says that `a.add(b)` and
/// `b.add(a)` hold the same entries (and, by that postcondition, the
/// same shape).
pub proof fn lemma_matrix_sum_commutes(a: &Matrix<i64>, b: &Matrix<i64>)
    requires
        a.wf(),
        b.wf(),
        a.same_shape(b),
    ensures
        seq_sum(to_ints(a.entries()), to_ints(b.entries())) == seq_sum(
            to_ints(b.entries()),
            to_ints(a.entries()),
        ),
{
    assert(seq_sum(to_ints(a.entries()), to_ints(b.entries())) =~= seq_sum(
        to_ints(b.entries()),
        to_ints(a.entries()),
    ));
}

/// Subtracting and then adding the same matrix is the identity: for
/// well-formed matrices of equal shape, the elementwise sum of
/// `a - b` and `b` is `a` again. Together with `sub`'s and `add`'s
/// postconditions this says that `a.sub(b).add(b)` holds exactly the
/// entries of `a`.
pub proof fn lemma_matrix_diff_then_sum(a: &Matrix<i64>, b: &Matrix<i64>)
    requires
        a.wf(),
        b.wf(),
        a.same_shape(b),
    ensures
        seq_sum(seq_diff(to_ints(a.entries()), to_ints(b.entries())), to_ints(b.entries()))
            == to_ints(a.entries()),
{
    assert(seq_sum(seq_diff(to_ints(a.entries()), to_ints(b.entries())), to_ints(b.entries()))
        =~= to_ints(a.entries()));
}

} // verus!

use crate::lerp_spec;
use crate::matrix::Matrix;
use crate::matrix::is_transpose_of;
use crate::matrix::lerp_grid;
use crate::traits::Field;
use crate::vector::add_seq;
use crate::vector::combo_seq;
use crate::vector::combo_term;
use crate::vector::dot_prefix;
use crate::vector::dot_seq;
use crate::vector::lerp_seq;
use crate::vector::sub_seq;
use vstd::prelude::*;

verus! {

/// Adding a vector and then subtracting it again restores the original,
/// component for component, for every pair of equally long vectors.
pub proof fn lemma_add_then_sub_restores<K: Field>(u: Seq<K>, v: Seq<K>)
    requires
        u.len() == v.len(),
    ensures
        sub_seq(add_seq(u, v), v) == u,
{
    assert forall|i: int| 0 <= i < u.len() implies sub_seq(add_seq(u, v), v)[i] == u[i] by {
        K::add_sub_cancel(u[i], v[i]);
    }
    assert(sub_seq(add_seq(u, v), v) =~= u);
}

/// The linear combination of a single vector with the coefficient one is
/// that vector itself.
pub proof fn lemma_combination_identity<K: Field>(u: Seq<K>)
    ensures
        combo_seq(seq![u], seq![K::one_s()], u.len()) == u,
{
    let vs: Seq<Seq<K>> = seq![u];
    let cs: Seq<K> = seq![K::one_s()];
    assert forall|i: int| 0 <= i < u.len() implies combo_seq(vs, cs, u.len())[i] == u[i] by {
        assert(vs[0] == u);
        assert(cs[0] == K::one_s());
        assert(combo_term(vs, cs, i, 0) == K::zero_s());
        assert(combo_term(vs, cs, i, 1) == u[i].fma_s(K::one_s(), K::zero_s()));
        K::fma_identity(u[i]);
    }
    assert(combo_seq(vs, cs, u.len()) =~= u);
}

proof fn lemma_dot_prefix_symmetric<K: Field>(u: Seq<K>, v: Seq<K>, n: int)
    ensures
        dot_prefix(u, v, n) == dot_prefix(v, u, n),
    decreases n,
{
    if n > 0 {
        lemma_dot_prefix_symmetric(u, v, n - 1);
        K::fma_mul_comm(u[n - 1], v[n - 1], dot_prefix(u, v, n - 1));
    }
}

/// The dot product is symmetric: exchanging the operands never changes the
/// accumulated result.
pub proof fn lemma_dot_symmetric<K: Field>(u: Seq<K>, v: Seq<K>)
    requires
        u.len() == v.len(),
    ensures
        dot_seq(u, v) == dot_seq(v, u),
{
    lemma_dot_prefix_symmetric(u, v, u.len() as int);
}

/// The all-zero vector of dimension `n`.
pub open spec fn zero_seq<K: Field>(n: nat) -> Seq<K> {
    Seq::new(n, |i: int| K::zero_s())
}

proof fn lemma_dot_zero_prefix<K: Field>(n: nat, k: int)
    requires
        k <= n,
    ensures
        dot_prefix(zero_seq::<K>(n), zero_seq::<K>(n), k) == K::zero_s(),
    decreases k,
{
    if k > 0 {
        lemma_dot_zero_prefix::<K>(n, k - 1);
        K::fma_zero_coeff(K::zero_s(), K::zero_s());
    }
}

/// The dot product of the zero vector with itself is the zero scalar.  The
/// euclidean norm is the square root of exactly this accumulation, and the
/// square root is taken outside the verified core, so this is the part of
/// "the zero vector has norm zero" that the library itself states.
pub proof fn lemma_dot_zero_vector<K: Field>(n: nat)
    ensures
        dot_seq(zero_seq::<K>(n), zero_seq::<K>(n)) == K::zero_s(),
{
    lemma_dot_zero_prefix::<K>(n, n as int);
}

/// Transposing a transpose restores the original matrix exactly: the shape
/// is mirrored twice — also when one dimension is zero — and every entry
/// returns to its place.  No arithmetic is performed, so nothing rounds.
pub proof fn lemma_transpose_involutive<K: Field>(m: Matrix<K>, r: Matrix<K>, s: Matrix<K>)
    requires
        m.wf(),
        is_transpose_of(r, m),
        is_transpose_of(s, r),
    ensures
        s@ == m@,
        s.cols() == m.cols(),
{
    assert forall|i: int| 0 <= i < m@.len() implies s@[i] =~= m@[i] by {
        assert(s@[i].len() == r@.len());
        assert(m@[i].len() == m.cols());
        assert forall|j: int| 0 <= j < m@[i].len() implies s@[i][j] == m@[i][j] by {
            assert(s@[i][j] == r@[j][i]);
            assert(r@[j][i] == m@[i][j]);
        }
    }
    assert(s@ =~= m@);
}

/// Interpolating with coefficient zero yields the first scalar exactly.
pub proof fn lemma_lerp_zero_scalar<K: Field>(u: K, v: K)
    ensures
        lerp_spec(u, v, K::zero_s()) == u,
{
    K::fma_zero_coeff(v.sub_s(u), u);
}

/// Interpolating with coefficient one yields the second scalar exactly.
pub proof fn lemma_lerp_one_scalar<K: Field>(u: K, v: K)
    ensures
        lerp_spec(u, v, K::one_s()) == v,
{
    K::sub_fma_one(u, v);
}

/// Each component of a vector interpolation is exactly the scalar
/// interpolation of the corresponding components: the two formulas agree
/// fused-step for fused-step.
pub proof fn lemma_lerp_componentwise<K: Field>(u: Seq<K>, v: Seq<K>, t: K, i: int)
    requires
        u.len() == v.len(),
        0 <= i < u.len(),
    ensures
        lerp_seq(u, v, t)[i] == lerp_spec(u[i], v[i], t),
{
}

/// Vector interpolation with coefficient zero yields the first vector.
pub proof fn lemma_lerp_zero<K: Field>(u: Seq<K>, v: Seq<K>)
    requires
        u.len() == v.len(),
    ensures
        lerp_seq(u, v, K::zero_s()) == u,
{
    assert forall|i: int| 0 <= i < u.len() implies lerp_seq(u, v, K::zero_s())[i] == u[i] by {
        K::fma_zero_coeff(v[i].sub_s(u[i]), u[i]);
    }
    assert(lerp_seq(u, v, K::zero_s()) =~= u);
}

/// Vector interpolation with coefficient one yields the second vector.
pub proof fn lemma_lerp_one<K: Field>(u: Seq<K>, v: Seq<K>)
    requires
        u.len() == v.len(),
    ensures
        lerp_seq(u, v, K::one_s()) == v,
{
    assert forall|i: int| 0 <= i < u.len() implies lerp_seq(u, v, K::one_s())[i] == v[i] by {
        K::sub_fma_one(u[i], v[i]);
    }
    assert(lerp_seq(u, v, K::one_s()) =~= v);
}

/// Matrix interpolation with coefficient zero yields the first matrix.
pub proof fn lemma_lerp_grid_zero<K: Field>(u: Seq<Seq<K>>, v: Seq<Seq<K>>)
    requires
        u.len() == v.len(),
        forall|i: int| 0 <= i < u.len() ==> (#[trigger] u[i]).len() == v[i].len(),
    ensures
        lerp_grid(u, v, K::zero_s()) == u,
{
    assert forall|i: int| 0 <= i < u.len() implies lerp_grid(u, v, K::zero_s())[i] == u[i] by {
        lemma_lerp_zero::<K>(u[i], v[i]);
    }
    assert(lerp_grid(u, v, K::zero_s()) =~= u);
}

/// Matrix interpolation with coefficient one yields the second matrix.
pub proof fn lemma_lerp_grid_one<K: Field>(u: Seq<Seq<K>>, v: Seq<Seq<K>>)
    requires
        u.len() == v.len(),
        forall|i: int| 0 <= i < u.len() ==> (#[trigger] u[i]).len() == v[i].len(),
    ensures
        lerp_grid(u, v, K::one_s()) == v,
{
    assert forall|i: int| 0 <= i < u.len() implies lerp_grid(u, v, K::one_s())[i] == v[i] by {
        lemma_lerp_one::<K>(u[i], v[i]);
    }
    assert(lerp_grid(u, v, K::one_s()) =~= v);
}

} // verus!

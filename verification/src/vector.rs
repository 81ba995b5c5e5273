use crate::traits::Field;
use vstd::prelude::*;

verus! {

/// A fixed-length ordered sequence of scalars.  The dimension is set when the
/// value is constructed and no operation resizes it: every operation either
/// demands equal dimensions of its operands or states the dimension of its
/// result.
#[derive(Clone, Debug, PartialEq)]
pub struct Vector<K> {
    data: Vec<K>,
}

impl<K> View for Vector<K> {
    type V = Seq<K>;

    closed spec fn view(&self) -> Seq<K> {
        self.data@
    }
}

/// The absolute value as the library defines it: `n` when `-n <= n`, and
/// `-n` otherwise.  The tie at `n == -n` deliberately keeps `n` itself.
pub open spec fn abs_spec<K: Field>(n: K) -> K {
    if n.neg_s().le_s(n) {
        n
    } else {
        n.neg_s()
    }
}

/// Componentwise addition of two equally long sequences.
pub open spec fn add_seq<K: Field>(u: Seq<K>, v: Seq<K>) -> Seq<K> {
    Seq::new(u.len(), |i: int| u[i].add_s(v[i]))
}

/// Componentwise subtraction.
pub open spec fn sub_seq<K: Field>(u: Seq<K>, v: Seq<K>) -> Seq<K> {
    Seq::new(u.len(), |i: int| u[i].sub_s(v[i]))
}

/// Componentwise multiplication.
pub open spec fn mul_seq<K: Field>(u: Seq<K>, v: Seq<K>) -> Seq<K> {
    Seq::new(u.len(), |i: int| u[i].mul_s(v[i]))
}

/// Componentwise division.
pub open spec fn div_seq<K: Field>(u: Seq<K>, v: Seq<K>) -> Seq<K> {
    Seq::new(u.len(), |i: int| u[i].div_s(v[i]))
}

/// Every component multiplied by the scalar `a`.
pub open spec fn scl_seq<K: Field>(u: Seq<K>, a: K) -> Seq<K> {
    Seq::new(u.len(), |i: int| u[i].mul_s(a))
}

/// Componentwise interpolation: each component is one fused multiply-add,
/// exactly the scalar formula applied in place.
pub open spec fn lerp_seq<K: Field>(u: Seq<K>, v: Seq<K>, t: K) -> Seq<K> {
    Seq::new(u.len(), |i: int| v[i].sub_s(u[i]).fma_s(t, u[i]))
}

/// The accumulator of the dot product after the first `n` terms: it starts
/// at zero and takes one fused multiply-add per index, in ascending index
/// order.  This accumulation order is part of the contract.
pub open spec fn dot_prefix<K: Field>(u: Seq<K>, v: Seq<K>, n: int) -> K
    decreases n,
{
    if n <= 0 {
        K::zero_s()
    } else {
        u[n - 1].fma_s(v[n - 1], dot_prefix(u, v, n - 1))
    }
}

/// The dot product of two equally long sequences.
pub open spec fn dot_seq<K: Field>(u: Seq<K>, v: Seq<K>) -> K {
    dot_prefix(u, v, u.len() as int)
}

/// The accumulator of the 1-norm after the first `n` components: plain
/// addition of absolute values, in ascending index order.
pub open spec fn norm_1_prefix<K: Field>(u: Seq<K>, n: int) -> K
    decreases n,
{
    if n <= 0 {
        K::zero_s()
    } else {
        norm_1_prefix(u, n - 1).add_s(abs_spec(u[n - 1]))
    }
}

/// One component of a linear combination, after the first `n` terms: the
/// accumulator starts at zero and takes one fused multiply-add per
/// coefficient, in ascending coefficient order.
pub open spec fn combo_term<K: Field>(vs: Seq<Seq<K>>, cs: Seq<K>, i: int, n: int) -> K
    decreases n,
{
    if n <= 0 {
        K::zero_s()
    } else {
        vs[n - 1][i].fma_s(cs[n - 1], combo_term(vs, cs, i, n - 1))
    }
}

/// The full linear combination of the sequences `vs` with the coefficients
/// `cs`, over `dim` components.
pub open spec fn combo_seq<K: Field>(vs: Seq<Seq<K>>, cs: Seq<K>, dim: nat) -> Seq<K> {
    Seq::new(dim, |i: int| combo_term(vs, cs, i, vs.len() as int))
}

/// The mathematical contents of a sequence of vectors.
pub open spec fn views_of<K>(u: Seq<Vector<K>>) -> Seq<Seq<K>> {
    Seq::new(u.len(), |j: int| u[j]@)
}

/// The absolute value of a scalar, with the library's own tie-break: `n`
/// itself whenever `n >= -n`.
pub fn abs<K: Field>(n: K) -> (r: K)
    ensures
        r == abs_spec(n),
{
    let m = n.negate();
    if m.le(n) {
        n
    } else {
        m
    }
}

impl<K: Field> Vector<K> {
    /// Wraps the given scalars; the vector's dimension is their count.
    pub fn new(data: Vec<K>) -> (r: Self)
        ensures
            r@ == data@,
    {
        Vector { data }
    }

    /// Read access to the backing storage.
    pub fn data(&self) -> (r: &Vec<K>)
        ensures
            r@ == self@,
    {
        &self.data
    }

    /// Write access to the backing storage.
    pub fn data_mut(&mut self) -> (r: &mut Vec<K>)
        ensures
            (*r)@ == old(self)@,
            final(self)@ == (*final(r))@,
    {
        &mut self.data
    }

    /// Adds `v` componentwise into `self`.
    pub fn add(&mut self, v: &Vector<K>)
        requires
            old(self)@.len() == v@.len(),
        ensures
            final(self)@ == add_seq(old(self)@, v@),
    {
        let ghost u0 = self@;
        let n = self.data.len();
        let mut i: usize = 0;
        while i < n
            invariant
                n == u0.len(),
                self.data@.len() == n,
                v@.len() == n,
                i <= n,
                forall|j: int| 0 <= j < i ==> self.data@[j] == u0[j].add_s(v@[j]),
                forall|j: int| i <= j < n ==> self.data@[j] == u0[j],
            decreases n - i,
        {
            self.data[i] = self.data[i].plus(v.data[i]);
            i += 1;
        }
        proof {
            assert(self@ =~= add_seq(u0, v@));
        }
    }

    /// Subtracts `v` componentwise from `self`.
    pub fn sub(&mut self, v: &Vector<K>)
        requires
            old(self)@.len() == v@.len(),
        ensures
            final(self)@ == sub_seq(old(self)@, v@),
    {
        let ghost u0 = self@;
        let n = self.data.len();
        let mut i: usize = 0;
        while i < n
            invariant
                n == u0.len(),
                self.data@.len() == n,
                v@.len() == n,
                i <= n,
                forall|j: int| 0 <= j < i ==> self.data@[j] == u0[j].sub_s(v@[j]),
                forall|j: int| i <= j < n ==> self.data@[j] == u0[j],
            decreases n - i,
        {
            self.data[i] = self.data[i].minus(v.data[i]);
            i += 1;
        }
        proof {
            assert(self@ =~= sub_seq(u0, v@));
        }
    }

    /// Componentwise product, returning a new vector.
    pub fn mul(self, other: Self) -> (r: Self)
        requires
            self@.len() == other@.len(),
        ensures
            r@ == mul_seq(self@, other@),
    {
        let ghost u0 = self@;
        let mut result = self;
        let n = result.data.len();
        let mut i: usize = 0;
        while i < n
            invariant
                n == u0.len(),
                result.data@.len() == n,
                other@.len() == n,
                i <= n,
                forall|j: int| 0 <= j < i ==> result.data@[j] == u0[j].mul_s(other@[j]),
                forall|j: int| i <= j < n ==> result.data@[j] == u0[j],
            decreases n - i,
        {
            result.data[i] = result.data[i].times(other.data[i]);
            i += 1;
        }
        proof {
            assert(result@ =~= mul_seq(u0, other@));
        }
        result
    }

    /// Componentwise quotient, returning a new vector.  Whether each division
    /// is defined is the caller's responsibility, as with scalar division.
    pub fn div(self, other: Self) -> (r: Self)
        requires
            self@.len() == other@.len(),
            forall|i: int| 0 <= i < self@.len() ==> #[trigger] self@[i].div_ok(other@[i]),
        ensures
            r@ == div_seq(self@, other@),
    {
        let ghost u0 = self@;
        let mut result = self;
        let n = result.data.len();
        let mut i: usize = 0;
        while i < n
            invariant
                n == u0.len(),
                result.data@.len() == n,
                other@.len() == n,
                i <= n,
                forall|j: int| 0 <= j < n ==> #[trigger] u0[j].div_ok(other@[j]),
                forall|j: int| 0 <= j < i ==> result.data@[j] == u0[j].div_s(other@[j]),
                forall|j: int| i <= j < n ==> result.data@[j] == u0[j],
            decreases n - i,
        {
            proof {
                assert(u0[i as int].div_ok(other@[i as int]));
                assert(result.data@[i as int] == u0[i as int]);
            }
            result.data[i] = result.data[i].over(other.data[i]);
            i += 1;
        }
        proof {
            assert(result@ =~= div_seq(u0, other@));
        }
        result
    }

    /// Multiplies every component by `a`, in place.
    pub fn scl(&mut self, a: K)
        ensures
            final(self)@ == scl_seq(old(self)@, a),
    {
        let ghost u0 = self@;
        let n = self.data.len();
        let mut i: usize = 0;
        while i < n
            invariant
                n == u0.len(),
                self.data@.len() == n,
                i <= n,
                forall|j: int| 0 <= j < i ==> self.data@[j] == u0[j].mul_s(a),
                forall|j: int| i <= j < n ==> self.data@[j] == u0[j],
            decreases n - i,
        {
            self.data[i] = self.data[i].times(a);
            i += 1;
        }
        proof {
            assert(self@ =~= scl_seq(u0, a));
        }
    }

    /// The dot product: a zero-initialised accumulator takes one fused
    /// multiply-add per index, in ascending index order.
    pub fn dot(&self, v: &Vector<K>) -> (r: K)
        requires
            self@.len() == v@.len(),
        ensures
            r == dot_seq(self@, v@),
    {
        let mut res = K::zero();
        let n = self.data.len();
        let mut i: usize = 0;
        while i < n
            invariant
                n == self@.len(),
                v@.len() == n,
                i <= n,
                res == dot_prefix(self@, v@, i as int),
            decreases n - i,
        {
            res = self.data[i].fma(v.data[i], res);
            i += 1;
        }
        res
    }

    /// The 1-norm: the sum of the absolute values of all components,
    /// accumulated by plain addition in ascending index order.
    pub fn norm_1(&self) -> (r: K)
        ensures
            r == norm_1_prefix(self@, self@.len() as int),
    {
        let mut res = K::zero();
        let n = self.data.len();
        let mut i: usize = 0;
        while i < n
            invariant
                n == self@.len(),
                i <= n,
                res == norm_1_prefix(self@, i as int),
            decreases n - i,
        {
            res = res.plus(abs(self.data[i]));
            i += 1;
        }
        res
    }

    /// The infinity norm: the true maximum of the componentwise absolute
    /// values, over all components.
    pub fn norm_inf(&self) -> (r: K)
        requires
            self@.len() > 0,
        ensures
            exists|i: int| 0 <= i < self@.len() && r == abs_spec(self@[i]),
            forall|i: int| 0 <= i < self@.len() ==> (#[trigger] abs_spec(self@[i])).le_s(r),
    {
        let mut res = abs(self.data[0]);
        proof {
            K::le_refl(res);
        }
        let n = self.data.len();
        let mut i: usize = 1;
        while i < n
            invariant
                n == self@.len(),
                1 <= i <= n,
                exists|j: int| 0 <= j < i && res == abs_spec(self@[j]),
                forall|j: int| 0 <= j < i ==> (#[trigger] abs_spec(self@[j])).le_s(res),
            decreases n - i,
        {
            let a = abs(self.data[i]);
            if res.le(a) {
                proof {
                    assert forall|j: int| 0 <= j < i + 1 implies (#[trigger] abs_spec(
                        self@[j],
                    )).le_s(a) by {
                        if j < i {
                            K::le_trans(abs_spec(self@[j]), res, a);
                        } else {
                            K::le_refl(a);
                        }
                    }
                }
                res = a;
            } else {
                proof {
                    K::le_total(res, a);
                }
            }
            i += 1;
        }
        res
    }

    /// The linear combination of the vectors `u` with the coefficients
    /// `coefs`: component `i` of the result accumulates
    /// `u[j][i] * coefs[j]` by fused multiply-adds, in ascending
    /// coefficient order, out of a zero accumulator.
    pub fn linear_combination(u: &[Vector<K>], coefs: &[K]) -> (r: Vector<K>)
        requires
            u@.len() == coefs@.len(),
            u@.len() > 0,
            forall|j: int| 0 <= j < u@.len() ==> (#[trigger] u@[j])@.len() == u@[0]@.len(),
        ensures
            r@ == combo_seq(views_of(u@), coefs@, u@[0]@.len()),
    {
        let m = u.len();
        let dim = u[0].data.len();
        let mut res: Vec<K> = Vec::new();
        let mut i: usize = 0;
        while i < dim
            invariant
                m == u@.len(),
                m == coefs@.len(),
                m > 0,
                forall|j: int| 0 <= j < m ==> (#[trigger] u@[j])@.len() == dim,
                i <= dim,
                res@.len() == i,
                forall|c: int|
                    0 <= c < i ==> res@[c] == combo_term(views_of(u@), coefs@, c, m as int),
            decreases dim - i,
        {
            let mut acc = K::zero();
            let mut j: usize = 0;
            while j < m
                invariant
                    m == u@.len(),
                    m == coefs@.len(),
                    i < dim,
                    forall|k: int| 0 <= k < m ==> (#[trigger] u@[k])@.len() == dim,
                    j <= m,
                    acc == combo_term(views_of(u@), coefs@, i as int, j as int),
                decreases m - j,
            {
                acc = u[j].data[i].fma(coefs[j], acc);
                j += 1;
            }
            res.push(acc);
            i += 1;
        }
        proof {
            assert(res@ =~= combo_seq(views_of(u@), coefs@, u@[0]@.len()));
        }
        Vector { data: res }
    }

    /// Componentwise interpolation between `u` and `v`: each component is
    /// the single fused multiply-add `(v[i] - u[i]) * t + u[i]`, identical
    /// to the scalar interpolation applied component by component.  `t` is
    /// not clamped, so values outside the unit interval extrapolate.
    pub fn lerp(u: &Vector<K>, v: &Vector<K>, t: K) -> (r: Vector<K>)
        requires
            u@.len() == v@.len(),
        ensures
            r@ == lerp_seq(u@, v@, t),
    {
        let n = u.data.len();
        let mut res: Vec<K> = Vec::new();
        let mut i: usize = 0;
        while i < n
            invariant
                n == u@.len(),
                v@.len() == n,
                i <= n,
                res@.len() == i,
                forall|j: int| 0 <= j < i ==> res@[j] == v@[j].sub_s(u@[j]).fma_s(t, u@[j]),
            decreases n - i,
        {
            res.push(v.data[i].minus(u.data[i]).fma(t, u.data[i]));
            i += 1;
        }
        proof {
            assert(res@ =~= lerp_seq(u@, v@, t));
        }
        Vector { data: res }
    }
}

impl<K: Field> Vector<K> {
    /// The three-dimensional cross product, by the standard index formula.
    /// It is defined for dimension three only; any other dimension is a
    /// contract violation of the caller.
    pub fn cross_product(u: &Vector<K>, v: &Vector<K>) -> (r: Vector<K>)
        requires
            u@.len() == 3,
            v@.len() == 3,
        ensures
            r@.len() == 3,
            r@[0] == u@[1].mul_s(v@[2]).sub_s(u@[2].mul_s(v@[1])),
            r@[1] == u@[2].mul_s(v@[0]).sub_s(u@[0].mul_s(v@[2])),
            r@[2] == u@[0].mul_s(v@[1]).sub_s(u@[1].mul_s(v@[0])),
    {
        let mut res: Vec<K> = Vec::new();
        res.push(u.data[1].times(v.data[2]).minus(u.data[2].times(v.data[1])));
        res.push(u.data[2].times(v.data[0]).minus(u.data[0].times(v.data[2])));
        res.push(u.data[0].times(v.data[1]).minus(u.data[1].times(v.data[0])));
        Vector { data: res }
    }
}

} // verus!

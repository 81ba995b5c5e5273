use crate::traits::Field;
use crate::vector::Vector;
use crate::vector::add_seq;
use crate::vector::dot_prefix;
use crate::vector::dot_seq;
use crate::vector::lerp_seq;
use crate::vector::scl_seq;
use crate::vector::sub_seq;
use vstd::prelude::*;

verus! {

/// A fixed-shape grid of scalars, stored row-major: the outer index selects
/// the row, the inner index the column.  The shape is set at construction
/// and never changes.  The column count is carried in a field of its own so
/// that a matrix with rows of length zero, or with no rows at all, still
/// remembers its width.
#[derive(Clone, Debug, PartialEq)]
pub struct Matrix<K> {
    data: Vec<Vec<K>>,
    cols: usize,
}

impl<K> View for Matrix<K> {
    type V = Seq<Seq<K>>;

    closed spec fn view(&self) -> Seq<Seq<K>> {
        Seq::new(self.data@.len(), |i: int| self.data@[i]@)
    }
}

/// Column `x` of a grid, read top to bottom.
pub open spec fn col_of<K>(m: Seq<Seq<K>>, x: int) -> Seq<K> {
    Seq::new(m.len(), |z: int| m[z][x])
}

/// Row-by-row componentwise addition of two grids.
pub open spec fn add_grid<K: Field>(u: Seq<Seq<K>>, v: Seq<Seq<K>>) -> Seq<Seq<K>> {
    Seq::new(u.len(), |i: int| add_seq(u[i], v[i]))
}

/// Row-by-row componentwise subtraction.
pub open spec fn sub_grid<K: Field>(u: Seq<Seq<K>>, v: Seq<Seq<K>>) -> Seq<Seq<K>> {
    Seq::new(u.len(), |i: int| sub_seq(u[i], v[i]))
}

/// Every entry multiplied by the scalar `a`.
pub open spec fn scl_grid<K: Field>(u: Seq<Seq<K>>, a: K) -> Seq<Seq<K>> {
    Seq::new(u.len(), |i: int| scl_seq(u[i], a))
}

/// Entrywise interpolation of two grids, one fused multiply-add per entry.
pub open spec fn lerp_grid<K: Field>(u: Seq<Seq<K>>, v: Seq<Seq<K>>, t: K) -> Seq<Seq<K>> {
    Seq::new(u.len(), |i: int| lerp_seq(u[i], v[i], t))
}

/// The mathematical contents of a sequence of matrices.
pub open spec fn grid_views_of<K>(u: Seq<Matrix<K>>) -> Seq<Seq<Seq<K>>> {
    Seq::new(u.len(), |j: int| u[j]@)
}

/// Entry `(i, j)` of a linear combination of grids, after the first `n`
/// terms: a zero-initialised accumulator takes one fused multiply-add per
/// coefficient, in ascending coefficient order.
pub open spec fn combo_grid_term<K: Field>(
    ms: Seq<Seq<Seq<K>>>,
    cs: Seq<K>,
    i: int,
    j: int,
    n: int,
) -> K
    decreases n,
{
    if n <= 0 {
        K::zero_s()
    } else {
        ms[n - 1][i][j].fma_s(cs[n - 1], combo_grid_term(ms, cs, i, j, n - 1))
    }
}

/// The accumulator of the trace after the first `n` diagonal entries,
/// summed by plain addition in ascending index order.
pub open spec fn trace_prefix<K: Field>(m: Seq<Seq<K>>, n: int) -> K
    decreases n,
{
    if n <= 0 {
        K::zero_s()
    } else {
        trace_prefix(m, n - 1).add_s(m[n - 1][n - 1])
    }
}

impl<K> Matrix<K> {
    /// The number of columns.
    pub closed spec fn cols(self) -> nat {
        self.cols as nat
    }

    /// Well-formedness: every row is exactly as long as the declared column
    /// count.
    pub open spec fn wf(self) -> bool {
        forall|i: int| 0 <= i < self@.len() ==> (#[trigger] self@[i]).len() == self.cols()
    }
}

/// `r` holds the transpose of `m`: its shape is `m`'s shape mirrored, and
/// entry `(c, rr)` of `r` is entry `(rr, c)` of `m`.
pub open spec fn is_transpose_of<K>(r: Matrix<K>, m: Matrix<K>) -> bool {
    &&& r@.len() == m.cols()
    &&& r.cols() == m@.len()
    &&& forall|c: int| 0 <= c < r@.len() ==> (#[trigger] r@[c]).len() == m@.len()
    &&& forall|c: int, rr: int|
        0 <= c < r@.len() && 0 <= rr < m@.len() ==> #[trigger] r@[c][rr] == m@[rr][c]
}

/// Adds `b` into `a`, component by component.
fn row_add_into<K: Field>(a: &mut Vec<K>, b: &Vec<K>)
    requires
        old(a)@.len() == b@.len(),
    ensures
        final(a)@ == add_seq(old(a)@, b@),
{
    let ghost a0 = a@;
    let n = a.len();
    let mut j: usize = 0;
    while j < n
        invariant
            n == a0.len(),
            a@.len() == n,
            b@.len() == n,
            j <= n,
            forall|k: int| 0 <= k < j ==> a@[k] == a0[k].add_s(b@[k]),
            forall|k: int| j <= k < n ==> a@[k] == a0[k],
        decreases n - j,
    {
        a[j] = a[j].plus(b[j]);
        j += 1;
    }
    proof {
        assert(a@ =~= add_seq(a0, b@));
    }
}

/// Subtracts `b` from `a`, component by component.
fn row_sub_into<K: Field>(a: &mut Vec<K>, b: &Vec<K>)
    requires
        old(a)@.len() == b@.len(),
    ensures
        final(a)@ == sub_seq(old(a)@, b@),
{
    let ghost a0 = a@;
    let n = a.len();
    let mut j: usize = 0;
    while j < n
        invariant
            n == a0.len(),
            a@.len() == n,
            b@.len() == n,
            j <= n,
            forall|k: int| 0 <= k < j ==> a@[k] == a0[k].sub_s(b@[k]),
            forall|k: int| j <= k < n ==> a@[k] == a0[k],
        decreases n - j,
    {
        a[j] = a[j].minus(b[j]);
        j += 1;
    }
    proof {
        assert(a@ =~= sub_seq(a0, b@));
    }
}

/// Multiplies every component of `a` by `t`.
fn row_scl_into<K: Field>(a: &mut Vec<K>, t: K)
    ensures
        final(a)@ == scl_seq(old(a)@, t),
{
    let ghost a0 = a@;
    let n = a.len();
    let mut j: usize = 0;
    while j < n
        invariant
            n == a0.len(),
            a@.len() == n,
            j <= n,
            forall|k: int| 0 <= k < j ==> a@[k] == a0[k].mul_s(t),
            forall|k: int| j <= k < n ==> a@[k] == a0[k],
        decreases n - j,
    {
        a[j] = a[j].times(t);
        j += 1;
    }
    proof {
        assert(a@ =~= scl_seq(a0, t));
    }
}

impl<K: Field> Matrix<K> {
    /// Wraps the given rows; the shape is theirs.  Every row must be as long
    /// as the first.  A matrix built from no rows has zero columns; one with
    /// a different width can be had by transposing.
    pub fn new(data: Vec<Vec<K>>) -> (r: Self)
        requires
            forall|i: int|
                0 <= i < data@.len() ==> (#[trigger] data@[i])@.len() == data@[0]@.len(),
        ensures
            r@.len() == data@.len(),
            forall|i: int| 0 <= i < data@.len() ==> r@[i] == (#[trigger] data@[i])@,
            r.cols() == (if data@.len() > 0 {
                data@[0]@.len()
            } else {
                0
            }),
            r.wf(),
    {
        let c = if data.len() > 0 {
            data[0].len()
        } else {
            0
        };
        Matrix { data, cols: c }
    }

    /// The column count, also meaningful when there are no rows.
    pub fn col_count(&self) -> (c: usize)
        ensures
            c == self.cols(),
    {
        self.cols
    }

    /// Read access to the rows.
    pub fn data(&self) -> (r: &Vec<Vec<K>>)
        ensures
            r@.len() == self@.len(),
            forall|i: int| 0 <= i < self@.len() ==> (#[trigger] r@[i])@ == self@[i],
    {
        &self.data
    }

    /// Adds `v` entrywise into `self`; the two shapes must be identical.
    pub fn add(&mut self, v: &Matrix<K>)
        requires
            old(self).wf(),
            v.wf(),
            old(self)@.len() == v@.len(),
            old(self).cols() == v.cols(),
        ensures
            final(self)@ == add_grid(old(self)@, v@),
            final(self).cols() == old(self).cols(),
            final(self).wf(),
    {
        let ghost u0 = self@;
        let ghost c0 = self.cols;
        proof {
            assert forall|r: int| 0 <= r < u0.len() implies (#[trigger] u0[r]).len()
                == v@[r].len() && u0[r].len() == c0 by {
                assert(old(self)@[r].len() == old(self).cols());
                assert(v@[r].len() == v.cols());
            }
        }
        let rows = self.data.len();
        let mut i: usize = 0;
        while i < rows
            invariant
                rows == u0.len(),
                self.data@.len() == rows,
                v@.len() == rows,
                forall|r: int| 0 <= r < rows ==> (#[trigger] u0[r]).len() == v@[r].len(),
                forall|r: int| 0 <= r < rows ==> (#[trigger] u0[r]).len() == c0,
                i <= rows,
                self.cols == c0,
                forall|r: int| 0 <= r < i ==> self.data@[r]@ == add_seq(u0[r], v@[r]),
                forall|r: int| i <= r < rows ==> self.data@[r]@ == u0[r],
            decreases rows - i,
        {
            proof {
                assert(self.data@[i as int]@ == u0[i as int]);
                assert(v@[i as int] == v.data@[i as int]@);
            }
            row_add_into(&mut self.data[i], &v.data[i]);
            i += 1;
        }
        proof {
            assert(self@ =~= add_grid(u0, v@));
            assert forall|r: int| 0 <= r < self@.len() implies (#[trigger] self@[r]).len()
                == self.cols() by {
                assert(self@[r].len() == add_seq(u0[r], v@[r]).len());
            }
        }
    }

    /// Subtracts `v` entrywise from `self`; the two shapes must be
    /// identical.
    pub fn sub(&mut self, v: &Matrix<K>)
        requires
            old(self).wf(),
            v.wf(),
            old(self)@.len() == v@.len(),
            old(self).cols() == v.cols(),
        ensures
            final(self)@ == sub_grid(old(self)@, v@),
            final(self).cols() == old(self).cols(),
            final(self).wf(),
    {
        let ghost u0 = self@;
        let ghost c0 = self.cols;
        proof {
            assert forall|r: int| 0 <= r < u0.len() implies (#[trigger] u0[r]).len()
                == v@[r].len() && u0[r].len() == c0 by {
                assert(old(self)@[r].len() == old(self).cols());
                assert(v@[r].len() == v.cols());
            }
        }
        let rows = self.data.len();
        let mut i: usize = 0;
        while i < rows
            invariant
                rows == u0.len(),
                self.data@.len() == rows,
                v@.len() == rows,
                forall|r: int| 0 <= r < rows ==> (#[trigger] u0[r]).len() == v@[r].len(),
                forall|r: int| 0 <= r < rows ==> (#[trigger] u0[r]).len() == c0,
                i <= rows,
                self.cols == c0,
                forall|r: int| 0 <= r < i ==> self.data@[r]@ == sub_seq(u0[r], v@[r]),
                forall|r: int| i <= r < rows ==> self.data@[r]@ == u0[r],
            decreases rows - i,
        {
            proof {
                assert(self.data@[i as int]@ == u0[i as int]);
                assert(v@[i as int] == v.data@[i as int]@);
            }
            row_sub_into(&mut self.data[i], &v.data[i]);
            i += 1;
        }
        proof {
            assert(self@ =~= sub_grid(u0, v@));
            assert forall|r: int| 0 <= r < self@.len() implies (#[trigger] self@[r]).len()
                == self.cols() by {
                assert(self@[r].len() == sub_seq(u0[r], v@[r]).len());
            }
        }
    }

    /// Multiplies every entry by `a`, in place.
    pub fn scl(&mut self, a: K)
        ensures
            final(self)@ == scl_grid(old(self)@, a),
            final(self).cols() == old(self).cols(),
    {
        let ghost u0 = self@;
        let ghost c0 = self.cols;
        let rows = self.data.len();
        let mut i: usize = 0;
        while i < rows
            invariant
                rows == u0.len(),
                self.data@.len() == rows,
                i <= rows,
                self.cols == c0,
                forall|r: int| 0 <= r < i ==> self.data@[r]@ == scl_seq(u0[r], a),
                forall|r: int| i <= r < rows ==> self.data@[r]@ == u0[r],
            decreases rows - i,
        {
            row_scl_into(&mut self.data[i], a);
            i += 1;
        }
        proof {
            assert(self@ =~= scl_grid(u0, a));
        }
    }

    /// The matrix-vector product: output row `y` is the dot product of row
    /// `y` with `v`, accumulated column-ascending by fused multiply-adds.
    pub fn mul_vec(&self, v: &Vector<K>) -> (r: Vector<K>)
        requires
            self.wf(),
            self.cols() == v@.len(),
        ensures
            r@.len() == self@.len(),
            forall|y: int| 0 <= y < self@.len() ==> r@[y] == dot_seq(#[trigger] self@[y], v@),
    {
        let rows = self.data.len();
        let cols = v.data().len();
        let mut res: Vec<K> = Vec::new();
        let mut y: usize = 0;
        while y < rows
            invariant
                rows == self@.len(),
                cols == v@.len(),
                self.wf(),
                self.cols() == cols,
                y <= rows,
                res@.len() == y,
                forall|r: int| 0 <= r < y ==> res@[r] == dot_seq(#[trigger] self@[r], v@),
            decreases rows - y,
        {
            proof {
                assert(self@[y as int].len() == self.cols());
            }
            let mut acc = K::zero();
            let mut x: usize = 0;
            while x < cols
                invariant
                    rows == self@.len(),
                    cols == v@.len(),
                    y < rows,
                    self@[y as int].len() == cols,
                    x <= cols,
                    acc == dot_prefix(self@[y as int], v@, x as int),
                decreases cols - x,
            {
                acc = self.data[y][x].fma(v.data()[x], acc);
                x += 1;
            }
            res.push(acc);
            y += 1;
        }
        Vector::new(res)
    }

    /// The matrix product: entry `(y, x)` of the result is the dot product
    /// of row `y` of `self` with column `x` of `m`, accumulated in ascending
    /// order of the shared index by fused multiply-adds.
    pub fn mul_mat(&self, m: &Matrix<K>) -> (r: Matrix<K>)
        requires
            self.wf(),
            self.cols() == m@.len(),
            m.wf(),
        ensures
            r@.len() == self@.len(),
            forall|y: int| 0 <= y < self@.len() ==> (#[trigger] r@[y]).len() == m.cols(),
            forall|y: int, x: int|
                0 <= y < self@.len() && 0 <= x < m.cols() ==> #[trigger] r@[y][x] == dot_seq(
                    self@[y],
                    col_of(m@, x),
                ),
            r.cols() == m.cols(),
            r.wf(),
    {
        let rows = self.data.len();
        let inner = m.data.len();
        let p = m.cols;
        let mut res: Vec<Vec<K>> = Vec::new();
        let mut y: usize = 0;
        while y < rows
            invariant
                rows == self@.len(),
                inner == m@.len(),
                p == m.cols(),
                m.wf(),
                self.wf(),
                self.cols() == inner,
                y <= rows,
                res@.len() == y,
                forall|r: int| 0 <= r < y ==> (#[trigger] res@[r])@.len() == m.cols(),
                forall|r: int, x: int|
                    0 <= r < y && 0 <= x < m.cols() ==> #[trigger] res@[r]@[x] == dot_seq(
                        self@[r],
                        col_of(m@, x),
                    ),
            decreases rows - y,
        {
            let mut row: Vec<K> = Vec::new();
            let mut x: usize = 0;
            while x < p
                invariant
                    rows == self@.len(),
                    inner == m@.len(),
                    p == m.cols(),
                    m.wf(),
                    self.wf(),
                self.cols() == inner,
                    y < rows,
                    x <= p,
                    row@.len() == x,
                    forall|c: int|
                        0 <= c < x ==> #[trigger] row@[c] == dot_seq(
                            self@[y as int],
                            col_of(m@, c),
                        ),
                decreases p - x,
            {
                let mut acc = K::zero();
                let mut z: usize = 0;
                while z < inner
                    invariant
                        rows == self@.len(),
                        inner == m@.len(),
                        p == m.cols(),
                        m.wf(),
                        self.wf(),
                self.cols() == inner,
                        y < rows,
                        x < p,
                        z <= inner,
                        acc == dot_prefix(self@[y as int], col_of(m@, x as int), z as int),
                    decreases inner - z,
                {
                    proof {
                        assert(self@[y as int] == self.data@[y as int]@);
                        assert(m@[z as int] == m.data@[z as int]@);
                    }
                    acc = self.data[y][z].fma(m.data[z][x], acc);
                    z += 1;
                }
                row.push(acc);
                x += 1;
            }
            res.push(row);
            y += 1;
        }
        let ghost resv = res@;
        let r = Matrix { data: res, cols: p };
        proof {
            assert forall|i: int| 0 <= i < r@.len() implies (#[trigger] r@[i]).len()
                == r.cols() by {
                assert(r@[i] == resv[i]@);
            }
        }
        r
    }

    /// The linear combination of the matrices `u` with the coefficients
    /// `coefs`: each entry accumulates `u[j][row][col] * coefs[j]` by fused
    /// multiply-adds, in ascending coefficient order.
    pub fn linear_combination(u: &[Matrix<K>], coefs: &[K]) -> (r: Matrix<K>)
        requires
            u@.len() == coefs@.len(),
            u@.len() > 0,
            forall|j: int| 0 <= j < u@.len() ==> (#[trigger] u@[j]).wf(),
            forall|j: int| 0 <= j < u@.len() ==> (#[trigger] u@[j])@.len() == u@[0]@.len(),
            forall|j: int| 0 <= j < u@.len() ==> (#[trigger] u@[j]).cols() == u@[0].cols(),
        ensures
            r@.len() == u@[0]@.len(),
            forall|i: int| 0 <= i < r@.len() ==> (#[trigger] r@[i]).len() == u@[0].cols(),
            forall|i: int, j: int|
                0 <= i < r@.len() && 0 <= j < r@[i].len() ==> #[trigger] r@[i][j]
                    == combo_grid_term(grid_views_of(u@), coefs@, i, j, u@.len() as int),
            r.cols() == u@[0].cols(),
            r.wf(),
    {
        let m = u.len();
        let rows = u[0].data.len();
        let width = u[0].cols;
        let mut res: Vec<Vec<K>> = Vec::new();
        let mut i: usize = 0;
        while i < rows
            invariant
                m == u@.len(),
                m == coefs@.len(),
                m > 0,
                rows == u@[0]@.len(),
                width == u@[0].cols(),
                forall|j: int| 0 <= j < m ==> (#[trigger] u@[j]).wf(),
                forall|j: int| 0 <= j < m ==> (#[trigger] u@[j])@.len() == rows,
                forall|j: int| 0 <= j < m ==> (#[trigger] u@[j]).cols() == u@[0].cols(),
                i <= rows,
                res@.len() == i,
                forall|r: int| 0 <= r < i ==> (#[trigger] res@[r])@.len() == width,
                forall|r: int, c: int|
                    0 <= r < i && 0 <= c < res@[r]@.len() ==> #[trigger] res@[r]@[c]
                        == combo_grid_term(grid_views_of(u@), coefs@, r, c, m as int),
            decreases rows - i,
        {
            let mut row: Vec<K> = Vec::new();
            let mut j: usize = 0;
            while j < width
                invariant
                    m == u@.len(),
                    m == coefs@.len(),
                    m > 0,
                    rows == u@[0]@.len(),
                    width == u@[0].cols(),
                    forall|jj: int| 0 <= jj < m ==> (#[trigger] u@[jj]).wf(),
                    forall|jj: int| 0 <= jj < m ==> (#[trigger] u@[jj])@.len() == rows,
                    forall|jj: int| 0 <= jj < m ==> (#[trigger] u@[jj]).cols() == u@[0].cols(),
                    i < rows,
                    j <= width,
                    row@.len() == j,
                    forall|c: int|
                        0 <= c < j ==> #[trigger] row@[c] == combo_grid_term(
                            grid_views_of(u@),
                            coefs@,
                            i as int,
                            c,
                            m as int,
                        ),
                decreases width - j,
            {
                let mut acc = K::zero();
                let mut idx: usize = 0;
                while idx < m
                    invariant
                        m == u@.len(),
                        m == coefs@.len(),
                        rows == u@[0]@.len(),
                        width == u@[0].cols(),
                        forall|jj: int| 0 <= jj < m ==> (#[trigger] u@[jj]).wf(),
                        forall|jj: int| 0 <= jj < m ==> (#[trigger] u@[jj])@.len() == rows,
                        forall|jj: int| 0 <= jj < m ==> (#[trigger] u@[jj]).cols() == u@[0].cols(),
                        i < rows,
                        j < width,
                        idx <= m,
                        acc == combo_grid_term(
                            grid_views_of(u@),
                            coefs@,
                            i as int,
                            j as int,
                            idx as int,
                        ),
                    decreases m - idx,
                {
                    proof {
                        assert(u@[idx as int]@.len() == rows);
                        assert(u@[idx as int]@[i as int].len() == u@[idx as int].cols());
                    }
                    acc = u[idx].data[i][j].fma(coefs[idx], acc);
                    idx += 1;
                }
                row.push(acc);
                j += 1;
            }
            res.push(row);
            i += 1;
        }
        let ghost resv = res@;
        let r = Matrix { data: res, cols: width };
        proof {
            assert forall|i: int| 0 <= i < r@.len() implies (#[trigger] r@[i]).len()
                == r.cols() by {
                assert(r@[i] == resv[i]@);
            }
        }
        r
    }

    /// Entrywise interpolation between `u` and `v`, each entry the single
    /// fused multiply-add of the scalar formula.  `t` is not clamped.
    pub fn lerp(u: &Matrix<K>, v: &Matrix<K>, t: K) -> (r: Matrix<K>)
        requires
            u.wf(),
            v.wf(),
            u@.len() == v@.len(),
            u.cols() == v.cols(),
        ensures
            r@ == lerp_grid(u@, v@, t),
            r.cols() == u.cols(),
            r.wf(),
    {
        let rows = u.data.len();
        let width = u.cols;
        let mut res: Vec<Vec<K>> = Vec::new();
        let mut i: usize = 0;
        while i < rows
            invariant
                rows == u@.len(),
                v@.len() == rows,
                width == u.cols(),
                u.wf(),
                v.wf(),
                u.cols() == v.cols(),
                i <= rows,
                res@.len() == i,
                forall|r: int| 0 <= r < i ==> (#[trigger] res@[r])@ == lerp_seq(u@[r], v@[r], t),
            decreases rows - i,
        {
            proof {
                assert(u@[i as int] == u.data@[i as int]@);
                assert(v@[i as int] == v.data@[i as int]@);
                assert(u@[i as int].len() == u.cols());
                assert(v@[i as int].len() == v.cols());
            }
            let cols = u.data[i].len();
            let mut row: Vec<K> = Vec::new();
            let mut j: usize = 0;
            while j < cols
                invariant
                    rows == u@.len(),
                    v@.len() == rows,
                    width == u.cols(),
                    i < rows,
                    cols == u@[i as int].len(),
                    cols == width,
                    v@[i as int].len() == cols,
                    u@[i as int] == u.data@[i as int]@,
                    v@[i as int] == v.data@[i as int]@,
                    j <= cols,
                    row@.len() == j,
                    forall|c: int|
                        0 <= c < j ==> #[trigger] row@[c] == v@[i as int][c].sub_s(
                            u@[i as int][c],
                        ).fma_s(t, u@[i as int][c]),
                decreases cols - j,
            {
                row.push(v.data[i][j].minus(u.data[i][j]).fma(t, u.data[i][j]));
                j += 1;
            }
            proof {
                assert(row@ =~= lerp_seq(u@[i as int], v@[i as int], t));
            }
            res.push(row);
            i += 1;
        }
        proof {
            assert(Seq::new(res@.len(), |i: int| res@[i]@) =~= lerp_grid(u@, v@, t));
        }
        let ghost resv = res@;
        let r = Matrix { data: res, cols: width };
        proof {
            assert forall|k: int| 0 <= k < r@.len() implies (#[trigger] r@[k]).len()
                == r.cols() by {
                assert(r@[k] == resv[k]@);
                assert(resv[k]@ == lerp_seq(u@[k], v@[k], t));
                assert(u@[k].len() == u.cols());
            }
        }
        r
    }

    /// The transpose: entry `(c, r)` of the result is entry `(r, c)` of
    /// `self`.  A pure reshape, no arithmetic; the shape is mirrored
    /// exactly, also when one of the two dimensions is zero.
    pub fn transpose(&self) -> (r: Matrix<K>)
        requires
            self.wf(),
        ensures
            r@.len() == self.cols(),
            forall|c: int| 0 <= c < r@.len() ==> (#[trigger] r@[c]).len() == self@.len(),
            forall|c: int, rr: int|
                0 <= c < r@.len() && 0 <= rr < self@.len() ==> #[trigger] r@[c][rr]
                    == self@[rr][c],
            r.cols() == self@.len(),
            r.wf(),
            is_transpose_of(r, *self),
    {
        let rows = self.data.len();
        let cols = self.cols;
        let mut res: Vec<Vec<K>> = Vec::new();
        let mut c: usize = 0;
        while c < cols
            invariant
                rows == self@.len(),
                cols == self.cols(),
                self.wf(),
                c <= cols,
                res@.len() == c,
                forall|cc: int| 0 <= cc < c ==> (#[trigger] res@[cc])@.len() == rows,
                forall|cc: int, rr: int|
                    0 <= cc < c && 0 <= rr < rows ==> #[trigger] res@[cc]@[rr] == self@[rr][cc],
            decreases cols - c,
        {
            let mut col: Vec<K> = Vec::new();
            let mut r: usize = 0;
            while r < rows
                invariant
                    rows == self@.len(),
                    cols == self.cols(),
                    self.wf(),
                    c < cols,
                    r <= rows,
                    col@.len() == r,
                    forall|rr: int| 0 <= rr < r ==> #[trigger] col@[rr] == self@[rr][c as int],
                decreases rows - r,
            {
                proof {
                    assert(self@[r as int] == self.data@[r as int]@);
                }
                col.push(self.data[r][c]);
                r += 1;
            }
            res.push(col);
            c += 1;
        }
        let ghost resv = res@;
        let r = Matrix { data: res, cols: rows };
        proof {
            assert forall|k: int| 0 <= k < r@.len() implies (#[trigger] r@[k]).len()
                == r.cols() by {
                assert(r@[k] == resv[k]@);
            }
        }
        r
    }

    /// A deliberate placeholder for row-echelon reduction: it returns the
    /// all-zero matrix of the same shape, whatever the input.  The reduction
    /// itself is a known, documented gap of the library, not a hidden
    /// failure mode.
    pub fn row_echelon(&self) -> (r: Matrix<K>)
        requires
            self.wf(),
        ensures
            r@.len() == self@.len(),
            forall|i: int| 0 <= i < r@.len() ==> (#[trigger] r@[i]).len() == self.cols(),
            forall|i: int, j: int|
                0 <= i < r@.len() && 0 <= j < self.cols() ==> #[trigger] r@[i][j] == K::zero_s(),
            r.cols() == self.cols(),
            r.wf(),
    {
        let rows = self.data.len();
        let cols = self.cols;
        let mut res: Vec<Vec<K>> = Vec::new();
        let mut i: usize = 0;
        while i < rows
            invariant
                rows == self@.len(),
                cols == self.cols(),
                i <= rows,
                res@.len() == i,
                forall|r: int| 0 <= r < i ==> (#[trigger] res@[r])@.len() == cols,
                forall|r: int, j: int|
                    0 <= r < i && 0 <= j < cols ==> #[trigger] res@[r]@[j] == K::zero_s(),
            decreases rows - i,
        {
            let mut row: Vec<K> = Vec::new();
            let mut j: usize = 0;
            while j < cols
                invariant
                    j <= cols,
                    row@.len() == j,
                    forall|jj: int| 0 <= jj < j ==> #[trigger] row@[jj] == K::zero_s(),
                decreases cols - j,
            {
                row.push(K::zero());
                j += 1;
            }
            res.push(row);
            i += 1;
        }
        let ghost resv = res@;
        let r = Matrix { data: res, cols };
        proof {
            assert forall|k: int| 0 <= k < r@.len() implies (#[trigger] r@[k]).len()
                == r.cols() by {
                assert(r@[k] == resv[k]@);
            }
        }
        r
    }

    /// The trace of a square matrix: the sum of the diagonal entries,
    /// accumulated by plain addition in ascending index order.
    pub fn trace(&self) -> (r: K)
        requires
            self.wf(),
            self@.len() == self.cols(),
        ensures
            r == trace_prefix(self@, self@.len() as int),
    {
        let n = self.data.len();
        let mut res = K::zero();
        let mut i: usize = 0;
        while i < n
            invariant
                n == self@.len(),
                n == self.cols(),
                self.wf(),
                i <= n,
                res == trace_prefix(self@, i as int),
            decreases n - i,
        {
            proof {
                assert(self@[i as int] == self.data@[i as int]@);
            }
            res = res.plus(self.data[i][i]);
            i += 1;
        }
        res
    }
}

} // verus!

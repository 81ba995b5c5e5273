use vstd::arithmetic::div_mod::lemma_div_is_ordered;
use vstd::arithmetic::div_mod::lemma_div_is_ordered_by_denominator;
use vstd::arithmetic::div_mod::lemma_div_nonincreasing;
use vstd::arithmetic::div_mod::lemma_div_pos_is_pos;
use vstd::prelude::*;
use vstd::wrapping::i64_specs;

verus! {

/// The capability set a scalar type must supply to serve as the entries of a
/// `Vector` or `Matrix`: the group and ring operations, a fused multiply-add
/// (`fma(a, b, c) = a * b + c` in one step), a total order, and the two
/// distinguished values zero and one.
///
/// Each operation comes in three parts: a `spec` function naming its result,
/// an executable method proved to return exactly that result, and a set of
/// proof obligations stating the fragment of the field laws that the
/// library's own guarantees rest on.  An implementor must discharge those
/// obligations, so everything proved generically here holds of every scalar
/// type that instantiates the trait.
pub trait Field: Sized + Copy {
    /// What addition yields.
    spec fn add_s(self, o: Self) -> Self;

    /// What subtraction yields.
    spec fn sub_s(self, o: Self) -> Self;

    /// What multiplication yields.
    spec fn mul_s(self, o: Self) -> Self;

    /// What division yields, on inputs where it is defined.
    spec fn div_s(self, o: Self) -> Self;

    /// What negation yields.
    spec fn neg_s(self) -> Self;

    /// What the fused multiply-add `self * b + c` yields.
    spec fn fma_s(self, b: Self, c: Self) -> Self;

    /// The scalar order: `self <= o`.
    spec fn le_s(self, o: Self) -> bool;

    /// The additive identity.
    spec fn zero_s() -> Self;

    /// The multiplicative identity.
    spec fn one_s() -> Self;

    /// The inputs on which division is defined.  Division by values outside
    /// this set is a domain responsibility of the caller, not of the library.
    spec fn div_ok(self, o: Self) -> bool;

    fn plus(self, o: Self) -> (r: Self)
        ensures
            r == self.add_s(o),
    ;

    fn minus(self, o: Self) -> (r: Self)
        ensures
            r == self.sub_s(o),
    ;

    fn times(self, o: Self) -> (r: Self)
        ensures
            r == self.mul_s(o),
    ;

    fn over(self, o: Self) -> (r: Self)
        requires
            self.div_ok(o),
        ensures
            r == self.div_s(o),
    ;

    fn negate(self) -> (r: Self)
        ensures
            r == self.neg_s(),
    ;

    fn fma(self, b: Self, c: Self) -> (r: Self)
        ensures
            r == self.fma_s(b, c),
    ;

    fn le(self, o: Self) -> (r: bool)
        ensures
            r == self.le_s(o),
    ;

    fn zero() -> (r: Self)
        ensures
            r == Self::zero_s(),
    ;

    fn one() -> (r: Self)
        ensures
            r == Self::one_s(),
    ;

    /// The order is reflexive.
    proof fn le_refl(a: Self)
        ensures
            a.le_s(a),
    ;

    /// The order is total.
    proof fn le_total(a: Self, b: Self)
        ensures
            a.le_s(b) || b.le_s(a),
    ;

    /// The order is transitive.
    proof fn le_trans(a: Self, b: Self, c: Self)
        requires
            a.le_s(b),
            b.le_s(c),
        ensures
            a.le_s(c),
    ;

    /// Adding and then subtracting the same scalar restores the original.
    proof fn add_sub_cancel(a: Self, b: Self)
        ensures
            a.add_s(b).sub_s(b) == a,
    ;

    /// The multiplication inside a fused multiply-add commutes.
    proof fn fma_mul_comm(a: Self, b: Self, c: Self)
        ensures
            a.fma_s(b, c) == b.fma_s(a, c),
    ;

    /// `a * 1 + 0 == a`: one accumulation step with coefficient one out of an
    /// empty accumulator reproduces the scalar.
    proof fn fma_identity(a: Self)
        ensures
            a.fma_s(Self::one_s(), Self::zero_s()) == a,
    ;

    /// `a * 0 + c == c`: a zero coefficient leaves the accumulator alone.
    proof fn fma_zero_coeff(a: Self, c: Self)
        ensures
            a.fma_s(Self::zero_s(), c) == c,
    ;

    /// `(v - u) * 1 + u == v`: interpolation at coefficient one lands
    /// exactly on the far endpoint.
    proof fn sub_fma_one(u: Self, v: Self)
        ensures
            v.sub_s(u).fma_s(Self::one_s(), u) == v,
    ;
}

/// The truncating integer quotient of `x` by `d`, written over the
/// non-negative magnitudes so that it agrees with machine division.
pub open spec fn trunc_div(x: int, d: int) -> int {
    if x == 0 {
        0
    } else if x > 0 && d > 0 {
        x / d
    } else if x < 0 && d < 0 {
        (x * -1) / (d * -1)
    } else if x < 0 {
        ((x * -1) / d) * -1
    } else {
        (x / (d * -1)) * -1
    }
}

/// Reducing an already in-range value modulo the word size leaves it alone.
proof fn lemma_signed_crop_identity(x: int)
    requires
        i64::MIN <= x <= i64::MAX,
    ensures
        i64_specs::signed_crop(x) == x,
{
    if x >= 0 {
        assert(x % 0x1_0000_0000_0000_0000 == x);
    } else {
        assert(x % 0x1_0000_0000_0000_0000 == x + 0x1_0000_0000_0000_0000);
    }
}

/// On the inputs where `i64` division is defined, the truncating quotient
/// stays within the range of the type.
proof fn lemma_trunc_div_in_range(x: int, d: int)
    requires
        i64::MIN <= x <= i64::MAX,
        i64::MIN <= d <= i64::MAX,
        d != 0,
        !(x == i64::MIN && d == -1),
    ensures
        i64::MIN <= trunc_div(x, d) <= i64::MAX,
{
    if x == 0 {
    } else if x > 0 && d > 0 {
        lemma_div_pos_is_pos(x, d);
        lemma_div_nonincreasing(x, d);
    } else if x < 0 && d < 0 {
        let xn = x * -1;
        let dn = d * -1;
        lemma_div_pos_is_pos(xn, dn);
        if dn == 1 {
            lemma_div_nonincreasing(xn, dn);
        } else {
            lemma_div_is_ordered_by_denominator(xn, 2, dn);
            lemma_div_is_ordered(xn, 0x8000_0000_0000_0000, 2);
        }
    } else if x < 0 {
        let xn = x * -1;
        lemma_div_pos_is_pos(xn, d);
        lemma_div_nonincreasing(xn, d);
    } else {
        let dn = d * -1;
        lemma_div_pos_is_pos(x, dn);
        lemma_div_nonincreasing(x, dn);
    }
}

/// The scalar instance used throughout the tests and the demonstration
/// program: 64-bit integers with wrapping ring operations, which satisfy
/// every obligation of `Field` exactly.
impl Field for i64 {
    open spec fn add_s(self, o: i64) -> i64 {
        i64_specs::wrapping_add(self, o)
    }

    open spec fn sub_s(self, o: i64) -> i64 {
        i64_specs::wrapping_sub(self, o)
    }

    open spec fn mul_s(self, o: i64) -> i64 {
        i64_specs::wrapping_mul(self, o)
    }

    open spec fn div_s(self, o: i64) -> i64 {
        trunc_div(self as int, o as int) as i64
    }

    open spec fn neg_s(self) -> i64 {
        i64_specs::wrapping_sub(0i64, self)
    }

    open spec fn fma_s(self, b: i64, c: i64) -> i64 {
        i64_specs::wrapping_add(i64_specs::wrapping_mul(self, b), c)
    }

    open spec fn le_s(self, o: i64) -> bool {
        self <= o
    }

    open spec fn zero_s() -> i64 {
        0i64
    }

    open spec fn one_s() -> i64 {
        1i64
    }

    open spec fn div_ok(self, o: i64) -> bool {
        o != 0i64 && !(self == i64::MIN && o == -1i64)
    }

    fn plus(self, o: i64) -> i64 {
        self.wrapping_add(o)
    }

    fn minus(self, o: i64) -> i64 {
        self.wrapping_sub(o)
    }

    fn times(self, o: i64) -> i64 {
        self.wrapping_mul(o)
    }

    fn over(self, o: i64) -> i64 {
        proof {
            lemma_trunc_div_in_range(self as int, o as int);
        }
        self.checked_div(o).unwrap()
    }

    fn negate(self) -> i64 {
        0i64.wrapping_sub(self)
    }

    fn fma(self, b: i64, c: i64) -> i64 {
        self.wrapping_mul(b).wrapping_add(c)
    }

    fn le(self, o: i64) -> bool {
        self <= o
    }

    fn zero() -> i64 {
        0i64
    }

    fn one() -> i64 {
        1i64
    }

    proof fn le_refl(a: i64) {
    }

    proof fn le_total(a: i64, b: i64) {
    }

    proof fn le_trans(a: i64, b: i64, c: i64) {
    }

    proof fn add_sub_cancel(a: i64, b: i64) {
    }

    proof fn fma_mul_comm(a: i64, b: i64, c: i64) {
        assert(a as int * b as int == b as int * a as int) by (nonlinear_arith);
    }

    proof fn fma_identity(a: i64) {
        assert(i64_specs::wrapping_mul(a, 1i64) == a) by {
            assert(a as int * 1 == a as int);
            lemma_signed_crop_identity(a as int);
        }
    }

    proof fn fma_zero_coeff(a: i64, c: i64) {
        assert(i64_specs::wrapping_mul(a, 0i64) == 0i64) by {
            assert(a as int * 0 == 0);
            lemma_signed_crop_identity(0);
        }
    }

    proof fn sub_fma_one(u: i64, v: i64) {
        let w = i64_specs::wrapping_sub(v, u);
        assert(i64_specs::wrapping_mul(w, 1i64) == w) by {
            assert(w as int * 1 == w as int);
            lemma_signed_crop_identity(w as int);
        }
    }
}

} // verus!

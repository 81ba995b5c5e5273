pub mod laws;
pub mod matrix;
pub mod traits;
pub mod vector;

pub use matrix::Matrix;
pub use traits::Field;
pub use vector::Vector;
pub use vector::abs;

use vstd::prelude::*;

verus! {

/// What scalar linear interpolation yields: `u + (v - u) * t`, computed as a
/// single fused multiply-add so that vector and matrix interpolation can
/// promise bit-identical per-component results.
pub open spec fn lerp_spec<V: Field>(u: V, v: V, t: V) -> V {
    v.sub_s(u).fma_s(t, u)
}

/// Linear interpolation between two scalars. `t` is not clamped: values
/// outside the unit interval extrapolate, by design.
pub fn lerp<V: Field>(u: V, v: V, t: V) -> (r: V)
    ensures
        r == lerp_spec(u, v, t),
{
    v.minus(u).fma(t, u)
}

} // verus!

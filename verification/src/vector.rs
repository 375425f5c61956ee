//! Three-component vectors, rotation bases and rotations over `Fixed`.
use crate::fixed::{
    isqrt, lemma_div_magnitude, lemma_sqrt_floor_exists, lemma_sqrt_floor_monotonic, saturate,
    sqrt_floor, Fixed, ONE_RAW,
};
use vstd::prelude::*;

verus! {

/// A vector of three fixed-point components. The controller's convention is
/// x to the right, y up, and forward along negative z.
#[derive(Clone, Copy, Debug, PartialEq, Eq, Structural)]
pub struct Vec3 {
    pub x: Fixed,
    pub y: Fixed,
    pub z: Fixed,
}

/// The square of a raw value, which always fits in 128 bits.
fn square_wide(a: Fixed) -> (r: u128)
    ensures
        r == a.raw * a.raw,
        r <= 0x4000_0000_0000_0000_0000_0000_0000_0000,
{
    assert(0 <= a.raw * a.raw <= 0x4000_0000_0000_0000_0000_0000_0000_0000) by (nonlinear_arith)
        requires
            -0x8000_0000_0000_0000 <= a.raw <= 0x7fff_ffff_ffff_ffff,
    ;
    let wide: i128 = (a.raw as i128) * (a.raw as i128);
    wide as u128
}

/// Saturates a length to the representable range.
fn saturate_length(r: u64) -> (f: Fixed)
    ensures
        f.raw == saturate(r as int),
{
    if r > 0x7fff_ffff_ffff_ffff {
        Fixed { raw: i64::MAX }
    } else {
        Fixed { raw: r as i64 }
    }
}

impl Vec3 {
    /// The vector with the given components.
    pub open spec fn spec_new(x: Fixed, y: Fixed, z: Fixed) -> Vec3 {
        Vec3 { x, y, z }
    }

    /// The vector with the given components.
    #[verifier::when_used_as_spec(spec_new)]
    pub fn new(x: Fixed, y: Fixed, z: Fixed) -> (r: Vec3)
        ensures
            r == Vec3::spec_new(x, y, z),
    {
        Vec3 { x, y, z }
    }

    /// The zero vector.
    pub open spec fn spec_zero() -> Vec3 {
        Vec3 { x: Fixed::zero(), y: Fixed::zero(), z: Fixed::zero() }
    }

    /// The zero vector.
    #[verifier::when_used_as_spec(spec_zero)]
    pub fn zero() -> (r: Vec3)
        ensures
            r == Vec3::spec_zero(),
    {
        Vec3 { x: Fixed::zero(), y: Fixed::zero(), z: Fixed::zero() }
    }

    /// The unit vector that points up.
    pub open spec fn spec_up() -> Vec3 {
        Vec3 { x: Fixed::zero(), y: Fixed::one(), z: Fixed::zero() }
    }

    /// The unit vector that points up.
    #[verifier::when_used_as_spec(spec_up)]
    pub fn up() -> (r: Vec3)
        ensures
            r == Vec3::spec_up(),
    {
        Vec3 { x: Fixed::zero(), y: Fixed::one(), z: Fixed::zero() }
    }

    /// The component-wise sum.
    pub open spec fn spec_add(self, rhs: Vec3) -> Vec3 {
        Vec3 { x: self.x.add(rhs.x), y: self.y.add(rhs.y), z: self.z.add(rhs.z) }
    }

    /// The component-wise sum.
    #[verifier::when_used_as_spec(spec_add)]
    pub fn add(self, rhs: Vec3) -> (r: Vec3)
        ensures
            r == self.spec_add(rhs),
    {
        Vec3 { x: self.x.add(rhs.x), y: self.y.add(rhs.y), z: self.z.add(rhs.z) }
    }

    /// The component-wise difference.
    pub open spec fn spec_sub(self, rhs: Vec3) -> Vec3 {
        Vec3 { x: self.x.sub(rhs.x), y: self.y.sub(rhs.y), z: self.z.sub(rhs.z) }
    }

    /// The component-wise difference.
    #[verifier::when_used_as_spec(spec_sub)]
    pub fn sub(self, rhs: Vec3) -> (r: Vec3)
        ensures
            r == self.spec_sub(rhs),
    {
        Vec3 { x: self.x.sub(rhs.x), y: self.y.sub(rhs.y), z: self.z.sub(rhs.z) }
    }

    /// The vector with every component negated.
    pub open spec fn spec_neg(self) -> Vec3 {
        Vec3 { x: self.x.neg(), y: self.y.neg(), z: self.z.neg() }
    }

    /// The vector with every component negated.
    #[verifier::when_used_as_spec(spec_neg)]
    pub fn neg(self) -> (r: Vec3)
        ensures
            r == self.spec_neg(),
    {
        Vec3 { x: self.x.neg(), y: self.y.neg(), z: self.z.neg() }
    }

    /// The vector with every component multiplied by `s`.
    pub open spec fn spec_scale(self, s: Fixed) -> Vec3 {
        Vec3 { x: self.x.mul(s), y: self.y.mul(s), z: self.z.mul(s) }
    }

    /// The vector with every component multiplied by `s`.
    #[verifier::when_used_as_spec(spec_scale)]
    pub fn scale(self, s: Fixed) -> (r: Vec3)
        ensures
            r == self.spec_scale(s),
    {
        Vec3 { x: self.x.mul(s), y: self.y.mul(s), z: self.z.mul(s) }
    }

    /// The vector with every component divided by `s`.
    pub open spec fn spec_unscale(self, s: Fixed) -> Vec3 {
        Vec3 { x: self.x.div(s), y: self.y.div(s), z: self.z.div(s) }
    }

    /// The vector with every component divided by `s`.
    #[verifier::when_used_as_spec(spec_unscale)]
    pub fn unscale(self, s: Fixed) -> (r: Vec3)
        ensures
            r == self.spec_unscale(s),
    {
        Vec3 { x: self.x.div(s), y: self.y.div(s), z: self.z.div(s) }
    }

    /// The component-wise product.
    pub open spec fn spec_mul_components(self, rhs: Vec3) -> Vec3 {
        Vec3 { x: self.x.mul(rhs.x), y: self.y.mul(rhs.y), z: self.z.mul(rhs.z) }
    }

    /// The component-wise product.
    #[verifier::when_used_as_spec(spec_mul_components)]
    pub fn mul_components(self, rhs: Vec3) -> (r: Vec3)
        ensures
            r == self.spec_mul_components(rhs),
    {
        Vec3 { x: self.x.mul(rhs.x), y: self.y.mul(rhs.y), z: self.z.mul(rhs.z) }
    }

    /// The dot product: the three component products summed from x to z.
    pub open spec fn spec_dot(self, rhs: Vec3) -> Fixed {
        self.x.mul(rhs.x).add(self.y.mul(rhs.y)).add(self.z.mul(rhs.z))
    }

    /// The dot product.
    #[verifier::when_used_as_spec(spec_dot)]
    pub fn dot(self, rhs: Vec3) -> (r: Fixed)
        ensures
            r == self.spec_dot(rhs),
    {
        self.x.mul(rhs.x).add(self.y.mul(rhs.y)).add(self.z.mul(rhs.z))
    }

    /// The cross product.
    pub open spec fn spec_cross(self, rhs: Vec3) -> Vec3 {
        Vec3 {
            x: self.y.mul(rhs.z).sub(rhs.y.mul(self.z)),
            y: self.z.mul(rhs.x).sub(rhs.z.mul(self.x)),
            z: self.x.mul(rhs.y).sub(rhs.x.mul(self.y)),
        }
    }

    /// The cross product.
    #[verifier::when_used_as_spec(spec_cross)]
    pub fn cross(self, rhs: Vec3) -> (r: Vec3)
        ensures
            r == self.spec_cross(rhs),
    {
        Vec3 {
            x: self.y.mul(rhs.z).sub(rhs.y.mul(self.z)),
            y: self.z.mul(rhs.x).sub(rhs.z.mul(self.x)),
            z: self.x.mul(rhs.y).sub(rhs.x.mul(self.y)),
        }
    }

    /// The sum of the squares of the raw components.
    pub open spec fn raw_length_squared(self) -> int {
        self.x.raw * self.x.raw + self.y.raw * self.y.raw + self.z.raw * self.z.raw
    }

    /// The sum of the squares of the raw x and z components.
    pub open spec fn raw_lateral_squared(self) -> int {
        self.x.raw * self.x.raw + self.z.raw * self.z.raw
    }

    /// The Euclidean length, rounded down to a representable value and
    /// saturated.
    pub open spec fn spec_length(self) -> Fixed {
        Fixed { raw: saturate(sqrt_floor(self.raw_length_squared())) }
    }

    /// The Euclidean length, rounded down and saturated.
    #[verifier::when_used_as_spec(spec_length)]
    pub fn length(self) -> (r: Fixed)
        ensures
            r == self.spec_length(),
            r.raw >= 0,
    {
        let sum: u128 = square_wide(self.x) + square_wide(self.y) + square_wide(self.z);
        saturate_length(isqrt(sum))
    }

    /// The length of the horizontal part (x and z), rounded down and
    /// saturated.
    pub open spec fn spec_lateral_length(self) -> Fixed {
        Fixed { raw: saturate(sqrt_floor(self.raw_lateral_squared())) }
    }

    /// The length of the horizontal part (x and z), rounded down and
    /// saturated.
    #[verifier::when_used_as_spec(spec_lateral_length)]
    pub fn lateral_length(self) -> (r: Fixed)
        ensures
            r == self.spec_lateral_length(),
            r.raw >= 0,
    {
        let sum: u128 = square_wide(self.x) + square_wide(self.z);
        saturate_length(isqrt(sum))
    }

    /// The vector divided by its length, or the zero vector where the length
    /// is zero.
    pub open spec fn spec_normalize_or_zero(self) -> Vec3 {
        if self.length().raw > 0 {
            self.unscale(self.length())
        } else {
            Vec3::zero()
        }
    }

    /// The vector divided by its length, or the zero vector where the length
    /// is zero.
    #[verifier::when_used_as_spec(spec_normalize_or_zero)]
    pub fn normalize_or_zero(self) -> (r: Vec3)
        ensures
            r == self.spec_normalize_or_zero(),
    {
        let length: Fixed = self.length();
        if length.raw > 0 {
            self.unscale(length)
        } else {
            Vec3::zero()
        }
    }
}

/// The length is the exact length rounded down to a raw unit, where it is
/// not saturated; and never above the exact length.
pub proof fn lemma_length_rounds_down(v: Vec3)
    ensures
        0 <= v.length().raw,
        v.length().raw * v.length().raw <= v.raw_length_squared(),
        v.length().raw < i64::MAX ==> v.raw_length_squared() < (v.length().raw + 1)
            * (v.length().raw + 1),
        0 <= v.lateral_length().raw,
        v.lateral_length().raw * v.lateral_length().raw <= v.raw_lateral_squared(),
        v.lateral_length().raw < i64::MAX ==> v.raw_lateral_squared() < (v.lateral_length().raw + 1)
            * (v.lateral_length().raw + 1),
        v.lateral_length().raw <= v.length().raw,
{
    let n = v.raw_length_squared();
    let m = v.raw_lateral_squared();
    assert(0 <= m <= n) by (nonlinear_arith)
        requires
            n == v.x.raw * v.x.raw + v.y.raw * v.y.raw + v.z.raw * v.z.raw,
            m == v.x.raw * v.x.raw + v.z.raw * v.z.raw,
    ;
    let r = lemma_sqrt_floor_exists(n);
    let s = lemma_sqrt_floor_exists(m);
    lemma_sqrt_floor_monotonic(m, s, n, r);
    if r > i64::MAX {
        assert(i64::MAX * i64::MAX <= r * r) by (nonlinear_arith)
            requires
                r > i64::MAX,
        ;
    }
    if s > i64::MAX {
        assert(i64::MAX * i64::MAX <= s * s) by (nonlinear_arith)
            requires
                s > i64::MAX,
        ;
    }
}

/// How long, in raw units, a vector divided by its rounded-down length
/// `length` can be: one, and the share of one raw unit of the length that
/// the rounding may add. For a length of at least one that is one and two raw
/// units.
pub open spec fn spec_unit_bound(length: Fixed) -> int {
    if length.raw == i64::MAX {
        2 * ONE_RAW
    } else {
        ONE_RAW + (ONE_RAW as int) / (length.raw as int) + 1
    }
}

/// A vector divided by its own length is no longer than the unit bound of
/// that length.
pub proof fn lemma_normalized_length(v: Vec3)
    requires
        v.length().raw > 0,
    ensures
        v.unscale(v.length()).raw_length_squared() <= spec_unit_bound(v.length())
            * spec_unit_bound(v.length()),
        0 < spec_unit_bound(v.length()) <= 2 * ONE_RAW + 1,
        ONE_RAW <= v.length().raw < i64::MAX ==> spec_unit_bound(v.length()) <= ONE_RAW + 2,
        512 < v.length().raw < i64::MAX ==> spec_unit_bound(v.length()) <= ONE_RAW + 0x80_0000,
{
    let length = v.length();
    let l = length.raw as int;
    let one = ONE_RAW as int;
    let n = v.raw_length_squared();
    let d = v.unscale(length);
    let bound = spec_unit_bound(length);
    lemma_length_rounds_down(v);
    lemma_div_magnitude(v.x, length);
    lemma_div_magnitude(v.y, length);
    lemma_div_magnitude(v.z, length);
    let qx = d.x.raw as int;
    let qy = d.y.raw as int;
    let qz = d.z.raw as int;
    let x = v.x.raw as int;
    let y = v.y.raw as int;
    let z = v.z.raw as int;
    let q2 = qx * qx + qy * qy + qz * qz;
    let l2 = l * l;
    let one2 = one * one;
    assert(0 <= q2) by (nonlinear_arith)
        requires
            q2 == qx * qx + qy * qy + qz * qz,
    ;
    assert(q2 * l2 <= n * one2) by (nonlinear_arith)
        requires
            q2 == qx * qx + qy * qy + qz * qz,
            n == x * x + y * y + z * z,
            (qx * qx) * l2 <= (x * x) * one2,
            (qy * qy) * l2 <= (y * y) * one2,
            (qz * qz) * l2 <= (z * z) * one2,
    ;
    if l == i64::MAX {
        // Every component is at most two to the sixty-third in magnitude.
        assert(n <= 3 * (0x8000_0000_0000_0000 * 0x8000_0000_0000_0000)) by (nonlinear_arith)
            requires
                n == x * x + y * y + z * z,
                -0x8000_0000_0000_0000 <= x <= 0x7fff_ffff_ffff_ffff,
                -0x8000_0000_0000_0000 <= y <= 0x7fff_ffff_ffff_ffff,
                -0x8000_0000_0000_0000 <= z <= 0x7fff_ffff_ffff_ffff,
        ;
        assert(q2 <= bound * bound) by (nonlinear_arith)
            requires
                q2 * l2 <= n * one2,
                n <= 3 * (0x8000_0000_0000_0000 * 0x8000_0000_0000_0000),
                l2 == l * l,
                l == 0x7fff_ffff_ffff_ffff,
                one2 == one * one,
                one == 0x1_0000_0000,
                bound == 2 * one,
                0 <= q2,
        {
            assert(n * one2 <= 3 * (0x8000_0000_0000_0000 * 0x8000_0000_0000_0000) * one2);
            assert(3 * (0x8000_0000_0000_0000 * 0x8000_0000_0000_0000) <= 4 * l2);
        }
    } else {
        let k = one / l;
        assert(0 <= k && k * l > one - l && k * l <= one && k <= one) by (nonlinear_arith)
            requires
                k == one / l,
                0 < l,
                0 < one,
        ;
        assert(bound * l > one * (l + 1)) by (nonlinear_arith)
            requires
                bound == one + k + 1,
                k * l > one - l,
                0 < l,
        ;
        assert(q2 < bound * bound) by (nonlinear_arith)
            requires
                q2 * l2 <= n * one2,
                n < (l + 1) * (l + 1),
                l2 == l * l,
                one2 == one * one,
                bound * l > one * (l + 1),
                0 < l,
                0 < one,
                0 <= q2,
                0 < bound,
        {
            assert(n * one2 < ((l + 1) * one) * ((l + 1) * one));
            assert(((l + 1) * one) * ((l + 1) * one) < (bound * l) * (bound * l));
            assert(q2 * l2 < (bound * bound) * l2);
        }
        if l >= one {
            assert(k <= 1) by (nonlinear_arith)
                requires
                    0 <= k,
                    k * l <= one,
                    l >= one,
                    one > 0,
            ;
        }
        if l > 512 {
            assert(k < 0x80_0000) by (nonlinear_arith)
                requires
                    0 <= k,
                    k * l <= one,
                    l > 512,
                    one == 0x1_0000_0000,
            ;
        }
    }
}

/// A rotation basis: the images of the three unit vectors, as columns.
#[derive(Clone, Copy, Debug, PartialEq, Eq, Structural)]
pub struct Mat3 {
    pub x_axis: Vec3,
    pub y_axis: Vec3,
    pub z_axis: Vec3,
}

impl Mat3 {
    /// The image of `v`: the columns weighted by the components of `v`,
    /// summed from x to z.
    pub open spec fn spec_mul_vec3(self, v: Vec3) -> Vec3 {
        self.x_axis.scale(v.x).add(self.y_axis.scale(v.y)).add(self.z_axis.scale(v.z))
    }

    /// The image of `v`.
    #[verifier::when_used_as_spec(spec_mul_vec3)]
    pub fn mul_vec3(self, v: Vec3) -> (r: Vec3)
        ensures
            r == self.spec_mul_vec3(v),
    {
        self.x_axis.scale(v.x).add(self.y_axis.scale(v.y)).add(self.z_axis.scale(v.z))
    }
}

/// A rotation in space as a quaternion `w + xi + yj + zk`.
#[derive(Clone, Copy, Debug, PartialEq, Eq, Structural)]
pub struct Quat {
    pub x: Fixed,
    pub y: Fixed,
    pub z: Fixed,
    pub w: Fixed,
}

impl Quat {
    /// The rotation that leaves every vector in place.
    pub open spec fn spec_identity() -> Quat {
        Quat { x: Fixed::zero(), y: Fixed::zero(), z: Fixed::zero(), w: Fixed::one() }
    }

    /// The rotation that leaves every vector in place.
    #[verifier::when_used_as_spec(spec_identity)]
    pub fn identity() -> (r: Quat)
        ensures
            r == Quat::spec_identity(),
    {
        Quat { x: Fixed::zero(), y: Fixed::zero(), z: Fixed::zero(), w: Fixed::one() }
    }

    /// The imaginary part as a vector.
    pub open spec fn spec_axis_part(self) -> Vec3 {
        Vec3 { x: self.x, y: self.y, z: self.z }
    }

    /// The imaginary part as a vector.
    #[verifier::when_used_as_spec(spec_axis_part)]
    pub fn axis_part(self) -> (r: Vec3)
        ensures
            r == self.spec_axis_part(),
    {
        Vec3 { x: self.x, y: self.y, z: self.z }
    }

    /// The vector `v` rotated: with `b` the imaginary part,
    /// `v (w^2 - b.b) + 2 b (v.b) + 2 w (b x v)`.
    pub open spec fn spec_rotate(self, v: Vec3) -> Vec3 {
        let b = self.axis_part();
        let two = Fixed::from_int(2);
        v.scale(self.w.mul(self.w).sub(b.dot(b))).add(b.scale(v.dot(b).mul(two))).add(
            b.cross(v).scale(self.w.mul(two)),
        )
    }

    /// The vector `v` rotated.
    #[verifier::when_used_as_spec(spec_rotate)]
    pub fn rotate(self, v: Vec3) -> (r: Vec3)
        ensures
            r == self.spec_rotate(v),
    {
        let b: Vec3 = self.axis_part();
        let two: Fixed = Fixed::from_int(2);
        v.scale(self.w.mul(self.w).sub(b.dot(b))).add(b.scale(v.dot(b).mul(two))).add(
            b.cross(v).scale(self.w.mul(two)),
        )
    }
}

} // verus!

//! Vectors and quaternions over fixed-point scalars: the value types the
//! data model stores and the rotation/composition operations the skinning
//! kernels apply.

use vstd::prelude::*;
use crate::fixed::{Fx, FX_MAX, FX_SCALE, fx_add_s, fx_sub_s, fx_mul_s};

verus! {

#[verifier::ext_equal]
pub ghost struct Vec2V {
    pub x: int,
    pub y: int,
}

#[verifier::ext_equal]
pub ghost struct Vec3V {
    pub x: int,
    pub y: int,
    pub z: int,
}

#[verifier::ext_equal]
pub ghost struct QuatV {
    pub x: int,
    pub y: int,
    pub z: int,
    pub w: int,
}

pub open spec fn v3_zero() -> Vec3V {
    Vec3V { x: 0, y: 0, z: 0 }
}

pub open spec fn v3_add_s(a: Vec3V, b: Vec3V) -> Vec3V {
    Vec3V { x: fx_add_s(a.x, b.x), y: fx_add_s(a.y, b.y), z: fx_add_s(a.z, b.z) }
}

pub open spec fn v3_scale_s(v: Vec3V, s: int) -> Vec3V {
    Vec3V { x: fx_mul_s(v.x, s), y: fx_mul_s(v.y, s), z: fx_mul_s(v.z, s) }
}

/// Cross product of two scalar-scaled vectors, rescaled back to scalar scale.
pub open spec fn v3_cross_s(a: Vec3V, b: Vec3V) -> Vec3V {
    Vec3V {
        x: fx_sub_s(fx_mul_s(a.y, b.z), fx_mul_s(a.z, b.y)),
        y: fx_sub_s(fx_mul_s(a.z, b.x), fx_mul_s(a.x, b.z)),
        z: fx_sub_s(fx_mul_s(a.x, b.y), fx_mul_s(a.y, b.x)),
    }
}

/// Rotation of `v` by the unit quaternion `q`:
/// `v + w*t + u x t` where `u` is the vector part and `t = 2*(u x v)`.
pub open spec fn quat_rotate_s(q: QuatV, v: Vec3V) -> Vec3V {
    let u = Vec3V { x: q.x, y: q.y, z: q.z };
    let c = v3_cross_s(u, v);
    let t = v3_add_s(c, c);
    v3_add_s(v3_add_s(v, v3_scale_s(t, q.w)), v3_cross_s(u, t))
}

/// Floor of the square root of `n` (0 for negative input).
pub open spec fn isqrt_s(n: int) -> int
    decreases n,
{
    if n <= 0 {
        0
    } else {
        let r = isqrt_s(n - 1);
        if (r + 1) * (r + 1) <= n {
            r + 1
        } else {
            r
        }
    }
}

pub proof fn lemma_isqrt_bounds(n: int)
    requires
        n >= 0,
    ensures
        0 <= isqrt_s(n),
        isqrt_s(n) * isqrt_s(n) <= n,
        n < (isqrt_s(n) + 1) * (isqrt_s(n) + 1),
    decreases n,
{
    if n == 0 {
    } else {
        lemma_isqrt_bounds(n - 1);
        let r = isqrt_s(n - 1);
        if (r + 1) * (r + 1) <= n {
            assert(n < (r + 2) * (r + 2)) by (nonlinear_arith)
                requires
                    r >= 0,
                    n - 1 < (r + 1) * (r + 1),
                    (r + 1) * (r + 1) <= n,
            ;
        }
    }
}

pub proof fn lemma_isqrt_unique(n: int, r: int)
    requires
        0 <= r,
        r * r <= n,
        n < (r + 1) * (r + 1),
    ensures
        isqrt_s(n) == r,
{
    lemma_isqrt_bounds(n);
    let s = isqrt_s(n);
    assert(s == r) by (nonlinear_arith)
        requires
            0 <= r,
            0 <= s,
            r * r <= n,
            n < (r + 1) * (r + 1),
            s * s <= n,
            n < (s + 1) * (s + 1),
    ;
}

/// The scalar component derived for stored vector components (x, y, z):
/// the floor square root of `FX_SCALE^2 - x^2 - y^2 - z^2`, or zero when
/// that difference is not positive; always non-negative.
pub open spec fn quat_w_s(x: int, y: int, z: int) -> int {
    let d = (FX_SCALE as int) * (FX_SCALE as int) - x * x - y * y - z * z;
    if d <= 0 {
        0
    } else {
        isqrt_s(d)
    }
}

/// Floor square root, for inputs no larger than `FX_SCALE^2`.
pub fn isqrt(n: u64) -> (r: u64)
    requires
        n as int <= (FX_SCALE as int) * (FX_SCALE as int),
    ensures
        r as int == isqrt_s(n as int),
        (r as int) * (r as int) <= n as int,
        (n as int) < (r as int + 1) * (r as int + 1),
{
    let mut lo: u64 = 0;
    let mut hi: u64 = 1_000_001;
    assert((n as int) < (hi as int) * (hi as int)) by (nonlinear_arith)
        requires
            n as int <= (FX_SCALE as int) * (FX_SCALE as int),
            hi == 1_000_001u64,
    ;
    while lo + 1 < hi
        invariant
            0 <= lo < hi <= 1_000_001,
            (lo as int) * (lo as int) <= n as int,
            (n as int) < (hi as int) * (hi as int),
        decreases hi - lo,
    {
        let mid: u64 = lo + (hi - lo) / 2;
        assert((mid as int) * (mid as int) < 0x8000_0000_0000_0000) by (nonlinear_arith)
            requires
                0 <= mid <= 1_000_001u64,
        ;
        if mid * mid <= n {
            lo = mid;
        } else {
            hi = mid;
        }
    }
    proof {
        lemma_isqrt_unique(n as int, lo as int);
    }
    lo
}

#[derive(Clone, Copy, Debug, PartialEq, Eq, Structural)]
pub struct Vec2 {
    pub x: Fx,
    pub y: Fx,
}

#[derive(Clone, Copy, Debug, PartialEq, Eq, Structural)]
pub struct Vec3 {
    pub x: Fx,
    pub y: Fx,
    pub z: Fx,
}

#[derive(Clone, Copy, Debug, PartialEq, Eq, Structural)]
pub struct Quat {
    pub x: Fx,
    pub y: Fx,
    pub z: Fx,
    pub w: Fx,
}

impl View for Vec2 {
    type V = Vec2V;

    open spec fn view(&self) -> Vec2V {
        Vec2V { x: self.x@, y: self.y@ }
    }
}

impl View for Vec3 {
    type V = Vec3V;

    open spec fn view(&self) -> Vec3V {
        Vec3V { x: self.x@, y: self.y@, z: self.z@ }
    }
}

impl View for Quat {
    type V = QuatV;

    open spec fn view(&self) -> QuatV {
        QuatV { x: self.x@, y: self.y@, z: self.z@, w: self.w@ }
    }
}

impl Vec2 {
    pub fn zero() -> (v: Vec2)
        ensures
            v@ == (Vec2V { x: 0, y: 0 }),
    {
        Vec2 { x: Fx::zero(), y: Fx::zero() }
    }
}

impl Vec3 {
    pub fn zero() -> (v: Vec3)
        ensures
            v@ == v3_zero(),
    {
        Vec3 { x: Fx::zero(), y: Fx::zero(), z: Fx::zero() }
    }

    pub fn add(self, o: Vec3) -> (v: Vec3)
        ensures
            v@ == v3_add_s(self@, o@),
    {
        Vec3 { x: self.x.add(o.x), y: self.y.add(o.y), z: self.z.add(o.z) }
    }

    pub fn scale(self, s: Fx) -> (v: Vec3)
        ensures
            v@ == v3_scale_s(self@, s@),
    {
        Vec3 { x: self.x.mul(s), y: self.y.mul(s), z: self.z.mul(s) }
    }

    pub fn cross(self, o: Vec3) -> (v: Vec3)
        ensures
            v@ == v3_cross_s(self@, o@),
    {
        Vec3 {
            x: self.y.mul(o.z).sub(self.z.mul(o.y)),
            y: self.z.mul(o.x).sub(self.x.mul(o.z)),
            z: self.x.mul(o.y).sub(self.y.mul(o.x)),
        }
    }
}

impl Quat {
    /// The identity rotation.
    pub fn identity() -> (q: Quat)
        ensures
            q@ == (QuatV { x: 0, y: 0, z: 0, w: FX_SCALE as int }),
    {
        Quat { x: Fx::zero(), y: Fx::zero(), z: Fx::zero(), w: Fx::one() }
    }

    pub fn rotate_vec(&self, v: &Vec3) -> (r: Vec3)
        ensures
            r@ == quat_rotate_s(self@, v@),
    {
        let u = Vec3 { x: self.x, y: self.y, z: self.z };
        let c = u.cross(*v);
        let t = c.add(c);
        v.add(t.scale(self.w)).add(u.cross(t))
    }

    /// Derives the scalar component from the stored vector components under
    /// the unit-quaternion constraint.
    pub fn compute_w(&mut self)
        ensures
            final (self).x == old(self).x,
            final (self).y == old(self).y,
            final (self).z == old(self).z,
            final (self).w@ == quat_w_s(old(self)@.x, old(self)@.y, old(self)@.z),
    {
        proof {
            use_type_invariant(self.x);
            use_type_invariant(self.y);
            use_type_invariant(self.z);
            let a = self.x@;
            let b = self.y@;
            let c = self.z@;
            assert(0 <= a * a <= (FX_MAX as int) * (FX_MAX as int) && 0 <= b * b <= (
            FX_MAX as int) * (FX_MAX as int) && 0 <= c * c <= (FX_MAX as int) * (
            FX_MAX as int)) by (nonlinear_arith)
                requires
                    -(FX_MAX as int) <= a <= FX_MAX as int,
                    -(FX_MAX as int) <= b <= FX_MAX as int,
                    -(FX_MAX as int) <= c <= FX_MAX as int,
            ;
        }
        let xx: i128 = (self.x.raw() as i128) * (self.x.raw() as i128);
        let yy: i128 = (self.y.raw() as i128) * (self.y.raw() as i128);
        let zz: i128 = (self.z.raw() as i128) * (self.z.raw() as i128);
        let d: i128 = (FX_SCALE as i128) * (FX_SCALE as i128) - xx - yy - zz;
        if d <= 0 {
            self.w = Fx::zero();
        } else {
            let r: u64 = isqrt(d as u64);
            proof {
                lemma_isqrt_bounds(d as int);
                assert(r as int <= FX_SCALE as int) by (nonlinear_arith)
                    requires
                        0 <= r as int,
                        (r as int) * (r as int) <= (FX_SCALE as int) * (FX_SCALE as int),
                ;
            }
            self.w = Fx::from_raw(r as i64);
        }
    }
}

} // verus!

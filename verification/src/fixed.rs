//! Fixed-point scalar arithmetic. Every geometric quantity in the library is
//! a multiple of 1 / `FX_SCALE`; the raw integer is clamped to `FX_MAX`, so
//! every operation is total (values saturate instead of overflowing).

use vstd::prelude::*;

verus! {

/// Raw units per 1.0 of scalar value.
pub const FX_SCALE: i64 = 1_000_000;

/// Largest raw magnitude a scalar may hold (one billion in scalar value).
pub const FX_MAX: i64 = 1_000_000_000_000_000;

/// A raw value within the saturation bounds.
pub open spec fn fx_wf(x: int) -> bool {
    -(FX_MAX as int) <= x && x <= FX_MAX as int
}

/// Saturation to the representable range.
pub open spec fn fx_clip(x: int) -> int {
    if x > FX_MAX as int {
        FX_MAX as int
    } else if x < -(FX_MAX as int) {
        -(FX_MAX as int)
    } else {
        x
    }
}

pub open spec fn fx_add_s(a: int, b: int) -> int {
    fx_clip(a + b)
}

pub open spec fn fx_sub_s(a: int, b: int) -> int {
    fx_clip(a - b)
}

/// Division by `FX_SCALE` that truncates toward zero, as the executable
/// integer division does.
pub open spec fn div_scale_trunc(p: int) -> int {
    if p >= 0 {
        p / (FX_SCALE as int)
    } else {
        -((-p) / (FX_SCALE as int))
    }
}

pub open spec fn fx_mul_s(a: int, b: int) -> int {
    fx_clip(div_scale_trunc(a * b))
}

/// A saturating fixed-point scalar. The raw field stays private so that the
/// type invariant (the raw value is within bounds) holds of every value.
#[derive(Clone, Copy, Debug, PartialEq, Eq, Structural)]
pub struct Fx {
    raw: i64,
}

impl View for Fx {
    type V = int;

    closed spec fn view(&self) -> int {
        self.raw as int
    }
}

impl Fx {
    #[verifier::type_invariant]
    pub open spec fn inv(self) -> bool {
        fx_wf(self@)
    }

    pub fn zero() -> (f: Fx)
        ensures
            f@ == 0,
    {
        Fx { raw: 0 }
    }

    pub fn one() -> (f: Fx)
        ensures
            f@ == FX_SCALE as int,
    {
        Fx { raw: FX_SCALE }
    }

    /// Builds a scalar from raw units, saturating at the bounds.
    pub fn from_raw(r: i64) -> (f: Fx)
        ensures
            f@ == fx_clip(r as int),
    {
        if r > FX_MAX {
            Fx { raw: FX_MAX }
        } else if r < -FX_MAX {
            Fx { raw: -FX_MAX }
        } else {
            Fx { raw: r }
        }
    }

    pub fn raw(&self) -> (r: i64)
        ensures
            r as int == self@,
    {
        self.raw
    }

    pub fn add(self, o: Fx) -> (f: Fx)
        ensures
            f@ == fx_add_s(self@, o@),
    {
        proof {
            use_type_invariant(self);
            use_type_invariant(o);
        }
        Fx::from_raw(self.raw + o.raw)
    }

    pub fn sub(self, o: Fx) -> (f: Fx)
        ensures
            f@ == fx_sub_s(self@, o@),
    {
        proof {
            use_type_invariant(self);
            use_type_invariant(o);
        }
        Fx::from_raw(self.raw - o.raw)
    }

    pub fn mul(self, o: Fx) -> (f: Fx)
        ensures
            f@ == fx_mul_s(self@, o@),
    {
        proof {
            use_type_invariant(self);
            use_type_invariant(o);
            let a = self.raw as int;
            let b = o.raw as int;
            assert(a * b <= (FX_MAX as int) * (FX_MAX as int) && -((FX_MAX as int) * (
            FX_MAX as int)) <= a * b) by (nonlinear_arith)
                requires
                    -(FX_MAX as int) <= a <= FX_MAX as int,
                    -(FX_MAX as int) <= b <= FX_MAX as int,
            ;
        }
        let p: i128 = (self.raw as i128) * (o.raw as i128);
        let neg: bool = p < 0;
        let m: u128 = if neg {
            (-p) as u128
        } else {
            p as u128
        };
        let q: u128 = m / (FX_SCALE as u128);
        let clipped: i64 = if q > FX_MAX as u128 {
            FX_MAX
        } else {
            q as i64
        };
        let r: i64 = if neg {
            -clipped
        } else {
            clipped
        };
        assert(r as int == fx_clip(div_scale_trunc(self@ * o@)));
        Fx { raw: r }
    }
}

} // verus!

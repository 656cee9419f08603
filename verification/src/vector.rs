//! Plane vectors with fixed-point components.

use crate::fixed::{fits, floor_sqrt, isqrt, wide_product, Fixed};
use vstd::prelude::*;

verus! {

/// A position, velocity or acceleration in the plane of motion.
#[derive(Clone, Copy, Debug, PartialEq, Eq, Structural)]
pub struct Vec2 {
    pub x: Fixed,
    pub y: Fixed,
}

impl Vec2 {
    /// Componentwise sum, when both components fit.
    pub open spec fn add_spec(self, rhs: Vec2) -> Option<Vec2> {
        match (self.x.add_spec(rhs.x), self.y.add_spec(rhs.y)) {
            (Some(x), Some(y)) => Some(Vec2 { x, y }),
            _ => None,
        }
    }

    /// Componentwise difference, when both components fit.
    pub open spec fn sub_spec(self, rhs: Vec2) -> Option<Vec2> {
        match (self.x.sub_spec(rhs.x), self.y.sub_spec(rhs.y)) {
            (Some(x), Some(y)) => Some(Vec2 { x, y }),
            _ => None,
        }
    }

    /// The opposite vector, when both components fit.
    pub open spec fn neg_spec(self) -> Option<Vec2> {
        match (self.x.neg_spec(), self.y.neg_spec()) {
            (Some(x), Some(y)) => Some(Vec2 { x, y }),
            _ => None,
        }
    }

    /// The vector multiplied by `k`, when both components fit.
    pub open spec fn scale_spec(self, k: Fixed) -> Option<Vec2> {
        match (self.x.mul_spec(k), self.y.mul_spec(k)) {
            (Some(x), Some(y)) => Some(Vec2 { x, y }),
            _ => None,
        }
    }

    /// The vector divided by `k`, when `k` is not zero and both components fit.
    pub open spec fn shrink_spec(self, k: Fixed) -> Option<Vec2> {
        match (self.x.div_spec(k), self.y.div_spec(k)) {
            (Some(x), Some(y)) => Some(Vec2 { x, y }),
            _ => None,
        }
    }

    /// Square of the Euclidean length, in squared raw units.
    pub open spec fn norm_squared_raw(self) -> int {
        self.x.raw * self.x.raw + self.y.raw * self.y.raw
    }

    /// Euclidean length rounded down to a raw unit, when it fits.
    pub open spec fn norm_spec(self) -> Option<Fixed> {
        let d = floor_sqrt(self.norm_squared_raw());
        if fits(d) {
            Some(Fixed { raw: d as i64 })
        } else {
            None
        }
    }

    pub fn new(x: Fixed, y: Fixed) -> (v: Vec2)
        ensures
            v == (Vec2 { x, y }),
    {
        Vec2 { x, y }
    }

    pub fn zero() -> (v: Vec2)
        ensures
            v.x.raw == 0,
            v.y.raw == 0,
    {
        Vec2 { x: Fixed::zero(), y: Fixed::zero() }
    }

    pub fn checked_add(self, rhs: Vec2) -> (r: Option<Vec2>)
        ensures
            r == self.add_spec(rhs),
    {
        match (self.x.checked_add(rhs.x), self.y.checked_add(rhs.y)) {
            (Some(x), Some(y)) => Some(Vec2 { x, y }),
            _ => None,
        }
    }

    pub fn checked_sub(self, rhs: Vec2) -> (r: Option<Vec2>)
        ensures
            r == self.sub_spec(rhs),
    {
        match (self.x.checked_sub(rhs.x), self.y.checked_sub(rhs.y)) {
            (Some(x), Some(y)) => Some(Vec2 { x, y }),
            _ => None,
        }
    }

    pub fn checked_neg(self) -> (r: Option<Vec2>)
        ensures
            r == self.neg_spec(),
    {
        match (self.x.checked_neg(), self.y.checked_neg()) {
            (Some(x), Some(y)) => Some(Vec2 { x, y }),
            _ => None,
        }
    }

    pub fn checked_scale(self, k: Fixed) -> (r: Option<Vec2>)
        ensures
            r == self.scale_spec(k),
    {
        match (self.x.checked_mul(k), self.y.checked_mul(k)) {
            (Some(x), Some(y)) => Some(Vec2 { x, y }),
            _ => None,
        }
    }

    pub fn checked_shrink(self, k: Fixed) -> (r: Option<Vec2>)
        ensures
            r == self.shrink_spec(k),
    {
        match (self.x.checked_div(k), self.y.checked_div(k)) {
            (Some(x), Some(y)) => Some(Vec2 { x, y }),
            _ => None,
        }
    }

    /// Square of the Euclidean length, in squared raw units.
    pub fn norm_squared(self) -> (n: u128)
        ensures
            n == self.norm_squared_raw(),
    {
        let xx: i128 = wide_product(self.x.raw, self.x.raw);
        let yy: i128 = wide_product(self.y.raw, self.y.raw);
        assert(xx >= 0 && yy >= 0) by (nonlinear_arith)
            requires
                xx == self.x.raw * self.x.raw,
                yy == self.y.raw * self.y.raw,
        ;
        xx as u128 + yy as u128
    }

    pub fn checked_norm(self) -> (r: Option<Fixed>)
        ensures
            r == self.norm_spec(),
    {
        let xx: i128 = wide_product(self.x.raw, self.x.raw);
        let yy: i128 = wide_product(self.y.raw, self.y.raw);
        assert(xx >= 0 && yy >= 0) by (nonlinear_arith)
            requires
                xx == self.x.raw * self.x.raw,
                yy == self.y.raw * self.y.raw,
        ;
        let d: u64 = isqrt(xx as u128 + yy as u128);
        if d > i64::MAX as u64 {
            None
        } else {
            Some(Fixed { raw: d as i64 })
        }
    }
}

} // verus!

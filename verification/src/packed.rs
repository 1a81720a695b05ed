use crate::scalar::{advance, scale_add, Scalar};
use vstd::prelude::*;

verus! {

/// Names one of the three coordinate columns.
#[derive(Clone, Copy, Debug, PartialEq, Eq)]
pub enum Axis {
    X,
    Y,
    Z,
}

/// Three lanes: the x, y and z of one entity.
#[derive(Clone, Copy, Debug, PartialEq, Eq)]
pub struct Packed3<S> {
    pub x: S,
    pub y: S,
    pub z: S,
}

/// Four lanes in ascending order: one axis of four consecutive rows.
#[derive(Clone, Copy, Debug, PartialEq, Eq)]
pub struct Packed4<S> {
    pub a: S,
    pub b: S,
    pub c: S,
    pub d: S,
}

impl<S: Scalar> Packed3<S> {
    /// The lane that belongs to `axis`.
    pub open spec fn lane(self, axis: Axis) -> S {
        match axis {
            Axis::X => self.x,
            Axis::Y => self.y,
            Axis::Z => self.z,
        }
    }

    /// This value with the lane of `axis` replaced.
    pub open spec fn with_lane(self, axis: Axis, value: S) -> Self {
        match axis {
            Axis::X => Packed3 { x: value, ..self },
            Axis::Y => Packed3 { y: value, ..self },
            Axis::Z => Packed3 { z: value, ..self },
        }
    }

    /// Lane by lane sum.
    pub open spec fn sum(self, rhs: Self) -> Self {
        Packed3 { x: self.x.sum(rhs.x), y: self.y.sum(rhs.y), z: self.z.sum(rhs.z) }
    }

    /// Every lane multiplied by `factor`, the factor on the left.
    pub open spec fn scaled(self, factor: S) -> Self {
        Packed3 { x: factor.product(self.x), y: factor.product(self.y), z: factor.product(self.z) }
    }

    /// Every lane advanced by `dt` at the rate in the same lane of `rate`.
    pub open spec fn advanced(self, dt: S, rate: Self) -> Self {
        Packed3 {
            x: advance(self.x, dt, rate.x),
            y: advance(self.y, dt, rate.y),
            z: advance(self.z, dt, rate.z),
        }
    }

    /// Only the lane of `axis` advanced.
    pub open spec fn advanced_on(self, axis: Axis, dt: S, rate: Self) -> Self {
        self.with_lane(axis, advance(self.lane(axis), dt, rate.lane(axis)))
    }

    pub fn new(x: S, y: S, z: S) -> (r: Self)
        ensures
            r == (Packed3 { x, y, z }),
    {
        Packed3 { x, y, z }
    }

    pub fn splat(value: S) -> (r: Self)
        ensures
            r == (Packed3 { x: value, y: value, z: value }),
    {
        Packed3 { x: value, y: value, z: value }
    }

    pub fn get(&self, axis: Axis) -> (r: S)
        ensures
            r == self.lane(axis),
    {
        match axis {
            Axis::X => self.x,
            Axis::Y => self.y,
            Axis::Z => self.z,
        }
    }

    pub fn set(&mut self, axis: Axis, value: S)
        ensures
            *final(self) == old(self).with_lane(axis, value),
    {
        match axis {
            Axis::X => {
                self.x = value;
            },
            Axis::Y => {
                self.y = value;
            },
            Axis::Z => {
                self.z = value;
            },
        }
    }

    pub fn plus(self, rhs: Self) -> (r: Self)
        ensures
            r == self.sum(rhs),
    {
        Packed3 { x: self.x.plus(rhs.x), y: self.y.plus(rhs.y), z: self.z.plus(rhs.z) }
    }

    pub fn scale(self, factor: S) -> (r: Self)
        ensures
            r == self.scaled(factor),
    {
        Packed3 { x: factor.times(self.x), y: factor.times(self.y), z: factor.times(self.z) }
    }

    /// `self + dt * rate`, lane by lane.
    pub fn scale_add(self, dt: S, rate: Self) -> (r: Self)
        ensures
            r == self.advanced(dt, rate),
            r == self.sum(rate.scaled(dt)),
    {
        Packed3 {
            x: scale_add(self.x, dt, rate.x),
            y: scale_add(self.y, dt, rate.y),
            z: scale_add(self.z, dt, rate.z),
        }
    }
}

impl<S: Scalar> Packed4<S> {
    /// The four lanes in ascending order.
    pub open spec fn lanes(self) -> Seq<S> {
        seq![self.a, self.b, self.c, self.d]
    }

    /// Lane `i`, counted from zero.
    pub open spec fn lane(self, i: int) -> S {
        if i == 0 {
            self.a
        } else if i == 1 {
            self.b
        } else if i == 2 {
            self.c
        } else {
            self.d
        }
    }

    /// This value with lane `i` replaced.
    pub open spec fn with_lane(self, i: int, value: S) -> Self {
        if i == 0 {
            Packed4 { a: value, ..self }
        } else if i == 1 {
            Packed4 { b: value, ..self }
        } else if i == 2 {
            Packed4 { c: value, ..self }
        } else {
            Packed4 { d: value, ..self }
        }
    }

    /// Lane by lane sum.
    pub open spec fn sum(self, rhs: Self) -> Self {
        Packed4 {
            a: self.a.sum(rhs.a),
            b: self.b.sum(rhs.b),
            c: self.c.sum(rhs.c),
            d: self.d.sum(rhs.d),
        }
    }

    /// Every lane multiplied by `factor`, the factor on the left.
    pub open spec fn scaled(self, factor: S) -> Self {
        Packed4 {
            a: factor.product(self.a),
            b: factor.product(self.b),
            c: factor.product(self.c),
            d: factor.product(self.d),
        }
    }

    /// Every lane advanced by `dt` at the rate in the same lane of `rate`.
    pub open spec fn advanced(self, dt: S, rate: Self) -> Self {
        Packed4 {
            a: advance(self.a, dt, rate.a),
            b: advance(self.b, dt, rate.b),
            c: advance(self.c, dt, rate.c),
            d: advance(self.d, dt, rate.d),
        }
    }

    pub fn new(a: S, b: S, c: S, d: S) -> (r: Self)
        ensures
            r == (Packed4 { a, b, c, d }),
    {
        Packed4 { a, b, c, d }
    }

    pub fn splat(value: S) -> (r: Self)
        ensures
            r == (Packed4 { a: value, b: value, c: value, d: value }),
    {
        Packed4 { a: value, b: value, c: value, d: value }
    }

    pub fn get(&self, i: usize) -> (r: S)
        requires
            i < 4,
        ensures
            r == self.lane(i as int),
    {
        if i == 0 {
            self.a
        } else if i == 1 {
            self.b
        } else if i == 2 {
            self.c
        } else {
            self.d
        }
    }

    pub fn set(&mut self, i: usize, value: S)
        requires
            i < 4,
        ensures
            *final(self) == old(self).with_lane(i as int, value),
    {
        if i == 0 {
            self.a = value;
        } else if i == 1 {
            self.b = value;
        } else if i == 2 {
            self.c = value;
        } else {
            self.d = value;
        }
    }

    pub fn plus(self, rhs: Self) -> (r: Self)
        ensures
            r == self.sum(rhs),
    {
        Packed4 {
            a: self.a.plus(rhs.a),
            b: self.b.plus(rhs.b),
            c: self.c.plus(rhs.c),
            d: self.d.plus(rhs.d),
        }
    }

    pub fn scale(self, factor: S) -> (r: Self)
        ensures
            r == self.scaled(factor),
    {
        Packed4 {
            a: factor.times(self.a),
            b: factor.times(self.b),
            c: factor.times(self.c),
            d: factor.times(self.d),
        }
    }

    /// `self + dt * rate`, lane by lane.
    pub fn scale_add(self, dt: S, rate: Self) -> (r: Self)
        ensures
            r == self.advanced(dt, rate),
            r == self.sum(rate.scaled(dt)),
    {
        Packed4 {
            a: scale_add(self.a, dt, rate.a),
            b: scale_add(self.b, dt, rate.b),
            c: scale_add(self.c, dt, rate.c),
            d: scale_add(self.d, dt, rate.d),
        }
    }
}

} // verus!

//! Axes, and the orders in which a journey takes them.

use vstd::prelude::*;

verus! {

/// An axis of the world.
#[derive(Debug, Clone, Copy, PartialEq, Eq, Structural)]
pub enum Axis {
    X,
    Y,
    Z,
}

/// The order in which a journey takes the three axes.
#[derive(Debug, Clone, Copy, PartialEq, Eq, Structural)]
pub enum Order {
    XYZ,
    YXZ,
    XZY,
    YZX,
    ZXY,
    ZYX,
}

impl Order {
    /// The three axes in their order.
    pub open spec fn spec_order_arr(self) -> (Axis, Axis, Axis) {
        match self {
            Order::XYZ => (Axis::X, Axis::Y, Axis::Z),
            Order::YXZ => (Axis::Y, Axis::X, Axis::Z),
            Order::XZY => (Axis::X, Axis::Z, Axis::Y),
            Order::YZX => (Axis::Y, Axis::Z, Axis::X),
            Order::ZXY => (Axis::Z, Axis::X, Axis::Y),
            Order::ZYX => (Axis::Z, Axis::Y, Axis::X),
        }
    }

    /// The axis that is taken at place `i` of the order.
    pub open spec fn spec_axis(self, i: int) -> Axis {
        if i == 0 {
            self.spec_order_arr().0
        } else if i == 1 {
            self.spec_order_arr().1
        } else {
            self.spec_order_arr().2
        }
    }

    /// The three axes in their order.
    pub fn order_arr(&self) -> (r: (Axis, Axis, Axis))
        ensures
            r == self.spec_order_arr(),
            r.0 != r.1 && r.0 != r.2 && r.1 != r.2,
    {
        match self {
            Order::XYZ => (Axis::X, Axis::Y, Axis::Z),
            Order::YXZ => (Axis::Y, Axis::X, Axis::Z),
            Order::XZY => (Axis::X, Axis::Z, Axis::Y),
            Order::YZX => (Axis::Y, Axis::Z, Axis::X),
            Order::ZXY => (Axis::Z, Axis::X, Axis::Y),
            Order::ZYX => (Axis::Z, Axis::Y, Axis::X),
        }
    }

    /// The axis that is taken at place `i` of the order.
    pub fn axis(&self, i: u8) -> (r: Axis)
        ensures
            r == self.spec_axis(i as int),
    {
        let arr = self.order_arr();
        if i == 0 {
            arr.0
        } else if i == 1 {
            arr.1
        } else {
            arr.2
        }
    }
}

} // verus!

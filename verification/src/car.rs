//! The layout of a car's wheels.
use vstd::prelude::*;

verus! {

/// Where a wheel sits on the car.
#[derive(PartialEq, Eq, Structural, Debug, Clone, Copy)]
pub struct WheelCorner {
    pub front: bool,
    pub left: bool,
}

/// The car's four wheels, in the order front right, front left, rear right,
/// rear left.
pub open spec fn spec_wheel_corners() -> Seq<WheelCorner> {
    seq![
        WheelCorner { front: true, left: false },
        WheelCorner { front: true, left: true },
        WheelCorner { front: false, left: false },
        WheelCorner { front: false, left: true },
    ]
}

/// The car's four wheels, in their mounting order.
pub fn wheel_corners() -> (r: [WheelCorner; 4])
    ensures
        r@ == spec_wheel_corners(),
{
    let r = [
        WheelCorner { front: true, left: false },
        WheelCorner { front: true, left: true },
        WheelCorner { front: false, left: false },
        WheelCorner { front: false, left: true },
    ];
    assert(r@ =~= spec_wheel_corners());
    r
}

/// The signs of a wheel's mounting point along the car's width and length: a
/// left wheel is on the negative side, a rear wheel behind the centre.
pub fn anchor_signs(corner: WheelCorner) -> (r: (i8, i8))
    ensures
        r.0 == (if corner.left { -1i8 } else { 1i8 }),
        r.1 == (if corner.front { 1i8 } else { -1i8 }),
{
    let x: i8 = if corner.left { -1 } else { 1 };
    let z: i8 = if corner.front { 1 } else { -1 };
    (x, z)
}

/// The sign of a wheel's spin axis, and of the torque applied to it: left
/// wheels are mounted mirrored, so theirs is negative.
pub fn wheel_side_sign(is_left: bool) -> (r: i8)
    ensures
        r == (if is_left { -1i8 } else { 1i8 }),
{
    if is_left {
        -1
    } else {
        1
    }
}

/// Each of the four corners of the car has exactly one wheel.
pub proof fn lemma_one_wheel_per_corner()
    ensures
        spec_wheel_corners().len() == 4,
        forall|i: int, j: int| 0 <= i < 4 && 0 <= j < 4 && i != j ==> spec_wheel_corners()[i] != spec_wheel_corners()[j],
        forall|c: WheelCorner| #[trigger] spec_wheel_corners().contains(c),
{
    assert forall|c: WheelCorner| #[trigger] spec_wheel_corners().contains(c) by {
        let i: int = if c.front { if c.left { 1 } else { 0 } } else { if c.left { 3 } else { 2 } };
        assert(spec_wheel_corners()[i] == c);
    }
}

} // verus!

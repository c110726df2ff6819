//! Shapes handed to whoever renders a frame.

use vstd::prelude::*;
use crate::vector::Vec2;

verus! {

/// A filled disc.  `alpha` is the opacity in thousandths; the renderer
/// clamps it to the range it can show.
#[derive(Clone, Copy, Debug, PartialEq, Eq, Structural)]
pub struct Disc {
    pub center: Vec2,
    pub radius: i64,
    pub alpha: i64,
}

/// A three-cornered outline.
#[derive(Clone, Copy, Debug, PartialEq, Eq, Structural)]
pub struct Triangle {
    pub a: Vec2,
    pub b: Vec2,
    pub c: Vec2,
}

/// The ship as drawn: its hull, and the flame behind it while it thrusts.
#[derive(Clone, Copy, Debug, PartialEq, Eq, Structural)]
pub struct ShipDrawing {
    pub hull: Triangle,
    pub flame: Option<Triangle>,
}

/// A corner given in the body's own frame, turned by `rotation` and moved
/// to `position`.
pub open spec fn placed(local: Vec2, rotation: i64, position: Vec2) -> Vec2 {
    local.turned(rotation).added(position)
}

/// Turns a corner by `rotation` and moves it to `position`.
pub fn place(local: Vec2, rotation: i64, position: Vec2) -> (p: Vec2)
    ensures
        p == placed(local, rotation, position),
{
    local.rotated(rotation).plus(position)
}

impl Triangle {
    /// The triangle with the given local corners, turned and moved.
    pub open spec fn placed(a: Vec2, b: Vec2, c: Vec2, rotation: i64, position: Vec2) -> Triangle {
        Triangle {
            a: placed(a, rotation, position),
            b: placed(b, rotation, position),
            c: placed(c, rotation, position),
        }
    }

    /// The triangle with the given local corners, turned and moved.
    pub fn place(a: Vec2, b: Vec2, c: Vec2, rotation: i64, position: Vec2) -> (t: Triangle)
        ensures
            t == Triangle::placed(a, b, c, rotation, position),
    {
        Triangle {
            a: place(a, rotation, position),
            b: place(b, rotation, position),
            c: place(c, rotation, position),
        }
    }
}

} // verus!

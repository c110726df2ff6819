//! The visible rectangle and the rule by which positions wrap around it.

use vstd::prelude::*;
use crate::fixed::trunc_div;
use crate::vector::Vec2;

verus! {

/// Size of the drawable area.
#[derive(Clone, Copy, Debug, PartialEq, Eq, Structural)]
pub struct Screen {
    pub width: i64,
    pub height: i64,
}

/// One coordinate after wrapping: a value that has left the range
/// `[0, limit]` re-enters at the opposite edge.  A value on an edge stays.
pub open spec fn wrapped(x: i64, limit: i64) -> i64 {
    if x < 0 {
        limit
    } else if x > limit {
        0
    } else {
        x
    }
}

/// Wraps one coordinate.
pub fn wrap(x: i64, limit: i64) -> (r: i64)
    ensures
        r == wrapped(x, limit),
        limit >= 0 ==> 0 <= r <= limit,
{
    if x < 0 {
        limit
    } else if x > limit {
        0
    } else {
        x
    }
}

impl Screen {
    /// A screen has a positive width and height.
    pub open spec fn wf(self) -> bool {
        self.width > 0 && self.height > 0
    }

    /// Whether the point lies on the screen, edges included.
    pub open spec fn contains(self, p: Vec2) -> bool {
        0 <= p.x <= self.width && 0 <= p.y <= self.height
    }

    /// The point after wrapping both coordinates.
    pub open spec fn wrapped(self, p: Vec2) -> Vec2 {
        Vec2 { x: wrapped(p.x, self.width), y: wrapped(p.y, self.height) }
    }

    /// The middle of the screen.
    pub open spec fn middle(self) -> Vec2 {
        Vec2 {
            x: trunc_div(self.width as int, 2) as i64,
            y: trunc_div(self.height as int, 2) as i64,
        }
    }

    /// A screen of the given size, if both sides are positive.
    pub fn new(width: i64, height: i64) -> (s: Option<Screen>)
        ensures
            s == if width > 0 && height > 0 {
                Some(Screen { width, height })
            } else {
                None
            },
    {
        if width > 0 && height > 0 {
            Some(Screen { width, height })
        } else {
            None
        }
    }

    /// Wraps both coordinates of a point.
    pub fn wrap(&self, p: Vec2) -> (q: Vec2)
        ensures
            q == self.wrapped(p),
            self.wf() ==> self.contains(q),
    {
        Vec2 { x: wrap(p.x, self.width), y: wrap(p.y, self.height) }
    }

    /// The middle of the screen.
    pub fn center(&self) -> (c: Vec2)
        ensures
            c == self.middle(),
    {
        Vec2 { x: self.width / 2, y: self.height / 2 }
    }
}

/// A point that has been wrapped lies on the screen, edges included.
pub proof fn lemma_wrapped_on_screen(screen: Screen, p: Vec2)
    requires
        screen.wf(),
    ensures
        screen.contains(screen.wrapped(p)),
{
}

} // verus!

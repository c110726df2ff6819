//! Shots fired by the ship.

use vstd::prelude::*;
use crate::draw::Disc;
use crate::fixed::{difference, minus, ONE};
use crate::screen::Screen;
use crate::vector::Vec2;

verus! {

/// Radius of the disc that shows a bullet.
pub const BULLET_RADIUS: i64 = 4000;

/// A shot in flight.  `lifetime` is the time that it has left.
#[derive(Clone, Copy, Debug, PartialEq, Eq, Structural)]
pub struct Bullet {
    pub position: Vec2,
    pub velocity: Vec2,
    pub lifetime: i64,
}

impl Bullet {
    /// The bullet after a frame of `dt` on the given screen.
    pub open spec fn updated(self, dt: i64, screen: Screen) -> Bullet {
        Bullet {
            position: screen.wrapped(self.position.added(self.velocity.scaled(dt))),
            velocity: self.velocity,
            lifetime: difference(self.lifetime, dt),
        }
    }

    /// Whether the bullet is still in flight.
    pub open spec fn alive(self) -> bool {
        self.lifetime > 0
    }

    /// The disc that shows the bullet.
    pub open spec fn disc(self) -> Disc {
        Disc { center: self.position, radius: BULLET_RADIUS, alpha: ONE }
    }

    /// Moves the bullet by a frame of `dt`, wraps it at the edges of the
    /// screen, and takes the frame off its lifetime.
    pub fn update(&mut self, dt: i64, screen: Screen)
        ensures
            *final(self) == old(self).updated(dt, screen),
            screen.wf() ==> screen.contains(final(self).position),
    {
        self.position = screen.wrap(self.position.plus(self.velocity.times(dt)));
        self.lifetime = minus(self.lifetime, dt);
    }

    /// The disc that shows the bullet.
    pub fn draw(&self) -> (d: Disc)
        ensures
            d == self.disc(),
    {
        Disc { center: self.position, radius: BULLET_RADIUS, alpha: ONE }
    }
}

} // verus!

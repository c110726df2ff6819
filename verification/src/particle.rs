//! Sparks of an explosion: they drift, fade and shrink, and touch nothing.

use vstd::prelude::*;
use crate::draw::Disc;
use crate::fixed::{difference, minus, product, times};
use crate::vector::Vec2;

verus! {

/// Factor by which a particle shrinks in each frame.
pub const SHRINK: i64 = 950;

/// A spark.  `lifetime` is the time that it has left, and its opacity.
#[derive(Clone, Copy, Debug, PartialEq, Eq, Structural)]
pub struct Particle {
    pub position: Vec2,
    pub velocity: Vec2,
    pub lifetime: i64,
    pub size: i64,
}

impl Particle {
    /// The particle after a frame of `dt`.
    pub open spec fn updated(self, dt: i64) -> Particle {
        Particle {
            position: self.position.added(self.velocity.scaled(dt)),
            velocity: self.velocity,
            lifetime: difference(self.lifetime, dt),
            size: product(self.size, SHRINK),
        }
    }

    /// Whether the particle is still to be shown.
    pub open spec fn alive(self) -> bool {
        self.lifetime > 0
    }

    /// The disc that shows the particle: it fades as its lifetime runs out.
    pub open spec fn disc(self) -> Disc {
        Disc { center: self.position, radius: self.size, alpha: self.lifetime }
    }

    /// Moves the particle by a frame of `dt`, takes the frame off its
    /// lifetime, and shrinks it.  Particles do not wrap.
    pub fn update(&mut self, dt: i64)
        ensures
            *final(self) == old(self).updated(dt),
    {
        self.position = self.position.plus(self.velocity.times(dt));
        self.lifetime = minus(self.lifetime, dt);
        self.size = times(self.size, SHRINK);
    }

    /// The disc that shows the particle.
    pub fn draw(&self) -> (d: Disc)
        ensures
            d == self.disc(),
    {
        Disc { center: self.position, radius: self.size, alpha: self.lifetime }
    }
}

} // verus!

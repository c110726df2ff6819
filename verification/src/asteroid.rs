//! Asteroids: their sizes, their motion and their outline.

use vstd::prelude::*;
use crate::draw::{place, placed};
use crate::fixed::{plus, product, sum, times};
use crate::screen::Screen;
use crate::vector::Vec2;

verus! {

/// The three sizes of an asteroid.
#[derive(Clone, Copy, Debug, PartialEq, Eq, Structural)]
pub enum AsteroidSize {
    Large,
    Medium,
    Small,
}

impl AsteroidSize {
    /// Radius in collisions, and the base radius of the outline.
    pub open spec fn reach(self) -> i64 {
        match self {
            AsteroidSize::Large => 80_000,
            AsteroidSize::Medium => 40_000,
            AsteroidSize::Small => 20_000,
        }
    }

    /// Score for destroying an asteroid of this size.
    pub open spec fn value(self) -> i32 {
        match self {
            AsteroidSize::Large => 20,
            AsteroidSize::Medium => 50,
            AsteroidSize::Small => 100,
        }
    }

    /// The size of the fragments, if an asteroid of this size breaks up.
    pub open spec fn smaller(self) -> Option<AsteroidSize> {
        match self {
            AsteroidSize::Large => Some(AsteroidSize::Medium),
            AsteroidSize::Medium => Some(AsteroidSize::Small),
            AsteroidSize::Small => None,
        }
    }

    /// How many times an asteroid of this size can still break up.
    pub open spec fn rank(self) -> nat {
        match self {
            AsteroidSize::Large => 2,
            AsteroidSize::Medium => 1,
            AsteroidSize::Small => 0,
        }
    }

    /// Radius in collisions, and the base radius of the outline.
    pub fn radius(&self) -> (r: i64)
        ensures
            r == self.reach(),
    {
        match self {
            AsteroidSize::Large => 80_000,
            AsteroidSize::Medium => 40_000,
            AsteroidSize::Small => 20_000,
        }
    }

    /// Score for destroying an asteroid of this size.
    pub fn points(&self) -> (p: i32)
        ensures
            p == self.value(),
    {
        match self {
            AsteroidSize::Large => 20,
            AsteroidSize::Medium => 50,
            AsteroidSize::Small => 100,
        }
    }

    /// The size of the fragments, if an asteroid of this size breaks up.
    pub fn next_size(&self) -> (next: Option<AsteroidSize>)
        ensures
            next == self.smaller(),
    {
        match self {
            AsteroidSize::Large => Some(AsteroidSize::Medium),
            AsteroidSize::Medium => Some(AsteroidSize::Small),
            AsteroidSize::Small => None,
        }
    }
}

/// An asteroid.  `points` are the corners of its outline in its own frame;
/// they are fixed when the asteroid is made.
#[derive(Clone, Debug, PartialEq, Eq)]
pub struct Asteroid {
    pub position: Vec2,
    pub velocity: Vec2,
    pub points: Vec<Vec2>,
    pub rotation: i64,
    pub rotation_speed: i64,
    pub size: AsteroidSize,
}

/// What an asteroid is, as far as the contracts are concerned.
pub struct AsteroidView {
    pub position: Vec2,
    pub velocity: Vec2,
    pub points: Seq<Vec2>,
    pub rotation: i64,
    pub rotation_speed: i64,
    pub size: AsteroidSize,
}

impl View for Asteroid {
    type V = AsteroidView;

    open spec fn view(&self) -> AsteroidView {
        AsteroidView {
            position: self.position,
            velocity: self.velocity,
            points: self.points@,
            rotation: self.rotation,
            rotation_speed: self.rotation_speed,
            size: self.size,
        }
    }
}

/// The function that takes an asteroid to what the contracts see of it.
pub open spec fn viewing() -> spec_fn(Asteroid) -> AsteroidView {
    |a: Asteroid| a@
}

/// The asteroids of a list, each as the contracts see it.
pub open spec fn views(asteroids: Seq<Asteroid>) -> Seq<AsteroidView> {
    asteroids.map_values(viewing())
}

impl AsteroidView {
    /// The asteroid after a frame of `dt` on the given screen.
    pub open spec fn updated(self, dt: i64, screen: Screen) -> AsteroidView {
        AsteroidView {
            position: screen.wrapped(self.position.added(self.velocity.scaled(dt))),
            rotation: sum(self.rotation, product(self.rotation_speed, dt)),
            ..self
        }
    }

    /// The outline as drawn: each corner turned by the asteroid's rotation
    /// and moved to its position.
    pub open spec fn outline(self) -> Seq<Vec2> {
        Seq::new(self.points.len(), |i: int| placed(self.points[i], self.rotation, self.position))
    }
}

impl Asteroid {
    /// Moves and turns the asteroid by a frame of `dt`, and wraps it at the
    /// edges of the screen.
    pub fn update(&mut self, dt: i64, screen: Screen)
        ensures
            final(self)@ == old(self)@.updated(dt, screen),
            screen.wf() ==> screen.contains(final(self).position),
    {
        self.position = screen.wrap(self.position.plus(self.velocity.times(dt)));
        self.rotation = plus(self.rotation, times(self.rotation_speed, dt));
    }

    /// The outline as drawn.
    pub fn draw(&self) -> (outline: Vec<Vec2>)
        ensures
            outline@ == self@.outline(),
    {
        let mut outline: Vec<Vec2> = Vec::new();
        let mut i: usize = 0;
        while i < self.points.len()
            invariant
                i <= self.points.len(),
                outline.len() == i,
                forall|k: int|
                    0 <= k < i ==> outline[k] == placed(
                        self.points[k],
                        self.rotation,
                        self.position,
                    ),
            decreases self.points.len() - i,
        {
            outline.push(place(self.points[i], self.rotation, self.position));
            i += 1;
        }
        assert(outline@ =~= self@.outline());
        outline
    }
}

} // verus!

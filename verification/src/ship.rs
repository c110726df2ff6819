//! The player's ship.

use vstd::prelude::*;
use crate::bullet::Bullet;
use crate::draw::{ShipDrawing, Triangle};
use crate::fixed::{difference, minus, ONE};
use crate::screen::Screen;
use crate::vector::Vec2;

verus! {

/// Acceleration under thrust, per second.
pub const THRUST: i64 = 200_000;

/// Factor applied to the velocity in each frame, whatever its length.
pub const DRAG: i64 = 990;

/// Time for which a new ship cannot be hit.
pub const SHIELD_TIME: i64 = 3000;

/// Distance from the ship's centre to the point where a bullet appears.
pub const MUZZLE: i64 = 40_000;

/// Speed that a shot adds to the ship's own velocity.
pub const BULLET_SPEED: i64 = 800_000;

/// Time for which a bullet flies.
pub const BULLET_LIFETIME: i64 = 1000;

/// Radius of the ship in collisions.
pub const SHIP_RADIUS: i64 = 15_000;

/// Angle by which one key press turns the ship.
pub const TURN_STEP: i64 = 100;

/// How far the hull reaches forward, in the ship's own frame, which points
/// along x.
pub const HULL_NOSE: i64 = 40_000;

/// How far the hull reaches back.
pub const HULL_STERN: i64 = -20_000;

/// How far the hull reaches to one side.
pub const HULL_RIGHT: i64 = 20_000;

/// How far the hull reaches to the other side.
pub const HULL_LEFT: i64 = -20_000;

/// Where the flame leaves the hull.
pub const FLAME_ROOT: i64 = -20_000;

/// How far the flame reaches back.
pub const FLAME_TIP: i64 = -40_000;

/// How far the flame reaches to one side.
pub const FLAME_RIGHT: i64 = 10_000;

/// How far the flame reaches to the other side.
pub const FLAME_LEFT: i64 = -10_000;

/// The ship.  `rotation` is the angle along which it points; while
/// `invulnerable` is set nothing can destroy it.
#[derive(Clone, Copy, Debug, PartialEq, Eq, Structural)]
pub struct Ship {
    pub position: Vec2,
    pub velocity: Vec2,
    pub rotation: i64,
    pub thrust: bool,
    pub invulnerable: bool,
    pub invulnerable_timer: i64,
}

impl Ship {
    /// The shield is up exactly while its timer runs.
    pub open spec fn wf(self) -> bool {
        self.invulnerable == (self.invulnerable_timer > 0)
    }

    /// A new ship: at the origin, at rest, shielded.
    pub open spec fn fresh() -> Ship {
        Ship {
            position: Vec2::origin(),
            velocity: Vec2::origin(),
            rotation: 0,
            thrust: false,
            invulnerable: true,
            invulnerable_timer: SHIELD_TIME,
        }
    }

    /// The unit vector along which the ship points.
    pub open spec fn heading(self) -> Vec2 {
        Vec2::polar(self.rotation, ONE)
    }

    /// The shield timer after a frame of `dt`.
    pub open spec fn timer_after(self, dt: i64) -> i64 {
        if self.invulnerable {
            difference(self.invulnerable_timer, dt)
        } else {
            self.invulnerable_timer
        }
    }

    /// The velocity after a frame of `dt`: thrust first, then drag.
    pub open spec fn velocity_after(self, dt: i64) -> Vec2 {
        let pushed = if self.thrust {
            self.velocity.added(self.heading().scaled(THRUST).scaled(dt))
        } else {
            self.velocity
        };
        pushed.scaled(DRAG)
    }

    /// The ship after a frame of `dt` on the given screen.
    pub open spec fn updated(self, dt: i64, screen: Screen) -> Ship {
        let velocity = self.velocity_after(dt);
        Ship {
            position: screen.wrapped(self.position.added(velocity.scaled(dt))),
            velocity,
            rotation: self.rotation,
            thrust: self.thrust,
            invulnerable: self.invulnerable && self.timer_after(dt) > 0,
            invulnerable_timer: self.timer_after(dt),
        }
    }

    /// The bullet that the ship fires now.
    pub open spec fn shot(self) -> Bullet {
        Bullet {
            position: self.position.added(self.heading().scaled(MUZZLE)),
            velocity: self.heading().scaled(BULLET_SPEED).added(self.velocity),
            lifetime: BULLET_LIFETIME,
        }
    }

    /// The hull as drawn.
    pub open spec fn hull(self) -> Triangle {
        Triangle::placed(
            Vec2 { x: HULL_NOSE, y: 0 },
            Vec2 { x: HULL_STERN, y: HULL_RIGHT },
            Vec2 { x: HULL_STERN, y: HULL_LEFT },
            self.rotation,
            self.position,
        )
    }

    /// The flame as drawn.
    pub open spec fn flame(self) -> Triangle {
        Triangle::placed(
            Vec2 { x: FLAME_ROOT, y: 0 },
            Vec2 { x: FLAME_TIP, y: FLAME_RIGHT },
            Vec2 { x: FLAME_TIP, y: FLAME_LEFT },
            self.rotation,
            self.position,
        )
    }

    /// What is drawn of the ship at the given frame count: nothing on even
    /// counts while the shield is up, else the hull, with the flame while
    /// the ship thrusts.
    pub open spec fn drawing(self, ticks: u64) -> Option<ShipDrawing> {
        if self.invulnerable && ticks % 2 == 0 {
            None
        } else {
            Some(
                ShipDrawing {
                    hull: self.hull(),
                    flame: if self.thrust {
                        Some(self.flame())
                    } else {
                        None
                    },
                },
            )
        }
    }

    /// A new ship: at the origin, at rest, shielded.
    pub fn new() -> (ship: Ship)
        ensures
            ship == Ship::fresh(),
            ship.wf(),
    {
        Ship {
            position: Vec2::zero(),
            velocity: Vec2::zero(),
            rotation: 0,
            thrust: false,
            invulnerable: true,
            invulnerable_timer: SHIELD_TIME,
        }
    }

    /// Moves the ship to the middle of the screen.
    pub fn reset_position(&mut self, screen: Screen)
        ensures
            *final(self) == (Ship { position: screen.middle(), ..*old(self) }),
    {
        self.position = screen.center();
    }

    /// Moves the ship by a frame of `dt`: the shield runs down, thrust and
    /// drag act on the velocity, and the position wraps at the edges.
    pub fn update(&mut self, dt: i64, screen: Screen)
        ensures
            *final(self) == old(self).updated(dt, screen),
            old(self).wf() ==> final(self).wf(),
            screen.wf() ==> screen.contains(final(self).position),
    {
        if self.invulnerable {
            self.invulnerable_timer = minus(self.invulnerable_timer, dt);
            if self.invulnerable_timer <= 0 {
                self.invulnerable = false;
            }
        }
        if self.thrust {
            let direction: Vec2 = Vec2::from_polar(self.rotation, ONE);
            self.velocity = self.velocity.plus(direction.times(THRUST).times(dt));
        }
        self.velocity = self.velocity.times(DRAG);
        self.position = screen.wrap(self.position.plus(self.velocity.times(dt)));
    }

    /// What is drawn of the ship at the given frame count.
    pub fn draw(&self, ticks: u64) -> (d: Option<ShipDrawing>)
        ensures
            d == self.drawing(ticks),
    {
        if self.invulnerable && ticks % 2 == 0 {
            return None;
        }
        let hull: Triangle = Triangle::place(
            Vec2::new(HULL_NOSE, 0),
            Vec2::new(HULL_STERN, HULL_RIGHT),
            Vec2::new(HULL_STERN, HULL_LEFT),
            self.rotation,
            self.position,
        );
        let flame: Option<Triangle> = if self.thrust {
            Some(
                Triangle::place(
                    Vec2::new(FLAME_ROOT, 0),
                    Vec2::new(FLAME_TIP, FLAME_RIGHT),
                    Vec2::new(FLAME_TIP, FLAME_LEFT),
                    self.rotation,
                    self.position,
                ),
            )
        } else {
            None
        };
        Some(ShipDrawing { hull, flame })
    }

    /// The bullet that the ship fires now.
    pub fn shoot(&self) -> (b: Bullet)
        ensures
            b == self.shot(),
    {
        let direction: Vec2 = Vec2::from_polar(self.rotation, ONE);
        Bullet {
            position: self.position.plus(direction.times(MUZZLE)),
            velocity: direction.times(BULLET_SPEED).plus(self.velocity),
            lifetime: BULLET_LIFETIME,
        }
    }
}

} // verus!

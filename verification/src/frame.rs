//! One frame: everything moves, timers run, and then collisions are
//! settled.

use vstd::prelude::*;
use crate::asteroid::{views, Asteroid, AsteroidView};
use crate::bullet::Bullet;
use crate::effects::{animate, animated};
use crate::fixed::{difference, minus};
use crate::game::{Event, GameView, MainState};
use crate::particle::Particle;
use crate::screen::Screen;
use crate::ship::Ship;

verus! {

/// What a frame leaves for its caller to do.
#[derive(Clone, Debug, PartialEq, Eq)]
pub struct FrameReport {
    /// Whether the run is to end: the countdown after the end of the game
    /// has run out.
    pub quit: bool,
    /// What is worth a line in a log.
    pub events: Vec<Event>,
}

/// A particle's step over a frame of `dt`.
pub open spec fn particle_step(dt: i64) -> spec_fn(Particle) -> Particle {
    |p: Particle| p.updated(dt)
}

/// The test that a particle passes while it is to be shown.
pub open spec fn particle_alive() -> spec_fn(Particle) -> bool {
    |p: Particle| p.alive()
}

/// A bullet's step over a frame of `dt`.
pub open spec fn bullet_step(dt: i64, screen: Screen) -> spec_fn(Bullet) -> Bullet {
    |b: Bullet| b.updated(dt, screen)
}

/// The test that a bullet passes while it flies.
pub open spec fn bullet_alive() -> spec_fn(Bullet) -> bool {
    |b: Bullet| b.alive()
}

/// An asteroid's step over a frame of `dt`.
pub open spec fn asteroid_step(dt: i64, screen: Screen) -> spec_fn(AsteroidView) -> AsteroidView {
    |a: AsteroidView| a.updated(dt, screen)
}

/// A new ship in the middle of the screen.
pub open spec fn centered_ship(screen: Screen) -> Ship {
    Ship { position: screen.middle(), ..Ship::fresh() }
}

impl GameView {
    /// Whether the run is to end after a frame of `dt`.
    pub open spec fn quits(self, dt: i64) -> bool {
        self.game_over && difference(self.game_over_timer, dt) <= 0
    }

    /// The respawn timer after a frame of `dt`: it runs while the next ship
    /// is awaited and the game is not over.
    pub open spec fn respawn_after(self, dt: i64) -> i64 {
        if !self.game_over && self.respawn_timer > 0 {
            difference(self.respawn_timer, dt)
        } else {
            self.respawn_timer
        }
    }

    /// The ship after a frame of `dt`.  Once the game is over it is left
    /// alone.  While the next ship is awaited nothing moves it, and when
    /// the wait ends a new ship stands in the middle of the screen.
    /// Otherwise it moves.
    pub open spec fn ship_after(self, dt: i64, screen: Screen) -> Ship {
        if self.game_over {
            self.ship
        } else if self.respawn_timer > 0 {
            if difference(self.respawn_timer, dt) <= 0 {
                centered_ship(screen)
            } else {
                self.ship
            }
        } else {
            self.ship.updated(dt, screen)
        }
    }

    /// The game after a frame of `dt`, before collisions are looked at.
    /// Particles move first, and those that have run out are dropped.
    /// Bullets that had run out before this frame are dropped first, and
    /// the others move.
    pub open spec fn advanced(self, dt: i64, screen: Screen) -> GameView {
        GameView {
            asteroids: self.asteroids.map_values(asteroid_step(dt, screen)),
            ship: self.ship_after(dt, screen),
            bullets: self.bullets.filter(bullet_alive()).map_values(bullet_step(dt, screen)),
            game_over: self.game_over,
            game_over_timer: if self.game_over {
                difference(self.game_over_timer, dt)
            } else {
                self.game_over_timer
            },
            lives: self.lives,
            score: self.score,
            displayed_score: animated(self.displayed_score, self.score, dt),
            respawn_timer: self.respawn_after(dt),
            particles: self.particles.map_values(particle_step(dt)).filter(particle_alive()),
            score_popup: match self.score_popup {
                Some(popup) => popup.faded(dt),
                None => None,
            },
        }
    }
}

/// After a frame the ship, unless it is awaited or the game is over, and
/// every asteroid and bullet lie on the screen, wherever they were before
/// and however long the frame was.
pub proof fn lemma_frame_on_screen(game: GameView, dt: i64, screen: Screen)
    requires
        screen.wf(),
    ensures
        game.advanced(dt, screen).on_screen(screen),
{
}

/// Moves the particles and drops those that have run out.
pub fn advance_particles(particles: &Vec<Particle>, dt: i64) -> (kept: Vec<Particle>)
    ensures
        kept@ == particles@.map_values(particle_step(dt)).filter(particle_alive()),
{
    let ghost moved = particles@.map_values(particle_step(dt));
    let mut kept: Vec<Particle> = Vec::new();
    let mut i: usize = 0;
    proof {
        assert(moved.take(0) =~= Seq::<Particle>::empty());
        reveal(Seq::filter);
    }
    while i < particles.len()
        invariant
            i <= particles.len(),
            moved == particles@.map_values(particle_step(dt)),
            kept@ == moved.take(i as int).filter(particle_alive()),
        decreases particles.len() - i,
    {
        let mut p: Particle = particles[i];
        p.update(dt);
        proof {
            assert(moved.take(i + 1) =~= moved.take(i as int).push(p));
            moved.take(i as int).lemma_filter_push(p, particle_alive());
        }
        if p.lifetime > 0 {
            kept.push(p);
        }
        i += 1;
    }
    proof {
        assert(moved.take(i as int) =~= moved);
    }
    kept
}

/// Drops the bullets that have run out and moves the others.
pub fn advance_bullets(bullets: &Vec<Bullet>, dt: i64, screen: Screen) -> (kept: Vec<Bullet>)
    ensures
        kept@ == bullets@.filter(bullet_alive()).map_values(bullet_step(dt, screen)),
        screen.wf() ==> forall|k: int| 0 <= k < kept.len() ==> screen.contains(#[trigger] kept[k].position),
{
    let mut kept: Vec<Bullet> = Vec::new();
    let mut i: usize = 0;
    proof {
        assert(bullets@.take(0) =~= Seq::<Bullet>::empty());
        reveal(Seq::filter);
        assert(kept@ =~= bullets@.take(0).filter(bullet_alive()).map_values(bullet_step(dt, screen)));
    }
    while i < bullets.len()
        invariant
            i <= bullets.len(),
            kept@ == bullets@.take(i as int).filter(bullet_alive()).map_values(
                bullet_step(dt, screen),
            ),
            screen.wf() ==> forall|k: int|
                0 <= k < kept.len() ==> screen.contains(#[trigger] kept[k].position),
        decreases bullets.len() - i,
    {
        let mut b: Bullet = bullets[i];
        proof {
            assert(bullets@.take(i + 1) =~= bullets@.take(i as int).push(b));
            bullets@.take(i as int).lemma_filter_push(b, bullet_alive());
        }
        if b.lifetime > 0 {
            let ghost before = bullets@.take(i as int).filter(bullet_alive());
            b.update(dt, screen);
            kept.push(b);
            proof {
                assert(kept@ =~= before.push(bullets[i as int]).map_values(bullet_step(dt, screen)));
            }
        }
        i += 1;
    }
    proof {
        assert(bullets@.take(i as int) =~= bullets@);
    }
    kept
}

/// Moves each asteroid.
pub fn advance_asteroids(asteroids: &mut Vec<Asteroid>, dt: i64, screen: Screen)
    ensures
        views(final(asteroids)@) == views(old(asteroids)@).map_values(asteroid_step(dt, screen)),
        screen.wf() ==> forall|k: int|
            0 <= k < final(asteroids).len() ==> screen.contains(#[trigger] final(asteroids)[k].position),
{
    let mut i: usize = 0;
    while i < asteroids.len()
        invariant
            i <= asteroids.len(),
            asteroids.len() == old(asteroids).len(),
            forall|k: int| 0 <= k < i ==> (#[trigger] asteroids[k])@ == old(asteroids)[k]@.updated(dt, screen),
            forall|k: int| i <= k < asteroids.len() ==> #[trigger] asteroids[k] == old(asteroids)[k],
            screen.wf() ==> forall|k: int|
                0 <= k < i ==> screen.contains(#[trigger] asteroids[k].position),
        decreases asteroids.len() - i,
    {
        asteroids[i].update(dt, screen);
        i += 1;
    }
    proof {
        assert(views(asteroids@) =~= views(old(asteroids)@).map_values(asteroid_step(dt, screen)));
    }
}

impl MainState {
    /// Moves everything by a frame of `dt` and runs the timers.  Returns
    /// whether the run is to end.
    pub fn advance(&mut self, dt: i64, screen: Screen) -> (quit: bool)
        ensures
            final(self)@ == old(self)@.advanced(dt, screen),
            quit == old(self)@.quits(dt),
            old(self)@.wf() ==> final(self)@.wf(),
            old(self).displayed_score <= old(self).score
                ==> final(self).displayed_score <= final(self).score,
            screen.wf() ==> final(self)@.on_screen(screen),
    {
        let mut quit: bool = false;
        if self.game_over {
            self.game_over_timer = minus(self.game_over_timer, dt);
            if self.game_over_timer <= 0 {
                quit = true;
            }
        }
        self.displayed_score = animate(self.displayed_score, self.score, dt);
        self.score_popup = match self.score_popup {
            Some(popup) => popup.fade(dt),
            None => None,
        };
        self.particles = advance_particles(&self.particles, dt);
        if !self.game_over {
            if self.respawn_timer > 0 {
                self.respawn_timer = minus(self.respawn_timer, dt);
                if self.respawn_timer <= 0 {
                    let mut ship: Ship = Ship::new();
                    ship.reset_position(screen);
                    self.ship = ship;
                }
            } else {
                self.ship.update(dt, screen);
            }
        }
        advance_asteroids(&mut self.asteroids, dt, screen);
        self.bullets = advance_bullets(&self.bullets, dt, screen);
        quit
    }

    /// One frame of `dt`: everything moves, then collisions are settled.
    pub fn update(&mut self, dt: i64, screen: Screen) -> (report: FrameReport)
        requires
            old(self).lives > i32::MIN,
        ensures
            old(self)@.advanced(dt, screen).collided(final(self)@, report.events@),
            old(self)@.wf() ==> final(self)@.wf(),
            report.quit == old(self)@.quits(dt),
            final(self).score >= old(self).score,
            old(self).displayed_score <= old(self).score
                ==> final(self).displayed_score <= final(self).score,
    {
        let quit: bool = self.advance(dt, screen);
        let events: Vec<Event> = self.check_collisions();
        FrameReport { quit, events }
    }
}

} // verus!

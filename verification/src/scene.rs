//! What is to be drawn of a frame.

use vstd::prelude::*;
use crate::asteroid::AsteroidView;
use crate::bullet::Bullet;
use crate::draw::{Disc, ShipDrawing};
use crate::effects::Popup;
use crate::game::{GameView, MainState};
use crate::particle::Particle;
use crate::vector::Vec2;

verus! {

/// What is shown once the game is over.
#[derive(Clone, Copy, Debug, PartialEq, Eq, Structural)]
pub struct Closing {
    /// The final score.
    pub score: i32,
    /// Time until the run ends.
    pub countdown: i64,
}

/// Everything that a frame shows, in the order in which it is drawn.
#[derive(Clone, Debug, PartialEq, Eq)]
pub struct DrawList {
    /// Number of life icons.
    pub lives: i32,
    pub popup: Option<Popup>,
    /// The outline of each asteroid.
    pub asteroids: Vec<Vec<Vec2>>,
    /// The ship, unless it is hidden.
    pub ship: Option<ShipDrawing>,
    pub bullets: Vec<Disc>,
    pub particles: Vec<Disc>,
    /// The score as the counter shows it.
    pub displayed_score: i32,
    pub closing: Option<Closing>,
}

/// A draw list as the contracts see it.
pub struct Scene {
    pub lives: i32,
    pub popup: Option<Popup>,
    pub asteroids: Seq<Seq<Vec2>>,
    pub ship: Option<ShipDrawing>,
    pub bullets: Seq<Disc>,
    pub particles: Seq<Disc>,
    pub displayed_score: i32,
    pub closing: Option<Closing>,
}

impl View for DrawList {
    type V = Scene;

    open spec fn view(&self) -> Scene {
        Scene {
            lives: self.lives,
            popup: self.popup,
            asteroids: self.asteroids@.map_values(|outline: Vec<Vec2>| outline@),
            ship: self.ship,
            bullets: self.bullets@,
            particles: self.particles@,
            displayed_score: self.displayed_score,
            closing: self.closing,
        }
    }
}

impl GameView {
    /// What is shown of the game at the given frame count.  The ship is
    /// hidden while the next one is awaited and once the game is over, and
    /// it blinks while its shield is up.
    pub open spec fn scene(self, ticks: u64) -> Scene {
        Scene {
            lives: self.lives,
            popup: self.score_popup,
            asteroids: self.asteroids.map_values(|a: AsteroidView| a.outline()),
            ship: if !self.game_over && self.respawn_timer <= 0 {
                self.ship.drawing(ticks)
            } else {
                None
            },
            bullets: self.bullets.map_values(|b: Bullet| b.disc()),
            particles: self.particles.map_values(|p: Particle| p.disc()),
            displayed_score: self.displayed_score,
            closing: if self.game_over {
                Some(Closing { score: self.score, countdown: self.game_over_timer })
            } else {
                None
            },
        }
    }
}

impl MainState {
    /// What is to be drawn of the game at the given frame count.
    pub fn draw(&self, ticks: u64) -> (list: DrawList)
        ensures
            list@ == self@.scene(ticks),
    {
        let mut asteroids: Vec<Vec<Vec2>> = Vec::new();
        let mut i: usize = 0;
        while i < self.asteroids.len()
            invariant
                i <= self.asteroids.len(),
                asteroids.len() == i,
                forall|k: int| 0 <= k < i ==> (#[trigger] asteroids[k])@ == self.asteroids[k]@.outline(),
            decreases self.asteroids.len() - i,
        {
            asteroids.push(self.asteroids[i].draw());
            i += 1;
        }
        let mut bullets: Vec<Disc> = Vec::new();
        let mut j: usize = 0;
        while j < self.bullets.len()
            invariant
                j <= self.bullets.len(),
                bullets.len() == j,
                forall|k: int| 0 <= k < j ==> #[trigger] bullets[k] == self.bullets[k].disc(),
            decreases self.bullets.len() - j,
        {
            bullets.push(self.bullets[j].draw());
            j += 1;
        }
        let mut particles: Vec<Disc> = Vec::new();
        let mut n: usize = 0;
        while n < self.particles.len()
            invariant
                n <= self.particles.len(),
                particles.len() == n,
                forall|k: int| 0 <= k < n ==> #[trigger] particles[k] == self.particles[k].disc(),
            decreases self.particles.len() - n,
        {
            particles.push(self.particles[n].draw());
            n += 1;
        }
        let ship: Option<ShipDrawing> = if !self.game_over && self.respawn_timer <= 0 {
            self.ship.draw(ticks)
        } else {
            None
        };
        let closing: Option<Closing> = if self.game_over {
            Some(Closing { score: self.score, countdown: self.game_over_timer })
        } else {
            None
        };
        let list = DrawList {
            lives: self.lives,
            popup: self.score_popup,
            asteroids,
            ship,
            bullets,
            particles,
            displayed_score: self.displayed_score,
            closing,
        };
        proof {
            assert(list@.asteroids =~= self@.scene(ticks).asteroids);
            assert(list@.bullets =~= self@.scene(ticks).bullets);
            assert(list@.particles =~= self@.scene(ticks).particles);
        }
        list
    }
}

} // verus!

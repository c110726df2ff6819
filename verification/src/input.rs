//! Starting a game, and what the keys do.

use vstd::prelude::*;
use crate::asteroid::{views, Asteroid, AsteroidSize};
use crate::fixed::{difference, minus, plus, sum};
use crate::frame::centered_ship;
use crate::game::{GameView, MainState, CLOSE_TIME, FLEET, LIVES};
use crate::screen::Screen;
use crate::ship::{Ship, TURN_STEP};

verus! {

/// The keys that the game knows.
#[derive(Clone, Copy, Debug, PartialEq, Eq, Structural)]
pub enum Key {
    /// Turn left.
    Left,
    /// Turn right.
    Right,
    /// Thrust, for as long as the key is held.
    Up,
    /// Fire.
    Space,
    /// Start again, once the game is over.
    R,
    /// Any other key.
    Other,
}

impl GameView {
    /// A game at its start: eight asteroids of the largest size at the
    /// edges, a new ship in the middle, all lives, no score, and nothing
    /// else in play.
    pub open spec fn started(self, screen: Screen) -> bool {
        &&& self.asteroids.len() == FLEET
        &&& forall|k: int|
            0 <= k < self.asteroids.len() ==> (#[trigger] self.asteroids[k]).spawned(
                AsteroidSize::Large,
                screen,
            )
        &&& self.ship == centered_ship(screen)
        &&& self.bullets.len() == 0
        &&& !self.game_over
        &&& self.game_over_timer == CLOSE_TIME
        &&& self.lives == LIVES
        &&& self.score == 0
        &&& self.displayed_score == 0
        &&& self.respawn_timer == 0
        &&& self.particles.len() == 0
        &&& self.score_popup.is_none()
    }

    /// The game with its ship replaced.
    pub open spec fn with_ship(self, ship: Ship) -> GameView {
        GameView { ship, ..self }
    }

    /// The game after a key has gone down, for every key but the one that
    /// starts the game again.  While the game is over no such key does
    /// anything.  Turning goes by a fixed step for each press.
    pub open spec fn steered(self, key: Key) -> GameView {
        if self.game_over {
            self
        } else {
            match key {
                Key::Left => self.with_ship(
                    Ship { rotation: difference(self.ship.rotation, TURN_STEP), ..self.ship },
                ),
                Key::Right => self.with_ship(
                    Ship { rotation: sum(self.ship.rotation, TURN_STEP), ..self.ship },
                ),
                Key::Up => self.with_ship(Ship { thrust: true, ..self.ship }),
                Key::Space => GameView { bullets: self.bullets.push(self.ship.shot()), ..self },
                _ => self,
            }
        }
    }

    /// Whether `post` is the game after the key has gone down.  The key
    /// that starts the game again does so only once the game is over.
    pub open spec fn key_pressed(self, key: Key, screen: Screen, post: GameView) -> bool {
        if key == Key::R {
            if self.game_over {
                post.started(screen)
            } else {
                post == self
            }
        } else {
            post == self.steered(key)
        }
    }

    /// The game after a key has come up: the ship stops thrusting when it
    /// is the thrust key, whether or not the game is over.
    pub open spec fn key_released(self, key: Key) -> GameView {
        if key == Key::Up {
            self.with_ship(Ship { thrust: false, ..self.ship })
        } else {
            self
        }
    }
}

/// The asteroids at the start of a game.
fn fleet(screen: Screen) -> (asteroids: Vec<Asteroid>)
    requires
        screen.wf(),
    ensures
        asteroids.len() == FLEET,
        forall|k: int|
            0 <= k < asteroids.len() ==> (#[trigger] views(asteroids@)[k]).spawned(
                AsteroidSize::Large,
                screen,
            ),
{
    let mut asteroids: Vec<Asteroid> = Vec::new();
    let mut i: usize = 0;
    while i < FLEET
        invariant
            screen.wf(),
            i <= FLEET,
            asteroids.len() == i,
            forall|k: int|
                0 <= k < i ==> (#[trigger] views(asteroids@)[k]).spawned(AsteroidSize::Large, screen),
        decreases FLEET - i,
    {
        let ghost before = views(asteroids@);
        let asteroid: Asteroid = Asteroid::new(screen);
        let ghost added = asteroid@;
        asteroids.push(asteroid);
        proof {
            assert(views(asteroids@) =~= before.push(added));
        }
        i += 1;
    }
    asteroids
}

impl MainState {
    /// A game at its start.
    pub fn new(screen: Screen) -> (state: MainState)
        requires
            screen.wf(),
        ensures
            state@.started(screen),
            state@.wf(),
    {
        let mut ship: Ship = Ship::new();
        ship.reset_position(screen);
        MainState {
            asteroids: fleet(screen),
            ship,
            bullets: Vec::new(),
            game_over: false,
            game_over_timer: CLOSE_TIME,
            lives: LIVES,
            score: 0,
            displayed_score: 0,
            respawn_timer: 0,
            particles: Vec::new(),
            score_popup: None,
        }
    }

    /// Starts the game again.
    pub fn reset(&mut self, screen: Screen)
        requires
            screen.wf(),
        ensures
            final(self)@.started(screen),
            final(self)@.wf(),
    {
        self.asteroids = fleet(screen);
        let mut ship: Ship = Ship::new();
        ship.reset_position(screen);
        self.ship = ship;
        self.bullets.clear();
        self.game_over = false;
        self.game_over_timer = CLOSE_TIME;
        self.lives = LIVES;
        self.score = 0;
        self.displayed_score = 0;
        self.respawn_timer = 0;
        self.particles.clear();
        self.score_popup = None;
    }

    /// A key has gone down.
    pub fn key_down_event(&mut self, key: Key, screen: Screen)
        requires
            key == Key::R && old(self).game_over ==> screen.wf(),
        ensures
            old(self)@.key_pressed(key, screen, final(self)@),
            old(self)@.wf() ==> final(self)@.wf(),
    {
        match key {
            Key::R => {
                if self.game_over {
                    self.reset(screen);
                }
            },
            Key::Left => {
                if !self.game_over {
                    self.ship.rotation = minus(self.ship.rotation, TURN_STEP);
                }
            },
            Key::Right => {
                if !self.game_over {
                    self.ship.rotation = plus(self.ship.rotation, TURN_STEP);
                }
            },
            Key::Up => {
                if !self.game_over {
                    self.ship.thrust = true;
                }
            },
            Key::Space => {
                if !self.game_over {
                    let bullet = self.ship.shoot();
                    self.bullets.push(bullet);
                }
            },
            Key::Other => {},
        }
    }

    /// A key has come up.
    pub fn key_up_event(&mut self, key: Key)
        ensures
            final(self)@ == old(self)@.key_released(key),
            old(self)@.wf() ==> final(self)@.wf(),
    {
        match key {
            Key::Up => {
                self.ship.thrust = false;
            },
            _ => {},
        }
    }
}

} // verus!

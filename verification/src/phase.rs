//! The three phases of a game, and the steps that lead from one to
//! another.

use vstd::prelude::*;
use crate::fixed::difference;
use crate::game::{Event, GameView, MainState, CLOSE_TIME, LIVES, RESPAWN_TIME};
use crate::input::Key;
use crate::screen::Screen;

verus! {

/// Where a game stands.
#[derive(Clone, Copy, Debug, PartialEq, Eq, Structural)]
pub enum Phase {
    /// The ship is in play.
    Playing,
    /// The ship was destroyed and the next one is awaited.
    Respawning,
    /// The last ship was destroyed.
    GameOver,
}

impl GameView {
    /// The phase of the game.
    pub open spec fn phase(self) -> Phase {
        if self.game_over {
            Phase::GameOver
        } else if self.respawn_timer > 0 {
            Phase::Respawning
        } else {
            Phase::Playing
        }
    }
}

impl MainState {
    /// The phase of the game.
    pub fn phase(&self) -> (phase: Phase)
        ensures
            phase == self@.phase(),
    {
        if self.game_over {
            Phase::GameOver
        } else if self.respawn_timer > 0 {
            Phase::Respawning
        } else {
            Phase::Playing
        }
    }
}

/// A game at its start is in play, and all is as it should be.
pub proof fn lemma_start(game: GameView, screen: Screen)
    requires
        game.started(screen),
    ensures
        game.wf(),
        game.phase() == Phase::Playing,
        game.lives == LIVES,
{
}

/// Moving through a frame changes the phase in one way only: the wait for
/// the next ship ends when its timer has run out.
pub proof fn lemma_phase_after_advance(game: GameView, dt: i64, screen: Screen)
    ensures
        game.phase() == Phase::GameOver ==> game.advanced(dt, screen).phase() == Phase::GameOver,
        game.phase() == Phase::Playing ==> game.advanced(dt, screen).phase() == Phase::Playing,
        game.phase() == Phase::Respawning ==> game.advanced(dt, screen).phase() == if difference(
            game.respawn_timer,
            dt,
        ) <= 0 {
            Phase::Playing
        } else {
            Phase::Respawning
        },
        game.advanced(dt, screen).lives == game.lives,
        game.advanced(dt, screen).score == game.score,
{
}

/// Collisions change the phase in one way only: when the ship is
/// destroyed while in play, the next one is awaited for two seconds, or,
/// if that was the last life, the game is over and the run ends in five.
/// No life is lost in any other way, and never more than one in a frame.
pub proof fn lemma_phase_after_collisions(pre: GameView, post: GameView, events: Seq<Event>)
    requires
        pre.wf(),
        pre.collided(post, events),
    ensures
        pre.phase() == Phase::GameOver ==> post == pre,
        pre.phase() == Phase::Respawning ==> post.phase() == Phase::Respawning && post.lives
            == pre.lives,
        pre.phase() == Phase::Playing && !pre.ship_struck() ==> post.phase() == Phase::Playing
            && post.lives == pre.lives,
        pre.phase() == Phase::Playing && pre.ship_struck() ==> post.lives == pre.lives - 1,
        pre.phase() == Phase::Playing && pre.ship_struck() && pre.lives > 1 ==> post.phase()
            == Phase::Respawning && post.respawn_timer == RESPAWN_TIME,
        pre.phase() == Phase::Playing && pre.ship_struck() && pre.lives == 1 ==> post.phase()
            == Phase::GameOver && post.game_over_timer == CLOSE_TIME,
{
    if !pre.game_over && pre.ship_struck() {
        let mid = choose|mid: GameView|
            #[trigger] pre.ship_lost(mid) && mid.bullets_resolved(post) && events
                == pre.ship_lost_events() + mid.destroyed_events();
        assert(post.lives == mid.lives);
    }
}

/// The one key that leaves the phase of the end of the game is the one
/// that starts the game again.  No key leaves any other phase.
pub proof fn lemma_phase_after_key(pre: GameView, key: Key, screen: Screen, post: GameView)
    requires
        pre.key_pressed(key, screen, post),
    ensures
        pre.phase() == Phase::GameOver && key == Key::R ==> post.phase() == Phase::Playing
            && post.lives == LIVES && post.score == 0,
        pre.phase() == Phase::GameOver && key != Key::R ==> post == pre,
        pre.phase() != Phase::GameOver ==> post.phase() == pre.phase() && post.lives == pre.lives
            && post.score == pre.score,
{
}

} // verus!

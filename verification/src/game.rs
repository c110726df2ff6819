//! The game as a whole: what it holds, and what a collision does to it.

use vstd::prelude::*;
use crate::asteroid::{viewing, views, Asteroid, AsteroidSize, AsteroidView};
use crate::bullet::Bullet;
use crate::collision::{
    all_hits, find_hits, hits, in_range, lemma_one_bullet_per_asteroid, rammed, ship_rammed, spent,
    struck, Hit, Hits,
};
use crate::effects::{explode, exploded, Popup, BURST, POPUP_TIME};
use crate::fixed::ONE;
use crate::generator::FRAGMENTS;
use crate::particle::Particle;
use crate::screen::Screen;
use crate::ship::Ship;
use crate::sweep::{lemma_swept_map, marks, survivors, sweep, swept};
use crate::vector::Vec2;

verus! {

/// Lives at the start of a game.
pub const LIVES: i32 = 5;

/// Asteroids at the start of a game.
pub const FLEET: usize = 8;

/// Time between the loss of a ship and the arrival of the next.
pub const RESPAWN_TIME: i64 = 2000;

/// Time between the loss of the last ship and the end of the run.
pub const CLOSE_TIME: i64 = 5000;

/// Divisor that turns an asteroid's radius into the scale of its explosion.
pub const BLAST_DIVISOR: i64 = 20;

/// Something worth a line in a log.
#[derive(Clone, Copy, Debug, PartialEq, Eq, Structural)]
pub enum Event {
    /// The ship was destroyed; so many lives are left.
    ShipDestroyed { lives: i32 },
    /// The last ship was destroyed; this is the score as it stood at that
    /// moment, before the bullets' hits of the same frame.
    GameOver { score: i32 },
    /// An asteroid was destroyed; so many asteroids were left at that moment.
    AsteroidDestroyed { remaining: usize },
}

/// Everything that is in play.
#[derive(Clone, Debug, PartialEq, Eq)]
pub struct MainState {
    pub asteroids: Vec<Asteroid>,
    pub ship: Ship,
    pub bullets: Vec<Bullet>,
    pub game_over: bool,
    pub game_over_timer: i64,
    pub lives: i32,
    pub score: i32,
    pub displayed_score: i32,
    pub respawn_timer: i64,
    pub particles: Vec<Particle>,
    pub score_popup: Option<Popup>,
}

/// The game as the contracts see it.
pub struct GameView {
    pub asteroids: Seq<AsteroidView>,
    pub ship: Ship,
    pub bullets: Seq<Bullet>,
    pub game_over: bool,
    pub game_over_timer: i64,
    pub lives: i32,
    pub score: i32,
    pub displayed_score: i32,
    pub respawn_timer: i64,
    pub particles: Seq<Particle>,
    pub score_popup: Option<Popup>,
}

impl View for MainState {
    type V = GameView;

    open spec fn view(&self) -> GameView {
        GameView {
            asteroids: views(self.asteroids@),
            ship: self.ship,
            bullets: self.bullets@,
            game_over: self.game_over,
            game_over_timer: self.game_over_timer,
            lives: self.lives,
            score: self.score,
            displayed_score: self.displayed_score,
            respawn_timer: self.respawn_timer,
            particles: self.particles@,
            score_popup: self.score_popup,
        }
    }
}

/// Scale of the explosion of an asteroid of the given size.
pub open spec fn blast(size: AsteroidSize) -> i64 {
    (size.reach() / BLAST_DIVISOR) as i64
}

/// Sum of the scores of the given asteroids.
pub open spec fn gain(parents: Seq<AsteroidView>) -> int
    decreases parents.len(),
{
    if parents.len() == 0 {
        0
    } else {
        gain(parents.drop_last()) + parents.last().size.value()
    }
}

/// A score raised by `gain`, held at the largest value that it can take.
pub open spec fn raised(score: i32, gain: int) -> i32 {
    if score + gain > i32::MAX {
        i32::MAX
    } else {
        (score + gain) as i32
    }
}

/// `after` is `before` followed by one explosion for each of the given
/// asteroids, in order, each at its asteroid's position.
pub open spec fn blasted(before: Seq<Particle>, after: Seq<Particle>, parents: Seq<AsteroidView>) -> bool
    decreases parents.len(),
{
    if parents.len() == 0 {
        after == before
    } else {
        let last = parents.last();
        let earlier = after.take(after.len() - BURST);
        &&& after.len() >= BURST
        &&& blasted(before, earlier, parents.drop_last())
        &&& exploded(earlier, after, last.position, blast(last.size))
    }
}

/// `staged` holds the fragments of the given asteroids, in order: two for
/// each asteroid that breaks up, none for the others.
pub open spec fn debris(staged: Seq<AsteroidView>, parents: Seq<AsteroidView>) -> bool
    decreases parents.len(),
{
    if parents.len() == 0 {
        staged.len() == 0
    } else {
        let last = parents.last();
        if last.size.smaller().is_some() {
            let earlier = staged.take(staged.len() - FRAGMENTS);
            &&& staged.len() >= FRAGMENTS
            &&& debris(earlier, parents.drop_last())
            &&& forall|k: int|
                staged.len() - FRAGMENTS <= k < staged.len() ==> (#[trigger] staged[k]).fragment_of(
                    last,
                )
        } else {
            debris(staged, parents.drop_last())
        }
    }
}

impl GameView {
    /// What holds of a game at all times: the ship's shield agrees with its
    /// timer; the game is over exactly when no life is left; the displayed
    /// score has not passed the score; and while the next ship is awaited,
    /// the ship in hand cannot be hit.
    pub open spec fn wf(self) -> bool {
        &&& self.ship.wf()
        &&& 0 <= self.lives
        &&& self.game_over == (self.lives == 0)
        &&& 0 <= self.displayed_score <= self.score
        &&& self.respawn_timer > 0 ==> self.ship.invulnerable
    }

    /// Whether the ship, unless it is awaited or the game is over, and
    /// every asteroid and bullet lie on the screen.
    pub open spec fn on_screen(self, screen: Screen) -> bool {
        &&& !self.game_over && self.respawn_timer <= 0 ==> screen.contains(self.ship.position)
        &&& forall|k: int|
            0 <= k < self.asteroids.len() ==> screen.contains((#[trigger] self.asteroids[k]).position)
        &&& forall|k: int|
            0 <= k < self.bullets.len() ==> screen.contains((#[trigger] self.bullets[k]).position)
    }

    /// Whether the ship is destroyed in this frame.
    pub open spec fn ship_struck(self) -> bool {
        !self.game_over && !self.ship.invulnerable && rammed(self.ship, self.asteroids)
    }

    /// The game after the loss of the ship, but for the particles of the
    /// explosion.  With the last life the game is over and the countdown to
    /// the end of the run starts.  Otherwise a new ship is held back, not
    /// yet placed, until the respawn timer has run out.
    pub open spec fn without_ship(self) -> GameView {
        if self.lives - 1 <= 0 {
            GameView { lives: (self.lives - 1) as i32, game_over: true, game_over_timer: CLOSE_TIME, ..self }
        } else {
            GameView {
                lives: (self.lives - 1) as i32,
                respawn_timer: RESPAWN_TIME,
                ship: Ship::fresh(),
                ..self
            }
        }
    }

    /// Whether `post` is the game after the loss of the ship.
    pub open spec fn ship_lost(self, post: GameView) -> bool {
        &&& exploded(self.particles, post.particles, self.ship.position, ONE)
        &&& post == GameView { particles: post.particles, ..self.without_ship() }
    }

    /// What is reported of the loss of the ship.
    pub open spec fn ship_lost_events(self) -> Seq<Event> {
        if self.lives - 1 <= 0 {
            seq![
                Event::ShipDestroyed { lives: (self.lives - 1) as i32 },
                Event::GameOver { score: self.score },
            ]
        } else {
            seq![Event::ShipDestroyed { lives: (self.lives - 1) as i32 }]
        }
    }

    /// The asteroids that are destroyed in this frame, in the order of
    /// their hits.
    pub open spec fn parents(self) -> Seq<AsteroidView> {
        all_hits(self.bullets, self.asteroids).map_values(|h: Hit| self.asteroids[h.asteroid as int])
    }

    /// The bullets that are left after the hits of this frame.
    pub open spec fn bullets_left(self) -> Seq<Bullet> {
        swept(self.bullets, spent(self.bullets, self.asteroids), 0)
    }

    /// The asteroids that are left after the hits of this frame.
    pub open spec fn asteroids_left(self) -> Seq<AsteroidView> {
        swept(self.asteroids, struck(self.bullets, self.asteroids), 0)
    }

    /// The popup after the hits of this frame: that of the last hit, if
    /// there was one.
    pub open spec fn popup_after_hits(self) -> Option<Popup> {
        let parents = self.parents();
        if parents.len() == 0 {
            self.score_popup
        } else {
            Some(
                Popup {
                    points: parents.last().size.value(),
                    position: parents.last().position,
                    lifetime: POPUP_TIME,
                },
            )
        }
    }

    /// Whether `post` is the game after the bullets' hits of this frame:
    /// each hit scores, the last one leaves its popup, each asteroid hit
    /// explodes; then the bullets and asteroids of the hits are taken out,
    /// and the fragments of the asteroids are added behind those that stay.
    pub open spec fn bullets_resolved(self, post: GameView) -> bool {
        let left = self.asteroids_left();
        &&& post.score == raised(self.score, gain(self.parents()))
        &&& post.score_popup == self.popup_after_hits()
        &&& blasted(self.particles, post.particles, self.parents())
        &&& post.bullets == self.bullets_left()
        &&& post.asteroids.len() >= left.len()
        &&& post.asteroids.take(left.len() as int) == left
        &&& debris(post.asteroids.skip(left.len() as int), self.parents())
        &&& post.ship == self.ship
        &&& post.game_over == self.game_over
        &&& post.game_over_timer == self.game_over_timer
        &&& post.lives == self.lives
        &&& post.displayed_score == self.displayed_score
        &&& post.respawn_timer == self.respawn_timer
    }

    /// What is reported of the bullets' hits: for each asteroid taken out,
    /// the number of asteroids left at that moment.
    pub open spec fn destroyed_events(self) -> Seq<Event> {
        Seq::new(
            marks(struck(self.bullets, self.asteroids), 0),
            |k: int| Event::AsteroidDestroyed { remaining: (self.asteroids.len() - 1 - k) as usize },
        )
    }

    /// Whether `post` is the game after the collisions of this frame, and
    /// `events` what is reported of them.  Nothing collides once the game is
    /// over.  Otherwise there are two passes, each on its own.  First the
    /// ship: if it is struck it is lost, once, whatever the number of
    /// asteroids that it overlaps.  Then the bullets, on what the first pass
    /// has left.  Whether the game is over is asked once, before the first
    /// pass: the bullets' hits are settled also in the frame that takes the
    /// last life.
    pub open spec fn collided(self, post: GameView, events: Seq<Event>) -> bool {
        if self.game_over {
            post == self && events.len() == 0
        } else if self.ship_struck() {
            exists|mid: GameView|
                #[trigger] self.ship_lost(mid) && mid.bullets_resolved(post) && events
                    == self.ship_lost_events() + mid.destroyed_events()
        } else {
            self.bullets_resolved(post) && events == self.destroyed_events()
        }
    }
}

/// The game after the ship has been lost the given number of times, but
/// for the particles of the explosions.
pub open spec fn after_losses(game: GameView, losses: nat) -> GameView
    decreases losses,
{
    if losses == 0 {
        game
    } else {
        after_losses(game, (losses - 1) as nat).without_ship()
    }
}

/// A game that starts with all its lives is over when the ship has been
/// lost five times, and not before.
pub proof fn lemma_lives_exhaustion(game: GameView, losses: nat)
    requires
        game.lives == LIVES,
        !game.game_over,
        losses <= LIVES,
    ensures
        after_losses(game, losses).lives == LIVES - losses,
        after_losses(game, losses).game_over == (losses == LIVES),
    decreases losses,
{
    if losses > 0 {
        lemma_lives_exhaustion(game, (losses - 1) as nat);
    }
}

/// The score of a set of hits is never negative.
pub proof fn lemma_gain_nonnegative(parents: Seq<AsteroidView>)
    ensures
        gain(parents) >= 0,
    decreases parents.len(),
{
    if parents.len() > 0 {
        lemma_gain_nonnegative(parents.drop_last());
    }
}

/// Collisions never lower the score, and they leave the displayed score
/// alone.
pub proof fn lemma_score_never_falls(pre: GameView, post: GameView, events: Seq<Event>)
    requires
        pre.collided(post, events),
    ensures
        post.score >= pre.score,
        post.displayed_score == pre.displayed_score,
{
    if !pre.game_over && pre.ship_struck() {
        let mid = choose|mid: GameView|
            #[trigger] pre.ship_lost(mid) && mid.bullets_resolved(post) && events
                == pre.ship_lost_events() + mid.destroyed_events();
        lemma_gain_nonnegative(mid.parents());
    } else {
        lemma_gain_nonnegative(pre.parents());
    }
}

/// The loss of the ship leaves the bullets and the asteroids as they are,
/// so that the bullets' pass finds the same hits with the ship or without.
pub proof fn lemma_ship_pass_leaves_targets(pre: GameView, mid: GameView)
    requires
        pre.ship_lost(mid),
    ensures
        mid.bullets == pre.bullets,
        mid.asteroids == pre.asteroids,
        mid.score == pre.score,
        mid.score_popup == pre.score_popup,
        mid.parents() == pre.parents(),
        mid.bullets_left() == pre.bullets_left(),
        mid.asteroids_left() == pre.asteroids_left(),
        mid.destroyed_events() == pre.destroyed_events(),
{
}

/// In every frame in which the game is not yet over, whether or not the
/// ship is lost in it, each asteroid that is hit is scored once, and the
/// bullets and asteroids that are left are those that no hit has used up.
pub proof fn lemma_bullet_pass_in_every_frame(pre: GameView, post: GameView, events: Seq<Event>)
    requires
        !pre.game_over,
        pre.collided(post, events),
    ensures
        post.score == raised(pre.score, gain(pre.parents())),
        post.score_popup == pre.popup_after_hits(),
        post.bullets == pre.bullets_left(),
        post.asteroids.len() >= pre.asteroids_left().len(),
        post.asteroids.take(pre.asteroids_left().len() as int) == pre.asteroids_left(),
        debris(post.asteroids.skip(pre.asteroids_left().len() as int), pre.parents()),
{
    if pre.ship_struck() {
        let mid = choose|mid: GameView|
            #[trigger] pre.ship_lost(mid) && mid.bullets_resolved(post) && events
                == pre.ship_lost_events() + mid.destroyed_events();
        lemma_ship_pass_leaves_targets(pre, mid);
    }
}

/// When several bullets overlap one asteroid in a frame in which the game
/// is not yet over, the frame uses up the first of them and no other, and
/// of the asteroid it leaves its fragments alone.
pub proof fn lemma_frame_one_bullet_per_asteroid(pre: GameView, post: GameView, events: Seq<Event>)
    requires
        !pre.game_over,
        pre.collided(post, events),
        pre.asteroids.len() == 1,
        pre.bullets.len() >= 1,
        forall|b: int| 0 <= b < pre.bullets.len() ==> hits(#[trigger] pre.bullets[b], pre.asteroids[0]),
    ensures
        post.bullets.len() == pre.bullets.len() - 1,
        post.bullets == survivors(spent(pre.bullets, pre.asteroids)).map_values(
            |k: int| pre.bullets[k],
        ),
        forall|k: int|
            #[trigger] survivors(spent(pre.bullets, pre.asteroids)).contains(k) <==> 1 <= k
                < pre.bullets.len(),
        post.score == raised(pre.score, pre.asteroids[0].size.value() as int),
        debris(post.asteroids, seq![pre.asteroids[0]]),
{
    lemma_bullet_pass_in_every_frame(pre, post, events);
    lemma_one_bullet_per_asteroid(pre.bullets, pre.asteroids);
    let parents = pre.parents();
    assert(parents =~= seq![pre.asteroids[0]]);
    assert(parents.drop_last() =~= Seq::<AsteroidView>::empty());
    reveal_with_fuel(gain, 2);
    assert(post.asteroids.skip(0) =~= post.asteroids);
}

impl MainState {
    /// Whether the game is in a state that play can lead to.
    pub fn valid(&self) -> (ok: bool)
        ensures
            ok == self@.wf(),
    {
        self.ship.invulnerable == (self.ship.invulnerable_timer > 0) && 0 <= self.lives
            && self.game_over == (self.lives == 0) && 0 <= self.displayed_score
            && self.displayed_score <= self.score && (self.respawn_timer <= 0
            || self.ship.invulnerable)
    }

    /// Adds an explosion at `position`.  `size` is the factor applied to
    /// the size of each particle.
    pub fn create_explosion(&mut self, position: Vec2, size: i64)
        ensures
            exploded(old(self)@.particles, final(self)@.particles, position, size),
            final(self)@ == (GameView { particles: final(self)@.particles, ..old(self)@ }),
            final(self).asteroids == old(self).asteroids,
            final(self).bullets == old(self).bullets,
    {
        explode(&mut self.particles, position, size);
    }

    /// The ship is destroyed.
    fn lose_ship(&mut self) -> (events: Vec<Event>)
        requires
            old(self).lives > i32::MIN,
        ensures
            old(self)@.wf() && !old(self).game_over && !old(self).ship.invulnerable
                ==> final(self)@.wf(),
            old(self)@.ship_lost(final(self)@),
            events@ == old(self)@.ship_lost_events(),
    {
        let mut events: Vec<Event> = Vec::new();
        self.create_explosion(self.ship.position, ONE);
        self.lives = self.lives - 1;
        events.push(Event::ShipDestroyed { lives: self.lives });
        if self.lives <= 0 {
            self.game_over = true;
            self.game_over_timer = CLOSE_TIME;
            events.push(Event::GameOver { score: self.score });
        } else {
            self.respawn_timer = RESPAWN_TIME;
            self.ship = Ship::new();
        }
        proof {
            assert(events@ =~= old(self)@.ship_lost_events());
        }
        events
    }

    /// Scores each hit, leaves its popup and sets off its explosion.
    fn credit_hits(&mut self, pairs: &Vec<Hit>)
        requires
            pairs@ == all_hits(old(self)@.bullets, old(self)@.asteroids),
            in_range(pairs@, old(self).bullets@.len(), old(self).asteroids@.len()),
        ensures
            final(self).score == raised(old(self).score, gain(old(self)@.parents())),
            final(self).score >= old(self).score,
            final(self).score_popup == old(self)@.popup_after_hits(),
            blasted(old(self)@.particles, final(self)@.particles, old(self)@.parents()),
            final(self).asteroids == old(self).asteroids,
            final(self).bullets == old(self).bullets,
            final(self).ship == old(self).ship,
            final(self).game_over == old(self).game_over,
            final(self).game_over_timer == old(self).game_over_timer,
            final(self).lives == old(self).lives,
            final(self).displayed_score == old(self).displayed_score,
            final(self).respawn_timer == old(self).respawn_timer,
    {
        let ghost parents = old(self)@.parents();
        let mut k: usize = 0;
        proof {
            assert(parents.take(0) =~= Seq::<AsteroidView>::empty());
        }
        while k < pairs.len()
            invariant
                k <= pairs.len(),
                parents == old(self)@.parents(),
                parents.len() == pairs.len(),
                in_range(pairs@, old(self).bullets@.len(), old(self).asteroids@.len()),
                forall|j: int|
                    0 <= j < pairs.len() ==> #[trigger] parents[j] == old(self).asteroids@[pairs[j].asteroid as int]@,
                0 <= gain(parents.take(k as int)),
                self.score == raised(old(self).score, gain(parents.take(k as int))),
                self.score_popup == if k == 0 {
                    old(self).score_popup
                } else {
                    Some(
                        Popup {
                            points: parents[k - 1].size.value(),
                            position: parents[k - 1].position,
                            lifetime: POPUP_TIME,
                        },
                    )
                },
                blasted(old(self)@.particles, self.particles@, parents.take(k as int)),
                self.asteroids == old(self).asteroids,
                self.bullets == old(self).bullets,
                self.ship == old(self).ship,
                self.game_over == old(self).game_over,
                self.game_over_timer == old(self).game_over_timer,
                self.lives == old(self).lives,
                self.displayed_score == old(self).displayed_score,
                self.respawn_timer == old(self).respawn_timer,
            decreases pairs.len() - k,
        {
            let index: usize = pairs[k].asteroid;
            let position: Vec2 = self.asteroids[index].position;
            let size: AsteroidSize = self.asteroids[index].size;
            let points: i32 = size.points();
            proof {
                assert(parents[k as int] == old(self).asteroids@[index as int]@);
                assert(parents.take(k + 1).drop_last() =~= parents.take(k as int));
                assert(parents.take(k + 1).last() == parents[k as int]);
            }
            self.score = match self.score.checked_add(points) {
                Some(total) => total,
                None => i32::MAX,
            };
            self.score_popup = Some(Popup { points, position, lifetime: POPUP_TIME });
            let ghost before = self.particles@;
            self.create_explosion(position, size.radius() / BLAST_DIVISOR);
            proof {
                assert(self.particles@.take(self.particles@.len() - BURST) =~= before);
            }
            k += 1;
        }
        proof {
            assert(parents.take(k as int) =~= parents);
        }
    }

    /// The fragments of the asteroids that were hit, in the order of the
    /// hits.
    fn stage_fragments(&self, pairs: &Vec<Hit>) -> (staged: Vec<Asteroid>)
        requires
            pairs@ == all_hits(self@.bullets, self@.asteroids),
            in_range(pairs@, self.bullets@.len(), self.asteroids@.len()),
        ensures
            debris(views(staged@), self@.parents()),
    {
        let ghost parents = self@.parents();
        let mut staged: Vec<Asteroid> = Vec::new();
        let mut k: usize = 0;
        proof {
            assert(parents.take(0) =~= Seq::<AsteroidView>::empty());
        }
        while k < pairs.len()
            invariant
                k <= pairs.len(),
                parents == self@.parents(),
                parents.len() == pairs.len(),
                in_range(pairs@, self.bullets@.len(), self.asteroids@.len()),
                forall|j: int|
                    0 <= j < pairs.len() ==> #[trigger] parents[j] == self.asteroids@[pairs[j].asteroid as int]@,
                debris(views(staged@), parents.take(k as int)),
            decreases pairs.len() - k,
        {
            let index: usize = pairs[k].asteroid;
            proof {
                assert(parents[k as int] == self.asteroids@[index as int]@);
                assert(parents.take(k + 1).drop_last() =~= parents.take(k as int));
                assert(parents.take(k + 1).last() == parents[k as int]);
            }
            let ghost before = views(staged@);
            match self.asteroids[index].split() {
                Some(mut pieces) => {
                    let ghost added = views(pieces@);
                    staged.append(&mut pieces);
                    proof {
                        let now = views(staged@);
                        assert(now =~= before + added);
                        assert(now.take(now.len() - FRAGMENTS) =~= before);
                        assert forall|j: int| now.len() - FRAGMENTS <= j < now.len() implies (
                        #[trigger] now[j]).fragment_of(parents[k as int]) by {
                            assert(now[j] == added[j - before.len()]);
                        }
                    }
                },
                None => {},
            }
            k += 1;
        }
        proof {
            assert(parents.take(k as int) =~= parents);
        }
        staged
    }

    /// Settles the bullets' hits: each asteroid that a bullet hits is
    /// destroyed by the first such bullet.
    fn resolve_hits(&mut self) -> (events: Vec<Event>)
        ensures
            old(self)@.bullets_resolved(final(self)@),
            events@ == old(self)@.destroyed_events(),
            old(self)@.wf() ==> final(self)@.wf(),
            final(self).score >= old(self).score,
    {
        let found: Hits = find_hits(&self.bullets, &self.asteroids);
        self.credit_hits(&found.pairs);
        let mut staged: Vec<Asteroid> = self.stage_fragments(&found.pairs);
        let count: usize = self.asteroids.len();
        sweep(&mut self.bullets, &found.spent);
        sweep(&mut self.asteroids, &found.struck);
        let removed: usize = count - self.asteroids.len();
        let mut events: Vec<Event> = Vec::new();
        let mut k: usize = 0;
        while k < removed
            invariant
                k <= removed <= count,
                events.len() == k,
                forall|j: int|
                    0 <= j < k ==> #[trigger] events[j] == (Event::AsteroidDestroyed {
                        remaining: (count - 1 - j) as usize,
                    }),
            decreases removed - k,
        {
            events.push(Event::AsteroidDestroyed { remaining: count - 1 - k });
            k += 1;
        }
        proof {
            let marked = struck(old(self)@.bullets, old(self)@.asteroids);
            lemma_swept_map(old(self).asteroids@, marked, 0, viewing());
            let left = old(self)@.asteroids_left();
            assert(views(self.asteroids@) == left);
            assert(events@ =~= old(self)@.destroyed_events());
        }
        let ghost kept = self.asteroids@;
        let ghost extra = staged@;
        self.asteroids.append(&mut staged);
        proof {
            let left = old(self)@.asteroids_left();
            let now = views(self.asteroids@);
            assert(now =~= views(kept) + views(extra));
            assert(now.take(left.len() as int) =~= left);
            assert(now.skip(left.len() as int) =~= views(extra));
        }
        events
    }

    /// Looks for collisions and settles them, in two passes.  Nothing
    /// collides once the game is over.  First the ship: if it overlaps an
    /// asteroid while its shield is down, it is destroyed, once, whatever
    /// the number of asteroids that it overlaps.  Then the bullets, whether
    /// or not the ship was lost: each asteroid that a bullet hits is
    /// destroyed by the first such bullet.  Returns what is worth a line in
    /// a log, the loss of the ship first.
    pub fn check_collisions(&mut self) -> (events: Vec<Event>)
        requires
            old(self).lives > i32::MIN,
        ensures
            old(self)@.collided(final(self)@, events@),
            old(self)@.wf() ==> final(self)@.wf(),
            final(self).score >= old(self).score,
    {
        if self.game_over {
            return Vec::new();
        }
        let struck_ship: bool = !self.ship.invulnerable && ship_rammed(&self.ship, &self.asteroids);
        let mut events: Vec<Event> = if struck_ship {
            self.lose_ship()
        } else {
            Vec::new()
        };
        let ghost mid = self@;
        let ghost first = events@;
        let mut more: Vec<Event> = self.resolve_hits();
        events.append(&mut more);
        proof {
            if struck_ship {
                assert(old(self)@.ship_lost(mid));
                assert(events@ =~= old(self)@.ship_lost_events() + mid.destroyed_events());
            } else {
                assert(events@ =~= old(self)@.destroyed_events());
            }
        }
        events
    }
}

} // verus!

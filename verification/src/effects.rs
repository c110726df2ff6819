//! Effects that touch nothing in play: explosions, the score that pops
//! up over a destroyed asteroid, and the counter that runs after the score.

use vstd::prelude::*;
use vstd::string::StringExecFns;
use crate::fixed::{difference, lemma_product_bound, minus, product, times, trunc_div, wide_trunc_div, ONE};
use crate::generator::{aimed, launched};
use crate::particle::Particle;
use crate::random::uniform;
use crate::trig::TURN;
use crate::vector::Vec2;

verus! {

/// Number of particles in an explosion.
pub const BURST: usize = 50;

/// Least speed of a particle of an explosion.
pub const SPARK_SPEED_LOW: i64 = 100_000;

/// Bound that the speed stays under.
pub const SPARK_SPEED_HIGH: i64 = 400_000;

/// Least lifetime of a particle of an explosion.
pub const SPARK_LIFE_LOW: i64 = 500;

/// Bound that the lifetime stays under.
pub const SPARK_LIFE_HIGH: i64 = 1500;

/// Least size of a particle, before the explosion's scale is applied.
pub const SPARK_SIZE_LOW: i64 = 2000;

/// Bound that the size stays under, before the scale is applied.
pub const SPARK_SIZE_HIGH: i64 = 6000;

/// Time for which a popup is shown.
pub const POPUP_TIME: i64 = 1000;

/// How fast the displayed score closes in on the score: the share of the
/// gap that it covers in a second.
pub const COUNTER_RATE: i64 = 10;

/// The score gained, shown for a moment where the asteroid was.
#[derive(Clone, Copy, Debug, PartialEq, Eq, Structural)]
pub struct Popup {
    pub points: i32,
    pub position: Vec2,
    pub lifetime: i64,
}

/// The particle that comes of the given draws: thrown out from
/// `position` along `angle` at `speed`, with the given lifetime, and of the
/// given size times the scale of the explosion.
pub open spec fn spark_of(
    position: Vec2,
    scale: i64,
    angle: i64,
    speed: i64,
    lifetime: i64,
    size: i64,
) -> Particle {
    Particle { position, velocity: Vec2::polar(angle, speed), lifetime, size: product(size, scale) }
}

/// A particle as an explosion at `position` with the given scale may
/// throw it out.
pub open spec fn sparked(p: Particle, position: Vec2, scale: i64) -> bool {
    &&& p.position == position
    &&& launched(p.velocity, SPARK_SPEED_LOW, SPARK_SPEED_HIGH)
    &&& SPARK_LIFE_LOW <= p.lifetime < SPARK_LIFE_HIGH
    &&& exists|size: i64|
        SPARK_SIZE_LOW <= size < SPARK_SIZE_HIGH && p.size == #[trigger] product(size, scale)
}

/// `after` is `before` followed by the particles of one explosion.
pub open spec fn exploded(
    before: Seq<Particle>,
    after: Seq<Particle>,
    position: Vec2,
    scale: i64,
) -> bool {
    &&& after.len() == before.len() + BURST
    &&& after.subrange(0, before.len() as int) == before
    &&& forall|k: int|
        before.len() <= k < after.len() ==> sparked(#[trigger] after[k], position, scale)
}

/// The displayed score after a frame of `dt`: it moves toward the score by
/// a share of the gap, by one at least, and stops at the score.
pub open spec fn animated(displayed: i32, score: i32, dt: i64) -> i32 {
    if displayed < score {
        let step = trunc_div((score - displayed) * COUNTER_RATE * dt, ONE as int);
        let next = displayed + if step < 1 {
            1
        } else {
            step
        };
        if next > score {
            score
        } else {
            next as i32
        }
    } else {
        displayed
    }
}

/// The displayed score after one frame for each of the given frame times.
pub open spec fn animated_over(displayed: i32, score: i32, frames: Seq<i64>) -> i32
    decreases frames.len(),
{
    if frames.len() == 0 {
        displayed
    } else {
        animated(animated_over(displayed, score, frames.drop_last()), score, frames.last())
    }
}

/// The displayed score never passes the score, never falls back, and
/// gains at least one in every frame in which it is behind.
pub proof fn lemma_counter_step(displayed: i32, score: i32, dt: i64)
    requires
        displayed <= score,
    ensures
        displayed <= animated(displayed, score, dt) <= score,
        displayed < score ==> displayed < animated(displayed, score, dt),
{
}

/// The displayed score reaches the score within as many frames as it is
/// behind, whatever the frame times, and then stays there.
pub proof fn lemma_counter_converges(displayed: i32, score: i32, frames: Seq<i64>)
    requires
        displayed <= score,
    ensures
        displayed <= animated_over(displayed, score, frames) <= score,
        animated_over(displayed, score, frames) >= displayed + frames.len() || animated_over(
            displayed,
            score,
            frames,
        ) == score,
        frames.len() >= score - displayed ==> animated_over(displayed, score, frames) == score,
    decreases frames.len(),
{
    if frames.len() > 0 {
        lemma_counter_converges(displayed, score, frames.drop_last());
        lemma_counter_step(animated_over(displayed, score, frames.drop_last()), score, frames.last());
    }
}

/// The numeral for one digit.
pub open spec fn digit(d: int) -> char
    recommends
        0 <= d < 10,
{
    if d == 0 {
        '0'
    } else if d == 1 {
        '1'
    } else if d == 2 {
        '2'
    } else if d == 3 {
        '3'
    } else if d == 4 {
        '4'
    } else if d == 5 {
        '5'
    } else if d == 6 {
        '6'
    } else if d == 7 {
        '7'
    } else if d == 8 {
        '8'
    } else {
        '9'
    }
}

/// A natural number in decimal, without leading zeros.
pub open spec fn decimal(n: nat) -> Seq<char>
    decreases n,
{
    if n < 10 {
        seq![digit(n as int)]
    } else {
        decimal(n / 10).push(digit((n % 10) as int))
    }
}

/// A whole number in decimal, with a minus sign if it is negative.
pub open spec fn signed_decimal(n: int) -> Seq<char> {
    if n < 0 {
        seq!['-'] + decimal((-n) as nat)
    } else {
        decimal(n as nat)
    }
}

impl Popup {
    /// What the popup shows: a plus sign and the points.
    pub open spec fn label(self) -> Seq<char> {
        seq!['+'] + signed_decimal(self.points as int)
    }

    /// The popup after a frame of `dt`, if it is still to be shown.
    pub open spec fn faded(self, dt: i64) -> Option<Popup> {
        let lifetime = difference(self.lifetime, dt);
        if lifetime <= 0 {
            None
        } else {
            Some(Popup { lifetime, ..self })
        }
    }

    /// What the popup shows: a plus sign and the points.
    pub fn text(&self) -> (s: String)
        ensures
            s@ == self.label(),
    {
        let mut s: String = String::from_str("+");
        proof {
            reveal_strlit("+");
            assert(s@ =~= seq!['+']);
        }
        let wide: i64 = self.points as i64;
        if wide < 0 {
            s.append("-");
            proof {
                reveal_strlit("-");
            }
            append_decimal(&mut s, (-wide) as u64);
        } else {
            append_decimal(&mut s, wide as u64);
        }
        assert(s@ =~= self.label());
        s
    }

    /// The popup after a frame of `dt`, if it is still to be shown.
    pub fn fade(self, dt: i64) -> (p: Option<Popup>)
        ensures
            p == self.faded(dt),
    {
        let lifetime: i64 = minus(self.lifetime, dt);
        if lifetime <= 0 {
            None
        } else {
            Some(Popup { points: self.points, position: self.position, lifetime })
        }
    }
}

/// The numeral for one digit, as a string.
fn digit_str(d: u64) -> (s: &'static str)
    requires
        d < 10,
    ensures
        s@ == seq![digit(d as int)],
{
    proof {
        reveal_strlit("0");
        reveal_strlit("1");
        reveal_strlit("2");
        reveal_strlit("3");
        reveal_strlit("4");
        reveal_strlit("5");
        reveal_strlit("6");
        reveal_strlit("7");
        reveal_strlit("8");
        reveal_strlit("9");
    }
    let s: &'static str = if d == 0 {
        "0"
    } else if d == 1 {
        "1"
    } else if d == 2 {
        "2"
    } else if d == 3 {
        "3"
    } else if d == 4 {
        "4"
    } else if d == 5 {
        "5"
    } else if d == 6 {
        "6"
    } else if d == 7 {
        "7"
    } else if d == 8 {
        "8"
    } else {
        "9"
    };
    assert(s@ =~= seq![digit(d as int)]);
    s
}

/// Writes `n` in decimal at the end of `s`.
pub fn append_decimal(s: &mut String, n: u64)
    ensures
        final(s)@ == old(s)@ + decimal(n as nat),
    decreases n,
{
    if n >= 10 {
        append_decimal(s, n / 10);
    }
    s.append(digit_str(n % 10));
    assert(s@ =~= old(s)@ + decimal(n as nat));
}

/// The particle that comes of the given draws.
pub fn spark(position: Vec2, scale: i64, angle: i64, speed: i64, lifetime: i64, size: i64) -> (p:
    Particle)
    ensures
        p == spark_of(position, scale, angle, speed, lifetime, size),
{
    Particle { position, velocity: Vec2::from_polar(angle, speed), lifetime, size: times(size, scale) }
}

/// Adds the particles of one explosion at `position`.  `scale` is the
/// factor applied to the size of each particle.
pub fn explode(particles: &mut Vec<Particle>, position: Vec2, scale: i64)
    ensures
        exploded(old(particles)@, final(particles)@, position, scale),
{
    let mut rng: rand::rngs::ThreadRng = rand::thread_rng();
    let mut i: usize = 0;
    while i < BURST
        invariant
            i <= BURST,
            particles.len() == old(particles).len() + i,
            particles@.subrange(0, old(particles).len() as int) == old(particles)@,
            forall|k: int|
                old(particles).len() <= k < particles.len() ==> sparked(
                    #[trigger] particles[k],
                    position,
                    scale,
                ),
        decreases BURST - i,
    {
        let angle: i64 = uniform(&mut rng, 0, TURN);
        let speed: i64 = uniform(&mut rng, SPARK_SPEED_LOW, SPARK_SPEED_HIGH);
        let lifetime: i64 = uniform(&mut rng, SPARK_LIFE_LOW, SPARK_LIFE_HIGH);
        let size: i64 = uniform(&mut rng, SPARK_SIZE_LOW, SPARK_SIZE_HIGH);
        let thrown = spark(position, scale, angle, speed, lifetime, size);
        assert(aimed(thrown.velocity, speed));
        assert(sparked(thrown, position, scale));
        let ghost before = particles@;
        particles.push(thrown);
        assert(particles@.subrange(0, old(particles).len() as int) =~= before.subrange(
            0,
            old(particles).len() as int,
        ));
        i += 1;
    }
}

/// Moves the displayed score toward the score.
pub fn animate(displayed: i32, score: i32, dt: i64) -> (next: i32)
    ensures
        next == animated(displayed, score, dt),
{
    if displayed >= score {
        return displayed;
    }
    let gap: i64 = (score as i64 - displayed as i64) * COUNTER_RATE;
    proof {
        lemma_product_bound(gap as int, dt as int);
        assert((score - displayed) * COUNTER_RATE * dt == gap * dt);
    }
    let wide: i128 = (gap as i128) * (dt as i128);
    let step: i128 = wide_trunc_div(wide, ONE as i128);
    let bounded: i128 = if step < 1 {
        1
    } else {
        step
    };
    if bounded >= score as i128 - displayed as i128 {
        score
    } else {
        (displayed as i128 + bounded) as i32
    }
}

} // verus!

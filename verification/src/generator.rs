//! Making asteroids: new ones at the edge of the screen, and the fragments
//! of one that was destroyed.
//!
//! Each function that draws random numbers states what holds of every
//! draw.  What is computed from the draws stands in functions of its own,
//! which take the drawn values as arguments.

use vstd::prelude::*;
use crate::asteroid::{views, Asteroid, AsteroidSize, AsteroidView};
use crate::fixed::{product, times};
use crate::random::{chance, uniform};
use crate::screen::Screen;
use crate::trig::TURN;
use crate::vector::{lemma_polar_length, Vec2};

verus! {

/// Fewest corners of an outline.
pub const CORNERS_MIN: i64 = 6;

/// Most corners of an outline.
pub const CORNERS_MAX: i64 = 11;

/// Least factor by which a corner's distance from the centre departs from
/// the base radius.
pub const JITTER_LOW: i64 = 500;

/// Bound that the factor stays under.
pub const JITTER_HIGH: i64 = 1500;

/// Least speed of a new asteroid.
pub const SPEED_LOW: i64 = 50_000;

/// Bound that the speed of a new asteroid stays under.
pub const SPEED_HIGH: i64 = 150_000;

/// Bound on the spin of a new asteroid, either way.
pub const SPIN: i64 = 2000;

/// Bound on the spin of a fragment, either way.
pub const FRAGMENT_SPIN: i64 = 3000;

/// Factor by which a fragment is faster than its parent.
pub const FRAGMENT_BOOST: i64 = 1500;

/// Number of fragments of an asteroid that breaks up.
pub const FRAGMENTS: usize = 2;

/// Even odds are one in two: this is the one.
pub const EVEN_ODDS: u32 = 1;

/// Even odds are one in two: this is the two.
pub const EVEN_ODDS_OF: u32 = 2;

/// Direction of corner `i` of `n`: the corners divide the full turn evenly.
pub open spec fn corner_angle(i: int, n: int) -> i64
    recommends
        0 <= i < n,
{
    ((i * TURN) / n) as i64
}

/// The outline of an asteroid of the given size whose corners are moved in
/// or out by the given factors, one factor for each corner.
pub open spec fn shape(size: AsteroidSize, jitters: Seq<i64>) -> Seq<Vec2> {
    Seq::new(
        jitters.len(),
        |i: int|
            Vec2::polar(corner_angle(i, jitters.len() as int), product(size.reach(), jitters[i])),
    )
}

/// Factors as they are drawn for an outline: between six and eleven of
/// them, each from a half up to, but not reaching, one and a half.
pub open spec fn regular(jitters: Seq<i64>) -> bool {
    &&& CORNERS_MIN <= jitters.len() <= CORNERS_MAX
    &&& forall|i: int| 0 <= i < jitters.len() ==> JITTER_LOW <= #[trigger] jitters[i] < JITTER_HIGH
}

/// The outline is one that the generator can produce for the given size.
pub open spec fn rugged(points: Seq<Vec2>, size: AsteroidSize) -> bool {
    exists|jitters: Seq<i64>| #[trigger] regular(jitters) && points == shape(size, jitters)
}

/// The vector has the given length and points along some angle of the
/// full turn.
pub open spec fn aimed(v: Vec2, speed: i64) -> bool {
    exists|angle: i64| 0 <= angle < TURN && v == #[trigger] Vec2::polar(angle, speed)
}

/// The vector points along some angle and has some length in `low..high`.
pub open spec fn launched(v: Vec2, low: i64, high: i64) -> bool {
    exists|speed: i64| low <= speed < high && #[trigger] aimed(v, speed)
}

impl Screen {
    /// Where a new asteroid may appear: on the left or right edge at a
    /// height below the screen's, or on the top or bottom edge at a
    /// distance below the screen's width.
    pub open spec fn on_edge(self, p: Vec2) -> bool {
        ||| (p.x == 0 || p.x == self.width) && 0 <= p.y < self.height
        ||| (p.y == 0 || p.y == self.height) && 0 <= p.x < self.width
    }
}

impl AsteroidView {
    /// The new asteroid that comes of the given draws: it appears at
    /// `position`, moves along `angle` at `speed`, has the outline of the
    /// given factors, and starts unturned with the given spin.
    pub open spec fn assembled(
        size: AsteroidSize,
        position: Vec2,
        angle: i64,
        speed: i64,
        jitters: Seq<i64>,
        spin: i64,
    ) -> AsteroidView {
        AsteroidView {
            position,
            velocity: Vec2::polar(angle, speed),
            points: shape(size, jitters),
            rotation: 0,
            rotation_speed: spin,
            size,
        }
    }

    /// The fragment of this asteroid that comes of the given draws: it
    /// starts where the asteroid is and flies off along `angle`, half again
    /// as fast as the asteroid.
    pub open spec fn fragment(
        self,
        next: AsteroidSize,
        angle: i64,
        rotation: i64,
        spin: i64,
        jitters: Seq<i64>,
    ) -> AsteroidView {
        AsteroidView {
            position: self.position,
            velocity: Vec2::polar(angle, self.fragment_speed()),
            points: shape(next, jitters),
            rotation,
            rotation_speed: spin,
            size: next,
        }
    }

    /// A new asteroid of the given size, as `new_with_size` may make it.
    pub open spec fn spawned(self, size: AsteroidSize, screen: Screen) -> bool {
        &&& self.size == size
        &&& screen.on_edge(self.position)
        &&& launched(self.velocity, SPEED_LOW, SPEED_HIGH)
        &&& rugged(self.points, size)
        &&& self.rotation == 0
        &&& -SPIN <= self.rotation_speed < SPIN
    }

    /// The speed of this asteroid's fragments.
    pub open spec fn fragment_speed(self) -> i64 {
        product(self.velocity.norm(), FRAGMENT_BOOST)
    }

    /// A fragment of `parent`, as `split` may make it: it starts where the
    /// parent was, one size smaller and half again as fast.
    pub open spec fn fragment_of(self, parent: AsteroidView) -> bool {
        &&& Some(self.size) == parent.size.smaller()
        &&& self.position == parent.position
        &&& aimed(self.velocity, parent.fragment_speed())
        &&& rugged(self.points, self.size)
        &&& 0 <= self.rotation < TURN
        &&& -FRAGMENT_SPIN <= self.rotation_speed < FRAGMENT_SPIN
    }
}

/// What `split` returns for `parent`: nothing for the smallest size, else
/// two fragments.
pub open spec fn fragments_of(fragments: Option<Seq<AsteroidView>>, parent: AsteroidView) -> bool {
    match fragments {
        None => parent.size.smaller().is_none(),
        Some(pieces) => {
            &&& parent.size.smaller().is_some()
            &&& pieces.len() == FRAGMENTS
            &&& forall|k: int| 0 <= k < pieces.len() ==> (#[trigger] pieces[k]).fragment_of(parent)
        },
    }
}

/// A vector aimed with a speed has that speed for its length, to within
/// one part in a hundred and the rounding of its coordinates.
pub proof fn lemma_aimed_length(v: Vec2, speed: i64)
    requires
        0 <= speed,
        aimed(v, speed),
    ensures
        990_000 * (speed * speed) - 4_000_000 * speed <= 1_000_000 * v.norm_squared() <= 1_006_000
            * (speed * speed),
{
    let angle = choose|angle: i64| 0 <= angle < TURN && v == #[trigger] Vec2::polar(angle, speed);
    lemma_polar_length(angle, speed);
}

/// Number of fragments, of whatever size, that come of an asteroid of the
/// given size if it and all that comes of it is destroyed.
pub open spec fn offspring(size: AsteroidSize) -> nat
    decreases size.rank(),
{
    match size.smaller() {
        None => 0,
        Some(next) => FRAGMENTS as nat * (1 + offspring(next)),
    }
}

/// What is left of a destroyed asteroid: two of the middle size for one of
/// the largest, two of the smallest for one of the middle size, nothing
/// for one of the smallest.
pub proof fn lemma_fragmentation(parent: AsteroidView, fragments: Option<Seq<AsteroidView>>)
    requires
        fragments_of(fragments, parent),
    ensures
        parent.size == AsteroidSize::Small ==> fragments.is_none(),
        parent.size == AsteroidSize::Large ==> fragments.is_some() && fragments.unwrap().len() == 2
            && forall|k: int|
            0 <= k < 2 ==> (#[trigger] fragments.unwrap()[k]).size == AsteroidSize::Medium,
        parent.size == AsteroidSize::Medium ==> fragments.is_some() && fragments.unwrap().len()
            == 2 && forall|k: int|
            0 <= k < 2 ==> (#[trigger] fragments.unwrap()[k]).size == AsteroidSize::Small,
{
}

/// Breaking up comes to an end: each fragment can break up once less than
/// its parent, and all that ever comes of one asteroid of the largest size
/// are two of the middle size and four of the smallest.
pub proof fn lemma_chain_ends(size: AsteroidSize)
    ensures
        size.smaller().is_some() ==> size.smaller().unwrap().rank() < size.rank(),
        size.smaller().is_none() <==> size.rank() == 0,
        offspring(AsteroidSize::Small) == 0,
        offspring(AsteroidSize::Medium) == 2,
        offspring(AsteroidSize::Large) == 6,
{
    reveal_with_fuel(offspring, 4);
}

/// Direction of corner `i` of `n`.
fn angle_of_corner(i: usize, n: usize) -> (angle: i64)
    requires
        i < n,
    ensures
        angle == corner_angle(i as int, n as int),
        0 <= angle < TURN,
{
    assert(0 <= (i * TURN) / (n as int) < TURN) by (nonlinear_arith)
        requires
            0 <= i < n,
            TURN == 6284,
    ;
    assert(0 <= i * TURN <= 0xffff_ffff_ffff_ffff * 6284) by (nonlinear_arith)
        requires
            0 <= i <= 0xffff_ffff_ffff_ffff,
            TURN == 6284,
    ;
    let wide: i128 = (i as i128) * (TURN as i128);
    (wide / (n as i128)) as i64
}

/// The outline for the given size and factors.
pub fn outline_from(size: AsteroidSize, jitters: &Vec<i64>) -> (points: Vec<Vec2>)
    ensures
        points@ == shape(size, jitters@),
{
    let n: usize = jitters.len();
    let base: i64 = size.radius();
    let mut points: Vec<Vec2> = Vec::new();
    let mut i: usize = 0;
    while i < n
        invariant
            n == jitters.len(),
            base == size.reach(),
            i <= n,
            points.len() == i,
            forall|k: int| 0 <= k < i ==> points[k] == shape(size, jitters@)[k],
        decreases n - i,
    {
        let angle: i64 = angle_of_corner(i, n);
        points.push(Vec2::from_polar(angle, times(base, jitters[i])));
        i += 1;
    }
    assert(points@ =~= shape(size, jitters@));
    points
}

/// Draws the factors of an outline.
fn draw_jitters(rng: &mut rand::rngs::ThreadRng) -> (jitters: Vec<i64>)
    ensures
        regular(jitters@),
{
    let n: i64 = uniform(rng, CORNERS_MIN, CORNERS_MAX + 1);
    let mut jitters: Vec<i64> = Vec::new();
    let mut i: i64 = 0;
    while i < n
        invariant
            0 <= i <= n,
            jitters.len() == i,
            forall|k: int| 0 <= k < i ==> JITTER_LOW <= #[trigger] jitters[k] < JITTER_HIGH,
        decreases n - i,
    {
        jitters.push(uniform(rng, JITTER_LOW, JITTER_HIGH));
        i += 1;
    }
    jitters
}

/// Draws a point on one of the four edges.
fn draw_edge_point(rng: &mut rand::rngs::ThreadRng, screen: Screen) -> (p: Vec2)
    requires
        screen.wf(),
    ensures
        screen.on_edge(p),
{
    let side: bool = chance(rng, EVEN_ODDS, EVEN_ODDS_OF);
    if side {
        let near: bool = chance(rng, EVEN_ODDS, EVEN_ODDS_OF);
        let along: i64 = uniform(rng, 0, screen.height);
        screen.edge_point(side, near, along)
    } else {
        let along: i64 = uniform(rng, 0, screen.width);
        let near: bool = chance(rng, EVEN_ODDS, EVEN_ODDS_OF);
        screen.edge_point(side, near, along)
    }
}

impl Screen {
    /// Length of the edges that a point is drawn along: the height for the
    /// left and right edges, the width for the top and bottom ones.
    pub open spec fn edge_length(self, side: bool) -> i64 {
        if side {
            self.height
        } else {
            self.width
        }
    }

    /// The point that the given draws pick.  With `side` it lies on the
    /// left or right edge, at the height `along`; without, on the top or
    /// bottom edge, at the distance `along` from the left.  With `near`
    /// it is the edge through the origin, without, the one opposite.
    pub open spec fn edge_point_of(self, side: bool, near: bool, along: i64) -> Vec2 {
        if side {
            Vec2 {
                x: if near {
                    0
                } else {
                    self.width
                },
                y: along,
            }
        } else {
            Vec2 {
                x: along,
                y: if near {
                    0
                } else {
                    self.height
                },
            }
        }
    }

    /// The point that the given draws pick.
    pub fn edge_point(&self, side: bool, near: bool, along: i64) -> (p: Vec2)
        ensures
            p == self.edge_point_of(side, near, along),
    {
        if side {
            let x: i64 = if near {
                0
            } else {
                self.width
            };
            Vec2::new(x, along)
        } else {
            let y: i64 = if near {
                0
            } else {
                self.height
            };
            Vec2::new(along, y)
        }
    }
}

/// The places where a new asteroid may appear are exactly the points that
/// the draws can pick: one for each choice of the edge and each distance
/// along it that is less than the edge's length.
pub proof fn lemma_edge_points(screen: Screen, p: Vec2)
    ensures
        screen.on_edge(p) <==> exists|side: bool, near: bool, along: i64|
            0 <= along < screen.edge_length(side) && p == #[trigger] screen.edge_point_of(
                side,
                near,
                along,
            ),
{
    if screen.on_edge(p) {
        if (p.x == 0 || p.x == screen.width) && 0 <= p.y < screen.height {
            assert(p == screen.edge_point_of(true, p.x == 0, p.y));
        } else {
            assert(p == screen.edge_point_of(false, p.y == 0, p.x));
        }
    }
}

impl Asteroid {
    /// The new asteroid that comes of the given draws.
    pub fn assemble(
        size: AsteroidSize,
        position: Vec2,
        angle: i64,
        speed: i64,
        jitters: &Vec<i64>,
        spin: i64,
    ) -> (asteroid: Asteroid)
        ensures
            asteroid@ == AsteroidView::assembled(size, position, angle, speed, jitters@, spin),
    {
        Asteroid {
            position,
            velocity: Vec2::from_polar(angle, speed),
            points: outline_from(size, jitters),
            rotation: 0,
            rotation_speed: spin,
            size,
        }
    }

    /// The fragment of this asteroid that comes of the given draws.
    pub fn fragment(
        &self,
        next: AsteroidSize,
        angle: i64,
        rotation: i64,
        spin: i64,
        jitters: &Vec<i64>,
    ) -> (piece: Asteroid)
        ensures
            piece@ == self@.fragment(next, angle, rotation, spin, jitters@),
    {
        let speed: i64 = times(self.velocity.length(), FRAGMENT_BOOST);
        Asteroid {
            position: self.position,
            velocity: Vec2::from_polar(angle, speed),
            points: outline_from(next, jitters),
            rotation,
            rotation_speed: spin,
            size: next,
        }
    }

    /// A new asteroid of the given size on an edge of the screen, with a
    /// random course, outline and spin.
    pub fn new_with_size(size: AsteroidSize, screen: Screen) -> (asteroid: Asteroid)
        requires
            screen.wf(),
        ensures
            asteroid@.spawned(size, screen),
    {
        let mut rng: rand::rngs::ThreadRng = rand::thread_rng();
        let position: Vec2 = draw_edge_point(&mut rng, screen);
        let speed: i64 = uniform(&mut rng, SPEED_LOW, SPEED_HIGH);
        let angle: i64 = uniform(&mut rng, 0, TURN);
        let jitters: Vec<i64> = draw_jitters(&mut rng);
        let spin: i64 = uniform(&mut rng, -SPIN, SPIN);
        let asteroid = Asteroid::assemble(size, position, angle, speed, &jitters, spin);
        proof {
            assert(aimed(asteroid@.velocity, speed));
        }
        asteroid
    }

    /// A new asteroid of the largest size.
    pub fn new(screen: Screen) -> (asteroid: Asteroid)
        requires
            screen.wf(),
        ensures
            asteroid@.spawned(AsteroidSize::Large, screen),
    {
        Asteroid::new_with_size(AsteroidSize::Large, screen)
    }

    /// The fragments that are left when this asteroid is destroyed: none of
    /// the smallest size, else two of the next smaller one.
    pub fn split(&self) -> (fragments: Option<Vec<Asteroid>>)
        ensures
            fragments_of(
                match fragments {
                    Some(pieces) => Some(views(pieces@)),
                    None => None,
                },
                self@,
            ),
    {
        let next: AsteroidSize = match self.size.next_size() {
            Some(next) => next,
            None => {
                return None;
            },
        };
        let mut rng: rand::rngs::ThreadRng = rand::thread_rng();
        let mut pieces: Vec<Asteroid> = Vec::with_capacity(FRAGMENTS);
        let mut i: usize = 0;
        while i < FRAGMENTS
            invariant
                i <= FRAGMENTS,
                pieces.len() == i,
                Some(next) == self.size.smaller(),
                forall|k: int| 0 <= k < i ==> (#[trigger] pieces[k])@.fragment_of(self@),
            decreases FRAGMENTS - i,
        {
            let angle: i64 = uniform(&mut rng, 0, TURN);
            let rotation: i64 = uniform(&mut rng, 0, TURN);
            let spin: i64 = uniform(&mut rng, -FRAGMENT_SPIN, FRAGMENT_SPIN);
            let jitters: Vec<i64> = draw_jitters(&mut rng);
            let piece = self.fragment(next, angle, rotation, spin, &jitters);
            pieces.push(piece);
            i += 1;
        }
        Some(pieces)
    }
}

} // verus!

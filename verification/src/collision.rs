//! Which bullet destroys which asteroid.
//!
//! Bullets are taken in order, and for each bullet the asteroids in order.
//! An asteroid goes to the first bullet that hits it; a later bullet that
//! hits the same asteroid has no part in it.  One bullet may destroy more
//! than one asteroid.

use vstd::prelude::*;
use crate::asteroid::{views, Asteroid, AsteroidView};
use crate::bullet::Bullet;
use crate::ship::{Ship, SHIP_RADIUS};
use crate::sweep::{
    lemma_marks_split, lemma_survivors, lemma_swept_by_position, lemma_swept_prefix, marks,
    marks_below, survivors, swept,
};

verus! {

/// A bullet and the asteroid that it destroys, each by its index.
#[derive(Clone, Copy, Debug, PartialEq, Eq, Structural)]
pub struct Hit {
    pub bullet: usize,
    pub asteroid: usize,
}

/// What a search for hits finds.
#[derive(Clone, Debug, PartialEq, Eq)]
pub struct Hits {
    /// The hits, ordered by bullet and then by asteroid.
    pub pairs: Vec<Hit>,
    /// For each bullet, whether it destroys an asteroid.
    pub spent: Vec<bool>,
    /// For each asteroid, whether a bullet destroys it.
    pub struck: Vec<bool>,
}

/// Whether the bullet is inside the asteroid's radius.
pub open spec fn hits(bullet: Bullet, asteroid: AsteroidView) -> bool {
    asteroid.position.near(bullet.position, asteroid.size.reach())
}

/// Whether the ship and the asteroid overlap.
pub open spec fn rams(ship: Ship, asteroid: AsteroidView) -> bool {
    asteroid.position.near(ship.position, (asteroid.size.reach() + SHIP_RADIUS) as i64)
}

/// Whether one of the first `limit` bullets hits the asteroid.
pub open spec fn hit_by_first(bullets: Seq<Bullet>, asteroid: AsteroidView, limit: int) -> bool {
    exists|j: int| 0 <= j < limit && j < bullets.len() && hits(#[trigger] bullets[j], asteroid)
}

/// Whether bullet `b` destroys asteroid `a`: it hits it, and no bullet
/// before it does.
pub open spec fn credited(
    bullets: Seq<Bullet>,
    asteroids: Seq<AsteroidView>,
    b: int,
    a: int,
) -> bool {
    hits(bullets[b], asteroids[a]) && !hit_by_first(bullets, asteroids[a], b)
}

/// The hits of bullet `b` among the first `limit` asteroids, in order.
pub open spec fn row(bullets: Seq<Bullet>, asteroids: Seq<AsteroidView>, b: int, limit: int) -> Seq<
    Hit,
>
    decreases limit,
{
    if limit <= 0 {
        Seq::empty()
    } else {
        let before = row(bullets, asteroids, b, limit - 1);
        if credited(bullets, asteroids, b, limit - 1) {
            before.push(Hit { bullet: b as usize, asteroid: (limit - 1) as usize })
        } else {
            before
        }
    }
}

/// The hits of the first `limit` bullets, ordered by bullet and then by
/// asteroid.
pub open spec fn rows(bullets: Seq<Bullet>, asteroids: Seq<AsteroidView>, limit: int) -> Seq<Hit>
    decreases limit,
{
    if limit <= 0 {
        Seq::empty()
    } else {
        rows(bullets, asteroids, limit - 1) + row(
            bullets,
            asteroids,
            limit - 1,
            asteroids.len() as int,
        )
    }
}

/// All hits, ordered by bullet and then by asteroid.
pub open spec fn all_hits(bullets: Seq<Bullet>, asteroids: Seq<AsteroidView>) -> Seq<Hit> {
    rows(bullets, asteroids, bullets.len() as int)
}

/// For each asteroid, whether some bullet hits it.
pub open spec fn struck(bullets: Seq<Bullet>, asteroids: Seq<AsteroidView>) -> Seq<bool> {
    Seq::new(asteroids.len(), |a: int| hit_by_first(bullets, asteroids[a], bullets.len() as int))
}

/// Whether bullet `b` destroys one of the first `limit` asteroids.
pub open spec fn spends(
    bullets: Seq<Bullet>,
    asteroids: Seq<AsteroidView>,
    b: int,
    limit: int,
) -> bool {
    exists|a: int| 0 <= a < limit && a < asteroids.len() && #[trigger] credited(bullets, asteroids, b, a)
}

/// For each bullet, whether it destroys an asteroid.
pub open spec fn spent(bullets: Seq<Bullet>, asteroids: Seq<AsteroidView>) -> Seq<bool> {
    Seq::new(bullets.len(), |b: int| spends(bullets, asteroids, b, asteroids.len() as int))
}

/// Whether every hit names a bullet and an asteroid that exist.
pub open spec fn in_range(pairs: Seq<Hit>, bullets: nat, asteroids: nat) -> bool {
    forall|k: int|
        0 <= k < pairs.len() ==> (#[trigger] pairs[k]).bullet < bullets && pairs[k].asteroid
            < asteroids
}

/// Whether the ship overlaps one of the asteroids.
pub open spec fn rammed(ship: Ship, asteroids: Seq<AsteroidView>) -> bool {
    exists|a: int| 0 <= a < asteroids.len() && rams(ship, #[trigger] asteroids[a])
}

/// Whether the bullet is inside the asteroid's radius.
pub fn bullet_hits(bullet: &Bullet, asteroid: &Asteroid) -> (hit: bool)
    ensures
        hit == hits(*bullet, asteroid@),
{
    asteroid.position.within(bullet.position, asteroid.size.radius())
}

/// Whether the ship and the asteroid overlap.
pub fn ship_rams(ship: &Ship, asteroid: &Asteroid) -> (hit: bool)
    ensures
        hit == rams(*ship, asteroid@),
{
    asteroid.position.within(ship.position, asteroid.size.radius() + SHIP_RADIUS)
}

/// Whether the ship overlaps one of the asteroids.
pub fn ship_rammed(ship: &Ship, asteroids: &Vec<Asteroid>) -> (hit: bool)
    ensures
        hit == rammed(*ship, views(asteroids@)),
{
    let mut a: usize = 0;
    while a < asteroids.len()
        invariant
            a <= asteroids.len(),
            forall|k: int| 0 <= k < a ==> !rams(*ship, #[trigger] views(asteroids@)[k]),
        decreases asteroids.len() - a,
    {
        if ship_rams(ship, &asteroids[a]) {
            assert(rams(*ship, views(asteroids@)[a as int]));
            return true;
        }
        a += 1;
    }
    false
}

/// Finds the hits of the bullets on the asteroids.
pub fn find_hits(bullets: &Vec<Bullet>, asteroids: &Vec<Asteroid>) -> (found: Hits)
    ensures
        found.pairs@ == all_hits(bullets@, views(asteroids@)),
        found.spent@ == spent(bullets@, views(asteroids@)),
        found.struck@ == struck(bullets@, views(asteroids@)),
        in_range(found.pairs@, bullets@.len(), asteroids@.len()),
{
    let ghost bs = bullets@;
    let ghost vs = views(asteroids@);
    let mut pairs: Vec<Hit> = Vec::new();
    let mut spent_marks: Vec<bool> = Vec::new();
    let mut struck_marks: Vec<bool> = Vec::new();
    let mut a: usize = 0;
    while a < asteroids.len()
        invariant
            a <= asteroids.len(),
            struck_marks.len() == a,
            forall|k: int| 0 <= k < a ==> !#[trigger] struck_marks[k],
        decreases asteroids.len() - a,
    {
        struck_marks.push(false);
        a += 1;
    }
    let mut b: usize = 0;
    while b < bullets.len()
        invariant
            bs == bullets@,
            vs == views(asteroids@),
            vs.len() == asteroids.len(),
            b <= bullets.len(),
            pairs@ == rows(bs, vs, b as int),
            in_range(pairs@, bs.len(), vs.len()),
            spent_marks.len() == b,
            forall|j: int|
                0 <= j < b ==> #[trigger] spent_marks[j] == spends(bs, vs, j, vs.len() as int),
            struck_marks.len() == asteroids.len(),
            forall|k: int|
                0 <= k < vs.len() ==> #[trigger] struck_marks[k] == hit_by_first(
                    bs,
                    vs[k],
                    b as int,
                ),
        decreases bullets.len() - b,
    {
        let mut used: bool = false;
        let mut a: usize = 0;
        while a < asteroids.len()
            invariant
                bs == bullets@,
                vs == views(asteroids@),
                vs.len() == asteroids.len(),
                b < bullets.len(),
                a <= asteroids.len(),
                pairs@ == rows(bs, vs, b as int) + row(bs, vs, b as int, a as int),
                in_range(pairs@, bs.len(), vs.len()),
                used == spends(bs, vs, b as int, a as int),
                struck_marks.len() == asteroids.len(),
                forall|k: int|
                    0 <= k < a ==> #[trigger] struck_marks[k] == hit_by_first(
                        bs,
                        vs[k],
                        b + 1,
                    ),
                forall|k: int|
                    a <= k < vs.len() ==> #[trigger] struck_marks[k] == hit_by_first(
                        bs,
                        vs[k],
                        b as int,
                    ),
            decreases asteroids.len() - a,
        {
            let hit: bool = bullet_hits(&bullets[b], &asteroids[a]);
            proof {
                assert(vs[a as int] == asteroids[a as int]@);
                lemma_hit_by_next(bs, vs[a as int], b as int);
                lemma_spends_next(bs, vs, b as int, a as int);
            }
            let ghost before = pairs@;
            if hit && !struck_marks[a] {
                pairs.push(Hit { bullet: b, asteroid: a });
                struck_marks.set(a, true);
                used = true;
            }
            proof {
                assert(pairs@ =~= rows(bs, vs, b as int) + row(bs, vs, b as int, a + 1));
            }
            a += 1;
        }
        spent_marks.push(used);
        b += 1;
    }
    proof {
        assert(spent_marks@ =~= spent(bs, vs));
        assert(struck_marks@ =~= struck(bs, vs));
    }
    Hits { pairs, spent: spent_marks, struck: struck_marks }
}

/// One more bullet hits the asteroid if it does or an earlier one did.
pub proof fn lemma_hit_by_next(bullets: Seq<Bullet>, asteroid: AsteroidView, b: int)
    requires
        0 <= b < bullets.len(),
    ensures
        hit_by_first(bullets, asteroid, b + 1) == (hit_by_first(bullets, asteroid, b) || hits(
            bullets[b],
            asteroid,
        )),
{
    if hit_by_first(bullets, asteroid, b + 1) {
        let j = choose|j: int| 0 <= j < b + 1 && j < bullets.len() && hits(bullets[j], asteroid);
        if j < b {
            assert(hit_by_first(bullets, asteroid, b));
        }
    }
    if hits(bullets[b], asteroid) {
        assert(hit_by_first(bullets, asteroid, b + 1));
    }
    if hit_by_first(bullets, asteroid, b) {
        let j = choose|j: int| 0 <= j < b && j < bullets.len() && hits(bullets[j], asteroid);
        assert(hits(bullets[j], asteroid));
        assert(hit_by_first(bullets, asteroid, b + 1));
    }
}

/// A bullet destroys one of the first `a + 1` asteroids if it destroys
/// asteroid `a` or one of those before it.
pub proof fn lemma_spends_next(bullets: Seq<Bullet>, asteroids: Seq<AsteroidView>, b: int, a: int)
    requires
        0 <= a < asteroids.len(),
    ensures
        spends(bullets, asteroids, b, a + 1) == (spends(bullets, asteroids, b, a) || credited(
            bullets,
            asteroids,
            b,
            a,
        )),
{
    if spends(bullets, asteroids, b, a + 1) {
        let k = choose|k: int|
            0 <= k < a + 1 && k < asteroids.len() && credited(bullets, asteroids, b, k);
        if k < a {
            assert(spends(bullets, asteroids, b, a));
        }
    }
    if credited(bullets, asteroids, b, a) {
        assert(spends(bullets, asteroids, b, a + 1));
    }
    if spends(bullets, asteroids, b, a) {
        let k = choose|k: int|
            0 <= k < a && k < asteroids.len() && credited(bullets, asteroids, b, k);
        assert(credited(bullets, asteroids, b, k));
        assert(spends(bullets, asteroids, b, a + 1));
    }
}

/// Whether the hit names a bullet and an asteroid that exist, and the
/// bullet destroys the asteroid.
pub open spec fn earned(hit: Hit, bullets: Seq<Bullet>, asteroids: Seq<AsteroidView>) -> bool {
    &&& hit.bullet < bullets.len()
    &&& hit.asteroid < asteroids.len()
    &&& credited(bullets, asteroids, hit.bullet as int, hit.asteroid as int)
}

/// Whether the first hit comes before the second: by an earlier bullet, or
/// by the same bullet on an earlier asteroid.
pub open spec fn before(first: Hit, second: Hit) -> bool {
    first.bullet < second.bullet || (first.bullet == second.bullet && first.asteroid
        < second.asteroid)
}

/// Whether every hit of the list is earned.
pub open spec fn all_earned(hits: Seq<Hit>, bullets: Seq<Bullet>, asteroids: Seq<AsteroidView>) -> bool {
    forall|k: int| 0 <= k < hits.len() ==> earned(#[trigger] hits[k], bullets, asteroids)
}

/// Whether the hits of the list stand in their order, none twice.
pub open spec fn ordered(hits: Seq<Hit>) -> bool {
    forall|i: int, j: int| 0 <= i < j < hits.len() ==> before(#[trigger] hits[i], #[trigger] hits[j])
}

/// The hits of one bullet are earned and in order, and none is missing.
proof fn lemma_row(bullets: Seq<Bullet>, asteroids: Seq<AsteroidView>, b: int, limit: int)
    requires
        0 <= b < bullets.len() <= usize::MAX,
        0 <= limit <= asteroids.len() <= usize::MAX,
    ensures
        all_earned(row(bullets, asteroids, b, limit), bullets, asteroids),
        ordered(row(bullets, asteroids, b, limit)),
        forall|k: int|
            0 <= k < row(bullets, asteroids, b, limit).len() ==> (#[trigger] row(
                bullets,
                asteroids,
                b,
                limit,
            )[k]).bullet == b && row(bullets, asteroids, b, limit)[k].asteroid < limit,
        forall|a: int|
            0 <= a < limit && #[trigger] credited(bullets, asteroids, b, a) ==> row(
                bullets,
                asteroids,
                b,
                limit,
            ).contains(Hit { bullet: b as usize, asteroid: a as usize }),
    decreases limit,
{
    if limit > 0 {
        lemma_row(bullets, asteroids, b, limit - 1);
        let shorter = row(bullets, asteroids, b, limit - 1);
        let longer = row(bullets, asteroids, b, limit);
        assert forall|a: int| 0 <= a < limit && #[trigger] credited(bullets, asteroids, b, a) implies longer.contains(
            Hit { bullet: b as usize, asteroid: a as usize },
        ) by {
            let hit = Hit { bullet: b as usize, asteroid: a as usize };
            if a < limit - 1 {
                assert(shorter.contains(hit));
                let k = choose|k: int| 0 <= k < shorter.len() && shorter[k] == hit;
                assert(longer[k] == hit);
            } else {
                assert(longer[longer.len() - 1] == hit);
            }
        }
    }
}

/// The hits of the first `limit` bullets are earned and in order, and none
/// is missing.
proof fn lemma_rows(bullets: Seq<Bullet>, asteroids: Seq<AsteroidView>, limit: int)
    requires
        0 <= limit <= bullets.len() <= usize::MAX,
        asteroids.len() <= usize::MAX,
    ensures
        all_earned(rows(bullets, asteroids, limit), bullets, asteroids),
        ordered(rows(bullets, asteroids, limit)),
        forall|k: int|
            0 <= k < rows(bullets, asteroids, limit).len() ==> (#[trigger] rows(
                bullets,
                asteroids,
                limit,
            )[k]).bullet < limit,
        forall|b: int, a: int|
            0 <= b < limit && 0 <= a < asteroids.len() && #[trigger] credited(
                bullets,
                asteroids,
                b,
                a,
            ) ==> rows(bullets, asteroids, limit).contains(
                Hit { bullet: b as usize, asteroid: a as usize },
            ),
    decreases limit,
{
    if limit > 0 {
        lemma_rows(bullets, asteroids, limit - 1);
        lemma_row(bullets, asteroids, limit - 1, asteroids.len() as int);
        let head = rows(bullets, asteroids, limit - 1);
        let tail = row(bullets, asteroids, limit - 1, asteroids.len() as int);
        let whole = rows(bullets, asteroids, limit);
        assert(whole == head + tail);
        assert forall|k: int| 0 <= k < whole.len() implies earned(
            #[trigger] whole[k],
            bullets,
            asteroids,
        ) && whole[k].bullet < limit by {
            if k < head.len() {
                assert(whole[k] == head[k]);
            } else {
                assert(whole[k] == tail[k - head.len()]);
            }
        }
        assert forall|i: int, j: int| 0 <= i < j < whole.len() implies before(
            #[trigger] whole[i],
            #[trigger] whole[j],
        ) by {
            if j < head.len() {
                assert(whole[i] == head[i] && whole[j] == head[j]);
            } else if i < head.len() {
                assert(whole[i] == head[i] && whole[j] == tail[j - head.len()]);
            } else {
                assert(whole[i] == tail[i - head.len()] && whole[j] == tail[j - head.len()]);
            }
        }
        assert forall|b: int, a: int|
            0 <= b < limit && 0 <= a < asteroids.len() && #[trigger] credited(
                bullets,
                asteroids,
                b,
                a,
            ) implies whole.contains(Hit { bullet: b as usize, asteroid: a as usize }) by {
            let hit = Hit { bullet: b as usize, asteroid: a as usize };
            if b < limit - 1 {
                assert(head.contains(hit));
                let k = choose|k: int| 0 <= k < head.len() && head[k] == hit;
                assert(whole[k] == hit);
            } else {
                assert(tail.contains(hit));
                let k = choose|k: int| 0 <= k < tail.len() && tail[k] == hit;
                assert(whole[head.len() + k] == hit);
            }
        }
    }
}

/// The hits are exactly the pairs of a bullet and an asteroid that it
/// destroys, ordered by bullet and then by asteroid, and no asteroid
/// occurs in two of them.
pub proof fn lemma_all_hits(bullets: Seq<Bullet>, asteroids: Seq<AsteroidView>)
    requires
        bullets.len() <= usize::MAX,
        asteroids.len() <= usize::MAX,
    ensures
        all_earned(all_hits(bullets, asteroids), bullets, asteroids),
        ordered(all_hits(bullets, asteroids)),
        forall|b: int, a: int|
            0 <= b < bullets.len() && 0 <= a < asteroids.len() && #[trigger] credited(
                bullets,
                asteroids,
                b,
                a,
            ) ==> all_hits(bullets, asteroids).contains(
                Hit { bullet: b as usize, asteroid: a as usize },
            ),
        forall|i: int, j: int|
            0 <= i < j < all_hits(bullets, asteroids).len() ==> (#[trigger] all_hits(
                bullets,
                asteroids,
            )[i]).asteroid != (#[trigger] all_hits(bullets, asteroids)[j]).asteroid,
{
    lemma_rows(bullets, asteroids, bullets.len() as int);
    let found = all_hits(bullets, asteroids);
    assert forall|i: int, j: int| 0 <= i < j < found.len() implies (#[trigger] found[i]).asteroid
        != (#[trigger] found[j]).asteroid by {
        if found[i].asteroid == found[j].asteroid {
            assert(earned(found[i], bullets, asteroids));
            assert(earned(found[j], bullets, asteroids));
            assert(before(found[i], found[j]));
            lemma_first_bullet_wins(bullets, asteroids, found[i].asteroid as int);
        }
    }
}

/// For each asteroid, whether one of the first `limit` bullets hits it.
pub open spec fn struck_by_first(bullets: Seq<Bullet>, asteroids: Seq<AsteroidView>, limit: int) -> Seq<
    bool,
> {
    Seq::new(asteroids.len(), |a: int| hit_by_first(bullets, asteroids[a], limit))
}

/// The hits of one bullet are as many as the asteroids that it is the
/// first to hit.
proof fn lemma_row_count(bullets: Seq<Bullet>, asteroids: Seq<AsteroidView>, b: int, limit: int)
    requires
        0 <= b < bullets.len(),
        0 <= limit <= asteroids.len(),
    ensures
        row(bullets, asteroids, b, limit).len() + marks_below(
            struck_by_first(bullets, asteroids, b),
            limit,
        ) == marks_below(struck_by_first(bullets, asteroids, b + 1), limit),
    decreases limit,
{
    if limit > 0 {
        lemma_row_count(bullets, asteroids, b, limit - 1);
        lemma_hit_by_next(bullets, asteroids[limit - 1], b);
    }
}

/// The hits of the first `limit` bullets are as many as the asteroids
/// that those bullets hit.
proof fn lemma_rows_count(bullets: Seq<Bullet>, asteroids: Seq<AsteroidView>, limit: int)
    requires
        0 <= limit <= bullets.len(),
    ensures
        rows(bullets, asteroids, limit).len() == marks_below(
            struck_by_first(bullets, asteroids, limit),
            asteroids.len() as int,
        ),
    decreases limit,
{
    if limit > 0 {
        lemma_rows_count(bullets, asteroids, limit - 1);
        lemma_row_count(bullets, asteroids, limit - 1, asteroids.len() as int);
    } else {
        lemma_none_below(struck_by_first(bullets, asteroids, 0), asteroids.len() as int);
    }
}

/// Where no mark is set, none is counted.
proof fn lemma_none_below(marked: Seq<bool>, limit: int)
    requires
        0 <= limit <= marked.len(),
        forall|k: int| 0 <= k < marked.len() ==> !#[trigger] marked[k],
    ensures
        marks_below(marked, limit) == 0,
    decreases limit,
{
    if limit > 0 {
        lemma_none_below(marked, limit - 1);
    }
}

/// There are as many hits as asteroids that are hit: each such asteroid is
/// destroyed once.
pub proof fn lemma_hits_count(bullets: Seq<Bullet>, asteroids: Seq<AsteroidView>)
    ensures
        all_hits(bullets, asteroids).len() == marks(struck(bullets, asteroids), 0),
{
    lemma_rows_count(bullets, asteroids, bullets.len() as int);
    assert(struck_by_first(bullets, asteroids, bullets.len() as int) =~= struck(bullets, asteroids));
    lemma_marks_split(struck(bullets, asteroids), asteroids.len() as int);
}

/// An asteroid that is hit goes to exactly one bullet: the first that
/// hits it.
pub proof fn lemma_first_bullet_wins(bullets: Seq<Bullet>, asteroids: Seq<AsteroidView>, a: int)
    requires
        0 <= a < asteroids.len(),
    ensures
        struck(bullets, asteroids)[a] <==> exists|b: int|
            0 <= b < bullets.len() && #[trigger] credited(bullets, asteroids, b, a),
        forall|b: int, c: int|
            0 <= b < bullets.len() && 0 <= c < bullets.len() && #[trigger] credited(
                bullets,
                asteroids,
                b,
                a,
            ) && #[trigger] credited(bullets, asteroids, c, a) ==> b == c,
{
    let target = asteroids[a];
    if struck(bullets, asteroids)[a] {
        lemma_first_hitter(bullets, target, bullets.len() as int);
        let b = choose|b: int|
            0 <= b < bullets.len() && hits(bullets[b], target) && !hit_by_first(bullets, target, b);
        assert(credited(bullets, asteroids, b, a));
    }
    if exists|b: int| 0 <= b < bullets.len() && #[trigger] credited(bullets, asteroids, b, a) {
        let b = choose|b: int| 0 <= b < bullets.len() && #[trigger] credited(bullets, asteroids, b, a);
        assert(hits(bullets[b], target));
    }
    assert forall|b: int, c: int|
        0 <= b < bullets.len() && 0 <= c < bullets.len() && #[trigger] credited(
            bullets,
            asteroids,
            b,
            a,
        ) && #[trigger] credited(bullets, asteroids, c, a) implies b == c by {
        if b < c {
            assert(hits(bullets[b], target));
            assert(hit_by_first(bullets, target, c));
        }
        if c < b {
            assert(hits(bullets[c], target));
            assert(hit_by_first(bullets, target, b));
        }
    }
}

/// Among the bullets that hit an asteroid there is a first.
proof fn lemma_first_hitter(bullets: Seq<Bullet>, asteroid: AsteroidView, limit: int)
    requires
        0 <= limit <= bullets.len(),
        hit_by_first(bullets, asteroid, limit),
    ensures
        exists|b: int|
            0 <= b < limit && hits(bullets[b], asteroid) && !hit_by_first(bullets, asteroid, b),
    decreases limit,
{
    if limit > 0 {
        lemma_hit_by_next(bullets, asteroid, limit - 1);
        if hit_by_first(bullets, asteroid, limit - 1) {
            lemma_first_hitter(bullets, asteroid, limit - 1);
        } else {
            assert(hits(bullets[limit - 1], asteroid));
        }
    }
}

/// The hits of the first `limit` bullets when there is one asteroid and
/// every bullet hits it: the one hit of the first bullet.
proof fn lemma_rows_of_crowd(bullets: Seq<Bullet>, asteroids: Seq<AsteroidView>, limit: int)
    requires
        asteroids.len() == 1,
        1 <= limit <= bullets.len(),
        forall|b: int| 0 <= b < bullets.len() ==> hits(#[trigger] bullets[b], asteroids[0]),
    ensures
        rows(bullets, asteroids, limit) == seq![Hit { bullet: 0, asteroid: 0 }],
    decreases limit,
{
    reveal_with_fuel(row, 2);
    reveal_with_fuel(rows, 2);
    if limit == 1 {
        assert(!hit_by_first(bullets, asteroids[0], 0));
        assert(credited(bullets, asteroids, 0, 0));
        assert(rows(bullets, asteroids, 1) =~= seq![Hit { bullet: 0, asteroid: 0 }]);
    } else {
        lemma_rows_of_crowd(bullets, asteroids, limit - 1);
        assert(hits(bullets[0], asteroids[0]));
        assert(hit_by_first(bullets, asteroids[0], limit - 1));
        assert(!credited(bullets, asteroids, limit - 1, 0));
        assert(row(bullets, asteroids, limit - 1, 1) =~= Seq::<Hit>::empty());
        assert(rows(bullets, asteroids, limit) =~= seq![Hit { bullet: 0, asteroid: 0 }]);
    }
}

/// When several bullets overlap one asteroid at once, the asteroid is
/// destroyed once, by the first bullet; that bullet is used up, and every
/// other bullet stays in play.
pub proof fn lemma_one_bullet_per_asteroid(bullets: Seq<Bullet>, asteroids: Seq<AsteroidView>)
    requires
        asteroids.len() == 1,
        bullets.len() >= 1,
        forall|b: int| 0 <= b < bullets.len() ==> hits(#[trigger] bullets[b], asteroids[0]),
    ensures
        all_hits(bullets, asteroids) == seq![Hit { bullet: 0, asteroid: 0 }],
        swept(asteroids, struck(bullets, asteroids), 0).len() == 0,
        swept(bullets, spent(bullets, asteroids), 0).len() == bullets.len() - 1,
        swept(bullets, spent(bullets, asteroids), 0) == survivors(spent(bullets, asteroids)).map_values(
            |k: int| bullets[k],
        ),
        survivors(spent(bullets, asteroids)).no_duplicates(),
        forall|k: int|
            #[trigger] survivors(spent(bullets, asteroids)).contains(k) <==> 1 <= k < bullets.len(),
{
    lemma_rows_of_crowd(bullets, asteroids, bullets.len() as int);
    let used = spent(bullets, asteroids);
    let gone = struck(bullets, asteroids);
    assert(hits(bullets[0], asteroids[0]));
    assert(!hit_by_first(bullets, asteroids[0], 0));
    assert(credited(bullets, asteroids, 0, 0));
    assert(used[0]);
    assert forall|b: int| 1 <= b < bullets.len() implies !#[trigger] used[b] by {
        assert(hit_by_first(bullets, asteroids[0], b));
    }
    assert(gone[0]);
    reveal_with_fuel(swept, 2);
    reveal_with_fuel(marks, 2);
    lemma_swept_prefix(asteroids, gone, 0);
    lemma_swept_by_position(bullets, used);
    lemma_survivors(used);
    lemma_swept_prefix(bullets, used, 0);
    assert forall|k: int|
        #[trigger] survivors(used).contains(k) <==> 1 <= k < bullets.len() by {
        if 1 <= k < bullets.len() {
            assert(!used[k]);
        }
    }
    lemma_marks_of_first(used);
}

/// A list of marks whose first mark alone is set holds one mark.
proof fn lemma_marks_of_first(marked: Seq<bool>)
    requires
        marked.len() >= 1,
        marked[0],
        forall|k: int| 1 <= k < marked.len() ==> !#[trigger] marked[k],
    ensures
        marks(marked, 0) == 1,
{
    lemma_no_marks(marked, 1);
}

/// Where no mark is set from `from` upward, none is counted.
proof fn lemma_no_marks(marked: Seq<bool>, from: int)
    requires
        0 <= from <= marked.len(),
        forall|k: int| from <= k < marked.len() ==> !#[trigger] marked[k],
    ensures
        marks(marked, from) == 0,
    decreases marked.len() - from,
{
    if from < marked.len() {
        lemma_no_marks(marked, from + 1);
    }
}

} // verus!

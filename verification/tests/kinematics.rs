use asteroids::asteroid::{Asteroid, AsteroidSize};
use asteroids::bullet::{Bullet, BULLET_RADIUS};
use asteroids::draw::{place, Disc, ShipDrawing, Triangle};
use asteroids::particle::Particle;
use asteroids::screen::Screen;
use asteroids::ship::Ship;
use asteroids::vector::Vec2;

fn screen() -> Screen {
    Screen { width: 800_000, height: 600_000 }
}

fn resting_ship() -> Ship {
    Ship {
        position: Vec2::new(100_000, 200_000),
        velocity: Vec2::new(0, 0),
        rotation: 0,
        thrust: false,
        invulnerable: false,
        invulnerable_timer: 0,
    }
}

#[test]
fn particle_drifts_fades_and_shrinks() {
    let mut p = Particle {
        position: Vec2::new(1000, 2000),
        velocity: Vec2::new(100_000, -50_000),
        lifetime: 1000,
        size: 4000,
    };
    p.update(16);
    assert_eq!(
        p,
        Particle {
            position: Vec2::new(2600, 1200),
            velocity: Vec2::new(100_000, -50_000),
            lifetime: 984,
            size: 3800,
        }
    );
}

#[test]
fn particle_does_not_wrap() {
    let mut p = Particle {
        position: Vec2::new(0, 0),
        velocity: Vec2::new(-100_000, -100_000),
        lifetime: 1000,
        size: 1000,
    };
    p.update(1000);
    assert_eq!(p.position, Vec2::new(-100_000, -100_000));
    assert_eq!(p.lifetime, 0);
    assert_eq!(p.size, 950);
}

#[test]
fn particle_is_drawn_with_its_lifetime_as_opacity() {
    let p = Particle {
        position: Vec2::new(5, 6),
        velocity: Vec2::new(1, 1),
        lifetime: 730,
        size: 4100,
    };
    assert_eq!(p.draw(), Disc { center: Vec2::new(5, 6), radius: 4100, alpha: 730 });
}

#[test]
fn bullet_moves_and_ages() {
    let mut b = Bullet {
        position: Vec2::new(100_000, 300_000),
        velocity: Vec2::new(800_000, -400_000),
        lifetime: 1000,
    };
    b.update(16, screen());
    assert_eq!(
        b,
        Bullet {
            position: Vec2::new(112_800, 293_600),
            velocity: Vec2::new(800_000, -400_000),
            lifetime: 984,
        }
    );
}

#[test]
fn bullet_wraps_at_the_right_edge() {
    let mut b = Bullet {
        position: Vec2::new(799_000, 300_000),
        velocity: Vec2::new(800_000, 0),
        lifetime: 1000,
    };
    b.update(16, screen());
    assert_eq!(b.position, Vec2::new(0, 300_000));
}

#[test]
fn bullet_wraps_at_the_left_edge() {
    let mut b = Bullet {
        position: Vec2::new(100, 300_000),
        velocity: Vec2::new(-800_000, 0),
        lifetime: 1000,
    };
    b.update(16, screen());
    assert_eq!(b.position, Vec2::new(800_000, 300_000));
}

#[test]
fn bullet_on_the_edge_stays() {
    let mut b = Bullet {
        position: Vec2::new(787_200, 12_800),
        velocity: Vec2::new(800_000, -800_000),
        lifetime: 1000,
    };
    b.update(16, screen());
    assert_eq!(b.position, Vec2::new(800_000, 0));
}

#[test]
fn bullet_is_drawn_as_a_small_disc() {
    let b = Bullet { position: Vec2::new(7, 8), velocity: Vec2::new(0, 0), lifetime: 3 };
    assert_eq!(BULLET_RADIUS, 4000);
    assert_eq!(b.draw(), Disc { center: Vec2::new(7, 8), radius: 4000, alpha: 1000 });
}

#[test]
fn new_ship_is_shielded_and_at_rest() {
    assert_eq!(
        Ship::new(),
        Ship {
            position: Vec2::new(0, 0),
            velocity: Vec2::new(0, 0),
            rotation: 0,
            thrust: false,
            invulnerable: true,
            invulnerable_timer: 3000,
        }
    );
}

#[test]
fn reset_position_moves_the_ship_to_the_middle() {
    let mut ship = resting_ship();
    ship.velocity = Vec2::new(5, 6);
    ship.reset_position(screen());
    assert_eq!(ship.position, Vec2::new(400_000, 300_000));
    assert_eq!(ship.velocity, Vec2::new(5, 6));
    assert_eq!(ship.rotation, 0);
}

#[test]
fn ship_coasts_with_drag() {
    let mut ship = resting_ship();
    ship.velocity = Vec2::new(1000, -2000);
    ship.update(16, screen());
    assert_eq!(ship.velocity, Vec2::new(990, -1980));
    assert_eq!(ship.position, Vec2::new(100_015, 199_969));
    assert!(!ship.invulnerable);
    assert_eq!(ship.invulnerable_timer, 0);
}

#[test]
fn drag_does_not_depend_on_the_frame_time() {
    let mut short = resting_ship();
    short.velocity = Vec2::new(100_000, 0);
    short.update(1, screen());
    let mut long = resting_ship();
    long.velocity = Vec2::new(100_000, 0);
    long.update(500, screen());
    assert_eq!(short.velocity, Vec2::new(99_000, 0));
    assert_eq!(long.velocity, Vec2::new(99_000, 0));
}

#[test]
fn ship_thrusts_along_its_heading() {
    let mut ship = resting_ship();
    ship.thrust = true;
    ship.update(16, screen());
    // 200 px/s^2 for 16 ms, then the drag
    assert_eq!(ship.velocity, Vec2::new(3168, 0));
    assert_eq!(ship.position, Vec2::new(100_050, 200_000));
    assert!(ship.thrust);
}

#[test]
fn ship_thrusts_downward_after_a_quarter_turn() {
    let mut ship = resting_ship();
    ship.thrust = true;
    ship.rotation = 1571;
    ship.update(100, screen());
    assert_eq!(ship.velocity, Vec2::new(0, 19_800));
    assert_eq!(ship.position, Vec2::new(100_000, 201_980));
    assert_eq!(ship.rotation, 1571);
}

#[test]
fn shield_runs_down_and_drops() {
    let mut ship = Ship::new();
    ship.update(16, screen());
    assert!(ship.invulnerable);
    assert_eq!(ship.invulnerable_timer, 2984);
    ship.invulnerable_timer = 16;
    ship.update(16, screen());
    assert!(!ship.invulnerable);
    assert_eq!(ship.invulnerable_timer, 0);
    ship.update(16, screen());
    assert!(!ship.invulnerable);
    assert_eq!(ship.invulnerable_timer, 0);
}

#[test]
fn shield_drops_when_the_timer_passes_zero() {
    let mut ship = Ship::new();
    ship.invulnerable_timer = 10;
    ship.update(16, screen());
    assert!(!ship.invulnerable);
    assert_eq!(ship.invulnerable_timer, -6);
}

#[test]
fn ship_wraps_at_the_edges() {
    let mut ship = resting_ship();
    ship.position = Vec2::new(10, 599_990);
    ship.velocity = Vec2::new(-100_000, 100_000);
    ship.update(16, screen());
    assert_eq!(ship.position, Vec2::new(800_000, 0));
}

#[test]
fn shot_leaves_from_the_nose() {
    let mut ship = resting_ship();
    ship.velocity = Vec2::new(5000, -3000);
    let bullet = ship.shoot();
    assert_eq!(
        bullet,
        Bullet {
            position: Vec2::new(140_000, 200_000),
            velocity: Vec2::new(805_000, -3000),
            lifetime: 1000,
        }
    );
}

#[test]
fn shot_follows_the_heading() {
    let mut ship = resting_ship();
    ship.rotation = 3142;
    let bullet = ship.shoot();
    assert_eq!(bullet.position, Vec2::new(60_000, 200_000));
    assert_eq!(bullet.velocity, Vec2::new(-800_000, 0));
}

#[test]
fn ship_is_drawn_as_a_triangle() {
    let mut ship = resting_ship();
    ship.position = Vec2::new(100_000, 100_000);
    let drawing = ship.draw(0);
    assert_eq!(
        drawing,
        Some(ShipDrawing {
            hull: Triangle {
                a: Vec2::new(140_000, 100_000),
                b: Vec2::new(80_000, 120_000),
                c: Vec2::new(80_000, 80_000),
            },
            flame: None,
        })
    );
}

#[test]
fn thrusting_ship_is_drawn_with_a_flame() {
    let mut ship = resting_ship();
    ship.position = Vec2::new(100_000, 100_000);
    ship.thrust = true;
    let drawing = ship.draw(7).unwrap();
    assert_eq!(
        drawing.flame,
        Some(Triangle {
            a: Vec2::new(80_000, 100_000),
            b: Vec2::new(60_000, 110_000),
            c: Vec2::new(60_000, 90_000),
        })
    );
}

#[test]
fn turned_ship_is_drawn_turned() {
    let mut ship = resting_ship();
    ship.position = Vec2::new(100_000, 100_000);
    ship.rotation = 1571;
    let drawing = ship.draw(1).unwrap();
    assert_eq!(
        drawing.hull,
        Triangle {
            a: Vec2::new(100_000, 140_000),
            b: Vec2::new(80_000, 80_000),
            c: Vec2::new(120_000, 80_000),
        }
    );
}

#[test]
fn shielded_ship_blinks() {
    let ship = Ship::new();
    assert_eq!(ship.draw(0), None);
    assert!(ship.draw(1).is_some());
    assert_eq!(ship.draw(2), None);
    assert!(ship.draw(3).is_some());
    assert_eq!(ship.draw(u64::MAX - 1), None);
    assert!(ship.draw(u64::MAX).is_some());
}

#[test]
fn unshielded_ship_is_always_drawn() {
    let ship = resting_ship();
    assert!(ship.draw(0).is_some());
    assert!(ship.draw(1).is_some());
    assert!(ship.draw(2).is_some());
}

#[test]
fn place_turns_then_moves() {
    assert_eq!(place(Vec2::new(1000, 0), 1571, Vec2::new(10, 20)), Vec2::new(10, 1020));
    assert_eq!(place(Vec2::new(1000, 0), 0, Vec2::new(10, 20)), Vec2::new(1010, 20));
}

#[test]
fn asteroid_moves_and_spins() {
    let mut a = Asteroid {
        position: Vec2::new(10_000, 10_000),
        velocity: Vec2::new(50_000, -100_000),
        points: vec![Vec2::new(1000, 0), Vec2::new(0, 1000), Vec2::new(-1000, -1000)],
        rotation: 300,
        rotation_speed: 2000,
        size: AsteroidSize::Medium,
    };
    a.update(100, screen());
    assert_eq!(
        a,
        Asteroid {
            position: Vec2::new(15_000, 0),
            velocity: Vec2::new(50_000, -100_000),
            points: vec![Vec2::new(1000, 0), Vec2::new(0, 1000), Vec2::new(-1000, -1000)],
            rotation: 500,
            rotation_speed: 2000,
            size: AsteroidSize::Medium,
        }
    );
}

#[test]
fn asteroid_spins_backward() {
    let mut a = Asteroid {
        position: Vec2::new(10_000, 10_000),
        velocity: Vec2::new(0, 0),
        points: Vec::new(),
        rotation: 0,
        rotation_speed: -1500,
        size: AsteroidSize::Small,
    };
    a.update(16, screen());
    assert_eq!(a.rotation, -24);
    assert_eq!(a.position, Vec2::new(10_000, 10_000));
}

#[test]
fn asteroid_wraps_at_the_edges() {
    let mut a = Asteroid {
        position: Vec2::new(799_999, 1),
        velocity: Vec2::new(150_000, -150_000),
        points: Vec::new(),
        rotation: 0,
        rotation_speed: 0,
        size: AsteroidSize::Large,
    };
    a.update(16, screen());
    assert_eq!(a.position, Vec2::new(0, 600_000));
}

#[test]
fn asteroid_outline_is_turned_and_moved() {
    let a = Asteroid {
        position: Vec2::new(5000, 5000),
        velocity: Vec2::new(0, 0),
        points: vec![Vec2::new(1000, 0), Vec2::new(0, 1000)],
        rotation: 1571,
        rotation_speed: 0,
        size: AsteroidSize::Small,
    };
    assert_eq!(a.draw(), vec![Vec2::new(5000, 6000), Vec2::new(4000, 5000)]);
}

#[test]
fn asteroid_without_corners_has_an_empty_outline() {
    let a = Asteroid {
        position: Vec2::new(5000, 5000),
        velocity: Vec2::new(0, 0),
        points: Vec::new(),
        rotation: 0,
        rotation_speed: 0,
        size: AsteroidSize::Small,
    };
    assert_eq!(a.draw(), Vec::<Vec2>::new());
}

#[test]
fn radius_by_size() {
    assert_eq!(AsteroidSize::Large.radius(), 80_000);
    assert_eq!(AsteroidSize::Medium.radius(), 40_000);
    assert_eq!(AsteroidSize::Small.radius(), 20_000);
}

#[test]
fn points_by_size() {
    assert_eq!(AsteroidSize::Large.points(), 20);
    assert_eq!(AsteroidSize::Medium.points(), 50);
    assert_eq!(AsteroidSize::Small.points(), 100);
}

#[test]
fn next_size_steps_down() {
    assert_eq!(AsteroidSize::Large.next_size(), Some(AsteroidSize::Medium));
    assert_eq!(AsteroidSize::Medium.next_size(), Some(AsteroidSize::Small));
    assert_eq!(AsteroidSize::Small.next_size(), None);
}

use asteroids::asteroid::{Asteroid, AsteroidSize};
use asteroids::bullet::Bullet;
use asteroids::effects::Popup;
use asteroids::frame::{advance_asteroids, advance_bullets, advance_particles, FrameReport};
use asteroids::game::{Event, MainState};
use asteroids::input::Key;
use asteroids::particle::Particle;
use asteroids::screen::Screen;
use asteroids::ship::Ship;
use asteroids::vector::Vec2;

fn screen() -> Screen {
    Screen { width: 800_000, height: 600_000 }
}

fn rock(x: i64, y: i64, size: AsteroidSize) -> Asteroid {
    Asteroid {
        position: Vec2::new(x, y),
        velocity: Vec2::new(0, 0),
        points: vec![Vec2::new(1000, 0), Vec2::new(0, 1000), Vec2::new(-1000, 0)],
        rotation: 0,
        rotation_speed: 0,
        size,
    }
}

fn spark(lifetime: i64) -> Particle {
    Particle {
        position: Vec2::new(1000, 1000),
        velocity: Vec2::new(100_000, 0),
        lifetime,
        size: 2000,
    }
}

fn shot(lifetime: i64) -> Bullet {
    Bullet {
        position: Vec2::new(100_000, 100_000),
        velocity: Vec2::new(0, 100_000),
        lifetime,
    }
}

fn open_ship(x: i64, y: i64) -> Ship {
    Ship {
        position: Vec2::new(x, y),
        velocity: Vec2::new(0, 0),
        rotation: 0,
        thrust: false,
        invulnerable: false,
        invulnerable_timer: 0,
    }
}

fn quiet() -> MainState {
    MainState {
        asteroids: Vec::new(),
        ship: open_ship(700_000, 500_000),
        bullets: Vec::new(),
        game_over: false,
        game_over_timer: 5000,
        lives: 5,
        score: 0,
        displayed_score: 0,
        respawn_timer: 0,
        particles: Vec::new(),
        score_popup: None,
    }
}

#[test]
fn particles_are_dropped_after_they_have_moved() {
    let particles = vec![spark(16), spark(17), spark(10), spark(1000)];
    let kept = advance_particles(&particles, 16);
    assert_eq!(kept.len(), 2);
    assert_eq!(kept[0].lifetime, 1);
    assert_eq!(kept[1].lifetime, 984);
    assert_eq!(kept[0].position, Vec2::new(2600, 1000));
    assert_eq!(kept[0].size, 1900);
}

#[test]
fn bullets_are_dropped_before_they_move() {
    let bullets = vec![shot(0), shot(5), shot(-3), shot(1000)];
    let kept = advance_bullets(&bullets, 16, screen());
    // the bullet that runs out in this frame stays until the next
    assert_eq!(kept.len(), 2);
    assert_eq!(kept[0].lifetime, -11);
    assert_eq!(kept[1].lifetime, 984);
    assert_eq!(kept[0].position, Vec2::new(100_000, 101_600));
    let again = advance_bullets(&kept, 16, screen());
    assert_eq!(again.len(), 1);
    assert_eq!(again[0].lifetime, 968);
}

#[test]
fn every_asteroid_moves() {
    let mut rocks = vec![
        rock(0, 0, AsteroidSize::Large),
        rock(10_000, 10_000, AsteroidSize::Small),
    ];
    rocks[0].velocity = Vec2::new(-1000, 1000);
    rocks[1].velocity = Vec2::new(50_000, 0);
    rocks[1].rotation_speed = 1000;
    advance_asteroids(&mut rocks, 1000, screen());
    assert_eq!(rocks[0].position, Vec2::new(800_000, 1000));
    assert_eq!(rocks[1].position, Vec2::new(60_000, 10_000));
    assert_eq!(rocks[1].rotation, 1000);
    assert_eq!(rocks[0].rotation, 0);
}

#[test]
fn displayed_score_runs_after_the_score() {
    let mut state = quiet();
    state.score = 100;
    state.advance(16, screen());
    assert_eq!(state.displayed_score, 16);
    state.advance(16, screen());
    // (100 - 16) * 10 * 0.016 = 13.44
    assert_eq!(state.displayed_score, 29);
    assert_eq!(state.score, 100);
}

#[test]
fn displayed_score_gains_one_at_least() {
    let mut state = quiet();
    state.score = 5;
    state.displayed_score = 4;
    state.advance(16, screen());
    assert_eq!(state.displayed_score, 5);
    state.score = 100;
    state.displayed_score = 0;
    state.advance(0, screen());
    assert_eq!(state.displayed_score, 1);
}

#[test]
fn displayed_score_stops_at_the_score() {
    let mut state = quiet();
    state.score = 100;
    state.displayed_score = 90;
    state.advance(2000, screen());
    assert_eq!(state.displayed_score, 100);
    state.advance(2000, screen());
    assert_eq!(state.displayed_score, 100);
}

#[test]
fn displayed_score_arrives_within_the_gap_in_frames() {
    let mut state = quiet();
    state.score = 300;
    let mut frames: i32 = 0;
    let mut last: i32 = 0;
    while state.displayed_score < state.score {
        state.advance(1, screen());
        assert!(state.displayed_score > last);
        assert!(state.displayed_score <= state.score);
        last = state.displayed_score;
        frames += 1;
        assert!(frames <= 300);
    }
    assert_eq!(state.displayed_score, 300);
}

#[test]
fn popup_fades_and_goes() {
    let mut state = quiet();
    state.score_popup = Some(Popup { points: 20, position: Vec2::new(5, 5), lifetime: 30 });
    state.advance(16, screen());
    assert_eq!(
        state.score_popup,
        Some(Popup { points: 20, position: Vec2::new(5, 5), lifetime: 14 })
    );
    state.advance(14, screen());
    assert_eq!(state.score_popup, None);
}

#[test]
fn ship_moves_while_playing() {
    let mut state = quiet();
    state.ship.velocity = Vec2::new(1000, 0);
    state.advance(16, screen());
    assert_eq!(state.ship.velocity, Vec2::new(990, 0));
    assert_eq!(state.ship.position, Vec2::new(700_015, 500_000));
}

#[test]
fn awaited_ship_does_not_move() {
    let mut state = quiet();
    state.ship = Ship::new();
    state.ship.velocity = Vec2::new(1000, 0);
    state.respawn_timer = 2000;
    state.advance(16, screen());
    assert_eq!(state.respawn_timer, 1984);
    assert_eq!(state.ship.position, Vec2::new(0, 0));
    assert_eq!(state.ship.velocity, Vec2::new(1000, 0));
    assert_eq!(state.ship.invulnerable_timer, 3000);
}

#[test]
fn new_ship_arrives_in_the_middle() {
    let mut state = quiet();
    state.ship = Ship::new();
    state.ship.rotation = 500;
    state.respawn_timer = 16;
    state.advance(16, screen());
    assert_eq!(state.respawn_timer, 0);
    let mut expected = Ship::new();
    expected.position = Vec2::new(400_000, 300_000);
    assert_eq!(state.ship, expected);
    // from the next frame on it moves, and its shield runs down
    state.advance(16, screen());
    assert_eq!(state.ship.invulnerable_timer, 2984);
    assert!(state.ship.invulnerable);
}

#[test]
fn countdown_runs_once_the_game_is_over() {
    let mut state = quiet();
    state.game_over = true;
    state.lives = 0;
    state.ship.velocity = Vec2::new(1000, 0);
    let quit = state.advance(16, screen());
    assert!(!quit);
    assert_eq!(state.game_over_timer, 4984);
    // the ship is left alone
    assert_eq!(state.ship.position, Vec2::new(700_000, 500_000));
    state.game_over_timer = 16;
    assert!(state.advance(16, screen()));
    assert_eq!(state.game_over_timer, 0);
    assert!(state.advance(16, screen()));
    assert_eq!(state.game_over_timer, -16);
}

#[test]
fn countdown_stands_while_playing() {
    let mut state = quiet();
    state.game_over_timer = 1;
    let quit = state.advance(16, screen());
    assert!(!quit);
    assert_eq!(state.game_over_timer, 1);
}

#[test]
fn the_rest_goes_on_once_the_game_is_over() {
    let mut state = quiet();
    state.game_over = true;
    state.lives = 0;
    state.asteroids = vec![rock(10_000, 10_000, AsteroidSize::Large)];
    state.asteroids[0].velocity = Vec2::new(100_000, 0);
    state.bullets = vec![shot(1000)];
    state.particles = vec![spark(1000)];
    state.score = 50;
    let report = state.update(16, screen());
    assert_eq!(report, FrameReport { quit: false, events: Vec::new() });
    assert_eq!(state.asteroids[0].position, Vec2::new(11_600, 10_000));
    assert_eq!(state.bullets[0].position, Vec2::new(100_000, 101_600));
    assert_eq!(state.particles[0].position, Vec2::new(2600, 1000));
    assert_eq!(state.displayed_score, 8);
}

#[test]
fn update_moves_then_collides() {
    let mut state = quiet();
    state.ship = Ship::new();
    // the bullet reaches the asteroid in this frame
    state.asteroids = vec![rock(400_000, 300_000, AsteroidSize::Small)];
    state.bullets = vec![Bullet {
        position: Vec2::new(370_000, 300_000),
        velocity: Vec2::new(800_000, 0),
        lifetime: 1000,
    }];
    let report = state.update(16, screen());
    assert_eq!(
        report,
        FrameReport { quit: false, events: vec![Event::AsteroidDestroyed { remaining: 0 }] }
    );
    assert_eq!(state.score, 100);
    assert_eq!(state.displayed_score, 0);
    assert_eq!(state.bullets.len(), 0);
    assert_eq!(state.asteroids.len(), 0);
    assert_eq!(state.particles.len(), 50);
    assert_eq!(
        state.score_popup,
        Some(Popup { points: 100, position: Vec2::new(400_000, 300_000), lifetime: 1000 })
    );
}

#[test]
fn bullet_that_has_run_out_still_hits_in_its_last_frame() {
    let mut state = quiet();
    state.ship = Ship::new();
    state.asteroids = vec![rock(400_000, 300_000, AsteroidSize::Small)];
    state.bullets = vec![Bullet {
        position: Vec2::new(400_000, 300_000),
        velocity: Vec2::new(0, 0),
        lifetime: 5,
    }];
    state.update(16, screen());
    assert_eq!(state.score, 100);
}

#[test]
fn bullet_that_had_run_out_hits_nothing() {
    let mut state = quiet();
    state.ship = Ship::new();
    state.asteroids = vec![rock(400_000, 300_000, AsteroidSize::Small)];
    state.bullets = vec![Bullet {
        position: Vec2::new(400_000, 300_000),
        velocity: Vec2::new(0, 0),
        lifetime: 0,
    }];
    state.update(16, screen());
    assert_eq!(state.score, 0);
    assert_eq!(state.bullets.len(), 0);
    assert_eq!(state.asteroids.len(), 1);
}

#[test]
fn update_reports_the_loss_of_the_ship() {
    let mut state = quiet();
    state.lives = 1;
    state.ship = open_ship(400_000, 300_000);
    state.asteroids = vec![rock(400_000, 300_000, AsteroidSize::Large)];
    let report = state.update(16, screen());
    assert_eq!(
        report,
        FrameReport {
            quit: false,
            events: vec![Event::ShipDestroyed { lives: 0 }, Event::GameOver { score: 0 }],
        }
    );
    assert!(state.game_over);
    assert_eq!(state.game_over_timer, 5000);
    let report = state.update(16, screen());
    assert_eq!(report, FrameReport { quit: false, events: Vec::new() });
    assert_eq!(state.game_over_timer, 4984);
}

#[test]
fn the_run_ends_five_seconds_after_the_game() {
    let mut state = quiet();
    state.lives = 1;
    state.ship = open_ship(400_000, 300_000);
    state.asteroids = vec![rock(400_000, 300_000, AsteroidSize::Large)];
    state.update(20, screen());
    assert!(state.game_over);
    let mut frames: u32 = 0;
    loop {
        let report = state.update(20, screen());
        frames += 1;
        if report.quit {
            break;
        }
        assert!(frames < 1000);
    }
    assert_eq!(frames, 250);
}

#[test]
fn respawn_takes_two_seconds_and_the_shield_three_more() {
    let mut state = quiet();
    state.ship = open_ship(400_000, 300_000);
    state.asteroids = vec![rock(400_000, 300_000, AsteroidSize::Large)];
    state.update(20, screen());
    assert_eq!(state.lives, 4);
    assert_eq!(state.respawn_timer, 2000);
    let mut frames: u32 = 0;
    while state.respawn_timer > 0 {
        state.update(20, screen());
        frames += 1;
    }
    assert_eq!(frames, 100);
    assert_eq!(state.ship.position, Vec2::new(400_000, 300_000));
    assert!(state.ship.invulnerable);
    // the asteroid still lies in the middle, and the shield holds
    frames = 0;
    while state.lives == 4 {
        state.update(20, screen());
        frames += 1;
        assert!(frames < 1000);
    }
    assert_eq!(frames, 150);
    assert_eq!(state.lives, 3);
}

#[test]
fn everything_stays_on_the_screen() {
    let screen = screen();
    let mut state = MainState::new(screen);
    state.key_down_event(Key::Up, screen);
    let mut frame: u32 = 0;
    while frame < 2000 {
        if frame % 7 == 0 {
            state.key_down_event(Key::Space, screen);
        }
        if frame % 5 == 0 {
            state.key_down_event(Key::Left, screen);
        }
        let dt: i64 = 1 + (frame % 40) as i64;
        state.update(dt, screen);
        for a in &state.asteroids {
            assert!(0 <= a.position.x && a.position.x <= screen.width);
            assert!(0 <= a.position.y && a.position.y <= screen.height);
        }
        for b in &state.bullets {
            assert!(0 <= b.position.x && b.position.x <= screen.width);
            assert!(0 <= b.position.y && b.position.y <= screen.height);
        }
        if !state.game_over && state.respawn_timer <= 0 {
            assert!(0 <= state.ship.position.x && state.ship.position.x <= screen.width);
            assert!(0 <= state.ship.position.y && state.ship.position.y <= screen.height);
        }
        for p in &state.particles {
            assert!(p.lifetime > 0);
        }
        assert!(state.valid());
        frame += 1;
    }
}

#[test]
fn score_never_falls_and_the_counter_never_passes_it() {
    let screen = screen();
    let mut state = MainState::new(screen);
    let mut last: i32 = 0;
    let mut frame: u32 = 0;
    while frame < 3000 {
        state.key_down_event(Key::Space, screen);
        if frame % 3 == 0 {
            state.key_down_event(Key::Right, screen);
        }
        state.update(16, screen);
        assert!(state.score >= last);
        assert!(state.displayed_score <= state.score);
        assert!(state.displayed_score >= 0);
        last = state.score;
        frame += 1;
    }
}

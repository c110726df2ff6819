use asteroids::asteroid::{Asteroid, AsteroidSize};
use asteroids::bullet::Bullet;
use asteroids::effects::Popup;
use asteroids::game::MainState;
use asteroids::input::Key;
use asteroids::particle::Particle;
use asteroids::screen::Screen;
use asteroids::ship::Ship;
use asteroids::vector::Vec2;

fn screen() -> Screen {
    Screen { width: 800_000, height: 600_000 }
}

fn on_spawn_edge(p: Vec2, screen: Screen) -> bool {
    ((p.x == 0 || p.x == screen.width) && 0 <= p.y && p.y < screen.height)
        || ((p.y == 0 || p.y == screen.height) && 0 <= p.x && p.x < screen.width)
}

fn assert_started(state: &MainState, screen: Screen) {
    assert_eq!(state.asteroids.len(), 8);
    for a in &state.asteroids {
        assert_eq!(a.size, AsteroidSize::Large);
        assert!(on_spawn_edge(a.position, screen));
        assert_eq!(a.rotation, 0);
    }
    let mut ship = Ship::new();
    ship.position = Vec2::new(screen.width / 2, screen.height / 2);
    assert_eq!(state.ship, ship);
    assert_eq!(state.bullets, Vec::<Bullet>::new());
    assert_eq!(state.particles, Vec::<Particle>::new());
    assert_eq!(state.score_popup, None);
    assert!(!state.game_over);
    assert_eq!(state.game_over_timer, 5000);
    assert_eq!(state.lives, 5);
    assert_eq!(state.score, 0);
    assert_eq!(state.displayed_score, 0);
    assert_eq!(state.respawn_timer, 0);
    assert!(state.valid());
}

fn finished() -> MainState {
    let mut ship = Ship::new();
    ship.invulnerable = false;
    ship.invulnerable_timer = -4;
    ship.rotation = 300;
    ship.thrust = true;
    MainState {
        asteroids: vec![Asteroid {
            position: Vec2::new(1, 1),
            velocity: Vec2::new(0, 0),
            points: Vec::new(),
            rotation: 0,
            rotation_speed: 0,
            size: AsteroidSize::Small,
        }],
        ship,
        bullets: vec![Bullet {
            position: Vec2::new(5, 5),
            velocity: Vec2::new(0, 0),
            lifetime: 500,
        }],
        game_over: true,
        game_over_timer: 1200,
        lives: 0,
        score: 470,
        displayed_score: 430,
        respawn_timer: 0,
        particles: vec![Particle {
            position: Vec2::new(5, 5),
            velocity: Vec2::new(0, 0),
            lifetime: 500,
            size: 3000,
        }],
        score_popup: Some(Popup { points: 50, position: Vec2::new(8, 8), lifetime: 100 }),
    }
}

#[test]
fn new_game_is_at_its_start() {
    let state = MainState::new(screen());
    assert_started(&state, screen());
}

#[test]
fn reset_starts_again() {
    let mut state = finished();
    state.reset(screen());
    assert_started(&state, screen());
}

#[test]
fn restart_once_the_game_is_over() {
    let mut state = finished();
    state.key_down_event(Key::R, screen());
    assert_started(&state, screen());
}

#[test]
fn restart_does_nothing_while_playing() {
    let mut state = MainState::new(screen());
    state.score = 40;
    state.lives = 3;
    let before = state.clone();
    state.key_down_event(Key::R, screen());
    assert_eq!(state, before);
}

#[test]
fn left_and_right_turn_by_a_tenth_of_a_radian() {
    let mut state = MainState::new(screen());
    state.key_down_event(Key::Left, screen());
    assert_eq!(state.ship.rotation, -100);
    state.key_down_event(Key::Right, screen());
    state.key_down_event(Key::Right, screen());
    state.key_down_event(Key::Right, screen());
    assert_eq!(state.ship.rotation, 200);
    assert_eq!(state.ship.position, Vec2::new(400_000, 300_000));
    assert_eq!(state.bullets.len(), 0);
}

#[test]
fn turning_does_not_go_on_between_presses() {
    let mut state = MainState::new(screen());
    state.asteroids.clear();
    state.key_down_event(Key::Right, screen());
    state.update(16, screen());
    state.update(16, screen());
    assert_eq!(state.ship.rotation, 100);
}

#[test]
fn up_thrusts_until_it_is_released() {
    let mut state = MainState::new(screen());
    state.asteroids.clear();
    state.key_down_event(Key::Up, screen());
    assert!(state.ship.thrust);
    state.update(16, screen());
    assert!(state.ship.thrust);
    assert_eq!(state.ship.velocity, Vec2::new(3168, 0));
    state.key_up_event(Key::Up);
    assert!(!state.ship.thrust);
    state.update(16, screen());
    assert_eq!(state.ship.velocity, Vec2::new(3136, 0));
}

#[test]
fn space_fires_one_bullet_for_each_press() {
    let mut state = MainState::new(screen());
    state.asteroids.clear();
    state.key_down_event(Key::Space, screen());
    assert_eq!(state.bullets, vec![state.ship.shoot()]);
    assert_eq!(state.bullets[0].position, Vec2::new(440_000, 300_000));
    assert_eq!(state.bullets[0].velocity, Vec2::new(800_000, 0));
    state.update(16, screen());
    state.update(16, screen());
    assert_eq!(state.bullets.len(), 1);
    state.key_down_event(Key::Space, screen());
    assert_eq!(state.bullets.len(), 2);
}

#[test]
fn keys_do_nothing_once_the_game_is_over() {
    let keys = [Key::Left, Key::Right, Key::Up, Key::Space, Key::Other];
    for key in keys {
        let mut state = finished();
        state.ship.thrust = false;
        let before = state.clone();
        state.key_down_event(key, screen());
        assert_eq!(state, before);
    }
}

#[test]
fn release_of_the_thrust_key_counts_once_the_game_is_over() {
    let mut state = finished();
    assert!(state.ship.thrust);
    state.key_up_event(Key::Up);
    assert!(!state.ship.thrust);
    assert!(state.game_over);
    assert_eq!(state.score, 470);
}

#[test]
fn other_keys_do_nothing() {
    let mut state = MainState::new(screen());
    let before = state.clone();
    state.key_down_event(Key::Other, screen());
    assert_eq!(state, before);
    let keys = [Key::Left, Key::Right, Key::Space, Key::R, Key::Other];
    for key in keys {
        state.key_up_event(key);
        assert_eq!(state, before);
    }
}

#[test]
fn turning_saturates() {
    let mut state = MainState::new(screen());
    state.ship.rotation = i64::MAX - 5;
    state.key_down_event(Key::Right, screen());
    assert_eq!(state.ship.rotation, i64::MAX);
    state.ship.rotation = i64::MIN + 5;
    state.key_down_event(Key::Left, screen());
    assert_eq!(state.ship.rotation, i64::MIN);
}

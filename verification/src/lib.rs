//! Simulation core of an arcade game: a ship against asteroids on a plane
//! that wraps around at the edges of the screen.
//!
//! Every quantity is a fixed-point number held in an `i64`: lengths in
//! thousandths of a pixel, times in thousandths of a second, angles in
//! thousandths of a radian.  Arithmetic saturates at the ends of `i64`.
//!
//! A caller builds a [`game::MainState`], hands it the time of each frame
//! and the keys that go down and come up, and draws what
//! [`game::MainState::draw`] lists.  The library draws nothing and writes
//! nothing itself.

pub mod fixed;
pub mod trig;
pub mod vector;
pub mod screen;
pub mod draw;
pub mod particle;
pub mod bullet;
pub mod ship;
pub mod random;
pub mod asteroid;
pub mod generator;
pub mod sweep;
pub mod effects;
pub mod collision;
pub mod game;
pub mod frame;
pub mod input;
pub mod scene;
pub mod phase;

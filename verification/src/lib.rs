//! Per-frame simulation core of a 2D arcade shooter: motion integration on a
//! fixed timestep, axis-aligned collision detection between projectiles and
//! enemies, timer-driven entity lifecycle, player input handling with a fire
//! cooldown, and a smoothly retargeting camera.
//!
//! All world quantities are integers: coordinates, velocities and
//! accelerations are whole world units (per second where a rate), and time is
//! counted in milliseconds. Fractional scaling, such as `acceleration * dt`,
//! is fixed-point arithmetic that truncates toward zero.

pub mod bullet;
pub mod camera;
pub mod enemy;
pub mod game;
pub mod health;
pub mod math;
pub mod movement;
pub mod player;
pub mod rng;
pub mod timer;
pub mod world;

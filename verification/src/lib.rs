//! Collision-and-fragmentation simulation for a field of drifting spherical
//! bodies (asteroids, a star, projectiles and a player) in a continuous 3D
//! arena.
//!
//! All geometry runs on fixed-point integer coordinates: one world unit is
//! `SCALE` (1000) ticks of an `i64`. This keeps every computation exact enough
//! to state and prove the laws the simulation lives by: sphere contact is
//! decided on squared distances, collision resolution conserves momentum to
//! within one velocity quantum per unit of mass, fragmentation splits a body
//! into exactly two half-sized children with opposite velocities, and the
//! population spawner never overshoots its configured cap.

pub mod body;
pub mod collide;
pub mod config;
pub mod control;
pub mod fragment;
pub mod fxvec;
pub mod lifecycle;
pub mod sample;
pub mod spawn;
pub mod world;
pub mod score;
pub mod speed;

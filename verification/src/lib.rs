//! The simulation core of a side-scrolling reflex game.
//!
//! A corgi falls under gravity and is boosted upward by input events while
//! pipes scroll toward it; it scores by passing through the gap of a pipe and
//! is put back to its start, with the score at zero, when it touches a pipe or
//! leaves the field.
//!
//! Every quantity is an integer count of millionths: lengths in millionths of
//! a field unit, time in microseconds, rates per second. A rate times a time,
//! or a share of a length, is truncated toward zero ([`fixed::scale`]); half
//! of a length is rounded down.
//!
//! The session is [`game::Game`]; [`model`] says over the integers what a tick
//! makes of it, and [`laws`] what follows for any run of ticks.

pub mod collision;
pub mod config;
pub mod fixed;
pub mod game;
pub mod geometry;
pub mod laws;
pub mod lifecycle;
pub mod model;
pub mod pipes;
pub mod player;

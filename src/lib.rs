//! A sparse, unbounded Game of Life engine.
//!
//! The live cells form a set of integer pairs ([`grid::Grid`]). One generation is
//! computed from the candidate set (the live cells and their neighbours) by
//! [`step::advance`], or in parallel by [`controller::GOL::update_from`]. The
//! controller ([`controller::GOL`]) holds the grid and the paused flag, and hands
//! generations to a background worker through [`handoff::Handoff`], which keeps at
//! most one request in flight.
pub mod controller;
pub mod coord;
pub mod grid;
pub mod handoff;
pub mod laws;
pub mod step;

pub use controller::GOL;
pub use coord::Vec2Isize;
pub use grid::Grid;
pub use handoff::{pacing_sleep_micros, Handoff, Polled, Request, UpdateResult};
pub use step::advance;

//! Conway's Game of Life on a toroidal grid, together with the frame pacing
//! and paint-gesture state machine that drives an animated rendering of it.
//!
//! The functions of this crate are verified by Verus against the contracts
//! written on them; the one call into the `rand` crate, in [`chance`], is
//! taken on trust. The grid is specified over [`universe::Grid`], a purely
//! mathematical description of a generation; the pacing state machine over
//! [`engine::EngineView`].

pub mod chance;
pub mod engine;
pub mod patterns;
pub mod support;
pub mod universe;

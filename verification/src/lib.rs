//! Conway's Game of Life on a fixed-size grid with hard edges.
//!
//! The [`board`] module holds the executable [`board::Board`] together with
//! its mathematical model, and the [`laws`] module proves the global
//! properties of the simulation (index round-trips, generation counting,
//! still lifes and the blinker oscillator).

pub mod board;
pub mod laws;

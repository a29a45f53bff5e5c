//! An hourglass simulated as falling sand on a grid of cells.
//!
//! The library holds the grid and its layout, the step that moves the grains,
//! the clock that drives the steps, and the rules that turn key presses into
//! changes of the timer's settings.

pub mod grid;
pub mod layout;
pub mod rng;
pub mod timer;
pub mod physics;
pub mod settings;
pub mod clock;
pub mod laws;

//! Game states and the scheduler that drives them frame by frame.

pub mod game;
pub mod resources;
pub mod state;

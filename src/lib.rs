//! A small 2D game engine core: fixed-point vector math, axis-aligned
//! collision resolution, keyboard edge detection, sprite animation, a
//! resource cache and a state-driven game loop.

pub mod audio;
pub mod fonts;
pub mod game;
pub mod graphics;
pub mod input;
pub mod math;

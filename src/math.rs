//! Vector math and bounding volumes.

pub mod vector2;
pub mod bounding_box_2d;
pub mod bounding_circle_2d;

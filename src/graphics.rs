//! Sprite and animation model and renderer-facing values.

pub mod color;
pub mod draw_list;
pub mod rect;
pub mod sdl_sprite;
pub mod wgpu_sprite;

pub use rect::Rect;
pub use rect::Rect as SdlRect;

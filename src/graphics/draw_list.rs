use crate::graphics::color::Color;
use crate::graphics::rect::Rect;
use crate::graphics::sdl_sprite::SdlSprite;
use crate::math::bounding_box_2d::BoundingBox2D;
use crate::math::vector2::{div_trunc, UNIT};
use vstd::prelude::*;

verus! {

/// Whether a rectangle is outlined or filled.
#[derive(Clone, Copy, Debug, PartialEq, Eq, Structural)]
pub enum FillType {
    Line,
    Fill,
}

/// One drawing intent of a frame.
#[derive(Clone, Debug, PartialEq, Eq)]
pub enum DrawCommand {
    /// A rectangle in pixels.
    Rect { x: i32, y: i32, width: u32, height: u32, color: Color, fill: FillType },
    /// The `src` part of the texture loaded from `texture`, drawn at `dst`.
    Sprite { texture: String, src: Rect, dst: Rect },
    /// A line of text with its top-left corner at `(x, y)` pixels.
    Text { text: String, x: i32, y: i32, size: u32, color: Color },
}

/// The drawing a frame asks for, in order, and the colour the frame is
/// cleared to first. A backend draws it and presents the frame.
pub struct DrawList {
    pub commands: Vec<DrawCommand>,
    pub clear_color: Color,
}

impl DrawList {
    /// An empty list that clears to black.
    pub fn new() -> (r: DrawList)
        ensures
            r.commands@.len() == 0,
            r.clear_color == (Color { r: 0, g: 0, b: 0, a: 255 }),
    {
        DrawList { commands: Vec::new(), clear_color: Color { r: 0, g: 0, b: 0, a: 255 } }
    }

    /// Sets the colour the frame is cleared to.
    pub fn set_clear_color(&mut self, color: Color)
        ensures
            final(self).clear_color == color,
            final(self).commands == old(self).commands,
    {
        self.clear_color = color;
    }

    /// Queues a rectangle.
    pub fn draw_rect(&mut self, x: i32, y: i32, width: u32, height: u32, color: Color, fill: FillType)
        ensures
            final(self).commands@ == old(self).commands@.push(
                DrawCommand::Rect { x, y, width, height, color, fill },
            ),
            final(self).clear_color == old(self).clear_color,
    {
        self.commands.push(DrawCommand::Rect { x, y, width, height, color, fill });
    }

    /// Queues part of a texture.
    pub fn draw_sprite(&mut self, texture: String, src: Rect, dst: Rect)
        ensures
            final(self).commands@ == old(self).commands@.push(DrawCommand::Sprite { texture, src, dst }),
            final(self).clear_color == old(self).clear_color,
    {
        self.commands.push(DrawCommand::Sprite { texture, src, dst });
    }

    /// Queues a line of text.
    pub fn draw_text(&mut self, text: String, x: i32, y: i32, size: u32, color: Color)
        ensures
            final(self).commands@ == old(self).commands@.push(
                DrawCommand::Text { text, x, y, size, color },
            ),
            final(self).clear_color == old(self).clear_color,
    {
        self.commands.push(DrawCommand::Text { text, x, y, size, color });
    }

    /// Queues a bounding box as a rectangle; its origin is truncated toward
    /// zero to whole pixels.
    pub fn draw_bounding_box(&mut self, bb: &BoundingBox2D, color: Color, fill: FillType)
        ensures
            final(self).commands@ == old(self).commands@.push(
                DrawCommand::Rect {
                    x: div_trunc(bb.origin.x as int, UNIT as int) as i32,
                    y: div_trunc(bb.origin.y as int, UNIT as int) as i32,
                    width: bb.width,
                    height: bb.height,
                    color,
                    fill,
                },
            ),
            final(self).clear_color == old(self).clear_color,
    {
        let x = bb.origin.x / UNIT;
        let y = bb.origin.y / UNIT;
        self.draw_rect(x, y, bb.width, bb.height, color, fill);
    }

    /// Queues a sprite as it looks now: its active clip's current frame, or
    /// its own rectangles when no clip is active.
    pub fn draw_sdl_sprite(&mut self, texture: String, sprite: &SdlSprite)
        requires
            sprite.wf(),
        ensures
            final(self).commands@ == old(self).commands@.push(
                DrawCommand::Sprite { texture, src: sprite.spec_src_rect(), dst: sprite.spec_dst_rect() },
            ),
            final(self).clear_color == old(self).clear_color,
    {
        let src = sprite.get_src_rect();
        let dst = sprite.get_dst_rect();
        self.draw_sprite(texture, src, dst);
    }

    /// Drops every queued command, as after a frame was presented.
    pub fn clear_draw_commands(&mut self)
        ensures
            final(self).commands@.len() == 0,
            final(self).clear_color == old(self).clear_color,
    {
        self.commands.clear();
    }
}

} // verus!

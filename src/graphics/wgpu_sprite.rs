use crate::graphics::sdl_sprite::{ticked, valid_frames, total_of, SdlSpriteAnimation, SdlSpriteFrame};
use vstd::prelude::*;

verus! {

/// A frame of a GPU-drawn animation; the same data as for the canvas
/// renderer.
pub type WgpuSpriteFrame = SdlSpriteFrame;

/// An animation clip that can be paused: while paused, ticking leaves its
/// timer where it is.
#[derive(Clone, Debug)]
pub struct WgpuSpriteAnimation {
    clip: SdlSpriteAnimation,
    play: bool,
}

impl WgpuSpriteAnimation {
    /// The clip without the play flag.
    pub closed spec fn spec_clip(&self) -> SdlSpriteAnimation {
        self.clip
    }

    pub closed spec fn spec_playing(&self) -> bool {
        self.play
    }

    pub open spec fn wf(&self) -> bool {
        self.spec_clip().wf()
    }

    /// A playing clip over `frames`, with its timer at zero.
    pub fn new(frames: Vec<WgpuSpriteFrame>, repeat: bool) -> (r: WgpuSpriteAnimation)
        requires
            valid_frames(frames@),
            total_of(frames@) <= u64::MAX,
        ensures
            r.wf(),
            r.spec_playing(),
            r.spec_clip().spec_frames() == frames@,
            r.spec_clip().spec_repeat() == repeat,
            r.spec_clip().spec_timer() == 0,
    {
        WgpuSpriteAnimation { clip: SdlSpriteAnimation::new(frames, repeat), play: true }
    }

    /// Advances the timer by `dt` microseconds while playing, wrapping as
    /// `SdlSpriteAnimation::tick` does; while paused nothing changes.
    pub fn tick(&mut self, dt: u64)
        requires
            old(self).wf(),
        ensures
            final(self).wf(),
            final(self).spec_playing() == old(self).spec_playing(),
            final(self).spec_clip().spec_frames() == old(self).spec_clip().spec_frames(),
            final(self).spec_clip().spec_repeat() == old(self).spec_clip().spec_repeat(),
            final(self).spec_clip().spec_timer() == if old(self).spec_playing() {
                ticked(
                    old(self).spec_clip().spec_timer(),
                    dt as int,
                    old(self).spec_clip().spec_total_duration(),
                    old(self).spec_clip().spec_repeat(),
                )
            } else {
                old(self).spec_clip().spec_timer()
            },
    {
        if self.play {
            self.clip.tick(dt);
        }
    }

    /// The frame shown now.
    pub fn current_frame(&self) -> (r: WgpuSpriteFrame)
        requires
            self.wf(),
        ensures
            r == self.spec_clip().spec_current_frame(),
    {
        self.clip.current_frame()
    }

    /// Lets ticks advance the timer.
    pub fn play(&mut self)
        ensures
            final(self).spec_playing(),
            final(self).spec_clip() == old(self).spec_clip(),
    {
        self.play = true;
    }

    /// Stops ticks from advancing the timer.
    pub fn pause(&mut self)
        ensures
            !final(self).spec_playing(),
            final(self).spec_clip() == old(self).spec_clip(),
    {
        self.play = false;
    }

    /// Sets the timer back to zero.
    pub fn reset(&mut self)
        requires
            old(self).wf(),
        ensures
            final(self).wf(),
            final(self).spec_playing() == old(self).spec_playing(),
            final(self).spec_clip().spec_frames() == old(self).spec_clip().spec_frames(),
            final(self).spec_clip().spec_repeat() == old(self).spec_clip().spec_repeat(),
            final(self).spec_clip().spec_timer() == 0,
    {
        self.clip.reset();
    }

    /// The time into the clip, in microseconds.
    pub fn animation_timer(&self) -> (r: u64)
        ensures
            r == self.spec_clip().spec_timer(),
    {
        self.clip.animation_timer()
    }
}

} // verus!

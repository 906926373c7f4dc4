use crate::graphics::rect::Rect;
use vstd::prelude::*;

verus! {

/// One frame of an animation: where to take it from on the texture, where to
/// draw it, and for how many microseconds it shows.
#[derive(Clone, Copy, Debug, PartialEq, Eq, Structural)]
pub struct SdlSpriteFrame {
    pub src: Rect,
    pub dst: Rect,
    pub duration: u64,
}

/// The summed durations of the first `n` frames.
pub open spec fn prefix_duration(frames: Seq<SdlSpriteFrame>, n: int) -> int
    decreases n,
{
    if n <= 0 || frames.len() == 0 {
        0
    } else if n > frames.len() {
        prefix_duration(frames, frames.len() as int)
    } else {
        prefix_duration(frames, n - 1) + frames[n - 1].duration
    }
}

/// The summed durations of all frames.
pub open spec fn total_of(frames: Seq<SdlSpriteFrame>) -> int {
    prefix_duration(frames, frames.len() as int)
}

/// The frame shown at `timer` microseconds, searching from frame `i`: the
/// first frame whose end (the summed durations up to and including it) is at
/// or after `timer`, and the last frame if the timer is past them all.
pub open spec fn frame_index_from(frames: Seq<SdlSpriteFrame>, timer: int, i: int) -> int
    decreases frames.len() - i,
{
    if i >= frames.len() - 1 {
        frames.len() - 1
    } else if prefix_duration(frames, i + 1) >= timer {
        i
    } else {
        frame_index_from(frames, timer, i + 1)
    }
}

/// The index of the frame shown at `timer` microseconds.
pub open spec fn frame_index(frames: Seq<SdlSpriteFrame>, timer: int) -> int {
    frame_index_from(frames, timer, 0)
}

/// A non-empty list of frames whose durations are all positive.
pub open spec fn valid_frames(frames: Seq<SdlSpriteFrame>) -> bool {
    &&& frames.len() > 0
    &&& forall|i: int| 0 <= i < frames.len() ==> #[trigger] frames[i].duration > 0
}

/// The timer after advancing `timer` by `dt` (saturating at `u64::MAX`):
/// a repeating animation whose timer passed the total duration wraps
/// around it.
pub open spec fn ticked(timer: int, dt: int, total: int, repeat: bool) -> int {
    let t = if timer + dt > u64::MAX {
        u64::MAX as int
    } else {
        timer + dt
    };
    if t > total && repeat {
        t % total
    } else {
        t
    }
}

/// Summed durations grow with the number of frames summed.
pub proof fn lemma_prefix_duration_monotone(frames: Seq<SdlSpriteFrame>, m: int, n: int)
    requires
        0 <= m <= n <= frames.len(),
    ensures
        0 <= prefix_duration(frames, m) <= prefix_duration(frames, n),
    decreases n - m,
{
    if m < n {
        lemma_prefix_duration_monotone(frames, m, n - 1);
    } else {
        lemma_prefix_duration_nonneg(frames, m);
    }
}

proof fn lemma_prefix_duration_nonneg(frames: Seq<SdlSpriteFrame>, n: int)
    requires
        0 <= n <= frames.len(),
    ensures
        0 <= prefix_duration(frames, n),
    decreases n,
{
    if n > 0 {
        lemma_prefix_duration_nonneg(frames, n - 1);
    }
}

/// The frame index is always a valid index.
pub proof fn lemma_frame_index_in_range(frames: Seq<SdlSpriteFrame>, timer: int, i: int)
    requires
        frames.len() > 0,
        0 <= i,
    ensures
        0 <= frame_index_from(frames, timer, i) < frames.len(),
        i < frames.len() ==> i <= frame_index_from(frames, timer, i),
    decreases frames.len() - i,
{
    if i < frames.len() - 1 && prefix_duration(frames, i + 1) < timer {
        lemma_frame_index_in_range(frames, timer, i + 1);
    }
}

/// A named clip: an ordered list of frames, whether it repeats, and a timer
/// in microseconds.
#[derive(Clone, Debug)]
pub struct SdlSpriteAnimation {
    frames: Vec<SdlSpriteFrame>,
    total_duration: u64,
    repeat: bool,
    animation_timer: u64,
}

impl SdlSpriteAnimation {
    pub closed spec fn spec_frames(&self) -> Seq<SdlSpriteFrame> {
        self.frames@
    }

    pub closed spec fn spec_total_duration(&self) -> int {
        self.total_duration as int
    }

    pub closed spec fn spec_repeat(&self) -> bool {
        self.repeat
    }

    pub closed spec fn spec_timer(&self) -> int {
        self.animation_timer as int
    }

    /// The frames are valid and the total duration is their sum.
    pub open spec fn wf(&self) -> bool {
        &&& valid_frames(self.spec_frames())
        &&& self.spec_total_duration() == total_of(self.spec_frames())
    }

    /// The frame shown now.
    pub open spec fn spec_current_frame(&self) -> SdlSpriteFrame {
        self.spec_frames()[frame_index(self.spec_frames(), self.spec_timer())]
    }

    /// A clip over `frames`, with its timer at zero.
    pub fn new(frames: Vec<SdlSpriteFrame>, repeat: bool) -> (r: SdlSpriteAnimation)
        requires
            valid_frames(frames@),
            total_of(frames@) <= u64::MAX,
        ensures
            r.wf(),
            r.spec_frames() == frames@,
            r.spec_repeat() == repeat,
            r.spec_timer() == 0,
    {
        let mut duration: u64 = 0;
        let mut i: usize = 0;
        while i < frames.len()
            invariant
                i <= frames@.len(),
                duration == prefix_duration(frames@, i as int),
                total_of(frames@) <= u64::MAX,
            decreases frames@.len() - i,
        {
            proof {
                lemma_prefix_duration_monotone(frames@, i + 1, frames@.len() as int);
            }
            duration = duration + frames[i].duration;
            i = i + 1;
        }
        SdlSpriteAnimation { frames, total_duration: duration, repeat, animation_timer: 0 }
    }

    /// The sum of the frame durations, in microseconds.
    pub fn total_duration(&self) -> (r: u64)
        ensures
            r == self.spec_total_duration(),
    {
        self.total_duration
    }

    /// The time into the clip, in microseconds.
    pub fn animation_timer(&self) -> (r: u64)
        ensures
            r == self.spec_timer(),
    {
        self.animation_timer
    }

    /// Whether the clip wraps around at its end.
    pub fn repeat(&self) -> (r: bool)
        ensures
            r == self.spec_repeat(),
    {
        self.repeat
    }

    /// Sets whether the clip wraps around at its end.
    pub fn set_repeat(&mut self, repeat: bool)
        ensures
            final(self).spec_frames() == old(self).spec_frames(),
            final(self).spec_total_duration() == old(self).spec_total_duration(),
            final(self).spec_timer() == old(self).spec_timer(),
            final(self).spec_repeat() == repeat,
    {
        self.repeat = repeat;
    }

    /// Advances the timer by `dt` microseconds; a repeating clip whose timer
    /// passes its total duration wraps around it (the timer becomes the
    /// remainder), so looping stays frame-exact whatever the frame times.
    pub fn tick(&mut self, dt: u64)
        requires
            old(self).wf(),
        ensures
            final(self).wf(),
            final(self).spec_frames() == old(self).spec_frames(),
            final(self).spec_repeat() == old(self).spec_repeat(),
            final(self).spec_total_duration() == old(self).spec_total_duration(),
            final(self).spec_timer() == ticked(
                old(self).spec_timer(),
                dt as int,
                old(self).spec_total_duration(),
                old(self).spec_repeat(),
            ),
    {
        proof {
            lemma_total_positive(self.frames@);
        }
        self.animation_timer = self.animation_timer.saturating_add(dt);
        if self.animation_timer > self.total_duration && self.repeat {
            self.animation_timer = self.animation_timer % self.total_duration;
        }
    }

    /// Sets the timer back to zero.
    pub fn reset(&mut self)
        ensures
            final(self).spec_frames() == old(self).spec_frames(),
            final(self).spec_repeat() == old(self).spec_repeat(),
            final(self).spec_total_duration() == old(self).spec_total_duration(),
            final(self).spec_timer() == 0,
    {
        self.animation_timer = 0;
    }

    /// The frame shown now: the first whose end is at or after the timer,
    /// or the last frame if the timer has run past them all.
    pub fn current_frame(&self) -> (r: SdlSpriteFrame)
        requires
            self.wf(),
        ensures
            r == self.spec_current_frame(),
    {
        let len = self.frames.len();
        let mut index: usize = 0;
        let mut current_duration: u64 = 0;
        proof {
            lemma_frame_index_in_range(self.frames@, self.animation_timer as int, 0);
        }
        while index + 1 < len
            invariant
                len == self.frames@.len(),
                len > 0,
                index < len,
                current_duration == prefix_duration(self.frames@, index as int),
                total_of(self.frames@) <= u64::MAX,
                frame_index(self.frames@, self.animation_timer as int) == frame_index_from(
                    self.frames@,
                    self.animation_timer as int,
                    index as int,
                ),
            ensures
                frame_index(self.frames@, self.animation_timer as int) == index,
            decreases len - index,
        {
            proof {
                lemma_prefix_duration_monotone(self.frames@, index + 1, len as int);
            }
            let end = current_duration + self.frames[index].duration;
            if end >= self.animation_timer {
                break;
            }
            current_duration = end;
            index = index + 1;
        }
        self.frames[index]
    }
}

/// A valid list of frames has a positive total duration.
pub proof fn lemma_total_positive(frames: Seq<SdlSpriteFrame>)
    requires
        valid_frames(frames),
    ensures
        total_of(frames) > 0,
{
    lemma_prefix_duration_monotone(frames, 0, frames.len() - 1);
}

} // verus!

verus! {

/// Whether `a` is `b` with its repeat flag set to `repeat`.
pub open spec fn with_repeat(a: SdlSpriteAnimation, b: SdlSpriteAnimation, repeat: bool) -> bool {
    &&& a.spec_frames() == b.spec_frames()
    &&& a.spec_total_duration() == b.spec_total_duration()
    &&& a.spec_timer() == b.spec_timer()
    &&& a.spec_repeat() == repeat
}

/// Whether `a` is `b` with its timer advanced by `dt`.
pub open spec fn with_tick(a: SdlSpriteAnimation, b: SdlSpriteAnimation, dt: int) -> bool {
    &&& a.spec_frames() == b.spec_frames()
    &&& a.spec_total_duration() == b.spec_total_duration()
    &&& a.spec_repeat() == b.spec_repeat()
    &&& a.spec_timer() == ticked(b.spec_timer(), dt, b.spec_total_duration(), b.spec_repeat())
}

/// A sprite: named animation clips (names unique), at most one of them
/// active, and the source and destination rectangles used while none is.
pub struct SdlSprite {
    animations: Vec<(String, SdlSpriteAnimation)>,
    active: Option<usize>,
    src: Rect,
    dst: Rect,
}

impl SdlSprite {
    /// The clip names, in the order they were first added.
    pub closed spec fn names(&self) -> Seq<Seq<char>> {
        self.animations@.map_values(|e: (String, SdlSpriteAnimation)| e.0@)
    }

    /// The clips, in the same order as `names`.
    pub closed spec fn clips(&self) -> Seq<SdlSpriteAnimation> {
        self.animations@.map_values(|e: (String, SdlSpriteAnimation)| e.1)
    }

    /// The position of the active clip, if any.
    pub closed spec fn active_index(&self) -> Option<int> {
        match self.active {
            Some(i) => Some(i as int),
            None => None,
        }
    }

    pub closed spec fn base_src(&self) -> Rect {
        self.src
    }

    pub closed spec fn base_dst(&self) -> Rect {
        self.dst
    }

    /// Names are unique, every clip is well formed, and the active position
    /// is a clip's.
    pub open spec fn wf(&self) -> bool {
        &&& self.names().len() == self.clips().len()
        &&& forall|i: int, j: int|
            0 <= i < j < self.names().len() ==> #[trigger] self.names()[i] != #[trigger] self.names()[j]
        &&& forall|i: int| 0 <= i < self.clips().len() ==> #[trigger] self.clips()[i].wf()
        &&& self.active_index() matches Some(i) ==> 0 <= i < self.clips().len()
    }

    /// Whether a clip is named `name`.
    pub open spec fn has_clip(&self, name: Seq<char>) -> bool {
        exists|i: int| 0 <= i < self.names().len() && self.names()[i] == name
    }

    /// The position of the clip named `name`; meaningful when `has_clip`.
    pub open spec fn position_of(&self, name: Seq<char>) -> int {
        choose|i: int| 0 <= i < self.names().len() && self.names()[i] == name
    }

    /// The clip named `name`; meaningful when `has_clip`.
    pub open spec fn clip(&self, name: Seq<char>) -> SdlSpriteAnimation {
        self.clips()[self.position_of(name)]
    }

    /// The name of the active clip, if any.
    pub open spec fn active_name(&self) -> Option<Seq<char>> {
        match self.active_index() {
            Some(i) => Some(self.names()[i]),
            None => None,
        }
    }

    /// The source rectangle drawn now.
    pub open spec fn spec_src_rect(&self) -> Rect {
        match self.active_index() {
            Some(i) => self.clips()[i].spec_current_frame().src,
            None => self.base_src(),
        }
    }

    /// The destination rectangle drawn now.
    pub open spec fn spec_dst_rect(&self) -> Rect {
        match self.active_index() {
            Some(i) => self.clips()[i].spec_current_frame().dst,
            None => self.base_dst(),
        }
    }

    /// With unique names, the clip at position `i` is the one its name finds.
    pub proof fn lemma_position_of(&self, i: int)
        requires
            self.wf(),
            0 <= i < self.names().len(),
        ensures
            self.has_clip(self.names()[i]),
            self.position_of(self.names()[i]) == i,
    {
        let name = self.names()[i];
        assert(self.names()[i] == name);
        let j = self.position_of(name);
        if j != i {
            if j < i {
                assert(self.names()[j] != self.names()[i]);
            } else {
                assert(self.names()[i] != self.names()[j]);
            }
        }
    }

    /// A sprite with no clips, drawn with `src` and `dst`.
    pub fn new(src: Rect, dst: Rect) -> (r: SdlSprite)
        ensures
            r.wf(),
            r.names().len() == 0,
            r.active_name() is None,
            r.base_src() == src,
            r.base_dst() == dst,
    {
        SdlSprite { animations: Vec::new(), active: None, src, dst }
    }

    /// The position of the clip named `name`, if any.
    fn find(&self, name: &String) -> (r: Option<usize>)
        requires
            self.wf(),
        ensures
            r matches Some(i) ==> i < self.names().len() && self.names()[i as int] == name@,
            r is None ==> !self.has_clip(name@),
    {
        let mut i: usize = 0;
        while i < self.animations.len()
            invariant
                i <= self.animations@.len(),
                self.names().len() == self.animations@.len(),
                forall|j: int| 0 <= j < i ==> self.names()[j] != name@,
            decreases self.animations@.len() - i,
        {
            if self.animations[i].0 == *name {
                return Some(i);
            }
            i = i + 1;
        }
        None
    }

    /// Adds `animation` under `name`, replacing a clip of the same name.
    pub fn add_animation(&mut self, name: String, animation: SdlSpriteAnimation)
        requires
            old(self).wf(),
            animation.wf(),
        ensures
            final(self).wf(),
            final(self).has_clip(name@),
            final(self).clip(name@) == animation,
            forall|n: Seq<char>|
                n != name@ ==> (#[trigger] final(self).has_clip(n) == old(self).has_clip(n)) && (
                old(self).has_clip(n) ==> final(self).clip(n) == old(self).clip(n)),
            final(self).active_name() == old(self).active_name(),
            final(self).base_src() == old(self).base_src(),
            final(self).base_dst() == old(self).base_dst(),
    {
        let ghost old_self = *self;
        let ghost nv = name@;
        let k: usize;
        match self.find(&name) {
            Some(i) => {
                self.animations.set(i, (name, animation));
                k = i;
            },
            None => {
                k = self.animations.len();
                self.animations.push((name, animation));
            },
        }
        assert(self.names()[k as int] == nv && self.clips()[k as int] == animation);
        assert(forall|j: int|
            0 <= j < old_self.names().len() && j != k ==> self.names()[j] == old_self.names()[j]
                && self.clips()[j] == old_self.clips()[j]);
        assert(forall|j: int|
            0 <= j < old_self.names().len() && j != k ==> old_self.names()[j] != nv) by {
            assert forall|j: int| 0 <= j < old_self.names().len() && j != k implies old_self.names()[j]
                != nv by {
                if k < old_self.names().len() {
                    if j < k {
                        assert(old_self.names()[j] != old_self.names()[k as int]);
                    } else {
                        assert(old_self.names()[k as int] != old_self.names()[j]);
                    }
                }
            }
        }
        assert forall|i: int, j: int| 0 <= i < j < self.names().len() implies #[trigger] self.names()[i]
            != #[trigger] self.names()[j] by {
            if i != k && j != k {
                assert(old_self.names()[i] != old_self.names()[j]);
            } else if i == k {
                assert(self.names()[j] == old_self.names()[j]);
            } else {
                assert(self.names()[i] == old_self.names()[i]);
            }
        }
        assert forall|j: int| 0 <= j < self.clips().len() implies #[trigger] self.clips()[j].wf() by {
            if j != k {
                assert(old_self.clips()[j].wf());
            }
        }
        proof {
            self.lemma_position_of(k as int);
        }
        assert forall|n: Seq<char>| n != nv implies (#[trigger] self.has_clip(n) == old_self.has_clip(n))
            && (old_self.has_clip(n) ==> self.clip(n) == old_self.clip(n)) by {
            if old_self.has_clip(n) {
                let p = old_self.position_of(n);
                old_self.lemma_position_of(p);
                assert(self.names()[p] == n);
                self.lemma_position_of(p);
            }
            if self.has_clip(n) {
                let p = self.position_of(n);
                assert(old_self.names()[p] == n);
            }
        }
    }

    /// Makes the clip named `name` the active one and sets whether it
    /// repeats. An unknown name is ignored.
    pub fn play_animation(&mut self, name: String, repeat: bool)
        requires
            old(self).wf(),
        ensures
            final(self).wf(),
            !old(self).has_clip(name@) ==> *final(self) == *old(self),
            old(self).has_clip(name@) ==> {
                &&& final(self).active_name() == Some(name@)
                &&& final(self).names() == old(self).names()
                &&& with_repeat(final(self).clip(name@), old(self).clip(name@), repeat)
                &&& forall|i: int|
                    0 <= i < old(self).names().len() && old(self).names()[i] != name@
                        ==> #[trigger] final(self).clips()[i] == old(self).clips()[i]
            },
            final(self).base_src() == old(self).base_src(),
            final(self).base_dst() == old(self).base_dst(),
    {
        let ghost old_self = *self;
        match self.find(&name) {
            Some(i) => {
                let (n, mut clip) = self.animations.remove(i);
                assert(clip == old_self.clips()[i as int]);
                assert(old_self.clips()[i as int].wf());
                clip.set_repeat(repeat);
                self.animations.insert(i, (n, clip));
                self.active = Some(i);
                assert(self.animations@ =~= old_self.animations@.update(i as int, (n, clip)));
                assert(self.names() =~= old_self.names());
                assert(forall|j: int|
                    0 <= j < self.clips().len() && j != i ==> self.clips()[j] == old_self.clips()[j]);
                assert(self.clips()[i as int] == clip);
                assert forall|j: int| 0 <= j < self.clips().len() implies #[trigger] self.clips()[j].wf() by {
                    if j != i {
                        assert(old_self.clips()[j].wf());
                    }
                }
                proof {
                    old_self.lemma_position_of(i as int);
                    self.lemma_position_of(i as int);
                }
            },
            None => {},
        }
    }

    /// Advances the active clip by `dt` microseconds; without one, nothing
    /// changes.
    pub fn tick(&mut self, dt: u64)
        requires
            old(self).wf(),
        ensures
            final(self).wf(),
            final(self).names() == old(self).names(),
            final(self).active_name() == old(self).active_name(),
            forall|i: int|
                0 <= i < old(self).clips().len() && Some(i) != old(self).active_index()
                    ==> #[trigger] final(self).clips()[i] == old(self).clips()[i],
            old(self).active_index() matches Some(i) ==> with_tick(
                final(self).clips()[i],
                old(self).clips()[i],
                dt as int,
            ),
            final(self).base_src() == old(self).base_src(),
            final(self).base_dst() == old(self).base_dst(),
    {
        let ghost old_self = *self;
        match self.active {
            Some(i) => {
                let (n, mut clip) = self.animations.remove(i);
                assert(clip == old_self.clips()[i as int]);
                clip.tick(dt);
                self.animations.insert(i, (n, clip));
                assert(self.animations@ =~= old_self.animations@.update(i as int, (n, clip)));
                assert(self.names() =~= old_self.names());
                assert(forall|j: int|
                    0 <= j < self.clips().len() && j != i ==> self.clips()[j] == old_self.clips()[j]);
                assert(self.clips()[i as int] == clip);
                assert forall|j: int| 0 <= j < self.clips().len() implies #[trigger] self.clips()[j].wf() by {
                    if j != i {
                        assert(old_self.clips()[j].wf());
                    }
                }
            },
            None => {},
        }
    }

    /// The source rectangle to draw now: the active clip's current frame's,
    /// or the sprite's own when no clip is active.
    pub fn get_src_rect(&self) -> (r: Rect)
        requires
            self.wf(),
        ensures
            r == self.spec_src_rect(),
    {
        match self.active {
            Some(i) => {
                assert(self.clips()[i as int] == self.animations@[i as int].1);
                self.animations[i].1.current_frame().src
            },
            None => self.src,
        }
    }

    /// The destination rectangle to draw now: the active clip's current
    /// frame's, or the sprite's own when no clip is active.
    pub fn get_dst_rect(&self) -> (r: Rect)
        requires
            self.wf(),
        ensures
            r == self.spec_dst_rect(),
    {
        match self.active {
            Some(i) => {
                assert(self.clips()[i as int] == self.animations@[i as int].1);
                self.animations[i].1.current_frame().dst
            },
            None => self.dst,
        }
    }
}

} // verus!

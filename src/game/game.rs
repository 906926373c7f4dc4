use crate::game::state::{Hook, State};
use crate::input::keyboard_handler::{Keycode, KEY_ESCAPE};
use vstd::prelude::*;

verus! {

/// The time since the previous frame, in microseconds: 0 on the first frame,
/// which has no previous one, and 0 if the clock went backwards.
pub open spec fn frame_delta(last: Option<u64>, now: u64) -> int {
    match last {
        None => 0,
        Some(t) => if now >= t {
            now - t
        } else {
            0
        },
    }
}

/// Whether a key ends the game loop.
pub open spec fn is_quit_key(key: Option<Keycode>) -> bool {
    key == Some(KEY_ESCAPE)
}

/// The scheduler: owns the current state, computes each frame's time step
/// and drives the state callbacks in their fixed order.
pub struct Game<S> {
    /// Cleared once a quit signal has arrived.
    pub running: bool,
    /// The timestamp of the previous frame, in microseconds.
    pub last_frame_time: Option<u64>,
    /// The current state, once the game has started.
    pub current_state: Option<S>,
    pub window_title: String,
    pub window_width: u32,
    pub window_height: u32,
    /// The state the latest transition replaced, as it was when it was
    /// dropped.
    pub retired: Ghost<Option<S>>,
}

impl<S> Game<S> {
    /// A running game with no state yet.
    pub fn new(window_title: &str, window_width: u32, window_height: u32) -> (g: Game<S>)
        ensures
            g.running,
            g.last_frame_time is None,
            g.current_state is None,
            g.window_title@ == window_title@,
            g.window_width == window_width,
            g.window_height == window_height,
    {
        Game {
            running: true,
            last_frame_time: None,
            current_state: None,
            window_title: window_title.to_string(),
            window_width,
            window_height,
            retired: Ghost(None),
        }
    }

    /// Whether no quit signal has arrived.
    pub fn is_running(&self) -> (r: bool)
        ensures
            r == self.running,
    {
        self.running
    }

    /// Stops the loop: a close request or the quit key arrived.
    pub fn quit(&mut self)
        ensures
            !final(self).running,
            final(self).current_state == old(self).current_state,
            final(self).last_frame_time == old(self).last_frame_time,
    {
        self.running = false;
    }

    /// Reacts to a key event: the quit key stops the loop; other keys leave
    /// the scheduler as it is.
    pub fn handle_key(&mut self, key: Option<Keycode>)
        ensures
            final(self).running == (old(self).running && !is_quit_key(key)),
            final(self).current_state == old(self).current_state,
            final(self).last_frame_time == old(self).last_frame_time,
    {
        if let Some(k) = key {
            if k == KEY_ESCAPE {
                self.running = false;
            }
        }
    }

    /// Returns the time step of a frame that starts at `now` microseconds and
    /// records `now` as the previous frame's time.
    pub fn frame_dt(&mut self, now: u64) -> (dt: u64)
        ensures
            dt == frame_delta(old(self).last_frame_time, now),
            final(self).last_frame_time == Some(now),
            final(self).running == old(self).running,
            final(self).current_state == old(self).current_state,
            final(self).retired == old(self).retired,
    {
        let dt = match self.last_frame_time {
            None => 0,
            Some(t) => now.saturating_sub(t),
        };
        self.last_frame_time = Some(now);
        dt
    }
}

/// What the current state has received after a frame with time step `dt`
/// in which it did not ask for another state: what it had, then that
/// update, then a render.
pub open spec fn kept_state_hooks(before: Seq<Hook>, dt: u64) -> Seq<Hook> {
    before + seq![Hook::Update(dt, false), Hook::Render]
}

/// What a state that asked for another one has received by the time it
/// is dropped: what it had, then that update, then its exit.
pub open spec fn retired_state_hooks(before: Seq<Hook>, dt: u64) -> Seq<Hook> {
    before + seq![Hook::Update(dt, true), Hook::Exit]
}

/// What the state a transition brings in has received at the end of its
/// first frame: its enter, then the frame's render.
pub open spec fn incoming_state_hooks() -> Seq<Hook> {
    seq![Hook::Enter, Hook::Render]
}

impl<S> Game<S> {
    /// Makes `initial` the current state, calling its `on_enter` first.
    pub fn start<C, R>(&mut self, initial: S, context: &mut C)
        where
            S: State<C, R>,
        ensures
            final(self).current_state matches Some(s) && s.received() == initial.received().push(
                Hook::Enter,
            ),
            final(self).running == old(self).running,
            final(self).last_frame_time == old(self).last_frame_time,
    {
        let mut state = initial;
        state.on_enter(context);
        self.current_state = Some(state);
    }

    /// Runs one frame that starts at `now` microseconds: computes the time
    /// step, updates the current state with it and, if the update returned
    /// another state, calls `on_exit` on the old one and `on_enter` on the
    /// new one, which becomes current; then renders the current state.
    /// Returns whether a transition happened. Before `start`, nothing but
    /// the clock is touched.
    pub fn frame<C, R>(&mut self, context: &mut C, renderer: &mut R, now: u64) -> (transitioned: bool)
        where
            S: State<C, R>,
        ensures
            final(self).last_frame_time == Some(now),
            final(self).running == old(self).running,
            old(self).current_state is None ==> !transitioned && final(self).current_state is None,
            old(self).current_state matches Some(s0) ==> {
                let dt = frame_delta(old(self).last_frame_time, now) as u64;
                final(self).current_state matches Some(s1) && if transitioned {
                    &&& s1.received() == incoming_state_hooks()
                    &&& final(self).retired@ matches Some(r) && r.received() == retired_state_hooks(
                        s0.received(),
                        dt,
                    )
                } else {
                    s1.received() == kept_state_hooks(s0.received(), dt)
                }
            },
    {
        let dt = self.frame_dt(now);
        match self.current_state.take() {
            None => false,
            Some(mut state) => {
                let next = state.update(context, dt);
                let transitioned = match next {
                    None => false,
                    Some(mut incoming) => {
                        state.on_exit(context);
                        self.retired = Ghost(Some(state));
                        incoming.on_enter(context);
                        state = incoming;
                        true
                    },
                };
                state.render(context, renderer);
                self.current_state = Some(state);
                transitioned
            },
        }
    }
}

/// In a frame where the update asks for another state, the old state's
/// last callbacks are that update and then its exit, while the new state
/// is entered and then rendered once: the frame's render is made on the
/// new state, after the exit and the enter, and never on the old one.
pub proof fn lemma_transition_before_render(before: Seq<Hook>, dt: u64)
    ensures
        retired_state_hooks(before, dt).last() == Hook::Exit,
        retired_state_hooks(before, dt)[before.len() as int] == Hook::Update(dt, true),
        !retired_state_hooks(before, dt).subrange(before.len() as int, before.len() + 2int).contains(
            Hook::Render,
        ),
        incoming_state_hooks() =~= seq![Hook::Enter, Hook::Render],
{
    let tail = retired_state_hooks(before, dt).subrange(before.len() as int, before.len() + 2int);
    assert(tail =~= seq![Hook::Update(dt, true), Hook::Exit]);
    if tail.contains(Hook::Render) {
        let i = choose|i: int| 0 <= i < tail.len() && tail[i] == Hook::Render;
        assert(i == 0 || i == 1);
    }
}

/// The first frame's time step is exactly zero, whatever the clock reads.
pub proof fn lemma_first_frame_dt_zero(now: u64)
    ensures
        frame_delta(None, now) == 0,
{
}

} // verus!

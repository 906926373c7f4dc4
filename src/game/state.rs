use vstd::prelude::*;

verus! {

/// A lifecycle callback a state has received.
pub enum Hook {
    Enter,
    /// An update with its time step in microseconds, and whether it asked
    /// for another state.
    Update(u64, bool),
    Render,
    Exit,
}

/// A game state: one scene with its own data and lifecycle. `C` is the
/// context handed to every callback, `R` the renderer.
///
/// `update` may return the state to switch to. `on_enter` runs each time a
/// state becomes current and must (re)initialise everything the state
/// needs; `on_exit` runs when it stops being current. A state is not told
/// when the loop ends abruptly.
///
/// An implementation keeps `received`: the callbacks the state has been
/// given, in order. A state that `update` hands out has received none yet.
/// The provided `received` is always empty, which no callback's contract
/// allows, so a verified implementation gives its own.
pub trait State<C, R>: Sized {
    /// The callbacks this state has received, in order.
    closed spec fn received(&self) -> Seq<Hook> {
        Seq::empty()
    }

    /// Advances the game logic by `dt` microseconds.
    fn update(&mut self, context: &mut C, dt: u64) -> (next: Option<Self>)
        ensures
            final(self).received() == old(self).received().push(Hook::Update(dt, next is Some)),
            next matches Some(n) ==> n.received() == Seq::<Hook>::empty(),
    ;

    /// Issues this frame's drawing.
    fn render(&mut self, context: &mut C, renderer: &mut R)
        ensures
            final(self).received() == old(self).received().push(Hook::Render),
    ;

    /// Prepares the state on becoming current.
    fn on_enter(&mut self, context: &mut C)
        ensures
            final(self).received() == old(self).received().push(Hook::Enter),
    ;

    /// Cleans up before another state becomes current.
    fn on_exit(&mut self, context: &mut C)
        ensures
            final(self).received() == old(self).received().push(Hook::Exit),
    ;

    /// The state's name.
    fn get_name(&mut self) -> String;
}

} // verus!

use std::collections::HashMap;
use vstd::prelude::*;
use vstd::std_specs::hash::group_hash_axioms;

verus! {

broadcast use group_hash_axioms;

/// Identifies a key. The platform layer assigns the codes; the `KEY_`
/// constants name the ones the engine itself knows.
pub type Keycode = u32;

/// The key that ends the game loop.
pub const KEY_ESCAPE: Keycode = 1;

pub const KEY_ENTER: Keycode = 2;

pub const KEY_SPACE: Keycode = 3;

pub const KEY_ARROW_UP: Keycode = 4;

pub const KEY_ARROW_DOWN: Keycode = 5;

pub const KEY_ARROW_LEFT: Keycode = 6;

pub const KEY_ARROW_RIGHT: Keycode = 7;

/// Whether `key` is recorded as held in `keys`; keys never recorded are not
/// held.
pub open spec fn held(keys: Map<Keycode, bool>, key: Keycode) -> bool {
    keys.contains_key(key) && keys[key]
}

/// The state of every key in this frame (`keys`) and as of the end of the
/// previous frame (`prev_keys`).
pub struct KeyboardHandler {
    pub keys: HashMap<Keycode, bool>,
    pub prev_keys: HashMap<Keycode, bool>,
}

impl KeyboardHandler {
    /// Whether `key` is held in this frame.
    pub open spec fn spec_pressed(&self, key: Keycode) -> bool {
        held(self.keys@, key)
    }

    /// Whether `key` is held in this frame and was not at the end of the
    /// previous one.
    pub open spec fn spec_just_pressed(&self, key: Keycode) -> bool {
        held(self.keys@, key) && !held(self.prev_keys@, key)
    }

    /// Whether `key` is not held in this frame and was at the end of the
    /// previous one.
    pub open spec fn spec_just_released(&self, key: Keycode) -> bool {
        !held(self.keys@, key) && held(self.prev_keys@, key)
    }

    /// A handler on which no key has been recorded.
    pub fn new() -> (r: KeyboardHandler)
        ensures
            r.keys@ == Map::<Keycode, bool>::empty(),
            r.prev_keys@ == Map::<Keycode, bool>::empty(),
    {
        KeyboardHandler { keys: HashMap::new(), prev_keys: HashMap::new() }
    }

    /// Records that `key` went down (`pressed`) or up.
    pub fn set_key(&mut self, key: Keycode, pressed: bool)
        ensures
            final(self).keys@ == old(self).keys@.insert(key, pressed),
            final(self).prev_keys@ == old(self).prev_keys@,
    {
        self.keys.insert(key, pressed);
    }

    /// Records a key event. Events that carry no key code the platform layer
    /// could name (`None`) are ignored.
    pub fn handle_event(&mut self, key: Option<Keycode>, pressed: bool)
        ensures
            key matches Some(k) ==> final(self).keys@ == old(self).keys@.insert(k, pressed),
            key is None ==> final(self).keys@ == old(self).keys@,
            final(self).prev_keys@ == old(self).prev_keys@,
    {
        if let Some(k) = key {
            self.set_key(k, pressed);
        }
    }

    /// Whether `key` is held in this frame.
    pub fn is_key_pressed(&self, key: Keycode) -> (r: bool)
        ensures
            r == self.spec_pressed(key),
    {
        held_exec(&self.keys, key)
    }

    /// Whether `key` went down since the end of the previous frame.
    pub fn is_key_just_pressed(&self, key: Keycode) -> (r: bool)
        ensures
            r == self.spec_just_pressed(key),
    {
        held_exec(&self.keys, key) && !held_exec(&self.prev_keys, key)
    }

    /// Whether `key` went up since the end of the previous frame.
    pub fn is_key_just_released(&self, key: Keycode) -> (r: bool)
        ensures
            r == self.spec_just_released(key),
    {
        !held_exec(&self.keys, key) && held_exec(&self.prev_keys, key)
    }

    /// Ends the frame: the state of this frame becomes the previous state.
    pub fn update(&mut self)
        ensures
            final(self).prev_keys@ == old(self).keys@,
            final(self).keys@ == old(self).keys@,
    {
        self.prev_keys = self.keys.clone();
    }
}

/// Whether `key` is recorded as held in `keys`.
fn held_exec(keys: &HashMap<Keycode, bool>, key: Keycode) -> (r: bool)
    ensures
        r == held(keys@, key),
{
    match keys.get(&key) {
        Some(v) => *v,
        None => false,
    }
}

/// Edges last one frame: right after `update`, with no event since, no key
/// is just pressed or just released, and every key is held exactly when it
/// was before.
pub proof fn lemma_no_edges_after_update(before: KeyboardHandler, after: KeyboardHandler, key: Keycode)
    requires
        after.prev_keys@ == before.keys@,
        after.keys@ == before.keys@,
    ensures
        !after.spec_just_pressed(key),
        !after.spec_just_released(key),
        after.spec_pressed(key) == before.spec_pressed(key),
{
}

} // verus!

//! Sound and music data, and the playback entry points kept for programs
//! written against the channel-based audio interface. Playback itself is
//! done by the platform layer's audio manager.

use vstd::prelude::*;

verus! {

/// Encoded sound effect data.
pub type Sound = Vec<u8>;

/// Encoded music data.
pub type Music = Vec<u8>;

/// Prepares channel-based playback; there is nothing to prepare.
pub fn init(_number_of_channels: i32) {
}

/// Ends channel-based playback; there is nothing to release.
pub fn close() {
}

/// Channel-based music loading is not supported: the result holds no data.
pub fn load_music(_file: &String) -> (r: Music)
    ensures
        r@.len() == 0,
{
    Vec::new()
}

/// Channel-based playback is not supported: the sound is dropped.
pub fn play_sound(_sound_fx: Sound, _channel: i32) {
}

} // verus!

//! Font descriptions.

pub mod font_details;

use crate::game::resources::ResourceLoadError;
use vstd::prelude::*;

verus! {

/// A font's name or path.
pub type Font = String;

/// Prepares font handling; there is nothing to prepare, so it succeeds.
pub fn init() -> (r: Result<(), ResourceLoadError>)
    ensures
        r is Ok,
{
    Ok(())
}

/// Ends font handling; there is nothing to release.
pub fn close() {
}

} // verus!

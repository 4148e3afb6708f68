//! A music player's core: timed lyrics, playback state and key bindings.
use vstd::prelude::*;

pub mod chars;
pub mod config;
pub mod help;
pub mod input;
pub mod lyrics;
pub mod playback;
pub mod status;

verus! {

} // verus!

//! Sample-stream plumbing for a microphone-driven pitch tracker and looper:
//! analysis windows, loop recording and loop playback.
use vstd::prelude::*;

pub mod hop;
pub mod input;
pub mod pitch_cell;
pub mod player;
pub mod queue;
pub mod recorder;
pub mod window;

verus! {

} // verus!

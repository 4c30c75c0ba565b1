use vstd::prelude::*;

verus! {

/// Per-frame stage between the microphone mix and the output queue.
pub struct InputProcessor {}

impl InputProcessor {
    pub fn new() -> (processor: Self)
        ensures
            processor == (InputProcessor {}),
    {
        InputProcessor {}
    }

    /// Processing applied to each mono sample before it is queued for output:
    /// the sample passes through unchanged.
    pub fn process_sample<T>(&mut self, sample: T) -> (out: T)
        ensures
            out == sample,
            *final(self) == *old(self),
    {
        sample
    }
}

} // verus!

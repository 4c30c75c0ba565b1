//! The most recent pitch estimate, shared between the analysis thread that
//! writes it and the audio callback that reads it.
use std::sync::atomic::AtomicU32;
use std::sync::atomic::Ordering;
use std::sync::Arc;
use vstd::prelude::*;

verus! {

/// A shared cell holding the bit pattern of the latest pitch estimate in Hz
/// (an IEEE-754 single-precision value). Clones share the same cell.
#[derive(Clone)]
pub struct LatestPitchHz {
    bits: Arc<AtomicU32>,
}

impl LatestPitchHz {
    /// A cell holding 0 Hz, whose bit pattern is all zeros.
    pub fn new() -> (cell: Self) {
        LatestPitchHz { bits: Arc::new(AtomicU32::new(0)) }
    }

    /// Stores the bit pattern of a new estimate; readers on any thread may
    /// see it from then on.
    pub fn set(&self, frequency_bits: u32) {
        self.bits.store(frequency_bits, Ordering::Relaxed);
    }

    /// The bit pattern most recently stored through this cell or a clone.
    pub fn get(&self) -> (frequency_bits: u32) {
        self.bits.load(Ordering::Relaxed)
    }
}

} // verus!

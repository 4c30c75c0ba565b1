//! A hop queue of samples for pitch analysis: samples accumulate until a full
//! window is there, the window is analysed, and then the oldest
//! `PITCH_WINDOW_HOP` samples are dropped, so consecutive windows overlap.
use vstd::prelude::*;

use crate::window::{PITCH_WINDOW_HOP, PITCH_WINDOW_SIZE};

verus! {

pub struct HopQueue<T> {
    pending: Vec<T>,
}

impl<T> View for HopQueue<T> {
    type V = Seq<T>;

    /// The samples waiting, oldest first.
    closed spec fn view(&self) -> Seq<T> {
        self.pending@
    }
}

impl<T> HopQueue<T> {
    /// An empty queue, with room for two windows reserved.
    pub fn new() -> (q: Self)
        ensures
            q@ == Seq::<T>::empty(),
    {
        HopQueue { pending: Vec::with_capacity(PITCH_WINDOW_SIZE * 2) }
    }

    pub fn push(&mut self, sample: T)
        ensures
            final(self)@ == old(self)@.push(sample),
    {
        self.pending.push(sample);
    }

    /// Whether a full window is waiting.
    pub fn has_window(&self) -> (b: bool)
        ensures
            b == (self@.len() >= PITCH_WINDOW_SIZE),
    {
        self.pending.len() >= PITCH_WINDOW_SIZE
    }

    /// The oldest `PITCH_WINDOW_SIZE` samples.
    pub fn window(&self) -> (out: &[T])
        requires
            self@.len() >= PITCH_WINDOW_SIZE,
        ensures
            out@ == self@.subrange(0, PITCH_WINDOW_SIZE as int),
    {
        vstd::slice::slice_subrange(self.pending.as_slice(), 0, PITCH_WINDOW_SIZE)
    }

    /// Drops the oldest `PITCH_WINDOW_HOP` samples.
    pub fn advance(&mut self)
        requires
            old(self)@.len() >= PITCH_WINDOW_HOP,
        ensures
            final(self)@ == old(self)@.subrange(PITCH_WINDOW_HOP as int, old(self)@.len() as int),
    {
        let rest = self.pending.split_off(PITCH_WINDOW_HOP);
        self.pending = rest;
    }
}

/// How many windows are analysed, by taking windows and advancing while a
/// full window is waiting, from a queue of `len` samples.
pub open spec fn windows_ready(len: nat) -> nat
    decreases len,
{
    if len >= PITCH_WINDOW_SIZE {
        1 + windows_ready((len - PITCH_WINDOW_HOP) as nat)
    } else {
        0
    }
}

/// Consecutive windows overlap by `PITCH_WINDOW_SIZE - PITCH_WINDOW_HOP`:
/// when the queue holds a stream from sample `k * PITCH_WINDOW_HOP` on, its
/// window is samples `k * PITCH_WINDOW_HOP ..` of the stream, and advancing
/// leaves the stream from sample `(k + 1) * PITCH_WINDOW_HOP` on.
pub proof fn lemma_windows_follow_stream<T>(stream: Seq<T>, k: nat)
    requires
        k * PITCH_WINDOW_HOP + PITCH_WINDOW_SIZE <= stream.len(),
    ensures
        ({
            let queued = stream.subrange((k * PITCH_WINDOW_HOP) as int, stream.len() as int);
            &&& queued.len() >= PITCH_WINDOW_SIZE
            &&& queued.subrange(0, PITCH_WINDOW_SIZE as int) == stream.subrange(
                (k * PITCH_WINDOW_HOP) as int,
                (k * PITCH_WINDOW_HOP + PITCH_WINDOW_SIZE) as int,
            )
            &&& queued.subrange(PITCH_WINDOW_HOP as int, queued.len() as int) == stream.subrange(
                ((k + 1) * PITCH_WINDOW_HOP) as int,
                stream.len() as int,
            )
        }),
{
    let queued = stream.subrange((k * PITCH_WINDOW_HOP) as int, stream.len() as int);
    assert((k + 1) * PITCH_WINDOW_HOP == k * PITCH_WINDOW_HOP + PITCH_WINDOW_HOP) by (
    nonlinear_arith);
    assert(queued.subrange(0, PITCH_WINDOW_SIZE as int) =~= stream.subrange(
        (k * PITCH_WINDOW_HOP) as int,
        (k * PITCH_WINDOW_HOP + PITCH_WINDOW_SIZE) as int,
    ));
    assert(queued.subrange(PITCH_WINDOW_HOP as int, queued.len() as int) =~= stream.subrange(
        ((k + 1) * PITCH_WINDOW_HOP) as int,
        stream.len() as int,
    ));
}

/// A queue of `len` samples yields no window while `len` is below
/// `PITCH_WINDOW_SIZE`, and otherwise one window for the first
/// `PITCH_WINDOW_SIZE` samples plus one for every further
/// `PITCH_WINDOW_HOP`.
pub proof fn lemma_window_count(len: nat)
    ensures
        windows_ready(len) == if len < PITCH_WINDOW_SIZE {
            0
        } else {
            ((len - PITCH_WINDOW_SIZE) as nat) / (PITCH_WINDOW_HOP as nat) + 1
        },
    decreases len,
{
    if len >= PITCH_WINDOW_SIZE {
        let rest = (len - PITCH_WINDOW_HOP) as nat;
        lemma_window_count(rest);
        if rest >= PITCH_WINDOW_SIZE {
            vstd::arithmetic::div_mod::lemma_div_plus_one(
                (rest - PITCH_WINDOW_SIZE) as int,
                PITCH_WINDOW_HOP as int,
            );
        }
    }
}

} // verus!

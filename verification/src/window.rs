//! The sliding analysis window that feeds the pitch detector.
//!
//! Samples are written twice into a ring of twice the window size, so that the
//! most recent `PITCH_WINDOW_SIZE` samples are always one contiguous slice,
//! oldest first. An analysis falls due every `PITCH_WINDOW_HOP` samples once
//! the window has been filled.
use vstd::prelude::*;

verus! {

/// Number of samples the pitch detector looks at in one analysis.
pub const PITCH_WINDOW_SIZE: usize = 1024;

/// Number of new samples between two analyses once the window is full.
pub const PITCH_WINDOW_HOP: usize = 512;

/// Where in its hop cycle the window stands after `pushed` samples: while it
/// is still filling, the number of samples seen; afterwards, the samples seen
/// since the last analysis.
pub open spec fn hop_phase(pushed: nat) -> nat {
    if pushed < PITCH_WINDOW_SIZE {
        pushed
    } else {
        ((pushed - PITCH_WINDOW_SIZE) as nat) % (PITCH_WINDOW_HOP as nat)
    }
}

/// How many analyses fall due when the `pushed`-th sample arrives.
///
/// The sample that completes the window makes up for every hop that passed
/// while the window was filling, so it triggers `PITCH_WINDOW_SIZE /
/// PITCH_WINDOW_HOP` analyses of that same first full window; after that,
/// exactly one analysis falls due every `PITCH_WINDOW_HOP` samples.
pub open spec fn analyses_due(pushed: nat) -> nat {
    if pushed < PITCH_WINDOW_SIZE {
        0
    } else if pushed == PITCH_WINDOW_SIZE {
        (PITCH_WINDOW_SIZE / PITCH_WINDOW_HOP) as nat
    } else if ((pushed - PITCH_WINDOW_SIZE) as nat) % (PITCH_WINDOW_HOP as nat) == 0 {
        1
    } else {
        0
    }
}

/// The abstract state of an analysis window: the `PITCH_WINDOW_SIZE` samples
/// that the next analysis sees, oldest first, and how many samples have been
/// pushed since the window was created.
pub struct WindowView<T> {
    pub window: Seq<T>,
    pub pushed: nat,
}

/// The window that one push leaves behind: the oldest sample falls out and
/// the new one comes in at the end.
pub open spec fn slide<T>(window: Seq<T>, sample: T) -> Seq<T> {
    window.drop_first().push(sample)
}

/// The window after pushing `samples`, one at a time, into `window`.
pub open spec fn slide_all<T>(window: Seq<T>, samples: Seq<T>) -> Seq<T>
    decreases samples.len(),
{
    if samples.len() == 0 {
        window
    } else {
        slide(slide_all(window, samples.drop_last()), samples.last())
    }
}

/// The last `window.len()` samples of the stream that starts with the
/// contents of `window` and continues with `samples`.
pub open spec fn latest<T>(window: Seq<T>, samples: Seq<T>) -> Seq<T> {
    (window + samples).subrange(samples.len() as int, (samples.len() + window.len()) as int)
}

/// Total number of analyses that have fallen due after `pushed` samples.
pub open spec fn total_analyses(pushed: nat) -> nat
    decreases pushed,
{
    if pushed == 0 {
        0
    } else {
        total_analyses((pushed - 1) as nat) + analyses_due(pushed)
    }
}

/// A sliding window over a sample stream, kept as a doubled ring buffer.
pub struct AnalysisWindow<T> {
    analysis_ring: Vec<T>,
    write_pos: usize,
    filled: usize,
    samples_since_hop: usize,
    pushed: Ghost<nat>,
}

impl<T> View for AnalysisWindow<T> {
    type V = WindowView<T>;

    closed spec fn view(&self) -> WindowView<T> {
        WindowView {
            window: self.analysis_ring@.subrange(
                self.write_pos as int,
                self.write_pos + PITCH_WINDOW_SIZE,
            ),
            pushed: self.pushed@,
        }
    }
}

impl<T: Copy> AnalysisWindow<T> {
    /// The ring invariant: every sample is stored at its position and again
    /// one window further on, the write position counts pushes modulo the
    /// window size, and the fill and hop counters follow the push count.
    pub closed spec fn wf(&self) -> bool {
        &&& self.analysis_ring@.len() == 2 * PITCH_WINDOW_SIZE
        &&& self.write_pos < PITCH_WINDOW_SIZE
        &&& forall|i: int|
            0 <= i < PITCH_WINDOW_SIZE ==> #[trigger] self.analysis_ring@[i]
                == self.analysis_ring@[i + PITCH_WINDOW_SIZE]
        &&& self.write_pos == self.pushed@ % (PITCH_WINDOW_SIZE as nat)
        &&& self.filled == if self.pushed@ < PITCH_WINDOW_SIZE {
            self.pushed@
        } else {
            PITCH_WINDOW_SIZE as nat
        }
        &&& self.samples_since_hop == hop_phase(self.pushed@)
    }

    /// A window whose every slot holds `fill`, with no sample pushed yet.
    pub fn new(fill: T) -> (w: Self)
        ensures
            w.wf(),
            w@.window == Seq::new(PITCH_WINDOW_SIZE as nat, |i: int| fill),
            w@.pushed == 0,
    {
        let mut analysis_ring: Vec<T> = Vec::new();
        let mut i: usize = 0;
        while i < 2 * PITCH_WINDOW_SIZE
            invariant
                i <= 2 * PITCH_WINDOW_SIZE,
                analysis_ring@.len() == i,
                forall|j: int| 0 <= j < i ==> analysis_ring@[j] == fill,
            decreases 2 * PITCH_WINDOW_SIZE - i,
        {
            analysis_ring.push(fill);
            i = i + 1;
        }
        let w = AnalysisWindow {
            analysis_ring,
            write_pos: 0,
            filled: 0,
            samples_since_hop: 0,
            pushed: Ghost(0),
        };
        assert(w@.window =~= Seq::new(PITCH_WINDOW_SIZE as nat, |i: int| fill));
        w
    }

    /// The samples the next analysis sees, oldest first.
    pub fn window(&self) -> (out: &[T])
        requires
            self.wf(),
        ensures
            out@ == self@.window,
    {
        vstd::slice::slice_subrange(
            self.analysis_ring.as_slice(),
            self.write_pos,
            self.write_pos + PITCH_WINDOW_SIZE,
        )
    }

    /// Appends one sample to the stream and returns how many analyses of the
    /// resulting window fall due.
    pub fn push_sample(&mut self, sample: T) -> (due: usize)
        requires
            old(self).wf(),
        ensures
            final(self).wf(),
            final(self)@.window == slide(old(self)@.window, sample),
            final(self)@.pushed == old(self)@.pushed + 1,
            due == analyses_due(final(self)@.pushed),
    {
        let ghost old_window = self@.window;
        let ghost p = self.pushed@ + 1;
        let wp = self.write_pos;
        self.analysis_ring.set(wp, sample);
        self.analysis_ring.set(wp + PITCH_WINDOW_SIZE, sample);

        if wp + 1 == PITCH_WINDOW_SIZE {
            self.write_pos = 0;
        } else {
            self.write_pos = wp + 1;
        }
        if self.filled < PITCH_WINDOW_SIZE {
            self.filled = self.filled + 1;
        }
        self.samples_since_hop = self.samples_since_hop + 1;
        self.pushed = Ghost(p);

        proof {
            assert(self.write_pos == p % (PITCH_WINDOW_SIZE as nat)) by {
                vstd::arithmetic::div_mod::lemma_add_mod_noop(
                    (p - 1) as int,
                    1,
                    PITCH_WINDOW_SIZE as int,
                );
            }
            assert(self@.window =~= slide(old_window, sample));
        }

        let filled = self.filled;
        let mut since = self.samples_since_hop;
        let mut due: usize = 0;
        while filled == PITCH_WINDOW_SIZE && since >= PITCH_WINDOW_HOP
            invariant
                filled == PITCH_WINDOW_SIZE <==> p >= PITCH_WINDOW_SIZE,
                p >= PITCH_WINDOW_SIZE ==> since + due * PITCH_WINDOW_HOP
                    == hop_phase((p - 1) as nat) + 1,
                p < PITCH_WINDOW_SIZE ==> since == p && due == 0,
                due <= 2,
            decreases since,
        {
            due = due + 1;
            since = since - PITCH_WINDOW_HOP;
        }
        self.samples_since_hop = since;
        proof {
            if p > PITCH_WINDOW_SIZE {
                let q = (p - 1 - PITCH_WINDOW_SIZE) as int;
                vstd::arithmetic::div_mod::lemma_add_mod_noop(q, 1, PITCH_WINDOW_HOP as int);
            }
        }
        due
    }
}

/// The window always holds the latest samples of the stream: pushing
/// `samples` one at a time into a non-empty window leaves exactly the last
/// `window.len()` samples of the stream that starts with the window's initial
/// contents and continues with `samples`, oldest first.
pub proof fn lemma_window_holds_latest_samples<T>(window: Seq<T>, samples: Seq<T>)
    requires
        window.len() > 0,
    ensures
        slide_all(window, samples) == latest(window, samples),
        slide_all(window, samples).len() == window.len(),
    decreases samples.len(),
{
    if samples.len() > 0 {
        let prefix = samples.drop_last();
        lemma_window_holds_latest_samples(window, prefix);
        let before = latest(window, prefix);
        assert(slide(before, samples.last()) =~= latest(window, samples)) by {
            assert(prefix.push(samples.last()) =~= samples);
        }
    } else {
        assert(latest(window, samples) =~= window);
    }
}

/// Analyses fall due at a steady cadence: after `pushed` samples, none while
/// the window is filling, then `PITCH_WINDOW_SIZE / PITCH_WINDOW_HOP` for the
/// first full window and one more for every further `PITCH_WINDOW_HOP`
/// samples.
pub proof fn lemma_analysis_cadence(pushed: nat)
    ensures
        total_analyses(pushed) == if pushed < PITCH_WINDOW_SIZE {
            0
        } else {
            (PITCH_WINDOW_SIZE / PITCH_WINDOW_HOP) as nat + ((pushed - PITCH_WINDOW_SIZE) as nat) / (
            PITCH_WINDOW_HOP as nat)
        },
    decreases pushed,
{
    if pushed > 0 {
        lemma_analysis_cadence((pushed - 1) as nat);
        if pushed > PITCH_WINDOW_SIZE {
            let q = (pushed - 1 - PITCH_WINDOW_SIZE) as int;
            let h = PITCH_WINDOW_HOP as int;
            vstd::arithmetic::div_mod::lemma_fundamental_div_mod(q, h);
            vstd::arithmetic::div_mod::lemma_fundamental_div_mod(q + 1, h);
            if (q + 1) % h == 0 {
                vstd::arithmetic::div_mod::lemma_fundamental_div_mod_converse(q + 1, h, q / h + 1, 0);
            } else {
                vstd::arithmetic::div_mod::lemma_fundamental_div_mod_converse(q + 1, h, q / h, q % h + 1);
            }
        }
    }
}

/// The push count at which the most recent analysis fell due, once the
/// window has been filled: the last multiple of `PITCH_WINDOW_HOP`.
pub open spec fn last_analysis(pushed: nat) -> nat {
    (PITCH_WINDOW_HOP as nat) * (pushed / (PITCH_WINDOW_HOP as nat))
}

/// Which window the latest analysis saw: after `samples` have been pushed
/// into a window filled with `start`, with at least a full window of them,
/// the last analysis fell due at push `last_analysis(n)`, no analysis fell
/// due after it, and the window analysed then was the `PITCH_WINDOW_SIZE`
/// samples just before that push, oldest first.
pub proof fn lemma_last_analysed_window<T>(start: Seq<T>, samples: Seq<T>)
    requires
        start.len() == PITCH_WINDOW_SIZE,
        samples.len() >= PITCH_WINDOW_SIZE,
    ensures
        ({
            let n = samples.len();
            let k = last_analysis(n);
            &&& PITCH_WINDOW_SIZE <= k <= n
            &&& analyses_due(k) > 0
            &&& forall|j: nat| k < j <= n ==> #[trigger] analyses_due(j) == 0
            &&& slide_all(start, samples.take(k as int)) == samples.subrange(
                k - PITCH_WINDOW_SIZE,
                k as int,
            )
        }),
{
    let n = samples.len();
    let h = PITCH_WINDOW_HOP as int;
    let q = (n as int) / h;
    let k = last_analysis(n);
    vstd::arithmetic::div_mod::lemma_fundamental_div_mod(n as int, h);
    assert(k == h * q);
    assert(q >= 2);
    assert forall|j: nat| k < j <= n implies #[trigger] analyses_due(j) == 0 by {
        let r = j - k;
        assert(0 < r < h);
        assert(j - PITCH_WINDOW_SIZE == h * (q - 2) + r);
        vstd::arithmetic::div_mod::lemma_fundamental_div_mod_converse(
            j - PITCH_WINDOW_SIZE,
            h,
            q - 2,
            r,
        );
    }
    if k > PITCH_WINDOW_SIZE {
        vstd::arithmetic::div_mod::lemma_fundamental_div_mod_converse(
            k - PITCH_WINDOW_SIZE,
            h,
            q - 2,
            0,
        );
    }
    let prefix = samples.take(k as int);
    lemma_window_holds_latest_samples(start, prefix);
    assert(latest(start, prefix) =~= samples.subrange(k - PITCH_WINDOW_SIZE, k as int));
}

} // verus!

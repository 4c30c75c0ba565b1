//! The output-callback side of the looper: plays the latest loop round and
//! round, one sample per output frame, on every channel of the frame.
use vstd::prelude::*;

use crate::queue::{loops_popped, pop_loop, readable_slots};

verus! {

/// The abstract state of a player: the loop it plays and the position of the
/// next sample in it.
pub struct PlayerView<T> {
    pub buffer: Seq<T>,
    pub position: nat,
}

/// Whether a player in state `v` produces loop samples rather than silence.
pub open spec fn sounding<T>(v: PlayerView<T>, playing: bool) -> bool {
    playing && v.buffer.len() > 0
}

/// The sample of the `frame`-th output frame counted from state `v`.
pub open spec fn frame_sample<T>(v: PlayerView<T>, playing: bool, frame: int, silence: T) -> T {
    if sounding(v, playing) {
        v.buffer[(v.position + frame) % (v.buffer.len() as int)]
    } else {
        silence
    }
}

/// The state after `frames` output frames have been played from `v`.
pub open spec fn advance<T>(v: PlayerView<T>, playing: bool, frames: nat) -> PlayerView<T> {
    if sounding(v, playing) {
        PlayerView {
            buffer: v.buffer,
            position: (((v.position + frames) as int) % (v.buffer.len() as int)) as nat,
        }
    } else {
        v
    }
}

/// Whether `after` is the output buffer `before` rendered from state `v`:
/// each complete frame of `channels` samples carries that frame's sample on
/// every channel, and the samples after the last complete frame are left as
/// they were.
pub open spec fn rendered<T>(
    before: Seq<T>,
    after: Seq<T>,
    channels: nat,
    v: PlayerView<T>,
    playing: bool,
    silence: T,
) -> bool {
    let covered = (before.len() / channels) * channels;
    &&& after.len() == before.len()
    &&& forall|i: int|
        0 <= i < covered ==> #[trigger] after[i] == frame_sample(
            v,
            playing,
            i / (channels as int),
            silence,
        )
    &&& forall|i: int| covered <= i < before.len() ==> #[trigger] after[i] == before[i]
}

/// Plays loops of samples carried as IEEE-754 single-precision bit patterns.
pub struct LoopPlayer {
    playback_consumer: rtrb::Consumer<Vec<u32>>,
    playback_buffer: Vec<u32>,
    playback_position: usize,
}

/// The state a player in state `v` is left in after taking `loops` from its
/// queue: unchanged when none was taken, otherwise the last loop taken, from
/// its first sample.
pub open spec fn after_receiving<T>(v: PlayerView<T>, loops: Seq<Seq<T>>) -> PlayerView<T> {
    if loops.len() == 0 {
        v
    } else {
        PlayerView { buffer: loops.last(), position: 0 }
    }
}

impl View for LoopPlayer {
    type V = PlayerView<u32>;

    closed spec fn view(&self) -> PlayerView<u32> {
        PlayerView { buffer: self.playback_buffer@, position: self.playback_position as nat }
    }
}

/// A player state is consistent when the position lies inside the loop, or
/// is zero while there is no loop.
pub open spec fn player_state_wf<T>(v: PlayerView<T>) -> bool {
    if v.buffer.len() == 0 {
        v.position == 0
    } else {
        v.position < v.buffer.len()
    }
}

impl LoopPlayer {
    pub closed spec fn wf(&self) -> bool {
        player_state_wf(self@)
    }

    /// Every loop this player has taken from its queue, in the order the
    /// queue handed them out.
    pub open spec fn loops_taken(&self) -> Seq<Seq<u32>> {
        loops_popped(self.playback_queue())
    }

    /// The queue that brings new loops to this player.
    pub closed spec fn playback_queue(&self) -> rtrb::Consumer<Vec<u32>> {
        self.playback_consumer
    }

    /// A player with no loop, fed by `playback_consumer`.
    pub fn new(playback_consumer: rtrb::Consumer<Vec<u32>>) -> (p: Self)
        ensures
            p.wf(),
            p@.buffer == Seq::<u32>::empty(),
            p@.position == 0,
            p.playback_queue() == playback_consumer,
    {
        LoopPlayer {
            playback_consumer,
            playback_buffer: Vec::new(),
            playback_position: 0,
        }
    }

    /// Replaces the loop and starts it from its first sample.
    pub fn load(&mut self, next_loop: Vec<u32>)
        ensures
            final(self).wf(),
            final(self)@.buffer == next_loop@,
            final(self)@.position == 0,
            final(self).playback_queue() == old(self).playback_queue(),
    {
        self.playback_buffer = next_loop;
        self.playback_position = 0;
    }

    /// Takes the loops waiting in the playback queue; the last one taken
    /// replaces the current loop and starts from its first sample, and when
    /// none is taken the player stays as it was.
    pub fn receive_loops(&mut self)
        requires
            old(self).wf(),
        ensures
            final(self).wf(),
            old(self).loops_taken().is_prefix_of(final(self).loops_taken()),
            final(self)@ == after_receiving(
                old(self)@,
                final(self).loops_taken().subrange(
                    old(self).loops_taken().len() as int,
                    final(self).loops_taken().len() as int,
                ),
            ),
            final(self).loops_taken().len() > old(self).loops_taken().len() ==> final(self)@.buffer
                == final(self).loops_taken().last() && final(self)@.position == 0,
            final(self).loops_taken().len() == old(self).loops_taken().len() ==> final(self)@
                == old(self)@,
    {
        let n = readable_slots(&self.playback_consumer);
        let mut i: usize = 0;
        while i < n
            invariant
                self.wf(),
                old(self).loops_taken().is_prefix_of(self.loops_taken()),
                self@ == after_receiving(
                    old(self)@,
                    self.loops_taken().subrange(
                        old(self).loops_taken().len() as int,
                        self.loops_taken().len() as int,
                    ),
                ),
            decreases n - i,
        {
            match pop_loop(&mut self.playback_consumer) {
                Some(next_loop) => {
                    let ghost loop_view = next_loop@;
                    self.load(next_loop);
                    assert(self.loops_taken().subrange(
                        old(self).loops_taken().len() as int,
                        self.loops_taken().len() as int,
                    ).last() == loop_view);
                },
                None => {
                    break ;
                },
            }
            i = i + 1;
        }
    }

    /// The sample for the next output frame: the current loop sample, after
    /// which the position moves on and wraps at the end of the loop; `None`
    /// (silence) when not playing or when there is no loop.
    pub fn next_sample(&mut self, playing: bool) -> (out: Option<u32>)
        requires
            old(self).wf(),
        ensures
            final(self).wf(),
            final(self)@ == advance(old(self)@, playing, 1),
            sounding(old(self)@, playing) ==> out == Some(old(self)@.buffer[old(self)@.position as int]),
            !sounding(old(self)@, playing) ==> out is None,
            final(self).playback_queue() == old(self).playback_queue(),
    {
        if playing && self.playback_buffer.len() > 0 {
            let sample = self.playback_buffer[self.playback_position];
            self.playback_position = (self.playback_position + 1) % self.playback_buffer.len();
            Some(sample)
        } else {
            None
        }
    }

    /// Fills every complete frame of `data` (frames of `channels` samples)
    /// with the next sample, on all its channels; `silence` where no loop
    /// sample is due. Samples after the last complete frame are left alone.
    pub fn render(&mut self, data: &mut [u32], channels: usize, playing: bool, silence: u32)
        requires
            old(self).wf(),
            channels > 0,
        ensures
            final(self).wf(),
            rendered(old(data)@, final(data)@, channels as nat, old(self)@, playing, silence),
            final(self)@ == advance(
                old(self)@,
                playing,
                (old(data)@.len() / (channels as nat)) as nat,
            ),
            final(self).playback_queue() == old(self).playback_queue(),
    {
        let ghost start_state = self@;
        let ghost before = data@;
        let len = data.len();
        let frames = len / channels;
        let mut frame: usize = 0;
        let mut base: usize = 0;
        proof {
            assert(frames * channels <= len) by (nonlinear_arith)
                requires
                    frames == len / channels,
                    channels > 0,
            ;
            if sounding(start_state, playing) {
                vstd::arithmetic::div_mod::lemma_small_mod(
                    start_state.position,
                    start_state.buffer.len(),
                );
            }
            assert(advance(start_state, playing, 0) == start_state);
        }
        while frame < frames
            invariant
                self.wf(),
                self.playback_queue() == old(self).playback_queue(),
                player_state_wf(start_state),
                channels > 0,
                len == data@.len(),
                len == before.len(),
                frames == len / channels,
                frames * channels <= len,
                frame <= frames,
                base == frame * channels,
                self@ == advance(start_state, playing, frame as nat),
                forall|i: int|
                    0 <= i < base ==> #[trigger] data@[i] == frame_sample(
                        start_state,
                        playing,
                        i / (channels as int),
                        silence,
                    ),
                forall|i: int| base <= i < len ==> #[trigger] data@[i] == before[i],
            decreases frames - frame,
        {
            proof {
                assert(base + channels <= len) by (nonlinear_arith)
                    requires
                        base == frame * channels,
                        frame < frames,
                        frames * channels <= len,
                ;
            }
            let ghost state_before = self@;
            let next = self.next_sample(playing);
            let sample = match next {
                Some(s) => s,
                None => silence,
            };
            proof {
                lemma_advance_step(start_state, playing, frame as nat);
                if sounding(start_state, playing) {
                    vstd::arithmetic::div_mod::lemma_mod_bound(
                        start_state.position + frame,
                        start_state.buffer.len() as int,
                    );
                }
            }
            let mut c: usize = 0;
            while c < channels
                invariant
                    channels > 0,
                    len == data@.len(),
                    base + channels <= len,
                    base == frame * channels,
                    c <= channels,
                    sample == frame_sample(start_state, playing, frame as int, silence),
                    forall|i: int|
                        0 <= i < base + c ==> #[trigger] data@[i] == frame_sample(
                            start_state,
                            playing,
                            i / (channels as int),
                            silence,
                        ),
                    forall|i: int| base + c <= i < len ==> #[trigger] data@[i] == before[i],
                decreases channels - c,
            {
                proof {
                    vstd::arithmetic::div_mod::lemma_fundamental_div_mod_converse(
                        (base + c) as int,
                        channels as int,
                        frame as int,
                        c as int,
                    );
                }
                data[base + c] = sample;
                c = c + 1;
            }
            proof {
                assert(base + channels == (frame + 1) * channels) by (nonlinear_arith)
                    requires
                        base == frame * channels,
                ;
            }
            frame = frame + 1;
            base = base + channels;
        }
    }

    /// One output callback: with no channels nothing happens; otherwise the
    /// loops waiting in the queue are taken (the last one replacing the
    /// current loop) and `data` is rendered from the resulting state.
    pub fn on_output(&mut self, data: &mut [u32], channels: usize, playing: bool, silence: u32)
        requires
            old(self).wf(),
        ensures
            final(self).wf(),
            channels == 0 ==> final(self)@ == old(self)@ && final(data)@ == old(data)@,
            channels == 0 ==> final(self).playback_queue() == old(self).playback_queue(),
            old(self).loops_taken().is_prefix_of(final(self).loops_taken()),
            channels > 0 ==> ({
                let s = after_receiving(
                    old(self)@,
                    final(self).loops_taken().subrange(
                        old(self).loops_taken().len() as int,
                        final(self).loops_taken().len() as int,
                    ),
                );
                &&& player_state_wf(s)
                &&& rendered(old(data)@, final(data)@, channels as nat, s, playing, silence)
                &&& final(self)@ == advance(
                    s,
                    playing,
                    (old(data)@.len() / (channels as nat)) as nat,
                )
            }),
            ({
                let taken = final(self).loops_taken();
                channels > 0 && old(data)@.len() >= channels && playing && taken.len() > old(
                    self,
                ).loops_taken().len() && taken.last().len() > 0 ==> forall|c: int|
                    0 <= c < channels ==> #[trigger] final(data)@[c] == taken.last()[0]
            }),
    {
        if channels == 0 {
            return ;
        }
        self.receive_loops();
        let ghost s = self@;
        let ghost len = data@.len();
        self.render(data, channels, playing, silence);
        assert(player_state_wf(s));
        proof {
            let before_len = old(self).loops_taken().len();
            if len >= channels && playing && self.loops_taken().len() > before_len
                && self.loops_taken().last().len() > 0 {
                assert((len / (channels as nat)) * channels >= channels) by (nonlinear_arith)
                    requires
                        len >= channels,
                        channels > 0,
                ;
                lemma_receiving_restarts_loop(
                    old(self)@,
                    old(self)@,
                    self.loops_taken().subrange(before_len as int, self.loops_taken().len() as int),
                    playing,
                    silence,
                );
                assert forall|c: int| 0 <= c < channels implies #[trigger] data@[c]
                    == self.loops_taken().last()[0] by {
                    vstd::arithmetic::div_mod::lemma_fundamental_div_mod_converse(
                        c,
                        channels as int,
                        0,
                        c,
                    );
                    assert(data@[c] == frame_sample(s, playing, c / (channels as int), silence));
                }
            }
        }
    }
}

/// Playing one more frame from the state reached after `frames` frames is the
/// same as playing `frames + 1` frames, and the sample it yields is the one
/// due at that frame.
proof fn lemma_advance_step<T>(v: PlayerView<T>, playing: bool, frames: nat)
    requires
        player_state_wf(v),
    ensures
        player_state_wf(advance(v, playing, frames)),
        advance(advance(v, playing, frames), playing, 1) == advance(v, playing, frames + 1),
        sounding(v, playing) ==> advance(v, playing, frames).buffer[advance(
            v,
            playing,
            frames,
        ).position as int] == frame_sample(v, playing, frames as int, v.buffer[0]),
        sounding(advance(v, playing, frames), playing) == sounding(v, playing),
{
    if sounding(v, playing) {
        let len = v.buffer.len() as int;
        vstd::arithmetic::div_mod::lemma_mod_bound((v.position + frames) as int, len);
        vstd::arithmetic::div_mod::lemma_add_mod_noop((v.position + frames) as int, 1, len);
        vstd::arithmetic::div_mod::lemma_mod_twice((v.position + frames) as int, len);
        vstd::arithmetic::div_mod::lemma_mod_bound(1, len);
        if len == 1 {
            vstd::arithmetic::div_mod::lemma_mod_self_0(1);
        } else {
            vstd::arithmetic::div_mod::lemma_small_mod(1, len as nat);
        }
    }
}

/// Playback is seamless across callbacks: playing `a` frames and then `b`
/// more leaves the player where playing `a + b` frames at once would, and the
/// frames of the second stretch carry the samples that frames `a ..` of the
/// single stretch would.
pub proof fn lemma_playback_is_seamless<T>(
    v: PlayerView<T>,
    playing: bool,
    a: nat,
    b: nat,
    frame: nat,
    silence: T,
)
    requires
        player_state_wf(v),
    ensures
        player_state_wf(advance(v, playing, a)),
        advance(advance(v, playing, a), playing, b) == advance(v, playing, a + b),
        frame_sample(advance(v, playing, a), playing, frame as int, silence) == frame_sample(
            v,
            playing,
            (a + frame) as int,
            silence,
        ),
{
    if sounding(v, playing) {
        let len = v.buffer.len() as int;
        let p = v.position as int;
        vstd::arithmetic::div_mod::lemma_mod_bound(p + a, len);
        vstd::arithmetic::div_mod::lemma_add_mod_noop(p + a, b as int, len);
        vstd::arithmetic::div_mod::lemma_add_mod_noop(p + a, frame as int, len);
        assert((p + a + b) % len == ((p + a) % len + b) % len) by {
            vstd::arithmetic::div_mod::lemma_add_mod_noop((p + a) % len, b as int, len);
            vstd::arithmetic::div_mod::lemma_mod_twice(p + a, len);
        }
        assert((p + a + frame) % len == ((p + a) % len + frame) % len) by {
            vstd::arithmetic::div_mod::lemma_add_mod_noop((p + a) % len, frame as int, len);
            vstd::arithmetic::div_mod::lemma_mod_twice(p + a, len);
        }
    }
}

/// The loop repeats: while sounding, the sample of a frame comes back one
/// loop length later, and a freshly loaded loop (position 0) plays its
/// samples in order.
pub proof fn lemma_loop_repeats<T>(v: PlayerView<T>, playing: bool, frame: nat, silence: T)
    requires
        player_state_wf(v),
        sounding(v, playing),
    ensures
        frame_sample(v, playing, (frame + v.buffer.len()) as int, silence) == frame_sample(
            v,
            playing,
            frame as int,
            silence,
        ),
        v.position == 0 ==> frame_sample(v, playing, frame as int, silence) == v.buffer[(frame
            % v.buffer.len()) as int],
{
    let len = v.buffer.len() as int;
    vstd::arithmetic::div_mod::lemma_mod_add_multiples_vanish((v.position + frame) as int, len);
}

/// Taking loops from the queue restarts playback: whatever state the player
/// was in, once at least one loop is taken it plays the last loop taken from
/// its first sample; two players that take the same loops end up the same.
pub proof fn lemma_receiving_restarts_loop<T>(
    v1: PlayerView<T>,
    v2: PlayerView<T>,
    loops: Seq<Seq<T>>,
    playing: bool,
    silence: T,
)
    requires
        loops.len() > 0,
    ensures
        after_receiving(v1, loops).buffer == loops.last(),
        after_receiving(v1, loops).position == 0,
        after_receiving(v1, loops) == after_receiving(v2, loops),
        playing && loops.last().len() > 0 ==> frame_sample(
            after_receiving(v1, loops),
            playing,
            0,
            silence,
        ) == loops.last()[0],
{
    if loops.last().len() > 0 {
        vstd::arithmetic::div_mod::lemma_small_mod(0, loops.last().len());
    }
}

} // verus!

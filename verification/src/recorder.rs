//! The control-thread side of the looper: collects the samples that the input
//! callback queues while recording, and hands the finished loop to playback.
use vstd::prelude::*;

use crate::queue::{loops_pushed, pop_sample, push_loop, readable_slots, samples_popped};

verus! {

/// Mode code published to the audio callbacks: neither recording nor playing.
pub const IDLE: u8 = 0;

/// Mode code published to the audio callbacks: the input callback queues samples.
pub const RECORDING: u8 = 1;

/// Mode code published to the audio callbacks: the output callback plays the loop.
pub const PLAYING: u8 = 2;

/// Capacity of the queue that carries recorded samples to the control thread.
pub const RECORDING_BUFFER_CAPACITY: usize = 1048576;

/// Capacity of the queue that carries finished loops to the output callback.
pub const PLAYBACK_COMMAND_CAPACITY: usize = 2;

/// What stopping a recording led to.
pub enum StopOutcome {
    /// Nothing was recorded; no loop was handed to playback.
    Empty,
    /// A loop of this many samples was handed to playback.
    Playing(usize),
    /// The playback queue had no room for the loop.
    QueueFull,
}

/// What an Enter key press asks of the looper.
pub enum EnterAction {
    StartRecording,
    StopRecording,
}

/// The abstract state of a recorder: whether it is recording, and the
/// samples recorded so far (as IEEE-754 single-precision bit patterns).
pub struct RecorderView {
    pub recording: bool,
    pub recorded: Seq<u32>,
}

pub struct LoopRecorder {
    recorded_samples: Vec<u32>,
    recording_consumer: rtrb::Consumer<u32>,
    playback_producer: rtrb::Producer<Vec<u32>>,
    recording: bool,
}

/// The samples taken from the queue between two states of a recorder whose
/// history of taken samples grew from `before` to `after`.
pub open spec fn taken_between(before: Seq<u32>, after: Seq<u32>) -> Seq<u32> {
    after.subrange(before.len() as int, after.len() as int)
}

impl View for LoopRecorder {
    type V = RecorderView;

    closed spec fn view(&self) -> RecorderView {
        RecorderView { recording: self.recording, recorded: self.recorded_samples@ }
    }
}

impl LoopRecorder {
    /// The queue the input callback fills with recorded samples.
    pub closed spec fn recording_queue(&self) -> rtrb::Consumer<u32> {
        self.recording_consumer
    }

    /// The queue that carries finished loops to playback.
    pub closed spec fn playback_queue(&self) -> rtrb::Producer<Vec<u32>> {
        self.playback_producer
    }

    /// Every sample taken so far from the recording queue, in queue order.
    pub open spec fn samples_taken(&self) -> Seq<u32> {
        samples_popped(self.recording_queue())
    }

    /// Every loop handed so far to the playback queue, in order.
    pub open spec fn loops_sent(&self) -> Seq<Seq<u32>> {
        loops_pushed(self.playback_queue())
    }

    /// A recorder that is not recording and holds no samples, reading from
    /// `recording_consumer` and handing loops to `playback_producer`.
    pub fn new(
        recording_consumer: rtrb::Consumer<u32>,
        playback_producer: rtrb::Producer<Vec<u32>>,
    ) -> (r: Self)
        ensures
            !r@.recording,
            r@.recorded == Seq::<u32>::empty(),
            r.recording_queue() == recording_consumer,
            r.playback_queue() == playback_producer,
    {
        LoopRecorder {
            recorded_samples: Vec::new(),
            recording_consumer,
            playback_producer,
            recording: false,
        }
    }

    pub fn is_recording(&self) -> (b: bool)
        ensures
            b == self@.recording,
    {
        self.recording
    }

    /// Appends one sample to the recording.
    pub fn record_sample(&mut self, sample: u32)
        ensures
            final(self)@.recording == old(self)@.recording,
            final(self)@.recorded == old(self)@.recorded.push(sample),
            final(self).recording_queue() == old(self).recording_queue(),
            final(self).playback_queue() == old(self).playback_queue(),
    {
        self.recorded_samples.push(sample);
    }

    /// Moves the samples that the input callback has queued into the
    /// recording: each sample taken from the queue is appended, in queue
    /// order. The playback queue is not touched.
    pub fn drain_recording_samples(&mut self)
        ensures
            final(self)@.recording == old(self)@.recording,
            final(self).playback_queue() == old(self).playback_queue(),
            old(self).samples_taken().is_prefix_of(final(self).samples_taken()),
            final(self)@.recorded == old(self)@.recorded + taken_between(
                old(self).samples_taken(),
                final(self).samples_taken(),
            ),
    {
        let n = readable_slots(&self.recording_consumer);
        let mut i: usize = 0;
        while i < n
            invariant
                self.recording == old(self).recording,
                self.playback_queue() == old(self).playback_queue(),
                old(self).samples_taken().is_prefix_of(self.samples_taken()),
                self@.recorded == old(self)@.recorded + taken_between(
                    old(self).samples_taken(),
                    self.samples_taken(),
                ),
            decreases n - i,
        {
            let ghost before = self.samples_taken();
            match pop_sample(&mut self.recording_consumer) {
                Some(sample) => {
                    self.record_sample(sample);
                    assert(taken_between(old(self).samples_taken(), self.samples_taken())
                        =~= taken_between(old(self).samples_taken(), before).push(sample));
                },
                None => {
                    break ;
                },
            }
            i = i + 1;
        }
    }

    /// Drops the samples that the input callback has queued: they are taken
    /// from the queue and the recording stays as it was. The playback queue
    /// is not touched.
    pub fn discard_pending_samples(&mut self)
        ensures
            final(self)@ == old(self)@,
            final(self).playback_queue() == old(self).playback_queue(),
            old(self).samples_taken().is_prefix_of(final(self).samples_taken()),
    {
        let n = readable_slots(&self.recording_consumer);
        let mut i: usize = 0;
        while i < n
            invariant
                self@ == old(self)@,
                self.playback_queue() == old(self).playback_queue(),
                old(self).samples_taken().is_prefix_of(self.samples_taken()),
            decreases n - i,
        {
            match pop_sample(&mut self.recording_consumer) {
                Some(_) => {},
                None => {
                    break ;
                },
            }
            i = i + 1;
        }
    }

    /// Moves queued samples into the recording while recording, and throws
    /// them away otherwise. The playback queue is not touched.
    pub fn poll(&mut self)
        ensures
            final(self)@.recording == old(self)@.recording,
            final(self).playback_queue() == old(self).playback_queue(),
            old(self).samples_taken().is_prefix_of(final(self).samples_taken()),
            old(self)@.recording ==> final(self)@.recorded == old(self)@.recorded + taken_between(
                old(self).samples_taken(),
                final(self).samples_taken(),
            ),
            !old(self)@.recording ==> final(self)@.recorded == old(self)@.recorded,
    {
        if self.recording {
            self.drain_recording_samples();
        } else {
            self.discard_pending_samples();
        }
    }

    /// Starts a new recording from nothing: samples queued before this call
    /// are taken and dropped. Returns the mode to publish to the audio
    /// callbacks. The playback queue is not touched.
    pub fn start_recording(&mut self) -> (mode: u8)
        ensures
            final(self)@.recording,
            final(self)@.recorded == Seq::<u32>::empty(),
            mode == RECORDING,
            old(self).samples_taken().is_prefix_of(final(self).samples_taken()),
            final(self).playback_queue() == old(self).playback_queue(),
    {
        self.discard_pending_samples();
        self.recorded_samples.clear();
        self.recording = true;
        RECORDING
    }

    /// Ends the recording and takes what was recorded: `None` for an empty
    /// recording, otherwise the whole recording in order. The recorder is
    /// left idle and empty either way; neither queue is touched.
    pub fn take_loop(&mut self) -> (taken: Option<Vec<u32>>)
        ensures
            !final(self)@.recording,
            final(self)@.recorded == Seq::<u32>::empty(),
            old(self)@.recorded.len() == 0 <==> taken is None,
            taken matches Some(v) ==> v@ == old(self)@.recorded,
            final(self).recording_queue() == old(self).recording_queue(),
            final(self).playback_queue() == old(self).playback_queue(),
    {
        self.recording = false;
        if self.recorded_samples.len() == 0 {
            return None;
        }
        let mut taken: Vec<u32> = Vec::new();
        std::mem::swap(&mut taken, &mut self.recorded_samples);
        Some(taken)
    }

    /// Ends the recording with the samples recorded so far, as `take_loop`
    /// does, and pushes a non-empty recording to the playback queue as one
    /// loop. `Empty` pushes nothing; `QueueFull` means the queue refused the
    /// loop, and nothing was delivered.
    pub fn finish_recording(&mut self) -> (outcome: StopOutcome)
        ensures
            !final(self)@.recording,
            final(self)@.recorded == Seq::<u32>::empty(),
            final(self).recording_queue() == old(self).recording_queue(),
            old(self)@.recorded.len() == 0 <==> outcome is Empty,
            outcome matches StopOutcome::Playing(n) ==> n == old(self)@.recorded.len(),
            outcome is Playing ==> final(self).loops_sent() == old(self).loops_sent().push(
                old(self)@.recorded,
            ),
            outcome is Empty ==> final(self).playback_queue() == old(self).playback_queue(),
            outcome is QueueFull ==> final(self).loops_sent() == old(self).loops_sent(),
            outcome is QueueFull ==> old(self)@.recorded.len() > 0,
    {
        match self.take_loop() {
            None => StopOutcome::Empty,
            Some(taken) => {
                let loop_length = taken.len();
                match push_loop(&mut self.playback_producer, taken) {
                    Ok(()) => StopOutcome::Playing(loop_length),
                    Err(_) => StopOutcome::QueueFull,
                }
            },
        }
    }

    /// Collects the samples still queued, then ends the recording as
    /// `finish_recording` does, with the recording followed by the samples
    /// collected. Call it once the input callback has stopped queueing
    /// samples, so that none is left behind.
    pub fn stop_recording(&mut self) -> (outcome: StopOutcome)
        ensures
            !final(self)@.recording,
            final(self)@.recorded == Seq::<u32>::empty(),
            old(self).samples_taken().is_prefix_of(final(self).samples_taken()),
            ({
                let full = old(self)@.recorded + taken_between(
                    old(self).samples_taken(),
                    final(self).samples_taken(),
                );
                &&& outcome is Empty <==> full.len() == 0
                &&& outcome matches StopOutcome::Playing(n) ==> n == full.len()
                &&& outcome is Playing ==> final(self).loops_sent() == old(self).loops_sent().push(
                    full,
                )
                &&& outcome is Empty ==> final(self).playback_queue() == old(self).playback_queue()
                &&& outcome is QueueFull ==> final(self).loops_sent() == old(self).loops_sent()
                &&& outcome is QueueFull ==> full.len() > 0
            }),
    {
        self.drain_recording_samples();
        self.finish_recording()
    }

    /// What pressing Enter does: stop the recording under way, or start one.
    pub fn enter_action(&self) -> (action: EnterAction)
        ensures
            action is StopRecording <==> self@.recording,
    {
        if self.recording {
            EnterAction::StopRecording
        } else {
            EnterAction::StartRecording
        }
    }
}

} // verus!

use loopit::recorder::{EnterAction, LoopRecorder, StopOutcome, PLAYING, RECORDING, IDLE};
use rtrb::RingBuffer;

#[test]
fn mode_codes_are_distinct() {
    assert_eq!((IDLE, RECORDING, PLAYING), (0, 1, 2));
}

#[test]
fn start_drops_earlier_samples_and_stop_hands_loop_over() {
    let (mut samples_tx, samples_rx) = RingBuffer::new(16);
    let (loops_tx, mut loops_rx) = RingBuffer::new(2);
    let mut rec = LoopRecorder::new(samples_rx, loops_tx);
    assert!(!rec.is_recording());
    samples_tx.push(100).unwrap();
    assert_eq!(rec.start_recording(), RECORDING);
    assert!(rec.is_recording());
    samples_tx.push(1).unwrap();
    samples_tx.push(2).unwrap();
    rec.poll();
    samples_tx.push(3).unwrap();
    match rec.stop_recording() {
        StopOutcome::Playing(n) => assert_eq!(n, 3),
        _ => panic!("expected a loop"),
    }
    assert!(!rec.is_recording());
    assert_eq!(loops_rx.pop().unwrap(), vec![1, 2, 3]);
}

#[test]
fn poll_while_idle_discards() {
    let (mut samples_tx, samples_rx) = RingBuffer::new(16);
    let (loops_tx, mut loops_rx) = RingBuffer::new(2);
    let mut rec = LoopRecorder::new(samples_rx, loops_tx);
    samples_tx.push(5).unwrap();
    rec.poll();
    assert_eq!(rec.start_recording(), RECORDING);
    assert!(matches!(rec.stop_recording(), StopOutcome::Empty));
    assert!(loops_rx.pop().is_err());
    assert_eq!(samples_tx.slots(), 16);
}

#[test]
fn empty_recording_is_reported() {
    let (_samples_tx, samples_rx) = RingBuffer::<u32>::new(4);
    let (loops_tx, mut loops_rx) = RingBuffer::new(2);
    let mut rec = LoopRecorder::new(samples_rx, loops_tx);
    rec.start_recording();
    assert!(matches!(rec.stop_recording(), StopOutcome::Empty));
    assert!(!rec.is_recording());
    assert!(loops_rx.pop().is_err());
}

#[test]
fn full_playback_queue_is_reported() {
    let (mut samples_tx, samples_rx) = RingBuffer::new(4);
    let (loops_tx, _loops_rx) = RingBuffer::new(1);
    let mut rec = LoopRecorder::new(samples_rx, loops_tx);
    rec.start_recording();
    samples_tx.push(1).unwrap();
    assert!(matches!(rec.stop_recording(), StopOutcome::Playing(1)));
    rec.start_recording();
    samples_tx.push(2).unwrap();
    assert!(matches!(rec.stop_recording(), StopOutcome::QueueFull));
    assert!(!rec.is_recording());
}

#[test]
fn take_loop_returns_recording_in_order() {
    let (_samples_tx, samples_rx) = RingBuffer::<u32>::new(4);
    let (loops_tx, _loops_rx) = RingBuffer::new(1);
    let mut rec = LoopRecorder::new(samples_rx, loops_tx);
    assert!(rec.take_loop().is_none());
    rec.start_recording();
    rec.record_sample(4);
    rec.record_sample(6);
    assert_eq!(rec.take_loop(), Some(vec![4, 6]));
    assert!(!rec.is_recording());
    assert!(rec.take_loop().is_none());
}

#[test]
fn finish_without_drain_uses_recorded_samples() {
    let (mut samples_tx, samples_rx) = RingBuffer::new(4);
    let (loops_tx, mut loops_rx) = RingBuffer::new(1);
    let mut rec = LoopRecorder::new(samples_rx, loops_tx);
    rec.start_recording();
    rec.record_sample(8);
    samples_tx.push(9).unwrap();
    assert!(matches!(rec.finish_recording(), StopOutcome::Playing(1)));
    assert_eq!(loops_rx.pop().unwrap(), vec![8]);
}

#[test]
fn enter_toggles_between_start_and_stop() {
    let (_samples_tx, samples_rx) = RingBuffer::<u32>::new(4);
    let (loops_tx, _loops_rx) = RingBuffer::new(1);
    let mut rec = LoopRecorder::new(samples_rx, loops_tx);
    assert!(matches!(rec.enter_action(), EnterAction::StartRecording));
    rec.start_recording();
    assert!(matches!(rec.enter_action(), EnterAction::StopRecording));
    rec.stop_recording();
    assert!(matches!(rec.enter_action(), EnterAction::StartRecording));
}

#[test]
fn stop_hands_recorded_and_queued_samples_as_one_loop() {
    let (mut samples_tx, samples_rx) = RingBuffer::new(8);
    let (loops_tx, mut loops_rx) = RingBuffer::new(2);
    let mut rec = LoopRecorder::new(samples_rx, loops_tx);
    rec.start_recording();
    rec.record_sample(1);
    samples_tx.push(2).unwrap();
    samples_tx.push(3).unwrap();
    assert!(matches!(rec.stop_recording(), StopOutcome::Playing(3)));
    assert_eq!(loops_rx.pop().unwrap(), vec![1, 2, 3]);
    assert!(loops_rx.pop().is_err());
}

#[test]
fn enter_twice_delivers_queued_float_samples() {
    let (mut samples_tx, samples_rx) = RingBuffer::<u32>::new(16);
    let (loops_tx, mut loops_rx) = RingBuffer::<Vec<u32>>::new(2);
    let mut rec = LoopRecorder::new(samples_rx, loops_tx);
    assert!(matches!(rec.enter_action(), EnterAction::StartRecording));
    rec.start_recording();
    for x in [0.5f32, -0.5, 0.25] {
        samples_tx.push(x.to_bits()).unwrap();
    }
    assert!(matches!(rec.enter_action(), EnterAction::StopRecording));
    assert!(matches!(rec.stop_recording(), StopOutcome::Playing(3)));
    let delivered: Vec<f32> = loops_rx.pop().unwrap().into_iter().map(f32::from_bits).collect();
    assert_eq!(delivered, vec![0.5, -0.5, 0.25]);
    assert!(loops_rx.pop().is_err());
    assert!(!rec.is_recording());
}

#[test]
fn enter_twice_with_nothing_sends_nothing() {
    let (_samples_tx, samples_rx) = RingBuffer::<u32>::new(16);
    let (loops_tx, mut loops_rx) = RingBuffer::<Vec<u32>>::new(2);
    let mut rec = LoopRecorder::new(samples_rx, loops_tx);
    rec.start_recording();
    assert!(matches!(rec.stop_recording(), StopOutcome::Empty));
    assert!(loops_rx.pop().is_err());
    assert!(!rec.is_recording());
}

use loopit::input::InputProcessor;
use loopit::pitch_cell::LatestPitchHz;

#[test]
fn latest_pitch_starts_at_zero_hz() {
    let cell = LatestPitchHz::new();
    assert_eq!(f32::from_bits(cell.get()), 0.0);
    assert_eq!(cell.get(), 0);
}

#[test]
fn latest_pitch_is_shared_by_clones() {
    let cell = LatestPitchHz::new();
    let other = cell.clone();
    other.set(440.0f32.to_bits());
    assert_eq!(f32::from_bits(cell.get()), 440.0);
    cell.set(0.0f32.to_bits());
    assert_eq!(f32::from_bits(other.get()), 0.0);
}

#[test]
fn input_processor_passes_samples_through() {
    let mut p = InputProcessor::new();
    assert_eq!(p.process_sample(0.75f32), 0.75);
    assert_eq!(p.process_sample(-3i32), -3);
}

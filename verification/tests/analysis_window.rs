use loopit::window::{AnalysisWindow, PITCH_WINDOW_HOP, PITCH_WINDOW_SIZE};

#[test]
fn new_window_holds_fill_value() {
    let w: AnalysisWindow<i32> = AnalysisWindow::new(7);
    let slice = w.window();
    assert_eq!(slice.len(), PITCH_WINDOW_SIZE);
    assert!(slice.iter().all(|&x| x == 7));
}

#[test]
fn no_analysis_until_window_is_full() {
    let mut w = AnalysisWindow::new(0i32);
    for i in 1..PITCH_WINDOW_SIZE {
        assert_eq!(w.push_sample(i as i32), 0, "sample {i}");
    }
}

#[test]
fn completing_window_triggers_two_analyses() {
    let mut w = AnalysisWindow::new(0i32);
    for i in 1..PITCH_WINDOW_SIZE {
        w.push_sample(i as i32);
    }
    assert_eq!(w.push_sample(PITCH_WINDOW_SIZE as i32), 2);
    let expected: Vec<i32> = (1..=PITCH_WINDOW_SIZE as i32).collect();
    assert_eq!(w.window(), expected.as_slice());
}

#[test]
fn one_analysis_every_hop_after_full() {
    let mut w = AnalysisWindow::new(0i32);
    for i in 0..PITCH_WINDOW_SIZE {
        w.push_sample(i as i32);
    }
    for round in 0..3 {
        for k in 1..PITCH_WINDOW_HOP {
            assert_eq!(w.push_sample(-1), 0, "round {round} sample {k}");
        }
        assert_eq!(w.push_sample(-1), 1, "round {round}");
    }
}

#[test]
fn window_is_latest_samples_oldest_first() {
    let mut w = AnalysisWindow::new(0i32);
    let total = 3 * PITCH_WINDOW_SIZE + 17;
    for i in 0..total {
        w.push_sample(i as i32);
    }
    let expected: Vec<i32> = ((total - PITCH_WINDOW_SIZE)..total).map(|x| x as i32).collect();
    assert_eq!(w.window(), expected.as_slice());
}

#[test]
fn partially_filled_window_keeps_fill_in_front() {
    let mut w = AnalysisWindow::new(-5i32);
    for i in 0..3 {
        w.push_sample(i);
    }
    let slice = w.window();
    assert!(slice[..PITCH_WINDOW_SIZE - 3].iter().all(|&x| x == -5));
    assert_eq!(&slice[PITCH_WINDOW_SIZE - 3..], &[0, 1, 2]);
}

#[test]
fn total_analyses_follow_cadence() {
    let mut w = AnalysisWindow::new(0.0f64);
    let mut total = 0usize;
    let pushes = 5000usize;
    for i in 0..pushes {
        total += w.push_sample(i as f64);
    }
    let expected = PITCH_WINDOW_SIZE / PITCH_WINDOW_HOP + (pushes - PITCH_WINDOW_SIZE) / PITCH_WINDOW_HOP;
    assert_eq!(total, expected);
    assert_eq!(total, 9);
}

#[test]
fn last_analysis_saw_window_before_last_hop_multiple() {
    let mut w = AnalysisWindow::new(0i32);
    let n = 2 * PITCH_WINDOW_SIZE + 300;
    let mut last_window = Vec::new();
    for i in 0..n {
        if w.push_sample(i as i32) > 0 {
            last_window = w.window().to_vec();
        }
    }
    let k = PITCH_WINDOW_HOP * (n / PITCH_WINDOW_HOP);
    let expected: Vec<i32> = ((k - PITCH_WINDOW_SIZE)..k).map(|x| x as i32).collect();
    assert_eq!(last_window, expected);
}

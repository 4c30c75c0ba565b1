use loopit::hop::HopQueue;
use loopit::window::{PITCH_WINDOW_HOP, PITCH_WINDOW_SIZE};

fn drain(q: &mut HopQueue<i32>) -> Vec<Vec<i32>> {
    let mut out = Vec::new();
    while q.has_window() {
        out.push(q.window().to_vec());
        q.advance();
    }
    out
}

#[test]
fn no_window_below_window_size() {
    let mut q = HopQueue::new();
    for i in 0..(PITCH_WINDOW_SIZE - 1) {
        q.push(i as i32);
    }
    assert!(!q.has_window());
    assert!(drain(&mut q).is_empty());
}

#[test]
fn windows_overlap_by_hop() {
    let mut q = HopQueue::new();
    let n = PITCH_WINDOW_SIZE + 2 * PITCH_WINDOW_HOP + 100;
    for i in 0..n {
        q.push(i as i32);
    }
    let windows = drain(&mut q);
    assert_eq!(windows.len(), (n - PITCH_WINDOW_SIZE) / PITCH_WINDOW_HOP + 1);
    assert_eq!(windows.len(), 3);
    for (k, w) in windows.iter().enumerate() {
        let start = k * PITCH_WINDOW_HOP;
        let expected: Vec<i32> = (start..start + PITCH_WINDOW_SIZE).map(|x| x as i32).collect();
        assert_eq!(w, &expected);
    }
    assert!(!q.has_window());
}

#[test]
fn advance_drops_exactly_one_hop() {
    let mut q = HopQueue::new();
    for i in 0..PITCH_WINDOW_SIZE {
        q.push(i as i32);
    }
    q.advance();
    for i in 0..PITCH_WINDOW_HOP {
        q.push((PITCH_WINDOW_SIZE + i) as i32);
    }
    assert!(q.has_window());
    assert_eq!(q.window()[0], PITCH_WINDOW_HOP as i32);
}

use waybar_modules::window::{push_reading, rotate_if_full};

#[test]
fn full_history_drops_oldest() {
    let mut stats = vec![1u64, 2, 3];
    push_reading(&mut stats, 3, 4);
    assert_eq!(stats, vec![2, 3, 4]);
}

#[test]
fn short_history_grows() {
    let mut stats: Vec<u64> = Vec::new();
    push_reading(&mut stats, 3, 7);
    assert_eq!(stats, vec![7]);
    push_reading(&mut stats, 3, 8);
    push_reading(&mut stats, 3, 9);
    assert_eq!(stats, vec![7, 8, 9]);
    push_reading(&mut stats, 3, 10);
    assert_eq!(stats, vec![8, 9, 10]);
}

#[test]
fn full_window_keeps_latest_readings() {
    let mut stats = vec![0.0f32; 3];
    let readings = [1.5f32, 2.5, 3.5, 4.5, 5.5];
    for r in readings {
        push_reading(&mut stats, 3, r);
        assert_eq!(stats.len(), 3);
        assert_eq!(*stats.last().unwrap(), r);
    }
    assert_eq!(stats, vec![3.5, 4.5, 5.5]);
}

#[test]
fn plugin_history_rotates_only_when_full() {
    let mut stats = vec![1u64, 2];
    rotate_if_full(&mut stats, 3, 9);
    assert_eq!(stats, vec![1, 2]);
    let mut full = vec![1u64, 2, 3];
    rotate_if_full(&mut full, 3, 9);
    assert_eq!(full, vec![2, 3, 9]);
}

#[test]
fn plugin_history_of_one_reading_with_default_history_never_changes() {
    // A plugin starts with one reading and a history of 10: updates keep it as it is.
    let mut stats = vec![42u64];
    for v in 0..20u64 {
        rotate_if_full(&mut stats, 10, v);
    }
    assert_eq!(stats, vec![42]);
}

use streamduck::animation::AnimationCounter;

fn frame_after(delays: &[u32], t: u64) -> usize {
    let mut c = AnimationCounter::new(delays.to_vec(), 1000);
    c.step(1000 + t);
    c.get_frame()
}

#[test]
fn counter_index_is_first_frame_ending_after_looped_time() {
    let d = [100, 200, 100];
    assert_eq!(frame_after(&d, 1), 0);
    assert_eq!(frame_after(&d, 99), 0);
    assert_eq!(frame_after(&d, 100), 1);
    assert_eq!(frame_after(&d, 299), 1);
    assert_eq!(frame_after(&d, 300), 2);
    assert_eq!(frame_after(&d, 399), 2);
    assert_eq!(frame_after(&d, 400), 0);
    assert_eq!(frame_after(&d, 1234), 0);
    assert_eq!(frame_after(&d, 1334), 1);
}

#[test]
fn zero_delay_frames_are_skipped() {
    let d = [0, 50, 0, 50];
    assert_eq!(frame_after(&d, 10), 1);
    assert_eq!(frame_after(&d, 60), 3);
}

#[test]
fn counter_waits_for_wakeup_and_flags_new_frames() {
    let mut c = AnimationCounter::new(vec![100, 200, 100], 0);
    assert!(!c.has_new_frame());
    c.step(0);
    assert!(!c.has_new_frame());
    c.step(10);
    assert!(c.has_new_frame());
    assert_eq!(c.get_frame(), 0);
    c.step(50);
    assert!(!c.has_new_frame());
    assert_eq!(c.get_frame(), 0);
    c.step(111);
    assert!(c.has_new_frame());
    assert_eq!(c.get_frame(), 1);
    c.step(250);
    assert!(!c.has_new_frame());
    c.step(312);
    assert!(c.has_new_frame());
    assert_eq!(c.get_frame(), 2);
    c.step(413);
    assert_eq!(c.get_frame(), 0);
}

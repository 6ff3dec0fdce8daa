use dog_button::poll::{EdgeDetector, Level};

use Level::{High, Low};

#[test]
fn rising_edges_play_once_each() {
    let mut d = EdgeDetector::new(vec![7]);
    let levels = [Low, Low, High, High, Low, High];
    let mut played_at = Vec::new();
    for (i, level) in levels.iter().enumerate() {
        if d.observe(0, *level) {
            played_at.push(i);
        }
    }
    assert_eq!(played_at, vec![2, 5]);
}

#[test]
fn tick_plays_rising_lines_through_the_sequence() {
    let mut d = EdgeDetector::new(vec![7]);
    let levels = [Low, Low, High, High, Low, High];
    let mut plays = 0;
    for level in levels {
        plays += d.tick(&vec![Some(level)]).len();
    }
    assert_eq!(plays, 2);
}

#[test]
fn held_line_does_not_retrigger() {
    let mut d = EdgeDetector::new(vec![1]);
    assert_eq!(d.tick(&vec![Some(High)]), vec![1]);
    for _ in 0..50 {
        assert_eq!(d.tick(&vec![Some(High)]), Vec::<u16>::new());
    }
    assert_eq!(d.tick(&vec![Some(Low)]), Vec::<u16>::new());
    assert_eq!(d.tick(&vec![Some(High)]), vec![1]);
}

#[test]
fn two_lines_rising_in_one_tick_both_play() {
    let mut d = EdgeDetector::new(vec![4, 9, 12]);
    assert_eq!(d.tick(&vec![Some(High), Some(Low), Some(High)]), vec![4, 12]);
    assert_eq!(d.tick(&vec![Some(High), Some(High), Some(High)]), vec![9]);
}

#[test]
fn failed_read_keeps_the_line_state() {
    let mut d = EdgeDetector::new(vec![4, 9]);
    assert_eq!(d.tick(&vec![Some(High), None]), vec![4]);
    assert_eq!(d.tick(&vec![None, Some(High)]), vec![9]);
    assert_eq!(d.tick(&vec![Some(High), Some(High)]), Vec::<u16>::new());
    assert_eq!(d.tick(&vec![None, Some(Low)]), Vec::<u16>::new());
    assert_eq!(d.tick(&vec![Some(Low), Some(High)]), vec![9]);
}

#[test]
fn empty_detector_plays_nothing() {
    let mut d = EdgeDetector::new(Vec::new());
    assert_eq!(d.line_count(), 0);
    assert_eq!(d.tick(&Vec::new()), Vec::<u16>::new());
}

use utterance_capture::noise::NoiseFloor;
use utterance_capture::noise::MAX_HISTORY;

#[test]
fn noise_floor_rejects_what_it_cannot_hold() {
    assert!(NoiseFloor::new(0, 512).is_none());
    assert!(NoiseFloor::new(10, 0).is_none());
    assert!(NoiseFloor::new(MAX_HISTORY + 1, 512).is_none());
    assert!(NoiseFloor::new(MAX_HISTORY, 512).is_some());
    let floor = NoiseFloor::new(10, 512).unwrap();
    assert_eq!(floor.max_len(), 10);
    assert_eq!(floor.frame_length(), 512);
    assert_eq!(floor.len(), 0);
}

#[test]
fn level_of_one_frame_is_its_mean_amplitude() {
    let mut floor = NoiseFloor::new(10, 4).unwrap();
    let level = floor.observe(&vec![1, -2, 3, -4]);
    assert_eq!(level.numerator(), 10);
    assert_eq!(level.denominator(), 4);
}

#[test]
fn level_is_the_mean_over_the_history() {
    let mut floor = NoiseFloor::new(10, 2).unwrap();
    floor.observe(&vec![10, -10]);
    let level = floor.observe(&vec![30, -30]);
    assert_eq!(level.numerator(), 80);
    assert_eq!(level.denominator(), 4);
    let again = floor.level();
    assert_eq!(again.numerator(), 80);
    assert_eq!(again.denominator(), 4);
}

#[test]
fn history_never_exceeds_capacity() {
    let mut floor = NoiseFloor::new(3, 1).unwrap();
    let mut fed: usize = 0;
    while fed < 20 {
        floor.observe(&vec![fed as i16]);
        fed += 1;
        assert_eq!(floor.len(), if fed < 3 { fed } else { 3 });
    }
}

#[test]
fn full_history_evicts_the_oldest_first() {
    let mut floor = NoiseFloor::new(3, 1).unwrap();
    assert_eq!(floor.observe(&vec![1]).numerator(), 1);
    assert_eq!(floor.observe(&vec![10]).numerator(), 11);
    assert_eq!(floor.observe(&vec![100]).numerator(), 111);
    let fourth = floor.observe(&vec![1000]);
    assert_eq!(fourth.numerator(), 1110);
    assert_eq!(fourth.denominator(), 3);
    let fifth = floor.observe(&vec![-5]);
    assert_eq!(fifth.numerator(), 1105);
    assert_eq!(fifth.denominator(), 3);
}

#[test]
fn silence_gives_a_level_of_zero() {
    let mut floor = NoiseFloor::new(10, 512).unwrap();
    let level = floor.observe(&vec![0; 512]);
    assert_eq!(level.numerator(), 0);
    assert_eq!(level.denominator(), 512);
}

#[test]
fn loudest_history_stays_within_bounds() {
    let mut floor = NoiseFloor::new(2, 3).unwrap();
    floor.observe(&vec![i16::MIN; 3]);
    let level = floor.observe(&vec![i16::MIN; 3]);
    assert_eq!(level.numerator(), 6 * 32768);
    assert_eq!(level.denominator(), 6);
}

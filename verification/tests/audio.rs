use murmure::audio::{
    find_pause, floor_and_peak, frame_len, has_speech, lasts_at_least, quietest_point, snapshot,
    starts_with_speech, Meter,
};

fn bits(v: &[f32]) -> Vec<u32> {
    v.iter().map(|x| x.to_bits()).collect()
}

#[test]
fn frames_last_twenty_milliseconds() {
    assert_eq!(frame_len(16_000), 320);
    assert_eq!(frame_len(48_000), 960);
    assert_eq!(frame_len(99), 1);
    assert_eq!(frame_len(0), 1);
}

#[test]
fn durations_are_compared_exactly() {
    assert!(lasts_at_least(16_000, 16_000, 1_000));
    assert!(!lasts_at_least(15_999, 16_000, 1_000));
    assert!(lasts_at_least(5_600, 16_000, 350));
    assert!(!lasts_at_least(5_599, 16_000, 350));
}

#[test]
fn snapshots_begin_at_an_index() {
    assert_eq!(snapshot(&[1, 2, 3], 1), vec![2, 3]);
    assert_eq!(snapshot(&[1, 2, 3], 3), Vec::<i32>::new());
    assert_eq!(snapshot(&[1, 2, 3], 9), Vec::<i32>::new());
}

#[test]
fn levels_are_reported_twenty_times_a_second() {
    let half = 0.5f32.to_bits();
    let mut meter = Meter::new();
    assert_eq!(meter.offer(49, half), None);
    assert_eq!(meter.offer(1_000, half), Some(half));
    assert_eq!(meter.offer(1_049, half), None);
    assert_eq!(meter.offer(1_050, half), Some(half));
    // The clock may go back.
    assert_eq!(meter.offer(10, half), None);
}

#[test]
fn reported_levels_are_at_most_one() {
    let one = 1.0f32.to_bits();
    for level in [1.0f32, 1.5, f32::INFINITY, f32::NAN] {
        assert_eq!(Meter::new().offer(1_000, level.to_bits()), Some(one));
    }
    assert_eq!(Meter::new().offer(1_000, 0), Some(0));
    let below = 0.999f32.to_bits();
    assert_eq!(Meter::new().offer(1_000, below), Some(below));
}

#[test]
fn floor_and_peak_are_read_off_the_sorted_levels() {
    let levels = bits(&[0.9, 0.1, 0.8, 0.2, 0.7, 0.3, 0.6, 0.4, 0.5, 1.0]);
    let (floor, peak) = floor_and_peak(&levels);
    assert_eq!(f32::from_bits(floor), 0.3);
    assert_eq!(f32::from_bits(peak), 1.0);
    let (floor, peak) = floor_and_peak(&bits(&[0.25]));
    assert_eq!((f32::from_bits(floor), f32::from_bits(peak)), (0.25, 0.25));
}

#[test]
fn the_last_pause_is_found_in_its_middle() {
    // 1 s of speech, 600 ms of silence, 1 s of speech, 600 ms of silence, 200 ms
    // of speech, at 16 kHz: frames of 320 samples.
    let mut levels = vec![0.3f32; 50];
    levels.extend(vec![0.001; 30]);
    levels.extend(vec![0.3; 50]);
    levels.extend(vec![0.001; 30]);
    levels.extend(vec![0.3; 10]);
    let levels = bits(&levels);
    let threshold = 0.01f32.to_bits();
    assert_eq!(find_pause(&levels, threshold, 16_000, 550, 1_500), Some(145 * 320));
    // The same with the earliest middle behind the last pause.
    assert_eq!(find_pause(&levels, threshold, 16_000, 550, 3_000), None);
    // A pause of 620 ms is longer than both.
    assert_eq!(find_pause(&levels, threshold, 16_000, 620, 0), None);
}

#[test]
fn pauses_last_long_enough() {
    let levels = bits(&[0.3, 0.3, 0.3, 0.3, 0.001, 0.001, 0.3, 0.3, 0.3, 0.3]);
    let threshold = 0.01f32.to_bits();
    assert_eq!(find_pause(&levels, threshold, 50, 40, 0), Some(5));
    assert_eq!(find_pause(&levels, threshold, 50, 41, 0), None);
    assert_eq!(find_pause(&levels, threshold, 50, 50, 0), None);
}

#[test]
fn short_signals_have_no_pause() {
    let levels = bits(&[0.001; 9]);
    assert_eq!(find_pause(&levels, 0.01f32.to_bits(), 16_000, 20, 0), None);
    let levels = bits(&[0.001; 10]);
    assert_eq!(find_pause(&levels, 0.01f32.to_bits(), 16_000, 20, 0), Some(5 * 320));
}

#[test]
fn the_quietest_frame_is_the_first_of_its_level() {
    let levels = bits(&[0.0, 0.5, 0.2, 0.4, 0.2, 0.6]);
    // 80 ms are the last four frames.
    assert_eq!(quietest_point(&levels, 16_000, 80), 2 * 320);
    // A longer window holds all the frames.
    assert_eq!(quietest_point(&levels, 16_000, 4_000), 0);
    assert_eq!(quietest_point(&bits(&[0.0, 1.0]), 50, 4_000), 0);
    assert_eq!(quietest_point(&bits(&[1.0, 0.0]), 50, 4_000), 1);
    // One frame is the least there is in a window.
    assert_eq!(quietest_point(&levels, 16_000, 0), 5 * 320);
    assert_eq!(quietest_point(&bits(&[0.5]), 16_000, 4_000), 0);
    // Levels without a number are never the quietest.
    assert_eq!(quietest_point(&bits(&[0.1, f32::NAN, 0.3]), 16_000, 40), 2 * 320);
}

#[test]
fn speech_is_loud_for_long_enough() {
    let samples = bits(&[0.0, -0.05, 0.01]);
    assert!(has_speech(&samples, &bits(&[0.013; 7])));
    assert!(!has_speech(&samples, &bits(&[0.013; 6])));
    assert!(!has_speech(&samples, &bits(&[0.012; 20])));
    assert!(!has_speech(&bits(&[0.04, -0.04]), &bits(&[0.5; 20])));
    assert!(!has_speech(&Vec::new(), &Vec::new()));
}

#[test]
fn speech_can_be_looked_for_at_the_start() {
    let samples = bits(&[0.0, 0.0, 0.9]);
    let levels = bits(&[0.5; 10]);
    assert!(starts_with_speech(&samples, 3, &levels, 10));
    assert!(!starts_with_speech(&samples, 2, &levels, 10));
    assert!(!starts_with_speech(&samples, 3, &levels, 6));
}

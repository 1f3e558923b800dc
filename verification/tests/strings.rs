use guitar_synth::excitation::draw_excitation;
use guitar_synth::guitar_string::{GuitarString, SAMPLE_RATE, SAMPLE_RATE_MILLIS};
use guitar_synth::sample::{decayed_average_of, DECAY_DENOMINATOR, DECAY_NUMERATOR, HALF, UNIT};

fn line_of(values: &[i64]) -> GuitarString {
    let mut string = GuitarString::new(SAMPLE_RATE_MILLIS / values.len() as u64);
    assert_eq!(string.len(), values.len());
    string.excite(&values.to_vec());
    string
}

#[test]
fn constants_of_the_model() {
    assert_eq!(SAMPLE_RATE, 44100);
    assert_eq!(SAMPLE_RATE_MILLIS, 44_100_000);
    assert_eq!(UNIT, 1 << 48);
    assert_eq!(HALF, 1 << 47);
    assert_eq!(DECAY_NUMERATOR, 249);
    assert_eq!(DECAY_DENOMINATOR, 250);
}

#[test]
fn new_string_holds_rate_over_frequency_zeros() {
    let concert_a = GuitarString::new(440_000);
    assert_eq!(concert_a.len(), 100);
    assert_eq!(concert_a.samples(), vec![0i64; 100]);
    let low = GuitarString::new(110_000);
    assert_eq!(low.len(), 400);
    assert_eq!(low.samples(), vec![0i64; 400]);
    let between = GuitarString::new(116_541);
    assert_eq!(between.len(), 378);
    assert_eq!(between.samples(), vec![0i64; 378]);
}

#[test]
fn new_string_rounds_its_length_down() {
    assert_eq!(GuitarString::new(441_000).len(), 100);
    assert_eq!(GuitarString::new(441_001).len(), 99);
    assert_eq!(GuitarString::new(44_100_000).len(), 1);
    assert_eq!(GuitarString::new(22_050_001).len(), 1);
    assert_eq!(GuitarString::new(22_050_000).len(), 2);
}

#[test]
fn unplucked_string_is_silent_before_any_tic() {
    let string = GuitarString::new(440_000);
    assert_eq!(string.sample(), 0);
}

#[test]
fn unplucked_string_stays_silent() {
    let mut string = GuitarString::new(880_000);
    for _ in 0..1000 {
        string.tic();
        assert_eq!(string.sample(), 0);
    }
    assert_eq!(string.samples(), vec![0i64; 50]);
}

#[test]
fn pluck_keeps_length_and_range() {
    let mut string = GuitarString::new(110_000);
    string.pluck();
    assert_eq!(string.len(), 400);
    let samples = string.samples();
    assert_eq!(samples.len(), 400);
    for sample in samples {
        assert!(-HALF <= sample && sample <= HALF);
    }
}

#[test]
fn pluck_draws_each_sample_anew() {
    let mut string = GuitarString::new(110_000);
    string.pluck();
    let first = string.samples();
    assert!(first.iter().any(|sample| *sample != first[0]));
    assert!(first.iter().any(|sample| *sample != -HALF));
    assert!(first.iter().any(|sample| *sample != HALF));
    string.pluck();
    assert_ne!(string.samples(), first);
}

#[test]
fn pluck_discards_what_was_there() {
    let mut string = line_of(&[HALF, HALF, HALF, HALF, HALF, HALF, HALF, HALF]);
    string.pluck();
    assert_ne!(string.samples(), vec![HALF; 8]);
}

#[test]
fn sample_after_pluck_is_the_first_slot() {
    let mut string = GuitarString::new(440_000);
    string.pluck();
    assert_eq!(string.sample(), string.samples()[0]);
}

#[test]
fn drawn_excitation_has_the_count_asked_for() {
    assert_eq!(draw_excitation(0).len(), 0);
    let values = draw_excitation(1000);
    assert_eq!(values.len(), 1000);
    assert!(values.iter().all(|value| -HALF <= *value && *value <= HALF));
    assert!(values.iter().any(|value| *value != values[0]));
}

#[test]
fn excite_overwrites_the_line() {
    let string = line_of(&[5, -4, 3, -2]);
    assert_eq!(string.samples(), vec![5, -4, 3, -2]);
    assert_eq!(string.sample(), 5);
    assert_eq!(string.len(), 4);
}

#[test]
fn decayed_average_rounds_toward_zero() {
    assert_eq!(decayed_average_of(1000, 500), 747);
    assert_eq!(decayed_average_of(-1000, -500), -747);
    assert_eq!(decayed_average_of(3, 0), 1);
    assert_eq!(decayed_average_of(-3, 0), -1);
    assert_eq!(decayed_average_of(1, 0), 0);
    assert_eq!(decayed_average_of(-1, 0), 0);
    assert_eq!(decayed_average_of(0, 0), 0);
}

#[test]
fn decayed_average_at_the_edges() {
    assert_eq!(decayed_average_of(HALF, HALF), 140_174_538_401_906);
    assert_eq!(decayed_average_of(-HALF, -HALF), -140_174_538_401_906);
    assert_eq!(decayed_average_of(HALF, -HALF), 0);
    assert_eq!(decayed_average_of(HALF, 0), 70_087_269_200_953);
}

#[test]
fn tic_drops_the_oldest_and_appends_the_decayed_mean() {
    let mut string = line_of(&[1000, 500, -200, 0]);
    string.tic();
    assert_eq!(string.samples(), vec![500, -200, 0, 747]);
    assert_eq!(string.sample(), 500);
    string.tic();
    assert_eq!(string.samples(), vec![-200, 0, 747, 149]);
    string.tic();
    assert_eq!(string.samples(), vec![0, 747, 149, -99]);
    string.tic();
    assert_eq!(string.samples(), vec![747, 149, -99, 372]);
    string.tic();
    assert_eq!(string.samples(), vec![149, -99, 372, 446]);
    assert_eq!(string.len(), 4);
}

#[test]
fn tic_on_one_slot_averages_the_sample_with_itself() {
    let mut string = line_of(&[1000]);
    string.tic();
    assert_eq!(string.samples(), vec![996]);
    string.tic();
    assert_eq!(string.samples(), vec![992]);
}

#[test]
fn sample_does_not_change_the_string() {
    let string = line_of(&[7, 8, 9]);
    assert_eq!(string.sample(), 7);
    assert_eq!(string.sample(), 7);
    assert_eq!(string.samples(), vec![7, 8, 9]);
}

#[test]
fn a_pass_never_raises_the_peak() {
    let mut string = line_of(&[500, -300, 200]);
    let mut peak: i64 = 500;
    let expected: [i64; 10] = [148, 85, 66, 62, 57, 55, 54, 53, 52, 51];
    for pass in 0..10 {
        for _ in 0..3 {
            string.tic();
        }
        let now = string.samples().iter().map(|sample| sample.abs()).max().unwrap();
        assert_eq!(now, expected[pass]);
        assert!(now <= peak * 249 / 250);
        peak = now;
    }
}

#[test]
fn a_string_left_alone_falls_silent() {
    let mut string = line_of(&[500, -300, 200]);
    for _ in 0..181 {
        string.tic();
    }
    assert_ne!(string.samples(), vec![0, 0, 0]);
    string.tic();
    assert_eq!(string.samples(), vec![0, 0, 0]);
    for _ in 0..100 {
        string.tic();
        assert_eq!(string.sample(), 0);
    }
}

#[test]
fn output_after_many_passes_is_below_the_first_output() {
    let mut string = line_of(&[500, -300, 200]);
    let first = string.sample().abs();
    for _ in 0..(500 * 3) {
        string.tic();
    }
    assert!(string.sample().abs() < first);
}

#[test]
fn plucked_string_never_leaves_the_range() {
    let mut string = GuitarString::new(880_000);
    string.pluck();
    for _ in 0..5000 {
        string.tic();
        let level = string.sample();
        assert!(-HALF <= level && level <= HALF);
    }
}

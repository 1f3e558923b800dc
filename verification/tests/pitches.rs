use guitar_synth::engine::string_length;
use guitar_synth::pitch::{pitch_frequency, CONCERT_A, CONCERT_A_PITCH};

#[test]
fn concert_a_is_string_24() {
    assert_eq!(CONCERT_A, 440);
    assert_eq!(CONCERT_A_PITCH, 24);
    assert_eq!(pitch_frequency(24), 440_000);
}

#[test]
fn octaves_double_the_frequency() {
    assert_eq!(pitch_frequency(0), 110_000);
    assert_eq!(pitch_frequency(12), 220_000);
    assert_eq!(pitch_frequency(36), 880_000);
}

#[test]
fn semitones_are_equal_tempered() {
    let expected: [u64; 37] = [
        110000, 116541, 123471, 130813, 138591, 146832, 155563, 164814, 174614, 184997, 195998,
        207652, 220000, 233082, 246942, 261626, 277183, 293665, 311127, 329628, 349228, 369994,
        391995, 415305, 440000, 466164, 493883, 523251, 554365, 587330, 622254, 659255, 698456,
        739989, 783991, 830609, 880000,
    ];
    for pitch in 0..37 {
        assert_eq!(pitch_frequency(pitch), expected[pitch]);
    }
}

#[test]
fn frequencies_are_nearest_to_the_tempered_ones() {
    for pitch in 0..37usize {
        let exact = 440_000.0 * 2.0f64.powf((pitch as f64 - 24.0) / 12.0);
        let table = pitch_frequency(pitch) as f64;
        assert!((table - exact).abs() <= 0.5);
    }
}

#[test]
fn string_lengths_are_rate_over_frequency() {
    let expected: [usize; 37] = [
        400, 378, 357, 337, 318, 300, 283, 267, 252, 238, 225, 212, 200, 189, 178, 168, 159, 150,
        141, 133, 126, 119, 112, 106, 100, 94, 89, 84, 79, 75, 70, 66, 63, 59, 56, 53, 50,
    ];
    for pitch in 0..37usize {
        assert_eq!(string_length(pitch), expected[pitch]);
        let frequency = 440.0 * 2.0f64.powf((pitch as f64 - 24.0) / 12.0);
        assert_eq!(string_length(pitch), (44100.0 / frequency) as usize);
    }
}

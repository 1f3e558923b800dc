use guitar_synth::engine::{
    render, render_with, string_length, ticks_due, Frame, SynthesisEngine, NANOS_PER_SECOND,
};
use guitar_synth::guitar_string::GuitarString;
use guitar_synth::pitch::pitch_frequency;
use guitar_synth::sample::HALF;
use guitar_synth::score::{ScoreError, ScoreEvent, END_OF_SONG};

fn event(time: i64, pitch: i32) -> ScoreEvent {
    ScoreEvent { time, pitch }
}

/// A fixed excitation for string `pitch`: a ramp that differs from string to string.
fn ramp(pitch: usize) -> Vec<i64> {
    let length = string_length(pitch) as i64;
    (0..length).map(|i| (i - length / 2) * 1_000_003 + pitch as i64).collect()
}

fn ramps_for(score: &Vec<ScoreEvent>) -> Vec<Vec<i64>> {
    score
        .iter()
        .map(|e| if 0 <= e.pitch && e.pitch < 37 { ramp(e.pitch as usize) } else { Vec::new() })
        .collect()
}

#[test]
fn ticks_due_counts_the_ticks_that_start_before_a_time() {
    assert_eq!(NANOS_PER_SECOND, 1_000_000_000);
    assert_eq!(ticks_due(0), 0);
    assert_eq!(ticks_due(-5), 0);
    assert_eq!(ticks_due(1), 1);
    assert_eq!(ticks_due(22_675), 1);
    assert_eq!(ticks_due(22_676), 2);
    assert_eq!(ticks_due(1_000_000), 45);
    assert_eq!(ticks_due(1_000_000_000), 44_100);
    assert_eq!(ticks_due(1_000_000_001), 44_101);
    assert_eq!(ticks_due(i64::MAX), 406_750_706_825_296);
    assert_eq!(ticks_due(i64::MIN), 0);
}

#[test]
fn new_engine_has_one_silent_string_per_pitch() {
    let engine = SynthesisEngine::new();
    assert_eq!(engine.clock(), 0);
    assert!(!engine.is_finished());
    for pitch in 0..37usize {
        let string = engine.string(pitch);
        assert_eq!(string.len(), (44_100_000 / pitch_frequency(pitch)) as usize);
        assert_eq!(string.len(), string_length(pitch));
        assert_eq!(string.samples(), vec![0i64; string.len()]);
    }
    assert_eq!(engine.string(0).len(), 400);
    assert_eq!(engine.string(24).len(), 100);
    assert_eq!(engine.string(36).len(), 50);
}

#[test]
fn out_of_order_score_is_rejected_before_any_tick() {
    let score = vec![event(0, 5), event(-100_000_000, 3)];
    assert_eq!(render(&score), Err(ScoreError::OutOfOrder));

    let mut engine = SynthesisEngine::new();
    assert_eq!(engine.advance(event(0, 5)), Ok(vec![]));
    let plucked = engine.string(5).samples();
    assert_eq!(engine.advance(event(-100_000_000, 3)), Err(ScoreError::OutOfOrder));
    assert_eq!(engine.clock(), 0);
    assert!(!engine.is_finished());
    assert_eq!(engine.string(5).samples(), plucked);
    assert_eq!(engine.string(3).samples(), vec![0i64; string_length(3)]);
}

#[test]
fn out_of_order_event_later_in_the_score_is_rejected() {
    let score = vec![event(0, 5), event(2_000_000, 6), event(1_999_999, 7), event(3_000_000, -1)];
    assert_eq!(render(&score), Err(ScoreError::OutOfOrder));
    assert_eq!(render_with(&score, &ramps_for(&score)), Err(ScoreError::OutOfOrder));
}

#[test]
fn pitch_37_is_rejected() {
    let score = vec![event(0, 37), event(0, -1)];
    assert_eq!(render(&score), Err(ScoreError::PitchRange));
    let score = vec![event(0, 0), event(1_000_000, 37), event(2_000_000, -1)];
    assert_eq!(render(&score), Err(ScoreError::PitchRange));
}

#[test]
fn pitch_minus_two_is_rejected() {
    let score = vec![event(0, -2)];
    assert_eq!(render(&score), Err(ScoreError::PitchRange));
    let score = vec![event(0, 36), event(0, -2), event(0, -1)];
    assert_eq!(render(&score), Err(ScoreError::PitchRange));
}

#[test]
fn first_event_before_time_zero_is_out_of_order() {
    let score = vec![event(-1, 0)];
    assert_eq!(render(&score), Err(ScoreError::OutOfOrder));
}

#[test]
fn events_after_the_end_marker_are_not_read() {
    let score = vec![event(0, 0), event(0, -1), event(-5, 99)];
    assert_eq!(render(&score), Ok(vec![]));
}

#[test]
fn pluck_and_end_at_time_zero_emit_nothing() {
    let score = vec![event(0, 0), event(0, -1)];
    assert_eq!(render(&score), Ok(vec![]));
    assert_eq!(render_with(&score, &ramps_for(&score)), Ok(vec![]));
}

#[test]
fn empty_score_emits_nothing() {
    assert_eq!(render(&vec![]), Ok(vec![]));
    assert_eq!(render_with(&vec![], &vec![]), Ok(vec![]));
}

#[test]
fn end_marker_alone_plays_silence_up_to_its_time() {
    let frames = render(&vec![event(1_000_000, END_OF_SONG)]).unwrap();
    assert_eq!(frames.len(), 45);
    for (index, frame) in frames.iter().enumerate() {
        assert_eq!(*frame, Frame { tick: index as u64, level: 0 });
    }
}

#[test]
fn score_without_end_marker_ends_with_its_last_event() {
    let frames = render(&vec![event(0, 0), event(500_000, 1)]).unwrap();
    assert_eq!(frames.len(), 23);
}

#[test]
fn one_millisecond_of_one_string() {
    let score = vec![event(0, 0), event(1_000_000, -1)];
    let frames = render_with(&score, &ramps_for(&score)).unwrap();
    assert_eq!(frames.len(), 45);

    let mut string = GuitarString::new(pitch_frequency(0));
    string.excite(&ramp(0));
    for (index, frame) in frames.iter().enumerate() {
        string.tic();
        assert_eq!(frame.tick, index as u64);
        assert_eq!(frame.level, string.sample());
    }
    assert_eq!(frames[0].level, ramp(0)[1]);
    assert_eq!(frames[0].level, -199_000_597);
}

#[test]
fn one_millisecond_plucked_at_random() {
    let score = vec![event(0, 0), event(1_000_000, -1)];
    let frames = render(&score).unwrap();
    assert_eq!(frames.len(), 45);
    for (index, frame) in frames.iter().enumerate() {
        assert_eq!(frame.tick, index as u64);
        assert!(-HALF <= frame.level && frame.level <= HALF);
    }
    assert!(frames.iter().any(|frame| frame.level != 0));
}

#[test]
fn simultaneous_plucks_are_both_applied_before_the_end() {
    let score = vec![event(0, 0), event(0, 1), event(0, -1)];
    assert_eq!(render(&score), Ok(vec![]));
    assert_eq!(render_with(&score, &ramps_for(&score)), Ok(vec![]));

    let mut engine = SynthesisEngine::new();
    assert_eq!(engine.advance_with(event(0, 0), &ramp(0)), Ok(vec![]));
    assert_eq!(engine.advance_with(event(0, 1), &ramp(1)), Ok(vec![]));
    assert_eq!(engine.string(0).samples(), ramp(0));
    assert_eq!(engine.string(1).samples(), ramp(1));
    assert_eq!(engine.advance_with(event(0, -1), &vec![]), Ok(vec![]));
    assert!(engine.is_finished());
    assert_eq!(engine.clock(), 0);
    assert_eq!(engine.string(0).samples(), ramp(0));
    assert_eq!(engine.string(1).samples(), ramp(1));
    assert_eq!(engine.string(2).samples(), vec![0i64; string_length(2)]);
}

#[test]
fn simultaneous_plucks_sound_from_the_same_tick() {
    let score = vec![event(0, 0), event(0, 1), event(100_000, -1)];
    let frames = render_with(&score, &ramps_for(&score)).unwrap();
    assert_eq!(frames.len(), 5);
    let mut low = GuitarString::new(pitch_frequency(0));
    let mut high = GuitarString::new(pitch_frequency(1));
    low.excite(&ramp(0));
    high.excite(&ramp(1));
    for frame in frames {
        low.tic();
        high.tic();
        assert_eq!(frame.level, low.sample() + high.sample());
    }
}

#[test]
fn same_score_and_samples_give_the_same_frames() {
    let score = vec![
        event(0, 0),
        event(1_000_000, 24),
        event(2_500_000, 36),
        event(4_000_000, 0),
        event(10_000_000, -1),
    ];
    let excitations = ramps_for(&score);
    let first = render_with(&score, &excitations);
    let second = render_with(&score, &excitations);
    assert_eq!(first, second);
    let frames = first.unwrap();
    assert_eq!(frames.len(), 441);
    assert!(frames.iter().any(|frame| frame.level != 0));
}

#[test]
fn later_pluck_replaces_a_sounding_string() {
    let score = vec![event(0, 3), event(1_000_000, 3), event(2_000_000, -1)];
    let frames = render_with(&score, &ramps_for(&score)).unwrap();
    assert_eq!(frames.len(), 89);
    let mut string = GuitarString::new(pitch_frequency(3));
    string.excite(&ramp(3));
    for frame in &frames[..45] {
        string.tic();
        assert_eq!(frame.level, string.sample());
    }
    string.excite(&ramp(3));
    for frame in &frames[45..] {
        string.tic();
        assert_eq!(frame.level, string.sample());
    }
}

#[test]
fn frames_are_numbered_from_zero_without_gaps() {
    let score = vec![event(300_000, 10), event(300_000, 11), event(1_000_000, 12), event(3_000_000, -1)];
    let frames = render(&score).unwrap();
    assert_eq!(frames.len(), 133);
    for (index, frame) in frames.iter().enumerate() {
        assert_eq!(frame.tick, index as u64);
        assert!(-37 * HALF <= frame.level && frame.level <= 37 * HALF);
    }
    for frame in &frames[..14] {
        assert_eq!(frame.level, 0);
    }
}

#[test]
fn advance_emits_the_frames_up_to_each_event() {
    let mut engine = SynthesisEngine::new();
    assert_eq!(engine.advance(event(0, 0)).unwrap().len(), 0);
    assert_eq!(engine.clock(), 0);
    let frames = engine.advance(event(1_000_000, 1)).unwrap();
    assert_eq!(frames.len(), 45);
    assert_eq!(frames[0].tick, 0);
    assert_eq!(frames[44].tick, 44);
    assert_eq!(engine.clock(), 45);
    let frames = engine.advance(event(1_000_000, 2)).unwrap();
    assert_eq!(frames.len(), 0);
    let frames = engine.advance(event(2_000_000, -1)).unwrap();
    assert_eq!(frames.len(), 44);
    assert_eq!(frames[0].tick, 45);
    assert_eq!(frames[43].tick, 88);
    assert_eq!(engine.clock(), 89);
    assert!(engine.is_finished());
}

#[test]
fn finished_engine_ignores_further_events() {
    let mut engine = SynthesisEngine::new();
    assert_eq!(engine.advance(event(0, -1)), Ok(vec![]));
    assert!(engine.is_finished());
    assert_eq!(engine.advance(event(5_000_000, 3)), Ok(vec![]));
    assert_eq!(engine.advance(event(-1, 99)), Ok(vec![]));
    assert_eq!(engine.clock(), 0);
    assert_eq!(engine.string(3).samples(), vec![0i64; string_length(3)]);
}

#[test]
fn rejected_event_leaves_the_engine_as_it_was() {
    let mut engine = SynthesisEngine::new();
    assert_eq!(engine.advance_with(event(1_000_000, 4), &ramp(4)).unwrap().len(), 45);
    assert_eq!(engine.advance(event(9_000_000, 40)), Err(ScoreError::PitchRange));
    assert_eq!(engine.clock(), 45);
    assert_eq!(engine.string(4).samples(), ramp(4));
    assert_eq!(engine.advance(event(1_000_000, -1)), Ok(vec![]));
    assert!(engine.is_finished());
}

#[test]
fn random_pluck_fills_the_plucked_string_only() {
    let mut engine = SynthesisEngine::new();
    assert_eq!(engine.advance(event(0, 7)), Ok(vec![]));
    let plucked = engine.string(7).samples();
    assert_eq!(plucked.len(), string_length(7));
    assert!(plucked.iter().all(|sample| -HALF <= *sample && *sample <= HALF));
    assert!(plucked.iter().any(|sample| *sample != 0));
    for pitch in 0..37usize {
        if pitch != 7 {
            assert_eq!(engine.string(pitch).samples(), vec![0i64; string_length(pitch)]);
        }
    }
}

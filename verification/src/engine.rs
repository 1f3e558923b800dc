//! The engine: thirty-seven strings driven by one sample clock and a score.
//!
//! The clock counts ticks of `1 / 44100` second. An event is due at the first
//! tick that does not start before the event's time. Before an event is
//! applied the engine ticks up to that point, one frame per tick; events that
//! share a time are therefore all applied before the next frame is mixed.

use crate::excitation::draw_excitation;
use crate::guitar_string::{
    is_excitation, silence, ticked, ticked_stays_in_range, GuitarString, SAMPLE_RATE,
    SAMPLE_RATE_MILLIS,
};
use crate::pitch::{pitch_frequency, pitch_length, pitch_millihertz};
use crate::sample::HALF;
use crate::score::{validate_line, validated, ScoreError, ScoreEvent, END_OF_SONG, NUM_STRINGS};
use itertools::Itertools;
use vstd::prelude::*;

verus! {

/// Nanoseconds in a second: the unit of score times.
pub const NANOS_PER_SECOND: i64 = 1_000_000_000;

/// One mixed sample: the sum of all strings' outputs at tick number `tick`.
#[derive(Clone, Copy, Debug, PartialEq, Eq, Structural)]
pub struct Frame {
    pub tick: u64,
    pub level: i64,
}

/// What an engine is made of.
pub struct EngineState {
    /// The delay line of every string, oldest sample first.
    pub strings: Seq<Seq<i64>>,
    /// Ticks performed so far.
    pub clock: int,
    /// Time of the last accepted event.
    pub previous_time: int,
    /// Whether the end of the song has been reached.
    pub finished: bool,
}

/// Number of ticks that start before `time`: tick `k` starts `k / 44100`
/// seconds into the song.
pub open spec fn ticks_before(time: int) -> int {
    if time <= 0 {
        0
    } else {
        (time * SAMPLE_RATE + NANOS_PER_SECOND - 1) / (NANOS_PER_SECOND as int)
    }
}

/// Every string one step later.
pub open spec fn all_ticked(strings: Seq<Seq<i64>>) -> Seq<Seq<i64>> {
    Seq::new(strings.len(), |pitch: int| ticked(strings[pitch]))
}

/// Every string `count` steps later.
pub open spec fn all_ticked_times(strings: Seq<Seq<i64>>, count: nat) -> Seq<Seq<i64>>
    decreases count,
{
    if count == 0 {
        strings
    } else {
        all_ticked(all_ticked_times(strings, (count - 1) as nat))
    }
}

/// Sum of the outputs of the first `count` strings.
pub open spec fn mixed_prefix(strings: Seq<Seq<i64>>, count: nat) -> int
    decreases count,
{
    if count == 0 {
        0
    } else {
        mixed_prefix(strings, (count - 1) as nat) + strings[count - 1][0]
    }
}

/// Sum of the outputs of all strings.
pub open spec fn mixed(strings: Seq<Seq<i64>>) -> int {
    mixed_prefix(strings, strings.len())
}

/// The frame with index `index` among those emitted from `state` on: the
/// strings are stepped once more than frames came before it, then mixed.
pub open spec fn frame_at(state: EngineState, index: int) -> Frame {
    Frame {
        tick: (state.clock + index) as u64,
        level: mixed(all_ticked_times(state.strings, (index + 1) as nat)) as i64,
    }
}

/// Number of ticks from `state` up to an event at `time`.
pub open spec fn ticks_until(state: EngineState, time: int) -> nat {
    if ticks_before(time) > state.clock {
        (ticks_before(time) - state.clock) as nat
    } else {
        0
    }
}

/// Whether `event` reaches a running engine in order and with a string's
/// number, so that a string is plucked.
pub open spec fn plucks(state: EngineState, event: ScoreEvent) -> bool {
    &&& !state.finished
    &&& validated(state.previous_time, event.time as int, event.pitch as int) is Ok
    &&& event.pitch != END_OF_SONG
}

/// Whether `excitation` can replace the string that `event` plucks, if it
/// plucks one.
pub open spec fn fits(state: EngineState, event: ScoreEvent, excitation: Seq<i64>) -> bool {
    plucks(state, event) ==> {
        &&& excitation.len() == state.strings[event.pitch as int].len()
        &&& is_excitation(excitation)
    }
}

/// What the engine emits when `event` arrives in `state`. A finished engine
/// ignores the event. Otherwise the event is checked, and if it passes, the
/// frames of all ticks that start before its time are emitted.
pub open spec fn emitted(state: EngineState, event: ScoreEvent) -> Result<Seq<Frame>, ScoreError> {
    if state.finished {
        Ok(Seq::empty())
    } else {
        match validated(state.previous_time, event.time as int, event.pitch as int) {
            Err(error) => Err(error),
            Ok(_) => Ok(Seq::new(ticks_until(state, event.time as int), |i: int| frame_at(state, i))),
        }
    }
}

/// The engine after `event` arrived in `state`. A finished engine and a
/// rejected event leave the state as it is. Otherwise the strings are stepped
/// up to the event's time; then the end marker finishes the engine, and any
/// other event replaces its string by `excitation`.
pub open spec fn advanced(state: EngineState, event: ScoreEvent, excitation: Seq<i64>) -> EngineState {
    if state.finished || validated(state.previous_time, event.time as int, event.pitch as int)
        is Err {
        state
    } else {
        let count = ticks_until(state, event.time as int);
        let strings = all_ticked_times(state.strings, count);
        EngineState {
            strings: if event.pitch == END_OF_SONG {
                strings
            } else {
                strings.update(event.pitch as int, excitation)
            },
            clock: state.clock + count,
            previous_time: event.time as int,
            finished: event.pitch == END_OF_SONG,
        }
    }
}

/// The engine before the first event: all strings silent, the clock at zero.
pub open spec fn initial_state() -> EngineState {
    EngineState {
        strings: Seq::new(NUM_STRINGS as nat, |pitch: int| silence(pitch_length(pitch))),
        clock: 0,
        previous_time: 0,
        finished: false,
    }
}

/// Whether `strings` are the engine's strings in some state of play: one per
/// pitch, each of its pitch's length, no sample beyond one half.
pub open spec fn are_strings(strings: Seq<Seq<i64>>) -> bool {
    &&& strings.len() == NUM_STRINGS
    &&& forall|pitch: int|
        0 <= pitch < NUM_STRINGS ==> {
            &&& (#[trigger] strings[pitch]).len() == pitch_length(pitch)
            &&& is_excitation(strings[pitch])
        }
}

/// Whether `state` is a state an engine can be in: the clock stands at the
/// tick at which the last accepted event was due.
pub open spec fn is_engine_state(state: EngineState) -> bool {
    &&& are_strings(state.strings)
    &&& state.previous_time >= 0
    &&& state.clock == ticks_before(state.previous_time)
}

/// A result with the frames it holds seen as a sequence.
pub open spec fn frames_of(result: Result<Vec<Frame>, ScoreError>) -> Result<
    Seq<Frame>,
    ScoreError,
> {
    match result {
        Ok(frames) => Ok(frames@),
        Err(error) => Err(error),
    }
}

/// `done` followed by what `rest` holds, or the error in `rest`.
pub open spec fn continued(done: Seq<Frame>, rest: Result<Seq<Frame>, ScoreError>) -> Result<
    Seq<Frame>,
    ScoreError,
> {
    match rest {
        Ok(frames) => Ok(done + frames),
        Err(error) => Err(error),
    }
}

/// Whether `excitations` holds, for every event of `score` that names a
/// string, samples that can replace that string.
pub open spec fn excitations_fit(score: Seq<ScoreEvent>, excitations: Seq<Seq<i64>>) -> bool {
    &&& excitations.len() == score.len()
    &&& forall|i: int|
        0 <= i < score.len() && 0 <= score[i].pitch < NUM_STRINGS ==> {
            &&& (#[trigger] excitations[i]).len() == pitch_length(score[i].pitch as int)
            &&& is_excitation(excitations[i])
        }
}

/// What an engine in `state` emits for the events of `score` from index
/// `from` on, where event `i` plucks with `excitations[i]`: the frames of
/// event after event, up to the end marker or the end of the score, or the
/// error of the first event that is rejected.
pub open spec fn rendered(
    state: EngineState,
    score: Seq<ScoreEvent>,
    excitations: Seq<Seq<i64>>,
    from: nat,
) -> Result<Seq<Frame>, ScoreError>
    decreases score.len() - from,
{
    if from >= score.len() || state.finished {
        Ok(Seq::empty())
    } else {
        match emitted(state, score[from as int]) {
            Err(error) => Err(error),
            Ok(frames) => continued(
                frames,
                rendered(
                    advanced(state, score[from as int], excitations[from as int]),
                    score,
                    excitations,
                    from + 1,
                ),
            ),
        }
    }
}

/// The time at which the events of `score` from index `from` on end the
/// song, when the event before them was accepted at `previous_time`: the time
/// of the end marker, or of the last event if there is no end marker; or the
/// error of the first event that is out of order or names no string.
pub open spec fn score_end(score: Seq<ScoreEvent>, from: nat, previous_time: int) -> Result<
    int,
    ScoreError,
>
    decreases score.len() - from,
{
    if from >= score.len() {
        Ok(previous_time)
    } else {
        let event = score[from as int];
        match validated(previous_time, event.time as int, event.pitch as int) {
            Err(error) => Err(error),
            Ok(_) => if event.pitch == END_OF_SONG {
                Ok(event.time as int)
            } else {
                score_end(score, from + 1, event.time as int)
            },
        }
    }
}

/// Whether `frames` are the frames of the ticks from `first` up to, and
/// without, `end`: one for each tick, in order, none louder than all strings
/// at one half together.
pub open spec fn is_frame_run(frames: Seq<Frame>, first: int, end: int) -> bool {
    &&& first <= end
    &&& frames.len() == end - first
    &&& forall|i: int|
        0 <= i < frames.len() ==> {
            &&& (#[trigger] frames[i]).tick == first + i
            &&& -(NUM_STRINGS * HALF) <= frames[i].level <= NUM_STRINGS * HALF
        }
}

/// The contents of a vector of vectors.
pub open spec fn contents(vectors: Seq<Vec<i64>>) -> Seq<Seq<i64>> {
    Seq::new(vectors.len(), |i: int| vectors[i]@)
}

/// The delay lines of a vector of strings.
pub open spec fn lines(strings: Seq<GuitarString>) -> Seq<Seq<i64>> {
    Seq::new(strings.len(), |pitch: int| strings[pitch]@)
}

/// The strings, the sample clock and the place in the score.
pub struct SynthesisEngine {
    strings: Vec<GuitarString>,
    clock: u64,
    previous_time: i64,
    finished: bool,
}

impl View for SynthesisEngine {
    type V = EngineState;

    closed spec fn view(&self) -> EngineState {
        EngineState {
            strings: lines(self.strings@),
            clock: self.clock as int,
            previous_time: self.previous_time as int,
            finished: self.finished,
        }
    }
}

/// Calls `itertools::Itertools::collect_vec` on the range from zero up to
/// `count`. The call gathers the items of an iterator into a vector, in the
/// order in which the iterator yields them.
#[verifier::external_body]
fn collect_indices(count: usize) -> (indices: Vec<usize>)
    ensures
        indices@.len() == count,
        forall|i: int| 0 <= i < count ==> indices@[i] == i,
{
    (0..count).collect_vec()
}

/// The length of every string is at least 50 and at most 400.
proof fn pitch_length_bounds(pitch: int)
    requires
        0 <= pitch < NUM_STRINGS,
    ensures
        0 < pitch_millihertz(pitch) <= 880_000,
        50 <= pitch_length(pitch) <= 400,
{
}

/// A sum of string outputs is within one half per string.
proof fn mixed_prefix_bound(strings: Seq<Seq<i64>>, count: nat)
    requires
        are_strings(strings),
        count <= NUM_STRINGS,
    ensures
        -(count * HALF) <= mixed_prefix(strings, count) <= count * HALF,
    decreases count,
{
    if count > 0 {
        mixed_prefix_bound(strings, (count - 1) as nat);
        pitch_length_bounds(count - 1);
    }
}

/// Stepping keeps the strings the engine's strings.
pub proof fn ticking_keeps_strings(strings: Seq<Seq<i64>>, count: nat)
    requires
        are_strings(strings),
    ensures
        are_strings(all_ticked_times(strings, count)),
    decreases count,
{
    if count > 0 {
        ticking_keeps_strings(strings, (count - 1) as nat);
        let before = all_ticked_times(strings, (count - 1) as nat);
        assert forall|pitch: int| 0 <= pitch < NUM_STRINGS implies {
            &&& (#[trigger] all_ticked(before)[pitch]).len() == pitch_length(pitch)
            &&& is_excitation(all_ticked(before)[pitch])
        } by {
            pitch_length_bounds(pitch);
            ticked_stays_in_range(before[pitch]);
        }
    }
}

/// Tick `tick` starts before `time` exactly if it is one of the first
/// `ticks_before(time)` ticks: tick `k` starts at `k / 44100` seconds, and
/// `time` counts nanoseconds.
pub proof fn ticks_before_counts(time: int, tick: int)
    requires
        tick >= 0,
    ensures
        tick < ticks_before(time) <==> tick * NANOS_PER_SECOND < time * SAMPLE_RATE,
{
}

/// A later event is due no earlier.
pub proof fn ticks_before_grows(earlier: int, later: int)
    requires
        earlier <= later,
    ensures
        ticks_before(earlier) <= ticks_before(later),
{
}

/// The frame with index `index` is numbered `index` ticks after the clock and
/// is no louder than all strings at one half together.
proof fn frame_at_bounds(state: EngineState, index: int)
    requires
        are_strings(state.strings),
        0 <= index,
        0 <= state.clock,
        state.clock + index <= u64::MAX,
    ensures
        frame_at(state, index).tick == state.clock + index,
        -(NUM_STRINGS * HALF) <= frame_at(state, index).level <= NUM_STRINGS * HALF,
{
    ticking_keeps_strings(state.strings, (index + 1) as nat);
    mixed_prefix_bound(all_ticked_times(state.strings, (index + 1) as nat), NUM_STRINGS as nat);
}

/// An engine stays an engine: whatever event arrives with samples that fit,
/// the state that follows is again a state an engine can be in.
pub proof fn advanced_is_engine_state(state: EngineState, event: ScoreEvent, excitation: Seq<i64>)
    requires
        is_engine_state(state),
        fits(state, event, excitation),
    ensures
        is_engine_state(advanced(state, event, excitation)),
{
    if !state.finished && validated(state.previous_time, event.time as int, event.pitch as int)
        is Ok {
        let count = ticks_until(state, event.time as int);
        ticking_keeps_strings(state.strings, count);
        ticks_before_grows(state.previous_time, event.time as int);
        if event.pitch != END_OF_SONG {
            let strings = all_ticked_times(state.strings, count);
        }
    }
}

/// The clock never runs back, and a finished engine stays finished and
/// unchanged.
pub proof fn clock_only_advances(state: EngineState, event: ScoreEvent, excitation: Seq<i64>)
    ensures
        advanced(state, event, excitation).clock >= state.clock,
        state.finished ==> advanced(state, event, excitation) == state,
        state.finished ==> emitted(state, event) == Ok::<Seq<Frame>, ScoreError>(Seq::empty()),
{
}

/// Events that share a time are all applied before the next tick: an
/// accepted event at the time of the event before it emits no frame and
/// steps no string, so that it only plucks or ends the song.
pub proof fn simultaneous_events_emit_nothing(
    state: EngineState,
    event: ScoreEvent,
    excitation: Seq<i64>,
)
    requires
        is_engine_state(state),
        !state.finished,
        event.time == state.previous_time,
        END_OF_SONG <= event.pitch < NUM_STRINGS,
    ensures
        emitted(state, event) == Ok::<Seq<Frame>, ScoreError>(Seq::empty()),
        advanced(state, event, excitation).clock == state.clock,
        event.pitch == END_OF_SONG ==> advanced(state, event, excitation).strings == state.strings,
        event.pitch != END_OF_SONG ==> advanced(state, event, excitation).strings
            == state.strings.update(event.pitch as int, excitation),
{
    assert(emitted(state, event)->Ok_0 == Seq::<Frame>::empty());
}

/// When a score is played and what it yields: the score is rejected exactly
/// if one of its events, up to the end marker, is out of order or names no
/// string, and with the error of the first such event; otherwise the frames
/// are those of all ticks that start before the end of the song, whatever the
/// plucks sounded like.
pub proof fn rendered_outcome(
    state: EngineState,
    score: Seq<ScoreEvent>,
    excitations: Seq<Seq<i64>>,
    from: nat,
)
    requires
        is_engine_state(state),
        !state.finished,
        excitations_fit(score, excitations),
        from <= score.len(),
    ensures
        match score_end(score, from, state.previous_time) {
            Err(error) => rendered(state, score, excitations, from) == Err::<
                Seq<Frame>,
                ScoreError,
            >(error),
            Ok(end) => {
                &&& rendered(state, score, excitations, from) is Ok
                &&& is_frame_run(
                    rendered(state, score, excitations, from)->Ok_0,
                    state.clock,
                    ticks_before(end),
                )
            },
        },
    decreases score.len() - from,
{
    if from < score.len() {
        let event = score[from as int];
        if validated(state.previous_time, event.time as int, event.pitch as int) is Ok {
            let excitation = excitations[from as int];
            let next = advanced(state, event, excitation);
            let first = emitted(state, event)->Ok_0;
            if 0 <= event.pitch < NUM_STRINGS {
                pitch_length_bounds(event.pitch as int);
            }
            advanced_is_engine_state(state, event, excitation);
            ticks_before_grows(state.previous_time, event.time as int);
            assert(is_frame_run(first, state.clock, next.clock)) by {
                assert forall|i: int| 0 <= i < first.len() implies {
                    &&& (#[trigger] first[i]).tick == state.clock + i
                    &&& -(NUM_STRINGS * HALF) <= first[i].level <= NUM_STRINGS * HALF
                } by {
                    frame_at_bounds(state, i);
                }
            }
            if event.pitch != END_OF_SONG {
                rendered_outcome(next, score, excitations, from + 1);
            }
        }
    }
}

/// Playing is repeatable: two runs over the same score with the same samples
/// for every pluck yield the same frames, or fail alike.
pub proof fn rendering_is_repeatable(
    score: Seq<ScoreEvent>,
    excitations: Seq<Seq<i64>>,
    first: Result<Vec<Frame>, ScoreError>,
    second: Result<Vec<Frame>, ScoreError>,
)
    requires
        frames_of(first) == rendered(initial_state(), score, excitations, 0),
        frames_of(second) == rendered(initial_state(), score, excitations, 0),
    ensures
        frames_of(first) == frames_of(second),
{
}

/// The engine after the first `count` events of `score`, and the frames
/// emitted for them.
spec fn played(score: Seq<ScoreEvent>, excitations: Seq<Seq<i64>>, count: nat) -> (
    EngineState,
    Result<Seq<Frame>, ScoreError>,
)
    decreases count,
{
    if count == 0 {
        (initial_state(), Ok(Seq::empty()))
    } else {
        let (state, frames) = played(score, excitations, (count - 1) as nat);
        match frames {
            Err(error) => (state, Err(error)),
            Ok(done) => (
                advanced(state, score[count - 1], excitations[count - 1]),
                continued(done, emitted(state, score[count - 1])),
            ),
        }
    }
}

/// The first `count` events are played alike with excitations that agree on
/// them.
proof fn played_reads_prefix(
    score: Seq<ScoreEvent>,
    left: Seq<Seq<i64>>,
    right: Seq<Seq<i64>>,
    count: nat,
)
    requires
        forall|i: int| 0 <= i < count ==> left[i] == right[i],
    ensures
        played(score, left, count) == played(score, right, count),
    decreases count,
{
    if count > 0 {
        played_reads_prefix(score, left, right, (count - 1) as nat);
    }
}

/// Playing a score is playing its first `count` events and then the others.
proof fn played_then_rendered(score: Seq<ScoreEvent>, excitations: Seq<Seq<i64>>, count: nat)
    requires
        count <= score.len(),
    ensures
        rendered(initial_state(), score, excitations, 0) == match played(
            score,
            excitations,
            count,
        ).1 {
            Err(error) => Err(error),
            Ok(done) => continued(
                done,
                rendered(played(score, excitations, count).0, score, excitations, count),
            ),
        },
    decreases count,
{
    if count > 0 {
        let before = (count - 1) as nat;
        played_then_rendered(score, excitations, before);
        let (state, frames) = played(score, excitations, before);
        let event = score[count - 1];
        let next = advanced(state, event, excitations[count - 1]);
        if let (Ok(done), Ok(more), Ok(later)) = (
            frames,
            emitted(state, event),
            rendered(next, score, excitations, count),
        ) {
            assert(done + (more + later) == (done + more) + later);
        }
    }
}

/// Samples that can stand for a pluck that never sounds.
spec fn filler(event: ScoreEvent) -> Seq<i64> {
    if 0 <= event.pitch < NUM_STRINGS {
        silence(pitch_length(event.pitch as int))
    } else {
        Seq::empty()
    }
}

/// The excitations in `used`, followed by fillers for the events of `score`
/// beyond them.
spec fn filled(score: Seq<ScoreEvent>, used: Seq<Seq<i64>>) -> Seq<Seq<i64>> {
    Seq::new(
        score.len(),
        |i: int|
            if i < used.len() {
                used[i]
            } else {
                filler(score[i])
            },
    )
}

/// Steps every string once and sums their outputs.
fn tick_strings(strings: &mut Vec<GuitarString>) -> (level: i64)
    requires
        are_strings(lines(old(strings)@)),
    ensures
        lines(final(strings)@) == all_ticked(lines(old(strings)@)),
        are_strings(lines(final(strings)@)),
        level == mixed(lines(final(strings)@)),
{
    let ghost before = lines(strings@);
    let mut level: i64 = 0;
    for pitch in 0..NUM_STRINGS
        invariant
            are_strings(before),
            strings@.len() == NUM_STRINGS,
            forall|done: int| 0 <= done < pitch ==> (#[trigger] strings@[done])@ == ticked(before[done]),
            forall|left: int| pitch <= left < NUM_STRINGS ==> (#[trigger] strings@[left])@ == before[left],
            level == mixed_prefix(all_ticked(before), pitch as nat),
    {
        proof {
            pitch_length_bounds(pitch as int);
            ticking_keeps_strings(before, 1);
            mixed_prefix_bound(all_ticked(before), pitch as nat);
        }
        strings[pitch].tic();
        let output: i64 = strings[pitch].sample();
        level = level + output;
    }
    assert(lines(strings@) == all_ticked(before));
    proof {
        ticking_keeps_strings(before, 1);
    }
    level
}

/// Computes [`ticks_before`].
pub fn ticks_due(time: i64) -> (ticks: u64)
    ensures
        ticks == ticks_before(time as int),
{
    if time <= 0 {
        0
    } else {
        let rate: u128 = SAMPLE_RATE as u128;
        let scaled: u128 = (time as u128) * rate + 999_999_999;
        (scaled / 1_000_000_000) as u64
    }
}

impl SynthesisEngine {
    /// Whether the engine is in a state it can reach.
    pub open spec fn well_formed(&self) -> bool {
        is_engine_state(self@)
    }

    /// An engine at the start of a song.
    pub fn new() -> (engine: SynthesisEngine)
        ensures
            engine.well_formed(),
            engine@ == initial_state(),
    {
        let pitches: Vec<usize> = collect_indices(NUM_STRINGS);
        let mut strings: Vec<GuitarString> = Vec::new();
        for made in 0..NUM_STRINGS
            invariant
                pitches@.len() == NUM_STRINGS,
                forall|i: int| 0 <= i < NUM_STRINGS ==> pitches@[i] == i,
                strings@.len() == made,
                forall|pitch: int|
                    0 <= pitch < made ==> (#[trigger] strings@[pitch])@ == silence(
                        pitch_length(pitch),
                    ),
        {
            let pitch: usize = pitches[made];
            proof {
                pitch_length_bounds(pitch as int);
            }
            strings.push(GuitarString::new(pitch_frequency(pitch)));
        }
        let engine = SynthesisEngine { strings, clock: 0, previous_time: 0, finished: false };
        assert(engine@.strings == initial_state().strings);
        engine
    }

    /// Takes the next event of the score, with the samples that replace the
    /// plucked string. Returns the frames of the ticks that start before the
    /// event's time, or the reason why the event is rejected.
    pub fn advance_with(&mut self, event: ScoreEvent, excitation: &Vec<i64>) -> (result: Result<
        Vec<Frame>,
        ScoreError,
    >)
        requires
            old(self).well_formed(),
            fits(old(self)@, event, excitation@),
        ensures
            final(self).well_formed(),
            final(self)@ == advanced(old(self)@, event, excitation@),
            match result {
                Ok(frames) => emitted(old(self)@, event) == Ok::<Seq<Frame>, ScoreError>(frames@),
                Err(error) => emitted(old(self)@, event) == Err::<Seq<Frame>, ScoreError>(error),
            },
    {
        let ghost start = self@;
        if self.finished {
            return Ok(Vec::new());
        }
        match validate_line(self.previous_time, event.time, event.pitch) {
            Err(error) => {
                return Err(error);
            },
            Ok(_) => {},
        }
        let due: u64 = ticks_due(event.time);
        let mut frames: Vec<Frame> = Vec::new();
        while self.clock < due
            invariant
                start.clock <= self.clock <= due,
                are_strings(lines(self.strings@)),
                lines(self.strings@) == all_ticked_times(
                    start.strings,
                    (self.clock - start.clock) as nat,
                ),
                frames@.len() == self.clock - start.clock,
                forall|i: int| 0 <= i < frames@.len() ==> frames@[i] == frame_at(start, i),
                self.previous_time == start.previous_time,
                self.finished == start.finished,
            decreases due - self.clock,
        {
            let level: i64 = tick_strings(&mut self.strings);
            frames.push(Frame { tick: self.clock, level });
            self.clock = self.clock + 1;
        }
        self.previous_time = event.time;
        if event.pitch == END_OF_SONG {
            self.finished = true;
        } else {
            let pitch: usize = event.pitch as usize;
            proof {
                pitch_length_bounds(pitch as int);
                assert(lines(self.strings@)[pitch as int] == self.strings@[pitch as int]@);
            }
            self.strings[pitch].excite(excitation);
            assert(lines(self.strings@) == all_ticked_times(
                start.strings,
                ticks_until(start, event.time as int),
            ).update(pitch as int, excitation@));
        }
        assert(frames@ == Seq::new(
            ticks_until(start, event.time as int),
            |i: int| frame_at(start, i),
        ));
        Ok(frames)
    }

    /// Takes the next event of the score and plucks at random. Returns the
    /// frames of the ticks that start before the event's time, or the reason
    /// why the event is rejected.
    pub fn advance(&mut self, event: ScoreEvent) -> (result: Result<Vec<Frame>, ScoreError>)
        requires
            old(self).well_formed(),
        ensures
            final(self).well_formed(),
            frames_of(result) == emitted(old(self)@, event),
            exists|excitation: Seq<i64>|
                fits(old(self)@, event, excitation) && final(self)@ == #[trigger] advanced(
                    old(self)@,
                    event,
                    excitation,
                ),
    {
        let accepted: bool = match validate_line(self.previous_time, event.time, event.pitch) {
            Ok(_) => true,
            Err(_) => false,
        };
        let excitation: Vec<i64> = if !self.finished && accepted && event.pitch != END_OF_SONG {
            let pitch: usize = event.pitch as usize;
            draw_excitation(self.strings[pitch].len())
        } else {
            Vec::new()
        };
        self.advance_with(event, &excitation)
    }

    /// Whether the end of the song has been reached.
    pub fn is_finished(&self) -> (finished: bool)
        ensures
            finished == self@.finished,
    {
        self.finished
    }

    /// Number of ticks performed so far.
    pub fn clock(&self) -> (ticks: u64)
        ensures
            ticks == self@.clock,
    {
        self.clock
    }

    /// The string with number `pitch`.
    pub fn string(&self, pitch: usize) -> (string: &GuitarString)
        requires
            self.well_formed(),
            pitch < NUM_STRINGS,
        ensures
            string@ == self@.strings[pitch as int],
            string.well_formed(),
    {
        proof {
            pitch_length_bounds(pitch as int);
        }
        &self.strings[pitch]
    }
}

/// Length of the string with number `pitch`.
pub fn string_length(pitch: usize) -> (length: usize)
    requires
        pitch < NUM_STRINGS,
    ensures
        length == pitch_length(pitch as int),
{
    proof {
        pitch_length_bounds(pitch as int);
    }
    (SAMPLE_RATE_MILLIS / pitch_frequency(pitch)) as usize
}

/// Plays `score` from the start of a song, plucking with the given samples:
/// event `i` replaces its string by `excitations[i]`.
pub fn render_with(score: &Vec<ScoreEvent>, excitations: &Vec<Vec<i64>>) -> (result: Result<
    Vec<Frame>,
    ScoreError,
>)
    requires
        excitations_fit(score@, contents(excitations@)),
    ensures
        frames_of(result) == rendered(initial_state(), score@, contents(excitations@), 0),
        match score_end(score@, 0, 0) {
            Err(error) => result == Err::<Vec<Frame>, ScoreError>(error),
            Ok(end) => result is Ok && is_frame_run(result->Ok_0@, 0, ticks_before(end)),
        },
{
    let ghost given = contents(excitations@);
    let mut engine = SynthesisEngine::new();
    let mut frames: Vec<Frame> = Vec::new();
    let mut index: usize = 0;
    while index < score.len() && !engine.finished
        invariant
            engine.well_formed(),
            index <= score@.len(),
            given == contents(excitations@),
            excitations_fit(score@, given),
            rendered(initial_state(), score@, given, 0) == continued(
                frames@,
                rendered(engine@, score@, given, index as nat),
            ),
        decreases score@.len() - index,
    {
        let event: ScoreEvent = score[index];
        proof {
            if 0 <= event.pitch < NUM_STRINGS {
                pitch_length_bounds(event.pitch as int);
            }
        }
        match engine.advance_with(event, &excitations[index]) {
            Err(error) => {
                proof {
                    rendered_outcome(initial_state(), score@, given, 0);
                }
                return Err(error);
            },
            Ok(mut more) => {
                let ghost done = frames@;
                let ghost added = more@;
                frames.append(&mut more);
                proof {
                    let rest = rendered(engine@, score@, given, (index + 1) as nat);
                    if let Ok(later) = rest {
                        assert(done + (added + later) == frames@ + later);
                    }
                }
            },
        }
        index = index + 1;
    }
    proof {
        rendered_outcome(initial_state(), score@, given, 0);
    }
    Ok(frames)
}

/// Plays `score` from the start of a song, plucking at random.
pub fn render(score: &Vec<ScoreEvent>) -> (result: Result<Vec<Frame>, ScoreError>)
    ensures
        exists|excitations: Seq<Seq<i64>>|
            excitations_fit(score@, excitations) && frames_of(result) == #[trigger] rendered(
                initial_state(),
                score@,
                excitations,
                0,
            ),
        match score_end(score@, 0, 0) {
            Err(error) => result == Err::<Vec<Frame>, ScoreError>(error),
            Ok(end) => result is Ok && is_frame_run(result->Ok_0@, 0, ticks_before(end)),
        },
{
    let ghost mut used: Seq<Seq<i64>> = Seq::empty();
    let mut engine = SynthesisEngine::new();
    let mut frames: Vec<Frame> = Vec::new();
    let mut index: usize = 0;
    while index < score.len() && !engine.finished
        invariant
            engine.well_formed(),
            index <= score@.len(),
            used.len() == index,
            excitations_fit(score@, filled(score@, used)),
            played(score@, used, index as nat) == (engine@, Ok::<Seq<Frame>, ScoreError>(frames@)),
        decreases score@.len() - index,
    {
        let event: ScoreEvent = score[index];
        let ghost before = engine@;
        let ghost given = filled(score@, used);
        let outcome = engine.advance(event);
        proof {
            let drawn = choose|excitation: Seq<i64>|
                fits(before, event, excitation) && engine@ == #[trigger] advanced(
                    before,
                    event,
                    excitation,
                );
            let entry = if plucks(before, event) {
                drawn
            } else {
                filler(event)
            };
            if 0 <= event.pitch < NUM_STRINGS {
                pitch_length_bounds(event.pitch as int);
            }
            let longer = used.push(entry);
            assert forall|i: int|
                0 <= i < score@.len() && 0 <= score@[i].pitch < NUM_STRINGS implies {
                &&& (#[trigger] filled(score@, longer)[i]).len() == pitch_length(
                    score@[i].pitch as int,
                )
                &&& is_excitation(filled(score@, longer)[i])
            } by {
                if i != index {
                    assert(filled(score@, longer)[i] == given[i]);
                }
            }
            played_reads_prefix(score@, used, longer, index as nat);
            played_reads_prefix(score@, used, given, index as nat);
            played_then_rendered(score@, given, index as nat);
            used = longer;
        }
        match outcome {
            Err(error) => {
                proof {
                    rendered_outcome(initial_state(), score@, given, 0);
                }
                return Err(error);
            },
            Ok(mut more) => {
                frames.append(&mut more);
            },
        }
        index = index + 1;
    }
    proof {
        let given = filled(score@, used);
        played_reads_prefix(score@, used, given, index as nat);
        played_then_rendered(score@, given, index as nat);
        rendered_outcome(initial_state(), score@, given, 0);
    }
    Ok(frames)
}

} // verus!

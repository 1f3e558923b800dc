//! Score events and the rules an incoming event must meet.

use vstd::prelude::*;

verus! {

/// Number of strings; pitches are numbered from zero.
pub const NUM_STRINGS: usize = 37;

/// Pitch value that marks the end of the score.
pub const END_OF_SONG: i32 = -1;

/// Why a score was rejected.
#[derive(Clone, Copy, Debug, PartialEq, Eq, Structural)]
pub enum ScoreError {
    /// An event is earlier than the event accepted before it.
    OutOfOrder,
    /// A pitch is neither a string number nor the end marker.
    PitchRange,
    /// A line does not write an event.
    Format,
}

impl ScoreError {
    /// What went wrong, in words.
    pub fn message(&self) -> (text: &'static str)
        ensures
            text@ == match *self {
                ScoreError::OutOfOrder => "Time must be increasing"@,
                ScoreError::PitchRange => "String must be in range"@,
                ScoreError::Format => "Line must hold a time and a string"@,
            },
    {
        match self {
            ScoreError::OutOfOrder => "Time must be increasing",
            ScoreError::PitchRange => "String must be in range",
            ScoreError::Format => "Line must hold a time and a string",
        }
    }
}

/// One line of a score: at `time` nanoseconds, pluck string `pitch`, or end
/// the song if `pitch` is [`END_OF_SONG`].
#[derive(Clone, Copy, Debug, PartialEq, Eq, Structural)]
pub struct ScoreEvent {
    pub time: i64,
    pub pitch: i32,
}

/// Whether an event at `time` with pitch `note` is accepted when the
/// last accepted event was at `prev_time`, and if not, why. Time is judged
/// before pitch.
pub open spec fn validated(prev_time: int, time: int, note: int) -> Result<(), ScoreError> {
    if time < prev_time {
        Err(ScoreError::OutOfOrder)
    } else if note > NUM_STRINGS - 1 || note < END_OF_SONG {
        Err(ScoreError::PitchRange)
    } else {
        Ok(())
    }
}

/// Checks one event against the time of the event accepted before it.
pub fn validate_line(prev_time: i64, time: i64, note: i32) -> (result: Result<(), ScoreError>)
    ensures
        result == validated(prev_time as int, time as int, note as int),
{
    if time < prev_time {
        return Err(ScoreError::OutOfOrder);
    }
    if note > 36 || note < -1 {
        return Err(ScoreError::PitchRange);
    }
    Ok(())
}

} // verus!

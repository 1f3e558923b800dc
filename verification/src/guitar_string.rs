//! One string: a delay line whose oldest two samples are averaged, damped and
//! fed back at every step.

use crate::excitation::draw_excitation;
use crate::sample::{
    decayed_average, decayed_average_bound, decayed_average_of, decayed_limit, in_range, magnitude,
    HALF,
};
use std::collections::VecDeque;
use vstd::prelude::*;

verus! {

/// Ticks per second.
pub const SAMPLE_RATE: u64 = 44100;

/// Ticks per second, counted in thousandths: the largest frequency, in
/// millihertz, whose delay line still has a slot.
pub const SAMPLE_RATE_MILLIS: u64 = 44_100_000;

/// A line of `length` zero samples.
pub open spec fn silence(length: nat) -> Seq<i64> {
    Seq::new(length, |i: int| 0i64)
}

/// Whether every sample of `line` is within one half.
pub open spec fn is_excitation(line: Seq<i64>) -> bool {
    forall|i: int| 0 <= i < line.len() ==> in_range(#[trigger] line[i])
}

/// The sample read after the oldest one; a line of one slot wraps onto itself.
pub open spec fn second_oldest(line: Seq<i64>) -> i64 {
    if line.len() > 1 {
        line[1]
    } else {
        line[0]
    }
}

/// The line one step later: the oldest sample leaves, and the decayed mean of
/// it and of the sample behind it enters at the newest end.
pub open spec fn ticked(line: Seq<i64>) -> Seq<i64> {
    line.subrange(1, line.len() as int).push(decayed_average(line[0], second_oldest(line)))
}

/// A step keeps the length of a line, and keeps its samples within one half.
pub proof fn ticked_stays_in_range(line: Seq<i64>)
    requires
        line.len() > 0,
        is_excitation(line),
    ensures
        ticked(line).len() == line.len(),
        is_excitation(ticked(line)),
{
    decayed_average_bound(line[0], second_oldest(line), HALF as int);
}

/// The line `count` steps later.
pub open spec fn ticked_times(line: Seq<i64>, count: nat) -> Seq<i64>
    decreases count,
{
    if count == 0 {
        line
    } else {
        ticked(ticked_times(line, (count - 1) as nat))
    }
}

/// Whether no sample of `line` has a magnitude above `limit`.
pub open spec fn within(line: Seq<i64>, limit: int) -> bool {
    forall|i: int| 0 <= i < line.len() ==> magnitude(#[trigger] line[i] as int) <= limit
}

/// Stepping `first` times and then `second` times is stepping
/// `first + second` times.
pub proof fn ticked_times_adds(line: Seq<i64>, first: nat, second: nat)
    ensures
        ticked_times(line, first + second) == ticked_times(ticked_times(line, first), second),
    decreases second,
{
    if second > 0 {
        ticked_times_adds(line, first, (second - 1) as nat);
    }
}

/// A string that is never plucked stays silent: however many steps a silent
/// line takes, it is silent, and so is its output.
pub proof fn silence_persists(length: nat, count: nat)
    requires
        length > 0,
    ensures
        ticked_times(silence(length), count) == silence(length),
        ticked_times(silence(length), count)[0] == 0,
    decreases count,
{
    if count > 0 {
        silence_persists(length, (count - 1) as nat);
    }
}

/// A step never amplifies: a bound on the magnitudes of a line still holds
/// one step later.
pub proof fn tic_never_amplifies(line: Seq<i64>, limit: int)
    requires
        line.len() > 0,
        within(line, limit),
        limit <= HALF,
    ensures
        ticked(line).len() == line.len(),
        within(ticked(line), limit),
{
    decayed_average_bound(line[0], second_oldest(line), limit);
}

/// After `count` steps, at most one whole pass, the `count` newest samples
/// are within the decayed limit and the others within the limit itself.
proof fn pass_in_progress(line: Seq<i64>, limit: int, count: nat)
    requires
        line.len() > 0,
        within(line, limit),
        limit <= HALF,
        count <= line.len(),
    ensures
        ticked_times(line, count).len() == line.len(),
        within(ticked_times(line, count), limit),
        forall|i: int|
            line.len() - count <= i < line.len() ==> magnitude(
                #[trigger] ticked_times(line, count)[i] as int,
            ) <= decayed_limit(limit),
    decreases count,
{
    if count > 0 {
        pass_in_progress(line, limit, (count - 1) as nat);
        let before = ticked_times(line, (count - 1) as nat);
        tic_never_amplifies(before, limit);
        decayed_average_bound(before[0], second_oldest(before), limit);
    }
}

/// One pass damps: when every sample of a line has been replaced once, a
/// bound on the magnitudes has shrunk by the decay factor, rounded down.
pub proof fn pass_decays(line: Seq<i64>, limit: int)
    requires
        line.len() > 0,
        within(line, limit),
        limit <= HALF,
    ensures
        ticked_times(line, line.len()).len() == line.len(),
        within(ticked_times(line, line.len()), decayed_limit(limit)),
{
    pass_in_progress(line, limit, line.len());
}

/// A string left alone falls silent: with no sample above `limit`, the line
/// is silent after `limit` passes and stays so.
pub proof fn string_falls_silent(line: Seq<i64>, limit: nat, count: nat)
    requires
        line.len() > 0,
        within(line, limit as int),
        limit <= HALF,
        count >= limit * line.len(),
    ensures
        ticked_times(line, count) == silence(line.len()),
    decreases limit,
{
    if limit == 0 {
        assert(line == silence(line.len()));
        silence_persists(line.len(), count);
    } else {
        let pass = ticked_times(line, line.len());
        pass_decays(line, limit as int);
        decayed_average_bound(0, 0, limit as int);
        let lower = decayed_limit(limit as int) as nat;
        assert(limit * line.len() == (limit - 1) * line.len() + line.len()) by (nonlinear_arith);
        assert(lower * line.len() <= (limit - 1) * line.len()) by (nonlinear_arith)
            requires
                lower <= limit - 1,
        ;
        let rest = (count - line.len()) as nat;
        string_falls_silent(pass, lower, rest);
        ticked_times_adds(line, line.len(), rest);
    }
}

/// The output of a sounding string fades: if the output is not zero now,
/// then after enough passes, as many as the largest magnitude in the line,
/// the output is smaller in magnitude than it is now.
pub proof fn output_fades(line: Seq<i64>, limit: nat, passes: nat)
    requires
        line.len() > 0,
        within(line, limit as int),
        limit <= HALF,
        line[0] != 0,
        passes >= limit,
    ensures
        magnitude(ticked_times(line, passes * line.len())[0] as int) < magnitude(line[0] as int),
{
    assert(passes * line.len() >= limit * line.len()) by (nonlinear_arith)
        requires
            passes >= limit,
    ;
    string_falls_silent(line, limit, passes * line.len());
}

/// A delay line of fixed length, oldest sample first.
pub struct GuitarString {
    ring_buffer: VecDeque<i64>,
}

impl View for GuitarString {
    type V = Seq<i64>;

    closed spec fn view(&self) -> Seq<i64> {
        self.ring_buffer@
    }
}

impl GuitarString {
    /// A string holds at least one sample, and none beyond one half.
    pub open spec fn well_formed(&self) -> bool {
        &&& self@.len() > 0
        &&& is_excitation(self@)
    }

    /// A silent string for a frequency given in millihertz. Its length is the
    /// sample rate divided by the frequency, rounded down.
    pub fn new(frequency: u64) -> (string: GuitarString)
        requires
            0 < frequency <= SAMPLE_RATE_MILLIS,
        ensures
            string.well_formed(),
            string@ == silence((SAMPLE_RATE_MILLIS / frequency) as nat),
    {
        assert(1 <= SAMPLE_RATE_MILLIS / frequency <= SAMPLE_RATE_MILLIS) by (nonlinear_arith)
            requires
                0 < frequency <= SAMPLE_RATE_MILLIS,
        ;
        let capacity: usize = (SAMPLE_RATE_MILLIS / frequency) as usize;
        let mut ring_buffer: VecDeque<i64> = VecDeque::with_capacity(capacity);
        for filled in 0..capacity
            invariant
                ring_buffer@ == silence(filled as nat),
        {
            ring_buffer.push_back(0);
        }
        GuitarString { ring_buffer }
    }

    /// Number of samples in the line.
    pub fn len(&self) -> (length: usize)
        ensures
            length == self@.len(),
    {
        self.ring_buffer.len()
    }

    /// The samples of the line, oldest first.
    pub fn samples(&self) -> (values: Vec<i64>)
        ensures
            values@ == self@,
    {
        let count: usize = self.ring_buffer.len();
        let mut values: Vec<i64> = Vec::new();
        for copied in 0..count
            invariant
                count == self.ring_buffer@.len(),
                values@ == self.ring_buffer@.subrange(0, copied as int),
        {
            values.push(self.ring_buffer[copied]);
        }
        values
    }

    /// Overwrites every sample with a random one, each drawn on its own from
    /// the whole range from minus one half to one half.
    pub fn pluck(&mut self)
        requires
            old(self).well_formed(),
        ensures
            final(self).well_formed(),
            final(self)@.len() == old(self)@.len(),
            is_excitation(final(self)@),
    {
        let values: Vec<i64> = draw_excitation(self.ring_buffer.len());
        self.excite(&values);
    }

    /// Overwrites the line with `values`, oldest first.
    pub fn excite(&mut self, values: &Vec<i64>)
        requires
            old(self).well_formed(),
            values@.len() == old(self)@.len(),
            is_excitation(values@),
        ensures
            final(self).well_formed(),
            final(self)@ == values@,
    {
        let count: usize = values.len();
        for written in 0..count
            invariant
                count == values@.len(),
                self.ring_buffer@.len() == count,
                self.ring_buffer@.subrange(count - written, count as int) == values@.subrange(
                    0,
                    written as int,
                ),
        {
            let _ = self.ring_buffer.pop_front();
            self.ring_buffer.push_back(values[written]);
        }
        assert(self.ring_buffer@ == self.ring_buffer@.subrange(0, count as int));
    }

    /// Advances the line by one step.
    pub fn tic(&mut self)
        requires
            old(self).well_formed(),
        ensures
            final(self).well_formed(),
            final(self)@ == ticked(old(self)@),
            final(self)@.len() == old(self)@.len(),
    {
        let first: i64 = match self.ring_buffer.pop_front() {
            Some(value) => value,
            None => 0,
        };
        let second: i64 = if self.ring_buffer.len() > 0 {
            self.ring_buffer[0]
        } else {
            first
        };
        self.ring_buffer.push_back(decayed_average_of(first, second));
    }

    /// The oldest sample: the string's current output.
    pub fn sample(&self) -> (level: i64)
        requires
            self.well_formed(),
        ensures
            level == self@[0],
            in_range(level),
    {
        self.ring_buffer[0]
    }
}

} // verus!

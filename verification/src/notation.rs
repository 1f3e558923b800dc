//! The written form of a score: one event per line, as two fields set apart by
//! blanks. The first field is the time in seconds, a decimal number; the
//! second is the pitch, a whole number. Anything after the second field is
//! not read.

use crate::score::{ScoreError, ScoreEvent};
use vstd::prelude::*;

verus! {

/// Whether `byte` sets fields apart: a space, a tab, or a line or page break.
pub open spec fn is_blank(byte: u8) -> bool {
    byte == 0x20 || 0x09 <= byte <= 0x0d
}

/// Whether `byte` is one of the digits `0` to `9`.
pub open spec fn is_digit(byte: u8) -> bool {
    0x30 <= byte <= 0x39
}

/// Whether `text` holds digits only.
pub open spec fn all_digits(text: Seq<u8>) -> bool {
    forall|i: int| 0 <= i < text.len() ==> is_digit(#[trigger] text[i])
}

/// The first place at or after `at` that holds no blank; the length of the
/// line if there is none.
pub open spec fn skip_blanks(line: Seq<u8>, at: int) -> int
    decreases line.len() - at,
{
    if 0 <= at < line.len() && is_blank(line[at]) {
        skip_blanks(line, at + 1)
    } else {
        at
    }
}

/// The first place at or after `at` that holds a blank; the length of the
/// line if there is none.
pub open spec fn skip_field(line: Seq<u8>, at: int) -> int
    decreases line.len() - at,
{
    if 0 <= at < line.len() && !is_blank(line[at]) {
        skip_field(line, at + 1)
    } else {
        at
    }
}

/// Where the first field of `line` starts.
pub open spec fn time_start(line: Seq<u8>) -> int {
    skip_blanks(line, 0)
}

/// Where the second field of `line` starts.
pub open spec fn pitch_start(line: Seq<u8>) -> int {
    skip_blanks(line, skip_field(line, time_start(line)))
}

/// The field of `line` that starts at `start`.
pub open spec fn field_from(line: Seq<u8>, start: int) -> Seq<u8> {
    line.subrange(start, skip_field(line, start))
}

/// The number that the digits of `digits` write in base ten.
pub open spec fn digits_value(digits: Seq<u8>) -> nat
    decreases digits.len(),
{
    if digits.len() == 0 {
        0
    } else {
        digits_value(digits.drop_last()) * 10 + (digits.last() - 0x30) as nat
    }
}

/// Whether `field` starts with a minus sign.
pub open spec fn is_negative(field: Seq<u8>) -> bool {
    field.len() > 0 && field[0] == 0x2d
}

/// `field` without its sign, if it starts with a plus or a minus sign.
pub open spec fn unsigned_part(field: Seq<u8>) -> Seq<u8> {
    if field.len() > 0 && (field[0] == 0x2d || field[0] == 0x2b) {
        field.subrange(1, field.len() as int)
    } else {
        field
    }
}

/// `size` with the sign of `field`.
pub open spec fn signed(field: Seq<u8>, size: nat) -> int {
    if is_negative(field) {
        -(size as int)
    } else {
        size as int
    }
}

/// The whole number that `field` writes: an optional sign and at least one
/// digit.
pub open spec fn pitch_of(field: Seq<u8>) -> Option<int> {
    let body = unsigned_part(field);
    if body.len() > 0 && all_digits(body) {
        Some(signed(field, digits_value(body)))
    } else {
        None
    }
}

/// The first place at or after `at` that holds a decimal point; the length of
/// the text if there is none.
pub open spec fn find_point(text: Seq<u8>, at: int) -> int
    decreases text.len() - at,
{
    if 0 <= at < text.len() && text[at] != 0x2e {
        find_point(text, at + 1)
    } else {
        at
    }
}

/// The digits of `text` before its decimal point.
pub open spec fn whole_part(text: Seq<u8>) -> Seq<u8> {
    text.subrange(0, find_point(text, 0))
}

/// The digits of `text` after its decimal point.
pub open spec fn fraction_part(text: Seq<u8>) -> Seq<u8> {
    if find_point(text, 0) < text.len() {
        text.subrange(find_point(text, 0) + 1, text.len() as int)
    } else {
        Seq::empty()
    }
}

/// The first nine digits of `fraction`, with zeros in place of those that it
/// lacks: the nanoseconds that the fraction of a second comes to. Digits after
/// the ninth are dropped.
pub open spec fn nine_digits(fraction: Seq<u8>) -> Seq<u8> {
    Seq::new(
        9,
        |i: int|
            if i < fraction.len() {
                fraction[i]
            } else {
                0x30u8
            },
    )
}

/// The time in nanoseconds that `field` writes in seconds: an optional sign,
/// then digits with at most one decimal point among them, before them or
/// after them.
pub open spec fn nanoseconds_of(field: Seq<u8>) -> Option<int> {
    let body = unsigned_part(field);
    let whole = whole_part(body);
    let fraction = fraction_part(body);
    if whole.len() + fraction.len() > 0 && all_digits(whole) && all_digits(fraction) {
        Some(
            signed(
                field,
                digits_value(whole) * 1_000_000_000 + digits_value(nine_digits(fraction)),
            ),
        )
    } else {
        None
    }
}

/// The event that `line` writes. A line is malformed if a field is missing or
/// writes no number, or if the number is too large to hold.
pub open spec fn parsed(line: Seq<u8>) -> Result<ScoreEvent, ScoreError> {
    match (
        nanoseconds_of(field_from(line, time_start(line))),
        pitch_of(field_from(line, pitch_start(line))),
    ) {
        (Some(time), Some(pitch)) => if i64::MIN <= time <= i64::MAX && i32::MIN <= pitch
            <= i32::MAX {
            Ok(ScoreEvent { time: time as i64, pitch: pitch as i32 })
        } else {
            Err(ScoreError::Format)
        },
        _ => Err(ScoreError::Format),
    }
}

/// The largest number that `count` digits write, for up to nine digits.
pub open spec fn nines(count: int) -> int {
    if count <= 0 {
        0
    } else if count == 1 {
        9
    } else if count == 2 {
        99
    } else if count == 3 {
        999
    } else if count == 4 {
        9_999
    } else if count == 5 {
        99_999
    } else if count == 6 {
        999_999
    } else if count == 7 {
        9_999_999
    } else if count == 8 {
        99_999_999
    } else {
        999_999_999
    }
}

/// One more digit: the value of the first `count + 1` digits of `text` is ten
/// times the value of the first `count`, plus the digit that follows.
proof fn digits_value_step(text: Seq<u8>, count: int)
    requires
        0 <= count < text.len(),
    ensures
        digits_value(text.subrange(0, count + 1)) == digits_value(text.subrange(0, count)) * 10 + (
        text[count] - 0x30) as nat,
{
    assert(text.subrange(0, count + 1).drop_last() == text.subrange(0, count));
}

/// The digits that start a number write no more than the whole number.
proof fn digits_value_grows(text: Seq<u8>, count: int)
    requires
        all_digits(text),
        0 <= count <= text.len(),
    ensures
        digits_value(text.subrange(0, count)) <= digits_value(text),
    decreases text.len(),
{
    if count == text.len() {
        assert(text.subrange(0, count) == text);
    } else {
        digits_value_grows(text.drop_last(), count);
        assert(text.drop_last().subrange(0, count) == text.subrange(0, count));
    }
}

fn is_blank_byte(byte: u8) -> (blank: bool)
    ensures
        blank == is_blank(byte),
{
    byte == 0x20 || (0x09 <= byte && byte <= 0x0d)
}

/// Computes [`skip_blanks`].
fn blanks_end(line: &[u8], at: usize) -> (next: usize)
    requires
        at <= line@.len(),
    ensures
        next == skip_blanks(line@, at as int),
        at <= next <= line@.len(),
{
    let mut next: usize = at;
    while next < line.len() && is_blank_byte(line[next])
        invariant
            at <= next <= line@.len(),
            skip_blanks(line@, at as int) == skip_blanks(line@, next as int),
        decreases line@.len() - next,
    {
        next = next + 1;
    }
    next
}

/// Computes [`skip_field`].
fn field_end(line: &[u8], at: usize) -> (next: usize)
    requires
        at <= line@.len(),
    ensures
        next == skip_field(line@, at as int),
        at <= next <= line@.len(),
{
    let mut next: usize = at;
    while next < line.len() && !is_blank_byte(line[next])
        invariant
            at <= next <= line@.len(),
            skip_field(line@, at as int) == skip_field(line@, next as int),
        decreases line@.len() - next,
    {
        next = next + 1;
    }
    next
}

/// Reads the digits from `start` up to `end`. Returns their value if all of
/// them are digits and the value is at most `most`.
fn read_digits(line: &[u8], start: usize, end: usize, most: u64) -> (value: Option<u64>)
    requires
        start <= end <= line@.len(),
        most <= 0xffff_ffff_ffff,
    ensures
        match value {
            Some(number) => {
                &&& all_digits(line@.subrange(start as int, end as int))
                &&& number == digits_value(line@.subrange(start as int, end as int))
                &&& number <= most
            },
            None => {
                ||| !all_digits(line@.subrange(start as int, end as int))
                ||| digits_value(line@.subrange(start as int, end as int)) > most
            },
        },
{
    let ghost text = line@.subrange(start as int, end as int);
    let mut number: u64 = 0;
    let mut at: usize = start;
    while at < end
        invariant
            start <= at <= end <= line@.len(),
            text == line@.subrange(start as int, end as int),
            all_digits(text.subrange(0, at - start)),
            number == digits_value(text.subrange(0, at - start)),
            number <= most <= 0xffff_ffff_ffff,
        decreases end - at,
    {
        let byte: u8 = line[at];
        if byte < 0x30 || byte > 0x39 {
            assert(!is_digit(text[at - start]));
            return None;
        }
        proof {
            digits_value_step(text, at - start);
        }
        number = number * 10 + (byte - 0x30) as u64;
        at = at + 1;
        if number > most {
            proof {
                if all_digits(text) {
                    digits_value_grows(text, at - start);
                }
            }
            return None;
        }
    }
    assert(text.subrange(0, at - start) == text);
    Some(number)
}

/// Reads the whole number written from `start` up to `end`.
fn read_pitch(line: &[u8], start: usize, end: usize) -> (pitch: Option<i32>)
    requires
        start <= end <= line@.len(),
    ensures
        pitch == match pitch_of(line@.subrange(start as int, end as int)) {
            Some(number) => if i32::MIN <= number <= i32::MAX {
                Some(number as i32)
            } else {
                None
            },
            None => None,
        },
{
    let ghost field = line@.subrange(start as int, end as int);
    let negative: bool = start < end && line[start] == 0x2d;
    let from: usize = if start < end && (line[start] == 0x2d || line[start] == 0x2b) {
        start + 1
    } else {
        start
    };
    assert(unsigned_part(field) == line@.subrange(from as int, end as int));
    if from == end {
        return None;
    }
    match read_digits(line, from, end, 0x8000_0000) {
        None => None,
        Some(size) => {
            if negative {
                if size == 0x8000_0000 {
                    Some(i32::MIN)
                } else {
                    Some(-(size as i32))
                }
            } else if size <= 0x7fff_ffff {
                Some(size as i32)
            } else {
                None
            }
        },
    }
}

/// Reads the time written in seconds from `start` up to `end`, in
/// nanoseconds.
fn read_time(line: &[u8], start: usize, end: usize) -> (time: Option<i64>)
    requires
        start <= end <= line@.len(),
    ensures
        time == match nanoseconds_of(line@.subrange(start as int, end as int)) {
            Some(number) => if i64::MIN <= number <= i64::MAX {
                Some(number as i64)
            } else {
                None
            },
            None => None,
        },
{
    let ghost field = line@.subrange(start as int, end as int);
    let negative: bool = start < end && line[start] == 0x2d;
    let from: usize = if start < end && (line[start] == 0x2d || line[start] == 0x2b) {
        start + 1
    } else {
        start
    };
    let ghost body = line@.subrange(from as int, end as int);
    assert(unsigned_part(field) == body);
    let mut point: usize = from;
    while point < end && line[point] != 0x2e
        invariant
            from <= point <= end <= line@.len(),
            body == line@.subrange(from as int, end as int),
            find_point(body, 0) == find_point(body, point - from),
        decreases end - point,
    {
        point = point + 1;
    }
    let after: usize = if point < end {
        point + 1
    } else {
        end
    };
    let ghost whole = whole_part(body);
    let ghost fraction = fraction_part(body);
    assert(whole == line@.subrange(from as int, point as int));
    if point - from + (end - after) == 0 {
        return None;
    }
    let ghost nine = nine_digits(fraction);
    let mut nanos: u64 = 0;
    let mut taken: usize = 0;
    let mut at: usize = after;
    while at < end
        invariant
            start <= after <= at <= end <= line@.len(),
            fraction == line@.subrange(after as int, end as int),
            fraction == fraction_part(unsigned_part(line@.subrange(start as int, end as int))),
            nine == nine_digits(fraction),
            all_digits(fraction.subrange(0, at - after)),
            taken <= 9,
            taken <= at - after,
            taken < 9 ==> taken == at - after,
            nanos == digits_value(nine.subrange(0, taken as int)),
            nanos <= nines(taken as int),
        decreases end - at,
    {
        let byte: u8 = line[at];
        if byte < 0x30 || byte > 0x39 {
            assert(!is_digit(fraction[at - after]));
            return None;
        }
        if taken < 9 {
            proof {
                digits_value_step(nine, taken as int);
            }
            nanos = nanos * 10 + (byte - 0x30) as u64;
            taken = taken + 1;
        }
        at = at + 1;
    }
    assert(fraction.subrange(0, at - after) == fraction);
    while taken < 9
        invariant
            taken <= 9,
            nine == nine_digits(fraction),
            fraction.len() <= taken || taken == 9,
            nanos == digits_value(nine.subrange(0, taken as int)),
            nanos <= nines(taken as int),
        decreases 9 - taken,
    {
        proof {
            digits_value_step(nine, taken as int);
        }
        nanos = nanos * 10;
        taken = taken + 1;
    }
    assert(nine.subrange(0, 9) == nine);
    match read_digits(line, from, point, 9_223_372_036) {
        None => None,
        Some(seconds) => {
            let size: u64 = seconds * 1_000_000_000 + nanos;
            if negative {
                if size == 0x8000_0000_0000_0000 {
                    Some(i64::MIN)
                } else if size < 0x8000_0000_0000_0000 {
                    Some(-(size as i64))
                } else {
                    None
                }
            } else if size <= 0x7fff_ffff_ffff_ffff {
                Some(size as i64)
            } else {
                None
            }
        },
    }
}

/// Reads the event that `line` writes.
pub fn parse_line(line: &[u8]) -> (result: Result<ScoreEvent, ScoreError>)
    ensures
        result == parsed(line@),
{
    let time_from: usize = blanks_end(line, 0);
    let time_to: usize = field_end(line, time_from);
    let pitch_from: usize = blanks_end(line, time_to);
    let pitch_to: usize = field_end(line, pitch_from);
    match (read_time(line, time_from, time_to), read_pitch(line, pitch_from, pitch_to)) {
        (Some(time), Some(pitch)) => Ok(ScoreEvent { time, pitch }),
        _ => Err(ScoreError::Format),
    }
}

} // verus!

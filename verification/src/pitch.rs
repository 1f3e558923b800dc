//! The pitches of the strings.
//!
//! String `p` sounds `p - 24` equal-tempered semitones above concert A, at
//! `440 * 2^((p - 24) / 12)` hertz. That number is irrational for most `p`, so
//! it is pinned down here through twelfth powers of whole numbers.

use crate::guitar_string::{SAMPLE_RATE, SAMPLE_RATE_MILLIS};
use crate::score::NUM_STRINGS;
use vstd::prelude::*;

verus! {

/// Frequency of concert A in hertz.
pub const CONCERT_A: u64 = 440;

/// The string that sounds concert A.
pub const CONCERT_A_PITCH: usize = 24;

/// Two to the power `exponent`.
pub open spec fn power_of_two(exponent: nat) -> int
    decreases exponent,
{
    if exponent == 0 {
        1
    } else {
        2 * power_of_two((exponent - 1) as nat)
    }
}

/// The twelfth power of `base`.
pub open spec fn twelfth_power(base: int) -> int {
    let square = base * base;
    let fourth = square * square;
    fourth * fourth * fourth
}

/// Whether `millihertz` is the whole number nearest to the frequency of
/// string `pitch` in thousandths of a hertz, that is
/// `millihertz - 1/2 <= 440000 * 2^((pitch - 24) / 12) < millihertz + 1/2`.
/// Doubled and raised to the twelfth power, both sides are whole numbers.
pub open spec fn is_pitch_frequency(pitch: nat, millihertz: int) -> bool {
    let doubled = twelfth_power(2 * 1000 * CONCERT_A) * power_of_two(pitch);
    let octaves = power_of_two(CONCERT_A_PITCH as nat);
    &&& millihertz > 0
    &&& twelfth_power(2 * millihertz - 1) * octaves <= doubled
    &&& doubled < twelfth_power(2 * millihertz + 1) * octaves
}

/// Whether `length` is the sample rate divided by the frequency of string
/// `pitch`, rounded down:
/// `length <= 44100 / (440 * 2^((pitch - 24) / 12)) < length + 1`.
pub open spec fn is_pitch_length(pitch: nat, length: int) -> bool {
    let rate = twelfth_power(SAMPLE_RATE as int) * power_of_two(CONCERT_A_PITCH as nat);
    let semitones = power_of_two(pitch);
    &&& length >= 0
    &&& twelfth_power(CONCERT_A * length) * semitones <= rate
    &&& rate < twelfth_power(CONCERT_A * (length + 1)) * semitones
}

/// Frequency of string `pitch` in millihertz, to the nearest whole number.
pub open spec fn pitch_millihertz(pitch: int) -> int {
    if pitch <= 0 {
        110000
    } else if pitch == 1 {
        116541
    } else if pitch == 2 {
        123471
    } else if pitch == 3 {
        130813
    } else if pitch == 4 {
        138591
    } else if pitch == 5 {
        146832
    } else if pitch == 6 {
        155563
    } else if pitch == 7 {
        164814
    } else if pitch == 8 {
        174614
    } else if pitch == 9 {
        184997
    } else if pitch == 10 {
        195998
    } else if pitch == 11 {
        207652
    } else if pitch == 12 {
        220000
    } else if pitch == 13 {
        233082
    } else if pitch == 14 {
        246942
    } else if pitch == 15 {
        261626
    } else if pitch == 16 {
        277183
    } else if pitch == 17 {
        293665
    } else if pitch == 18 {
        311127
    } else if pitch == 19 {
        329628
    } else if pitch == 20 {
        349228
    } else if pitch == 21 {
        369994
    } else if pitch == 22 {
        391995
    } else if pitch == 23 {
        415305
    } else if pitch == 24 {
        440000
    } else if pitch == 25 {
        466164
    } else if pitch == 26 {
        493883
    } else if pitch == 27 {
        523251
    } else if pitch == 28 {
        554365
    } else if pitch == 29 {
        587330
    } else if pitch == 30 {
        622254
    } else if pitch == 31 {
        659255
    } else if pitch == 32 {
        698456
    } else if pitch == 33 {
        739989
    } else if pitch == 34 {
        783991
    } else if pitch == 35 {
        830609
    } else {
        880000
    }
}

/// Frequency of string `pitch` in millihertz.
pub fn pitch_frequency(pitch: usize) -> (millihertz: u64)
    requires
        pitch < NUM_STRINGS,
    ensures
        millihertz == pitch_millihertz(pitch as int),
{
    match pitch {
        0 => 110000,
        1 => 116541,
        2 => 123471,
        3 => 130813,
        4 => 138591,
        5 => 146832,
        6 => 155563,
        7 => 164814,
        8 => 174614,
        9 => 184997,
        10 => 195998,
        11 => 207652,
        12 => 220000,
        13 => 233082,
        14 => 246942,
        15 => 261626,
        16 => 277183,
        17 => 293665,
        18 => 311127,
        19 => 329628,
        20 => 349228,
        21 => 369994,
        22 => 391995,
        23 => 415305,
        24 => 440000,
        25 => 466164,
        26 => 493883,
        27 => 523251,
        28 => 554365,
        29 => 587330,
        30 => 622254,
        31 => 659255,
        32 => 698456,
        33 => 739989,
        34 => 783991,
        35 => 830609,
        _ => 880000,
    }
}

/// Length of string `pitch`: the sample rate divided by the string's
/// frequency to the nearest millihertz, rounded down.
pub open spec fn pitch_length(pitch: int) -> nat {
    (SAMPLE_RATE_MILLIS as int / pitch_millihertz(pitch)) as nat
}

/// The powers of two up to the number of the highest string.
proof fn powers_of_two()
    ensures
        power_of_two(0) == 1,
        power_of_two(1) == 2,
        power_of_two(2) == 4,
        power_of_two(3) == 8,
        power_of_two(4) == 16,
        power_of_two(5) == 32,
        power_of_two(6) == 64,
        power_of_two(7) == 128,
        power_of_two(8) == 256,
        power_of_two(9) == 512,
        power_of_two(10) == 1024,
        power_of_two(11) == 2048,
        power_of_two(12) == 4096,
        power_of_two(13) == 8192,
        power_of_two(14) == 16384,
        power_of_two(15) == 32768,
        power_of_two(16) == 65536,
        power_of_two(17) == 131072,
        power_of_two(18) == 262144,
        power_of_two(19) == 524288,
        power_of_two(20) == 1048576,
        power_of_two(21) == 2097152,
        power_of_two(22) == 4194304,
        power_of_two(23) == 8388608,
        power_of_two(24) == 16777216,
        power_of_two(25) == 33554432,
        power_of_two(26) == 67108864,
        power_of_two(27) == 134217728,
        power_of_two(28) == 268435456,
        power_of_two(29) == 536870912,
        power_of_two(30) == 1073741824,
        power_of_two(31) == 2147483648,
        power_of_two(32) == 4294967296,
        power_of_two(33) == 8589934592,
        power_of_two(34) == 17179869184,
        power_of_two(35) == 34359738368,
        power_of_two(36) == 68719476736,
{
    reveal_with_fuel(power_of_two, 37);
}

/// Every entry of the frequency table is the whole number of millihertz
/// nearest to the equal-tempered frequency of its string.
pub proof fn pitch_millihertz_is_nearest(pitch: nat)
    requires
        pitch < NUM_STRINGS,
    ensures
        is_pitch_frequency(pitch, pitch_millihertz(pitch as int)),
{
    powers_of_two();
    if pitch == 0 {
        assert(twelfth_power(219999) * 16777216 <= twelfth_power(880000) * 1 < twelfth_power(220001)
            * 16777216) by (nonlinear_arith);
    } else if pitch == 1 {
        assert(twelfth_power(233081) * 16777216 <= twelfth_power(880000) * 2 < twelfth_power(233083)
            * 16777216) by (nonlinear_arith);
    } else if pitch == 2 {
        assert(twelfth_power(246941) * 16777216 <= twelfth_power(880000) * 4 < twelfth_power(246943)
            * 16777216) by (nonlinear_arith);
    } else if pitch == 3 {
        assert(twelfth_power(261625) * 16777216 <= twelfth_power(880000) * 8 < twelfth_power(261627)
            * 16777216) by (nonlinear_arith);
    } else if pitch == 4 {
        assert(twelfth_power(277181) * 16777216 <= twelfth_power(880000) * 16 < twelfth_power(277183)
            * 16777216) by (nonlinear_arith);
    } else if pitch == 5 {
        assert(twelfth_power(293663) * 16777216 <= twelfth_power(880000) * 32 < twelfth_power(293665)
            * 16777216) by (nonlinear_arith);
    } else if pitch == 6 {
        assert(twelfth_power(311125) * 16777216 <= twelfth_power(880000) * 64 < twelfth_power(311127)
            * 16777216) by (nonlinear_arith);
    } else if pitch == 7 {
        assert(twelfth_power(329627) * 16777216 <= twelfth_power(880000) * 128 < twelfth_power(329629)
            * 16777216) by (nonlinear_arith);
    } else if pitch == 8 {
        assert(twelfth_power(349227) * 16777216 <= twelfth_power(880000) * 256 < twelfth_power(349229)
            * 16777216) by (nonlinear_arith);
    } else if pitch == 9 {
        assert(twelfth_power(369993) * 16777216 <= twelfth_power(880000) * 512 < twelfth_power(369995)
            * 16777216) by (nonlinear_arith);
    } else if pitch == 10 {
        assert(twelfth_power(391995) * 16777216 <= twelfth_power(880000) * 1024 < twelfth_power(391997)
            * 16777216) by (nonlinear_arith);
    } else if pitch == 11 {
        assert(twelfth_power(415303) * 16777216 <= twelfth_power(880000) * 2048 < twelfth_power(415305)
            * 16777216) by (nonlinear_arith);
    } else if pitch == 12 {
        assert(twelfth_power(439999) * 16777216 <= twelfth_power(880000) * 4096 < twelfth_power(440001)
            * 16777216) by (nonlinear_arith);
    } else if pitch == 13 {
        assert(twelfth_power(466163) * 16777216 <= twelfth_power(880000) * 8192 < twelfth_power(466165)
            * 16777216) by (nonlinear_arith);
    } else if pitch == 14 {
        assert(twelfth_power(493883) * 16777216 <= twelfth_power(880000) * 16384 < twelfth_power(493885)
            * 16777216) by (nonlinear_arith);
    } else if pitch == 15 {
        assert(twelfth_power(523251) * 16777216 <= twelfth_power(880000) * 32768 < twelfth_power(523253)
            * 16777216) by (nonlinear_arith);
    } else if pitch == 16 {
        assert(twelfth_power(554365) * 16777216 <= twelfth_power(880000) * 65536 < twelfth_power(554367)
            * 16777216) by (nonlinear_arith);
    } else if pitch == 17 {
        assert(twelfth_power(587329) * 16777216 <= twelfth_power(880000) * 131072 < twelfth_power(587331)
            * 16777216) by (nonlinear_arith);
    } else if pitch == 18 {
        assert(twelfth_power(622253) * 16777216 <= twelfth_power(880000) * 262144 < twelfth_power(622255)
            * 16777216) by (nonlinear_arith);
    } else if pitch == 19 {
        assert(twelfth_power(659255) * 16777216 <= twelfth_power(880000) * 524288 < twelfth_power(659257)
            * 16777216) by (nonlinear_arith);
    } else if pitch == 20 {
        assert(twelfth_power(698455) * 16777216 <= twelfth_power(880000) * 1048576 < twelfth_power(698457)
            * 16777216) by (nonlinear_arith);
    } else if pitch == 21 {
        assert(twelfth_power(739987) * 16777216 <= twelfth_power(880000) * 2097152 < twelfth_power(739989)
            * 16777216) by (nonlinear_arith);
    } else if pitch == 22 {
        assert(twelfth_power(783989) * 16777216 <= twelfth_power(880000) * 4194304 < twelfth_power(783991)
            * 16777216) by (nonlinear_arith);
    } else if pitch == 23 {
        assert(twelfth_power(830609) * 16777216 <= twelfth_power(880000) * 8388608 < twelfth_power(830611)
            * 16777216) by (nonlinear_arith);
    } else if pitch == 24 {
        assert(twelfth_power(879999) * 16777216 <= twelfth_power(880000) * 16777216 < twelfth_power(880001)
            * 16777216) by (nonlinear_arith);
    } else if pitch == 25 {
        assert(twelfth_power(932327) * 16777216 <= twelfth_power(880000) * 33554432 < twelfth_power(932329)
            * 16777216) by (nonlinear_arith);
    } else if pitch == 26 {
        assert(twelfth_power(987765) * 16777216 <= twelfth_power(880000) * 67108864 < twelfth_power(987767)
            * 16777216) by (nonlinear_arith);
    } else if pitch == 27 {
        assert(twelfth_power(1046501) * 16777216 <= twelfth_power(880000) * 134217728 < twelfth_power(1046503)
            * 16777216) by (nonlinear_arith);
    } else if pitch == 28 {
        assert(twelfth_power(1108729) * 16777216 <= twelfth_power(880000) * 268435456 < twelfth_power(1108731)
            * 16777216) by (nonlinear_arith);
    } else if pitch == 29 {
        assert(twelfth_power(1174659) * 16777216 <= twelfth_power(880000) * 536870912 < twelfth_power(1174661)
            * 16777216) by (nonlinear_arith);
    } else if pitch == 30 {
        assert(twelfth_power(1244507) * 16777216 <= twelfth_power(880000) * 1073741824 < twelfth_power(1244509)
            * 16777216) by (nonlinear_arith);
    } else if pitch == 31 {
        assert(twelfth_power(1318509) * 16777216 <= twelfth_power(880000) * 2147483648 < twelfth_power(1318511)
            * 16777216) by (nonlinear_arith);
    } else if pitch == 32 {
        assert(twelfth_power(1396911) * 16777216 <= twelfth_power(880000) * 4294967296 < twelfth_power(1396913)
            * 16777216) by (nonlinear_arith);
    } else if pitch == 33 {
        assert(twelfth_power(1479977) * 16777216 <= twelfth_power(880000) * 8589934592 < twelfth_power(1479979)
            * 16777216) by (nonlinear_arith);
    } else if pitch == 34 {
        assert(twelfth_power(1567981) * 16777216 <= twelfth_power(880000) * 17179869184 < twelfth_power(1567983)
            * 16777216) by (nonlinear_arith);
    } else if pitch == 35 {
        assert(twelfth_power(1661217) * 16777216 <= twelfth_power(880000) * 34359738368 < twelfth_power(1661219)
            * 16777216) by (nonlinear_arith);
    } else if pitch == 36 {
        assert(twelfth_power(1759999) * 16777216 <= twelfth_power(880000) * 68719476736 < twelfth_power(1760001)
            * 16777216) by (nonlinear_arith);
    }
}

/// Rounding the frequency to whole millihertz costs nothing: the length of
/// every string is the sample rate divided by its exact equal-tempered
/// frequency, rounded down.
pub proof fn pitch_length_is_exact(pitch: nat)
    requires
        pitch < NUM_STRINGS,
    ensures
        is_pitch_length(pitch, pitch_length(pitch as int) as int),
{
    powers_of_two();
    if pitch == 0 {
        assert(twelfth_power(176000) * 1 <= twelfth_power(44100) * 16777216 < twelfth_power(176440)
            * 1) by (nonlinear_arith);
    } else if pitch == 1 {
        assert(twelfth_power(166320) * 2 <= twelfth_power(44100) * 16777216 < twelfth_power(166760)
            * 2) by (nonlinear_arith);
    } else if pitch == 2 {
        assert(twelfth_power(157080) * 4 <= twelfth_power(44100) * 16777216 < twelfth_power(157520)
            * 4) by (nonlinear_arith);
    } else if pitch == 3 {
        assert(twelfth_power(148280) * 8 <= twelfth_power(44100) * 16777216 < twelfth_power(148720)
            * 8) by (nonlinear_arith);
    } else if pitch == 4 {
        assert(twelfth_power(139920) * 16 <= twelfth_power(44100) * 16777216 < twelfth_power(140360)
            * 16) by (nonlinear_arith);
    } else if pitch == 5 {
        assert(twelfth_power(132000) * 32 <= twelfth_power(44100) * 16777216 < twelfth_power(132440)
            * 32) by (nonlinear_arith);
    } else if pitch == 6 {
        assert(twelfth_power(124520) * 64 <= twelfth_power(44100) * 16777216 < twelfth_power(124960)
            * 64) by (nonlinear_arith);
    } else if pitch == 7 {
        assert(twelfth_power(117480) * 128 <= twelfth_power(44100) * 16777216 < twelfth_power(117920)
            * 128) by (nonlinear_arith);
    } else if pitch == 8 {
        assert(twelfth_power(110880) * 256 <= twelfth_power(44100) * 16777216 < twelfth_power(111320)
            * 256) by (nonlinear_arith);
    } else if pitch == 9 {
        assert(twelfth_power(104720) * 512 <= twelfth_power(44100) * 16777216 < twelfth_power(105160)
            * 512) by (nonlinear_arith);
    } else if pitch == 10 {
        assert(twelfth_power(99000) * 1024 <= twelfth_power(44100) * 16777216 < twelfth_power(99440)
            * 1024) by (nonlinear_arith);
    } else if pitch == 11 {
        assert(twelfth_power(93280) * 2048 <= twelfth_power(44100) * 16777216 < twelfth_power(93720)
            * 2048) by (nonlinear_arith);
    } else if pitch == 12 {
        assert(twelfth_power(88000) * 4096 <= twelfth_power(44100) * 16777216 < twelfth_power(88440)
            * 4096) by (nonlinear_arith);
    } else if pitch == 13 {
        assert(twelfth_power(83160) * 8192 <= twelfth_power(44100) * 16777216 < twelfth_power(83600)
            * 8192) by (nonlinear_arith);
    } else if pitch == 14 {
        assert(twelfth_power(78320) * 16384 <= twelfth_power(44100) * 16777216 < twelfth_power(78760)
            * 16384) by (nonlinear_arith);
    } else if pitch == 15 {
        assert(twelfth_power(73920) * 32768 <= twelfth_power(44100) * 16777216 < twelfth_power(74360)
            * 32768) by (nonlinear_arith);
    } else if pitch == 16 {
        assert(twelfth_power(69960) * 65536 <= twelfth_power(44100) * 16777216 < twelfth_power(70400)
            * 65536) by (nonlinear_arith);
    } else if pitch == 17 {
        assert(twelfth_power(66000) * 131072 <= twelfth_power(44100) * 16777216 < twelfth_power(66440)
            * 131072) by (nonlinear_arith);
    } else if pitch == 18 {
        assert(twelfth_power(62040) * 262144 <= twelfth_power(44100) * 16777216 < twelfth_power(62480)
            * 262144) by (nonlinear_arith);
    } else if pitch == 19 {
        assert(twelfth_power(58520) * 524288 <= twelfth_power(44100) * 16777216 < twelfth_power(58960)
            * 524288) by (nonlinear_arith);
    } else if pitch == 20 {
        assert(twelfth_power(55440) * 1048576 <= twelfth_power(44100) * 16777216 < twelfth_power(55880)
            * 1048576) by (nonlinear_arith);
    } else if pitch == 21 {
        assert(twelfth_power(52360) * 2097152 <= twelfth_power(44100) * 16777216 < twelfth_power(52800)
            * 2097152) by (nonlinear_arith);
    } else if pitch == 22 {
        assert(twelfth_power(49280) * 4194304 <= twelfth_power(44100) * 16777216 < twelfth_power(49720)
            * 4194304) by (nonlinear_arith);
    } else if pitch == 23 {
        assert(twelfth_power(46640) * 8388608 <= twelfth_power(44100) * 16777216 < twelfth_power(47080)
            * 8388608) by (nonlinear_arith);
    } else if pitch == 24 {
        assert(twelfth_power(44000) * 16777216 <= twelfth_power(44100) * 16777216 < twelfth_power(44440)
            * 16777216) by (nonlinear_arith);
    } else if pitch == 25 {
        assert(twelfth_power(41360) * 33554432 <= twelfth_power(44100) * 16777216 < twelfth_power(41800)
            * 33554432) by (nonlinear_arith);
    } else if pitch == 26 {
        assert(twelfth_power(39160) * 67108864 <= twelfth_power(44100) * 16777216 < twelfth_power(39600)
            * 67108864) by (nonlinear_arith);
    } else if pitch == 27 {
        assert(twelfth_power(36960) * 134217728 <= twelfth_power(44100) * 16777216 < twelfth_power(37400)
            * 134217728) by (nonlinear_arith);
    } else if pitch == 28 {
        assert(twelfth_power(34760) * 268435456 <= twelfth_power(44100) * 16777216 < twelfth_power(35200)
            * 268435456) by (nonlinear_arith);
    } else if pitch == 29 {
        assert(twelfth_power(33000) * 536870912 <= twelfth_power(44100) * 16777216 < twelfth_power(33440)
            * 536870912) by (nonlinear_arith);
    } else if pitch == 30 {
        assert(twelfth_power(30800) * 1073741824 <= twelfth_power(44100) * 16777216 < twelfth_power(31240)
            * 1073741824) by (nonlinear_arith);
    } else if pitch == 31 {
        assert(twelfth_power(29040) * 2147483648 <= twelfth_power(44100) * 16777216 < twelfth_power(29480)
            * 2147483648) by (nonlinear_arith);
    } else if pitch == 32 {
        assert(twelfth_power(27720) * 4294967296 <= twelfth_power(44100) * 16777216 < twelfth_power(28160)
            * 4294967296) by (nonlinear_arith);
    } else if pitch == 33 {
        assert(twelfth_power(25960) * 8589934592 <= twelfth_power(44100) * 16777216 < twelfth_power(26400)
            * 8589934592) by (nonlinear_arith);
    } else if pitch == 34 {
        assert(twelfth_power(24640) * 17179869184 <= twelfth_power(44100) * 16777216 < twelfth_power(25080)
            * 17179869184) by (nonlinear_arith);
    } else if pitch == 35 {
        assert(twelfth_power(23320) * 34359738368 <= twelfth_power(44100) * 16777216 < twelfth_power(23760)
            * 34359738368) by (nonlinear_arith);
    } else if pitch == 36 {
        assert(twelfth_power(22000) * 68719476736 <= twelfth_power(44100) * 16777216 < twelfth_power(22440)
            * 68719476736) by (nonlinear_arith);
    }
}

} // verus!

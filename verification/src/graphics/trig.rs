//! Fixed-point trigonometry for the turtle interpreter.
//!
//! Headings are whole tenths of a degree in `[0, 3600)`; sines and cosines
//! are integers scaled by [`SIN_SCALE`]. The quarter-wave table below holds
//! the scaled sine at each whole degree from 0 to 90; tenths between whole
//! degrees are linearly interpolated, and the other quadrants follow by
//! symmetry. The table is the definition of the library's trigonometry: both
//! interpreter passes read the same values, which is what the geometry
//! contracts depend on.

use vstd::prelude::*;

verus! {

/// Scale of the fixed-point sine and cosine values: the sine of a quarter
/// turn is represented as exactly `SIN_SCALE`.
pub const SIN_SCALE: i64 = 4096;

/// The scaled sine of `d` whole degrees, for `d` in `[0, 90]`.
pub open spec fn spec_sin_table(d: int) -> int {
    if d <= 0 {
        0
    } else if d == 1 {
        71
    } else if d == 2 {
        143
    } else if d == 3 {
        214
    } else if d == 4 {
        286
    } else if d == 5 {
        357
    } else if d == 6 {
        428
    } else if d == 7 {
        499
    } else if d == 8 {
        570
    } else if d == 9 {
        641
    } else if d == 10 {
        711
    } else if d == 11 {
        782
    } else if d == 12 {
        852
    } else if d == 13 {
        921
    } else if d == 14 {
        991
    } else if d == 15 {
        1060
    } else if d == 16 {
        1129
    } else if d == 17 {
        1198
    } else if d == 18 {
        1266
    } else if d == 19 {
        1334
    } else if d == 20 {
        1401
    } else if d == 21 {
        1468
    } else if d == 22 {
        1534
    } else if d == 23 {
        1600
    } else if d == 24 {
        1666
    } else if d == 25 {
        1731
    } else if d == 26 {
        1796
    } else if d == 27 {
        1860
    } else if d == 28 {
        1923
    } else if d == 29 {
        1986
    } else if d == 30 {
        2048
    } else if d == 31 {
        2110
    } else if d == 32 {
        2171
    } else if d == 33 {
        2231
    } else if d == 34 {
        2290
    } else if d == 35 {
        2349
    } else if d == 36 {
        2408
    } else if d == 37 {
        2465
    } else if d == 38 {
        2522
    } else if d == 39 {
        2578
    } else if d == 40 {
        2633
    } else if d == 41 {
        2687
    } else if d == 42 {
        2741
    } else if d == 43 {
        2793
    } else if d == 44 {
        2845
    } else if d == 45 {
        2896
    } else if d == 46 {
        2946
    } else if d == 47 {
        2996
    } else if d == 48 {
        3044
    } else if d == 49 {
        3091
    } else if d == 50 {
        3138
    } else if d == 51 {
        3183
    } else if d == 52 {
        3228
    } else if d == 53 {
        3271
    } else if d == 54 {
        3314
    } else if d == 55 {
        3355
    } else if d == 56 {
        3396
    } else if d == 57 {
        3435
    } else if d == 58 {
        3474
    } else if d == 59 {
        3511
    } else if d == 60 {
        3547
    } else if d == 61 {
        3582
    } else if d == 62 {
        3617
    } else if d == 63 {
        3650
    } else if d == 64 {
        3681
    } else if d == 65 {
        3712
    } else if d == 66 {
        3742
    } else if d == 67 {
        3770
    } else if d == 68 {
        3798
    } else if d == 69 {
        3824
    } else if d == 70 {
        3849
    } else if d == 71 {
        3873
    } else if d == 72 {
        3896
    } else if d == 73 {
        3917
    } else if d == 74 {
        3937
    } else if d == 75 {
        3956
    } else if d == 76 {
        3974
    } else if d == 77 {
        3991
    } else if d == 78 {
        4006
    } else if d == 79 {
        4021
    } else if d == 80 {
        4034
    } else if d == 81 {
        4046
    } else if d == 82 {
        4056
    } else if d == 83 {
        4065
    } else if d == 84 {
        4074
    } else if d == 85 {
        4080
    } else if d == 86 {
        4086
    } else if d == 87 {
        4090
    } else if d == 88 {
        4094
    } else if d == 89 {
        4095
    } else {
        4096
    }
}

/// The scaled sine of `t` tenths of a degree for `t` in `[0, 900]`: table
/// values at whole degrees, linear interpolation between them.
pub open spec fn spec_sin_quarter(t: int) -> int {
    let d = t / 10;
    let r = t % 10;
    spec_sin_table(d) + (spec_sin_table(d + 1) - spec_sin_table(d)) * r / 10
}

/// The scaled sine of a heading `h` in tenths of a degree, `[0, 3600)`:
/// the first two quadrants mirror the quarter table, the second half turn is
/// its negation.
pub open spec fn spec_sin_fp(h: int) -> int {
    if h <= 900 {
        spec_sin_quarter(h)
    } else if h <= 1800 {
        spec_sin_quarter(1800 - h)
    } else if h <= 2700 {
        -spec_sin_quarter(h - 1800)
    } else {
        -spec_sin_quarter(3600 - h)
    }
}

/// The scaled cosine of a heading: the sine a quarter turn ahead.
pub open spec fn spec_cos_fp(h: int) -> int {
    spec_sin_fp((h + 900) % 3600)
}

/// The quarter table at whole degrees.
fn sin_table(d: u16) -> (r: u16)
    requires
        d <= 90,
    ensures
        r == spec_sin_table(d as int),
{
    match d {
        0 => 0,
        1 => 71,
        2 => 143,
        3 => 214,
        4 => 286,
        5 => 357,
        6 => 428,
        7 => 499,
        8 => 570,
        9 => 641,
        10 => 711,
        11 => 782,
        12 => 852,
        13 => 921,
        14 => 991,
        15 => 1060,
        16 => 1129,
        17 => 1198,
        18 => 1266,
        19 => 1334,
        20 => 1401,
        21 => 1468,
        22 => 1534,
        23 => 1600,
        24 => 1666,
        25 => 1731,
        26 => 1796,
        27 => 1860,
        28 => 1923,
        29 => 1986,
        30 => 2048,
        31 => 2110,
        32 => 2171,
        33 => 2231,
        34 => 2290,
        35 => 2349,
        36 => 2408,
        37 => 2465,
        38 => 2522,
        39 => 2578,
        40 => 2633,
        41 => 2687,
        42 => 2741,
        43 => 2793,
        44 => 2845,
        45 => 2896,
        46 => 2946,
        47 => 2996,
        48 => 3044,
        49 => 3091,
        50 => 3138,
        51 => 3183,
        52 => 3228,
        53 => 3271,
        54 => 3314,
        55 => 3355,
        56 => 3396,
        57 => 3435,
        58 => 3474,
        59 => 3511,
        60 => 3547,
        61 => 3582,
        62 => 3617,
        63 => 3650,
        64 => 3681,
        65 => 3712,
        66 => 3742,
        67 => 3770,
        68 => 3798,
        69 => 3824,
        70 => 3849,
        71 => 3873,
        72 => 3896,
        73 => 3917,
        74 => 3937,
        75 => 3956,
        76 => 3974,
        77 => 3991,
        78 => 4006,
        79 => 4021,
        80 => 4034,
        81 => 4046,
        82 => 4056,
        83 => 4065,
        84 => 4074,
        85 => 4080,
        86 => 4086,
        87 => 4090,
        88 => 4094,
        89 => 4095,
        _ => 4096,
    }
}

/// Table entries grow with the angle and stay within the scale.
proof fn lemma_sin_table_bounds(d: int)
    ensures
        0 <= spec_sin_table(d) <= SIN_SCALE,
        spec_sin_table(d) <= spec_sin_table(d + 1),
{
}

/// The interpolated quarter-wave sine stays within the scale.
proof fn lemma_sin_quarter_bounds(t: int)
    requires
        0 <= t <= 900,
    ensures
        0 <= spec_sin_quarter(t) <= SIN_SCALE,
{
    let d = t / 10;
    let r = t % 10;
    lemma_sin_table_bounds(d);
    let diff = spec_sin_table(d + 1) - spec_sin_table(d);
    assert(diff * r / 10 >= 0) by (nonlinear_arith)
        requires
            diff >= 0,
            r >= 0,
    ;
    assert(diff * r / 10 <= diff) by (nonlinear_arith)
        requires
            diff >= 0,
            0 <= r <= 9,
    ;
}

/// Every sine value lies within the scale.
proof fn lemma_sin_fp_bounds(h: int)
    requires
        0 <= h < 3600,
    ensures
        -SIN_SCALE <= spec_sin_fp(h) <= SIN_SCALE,
{
    if h <= 900 {
        lemma_sin_quarter_bounds(h);
    } else if h <= 1800 {
        lemma_sin_quarter_bounds(1800 - h);
    } else if h <= 2700 {
        lemma_sin_quarter_bounds(h - 1800);
    } else {
        lemma_sin_quarter_bounds(3600 - h);
    }
}

/// The scaled sine of `t` tenths of a degree, `t` in `[0, 900]`.
fn sin_quarter(t: u16) -> (r: u16)
    requires
        t <= 900,
    ensures
        r == spec_sin_quarter(t as int),
        r <= 4096,
{
    let d = t / 10;
    let r10 = t % 10;
    let base = sin_table(d);
    proof {
        lemma_sin_table_bounds(d as int);
        lemma_sin_table_bounds(d as int + 1);
    }
    if r10 == 0 {
        base
    } else {
        let next = sin_table(d + 1);
        proof {
            assert((next - base) * r10 / 10 >= 0) by (nonlinear_arith)
                requires
                    next >= base,
                    r10 >= 0,
            ;
            assert((next - base) * r10 / 10 <= next - base) by (nonlinear_arith)
                requires
                    next >= base,
                    0 <= r10 <= 9,
            ;
        }
        base + ((next - base) * r10 / 10) as u16
    }
}

/// The scaled sine of a heading in tenths of a degree.
pub fn sin_fp(h: u16) -> (r: i32)
    requires
        h < 3600,
    ensures
        r == spec_sin_fp(h as int),
        -4096 <= r <= 4096,
{
    proof {
        lemma_sin_fp_bounds(h as int);
    }
    if h <= 900 {
        sin_quarter(h) as i32
    } else if h <= 1800 {
        sin_quarter(1800 - h) as i32
    } else if h <= 2700 {
        -(sin_quarter(h - 1800) as i32)
    } else {
        -(sin_quarter(3600 - h) as i32)
    }
}

/// The scaled cosine of a heading in tenths of a degree.
pub fn cos_fp(h: u16) -> (r: i32)
    requires
        h < 3600,
    ensures
        r == spec_cos_fp(h as int),
        -4096 <= r <= 4096,
{
    sin_fp((h + 900) % 3600)
}

} // verus!

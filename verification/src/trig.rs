//! A fixed-point tangent table at whole-degree resolution, and its
//! inverse (rounding a tangent value to the nearest whole degree).
//! Tangents are stored in thousandths (milli-units).

use vstd::prelude::*;

verus! {

/// Tangent of `d` degrees in milli-units, rounded to nearest, for
/// `0 <= d <= 89`; `0` outside that range.
pub open spec fn tan_milli(d: int) -> int {
    if d == 0 {
        0
    } else if d == 1 {
        17
    } else if d == 2 {
        35
    } else if d == 3 {
        52
    } else if d == 4 {
        70
    } else if d == 5 {
        87
    } else if d == 6 {
        105
    } else if d == 7 {
        123
    } else if d == 8 {
        141
    } else if d == 9 {
        158
    } else if d == 10 {
        176
    } else if d == 11 {
        194
    } else if d == 12 {
        213
    } else if d == 13 {
        231
    } else if d == 14 {
        249
    } else if d == 15 {
        268
    } else if d == 16 {
        287
    } else if d == 17 {
        306
    } else if d == 18 {
        325
    } else if d == 19 {
        344
    } else if d == 20 {
        364
    } else if d == 21 {
        384
    } else if d == 22 {
        404
    } else if d == 23 {
        424
    } else if d == 24 {
        445
    } else if d == 25 {
        466
    } else if d == 26 {
        488
    } else if d == 27 {
        510
    } else if d == 28 {
        532
    } else if d == 29 {
        554
    } else if d == 30 {
        577
    } else if d == 31 {
        601
    } else if d == 32 {
        625
    } else if d == 33 {
        649
    } else if d == 34 {
        675
    } else if d == 35 {
        700
    } else if d == 36 {
        727
    } else if d == 37 {
        754
    } else if d == 38 {
        781
    } else if d == 39 {
        810
    } else if d == 40 {
        839
    } else if d == 41 {
        869
    } else if d == 42 {
        900
    } else if d == 43 {
        933
    } else if d == 44 {
        966
    } else if d == 45 {
        1000
    } else if d == 46 {
        1036
    } else if d == 47 {
        1072
    } else if d == 48 {
        1111
    } else if d == 49 {
        1150
    } else if d == 50 {
        1192
    } else if d == 51 {
        1235
    } else if d == 52 {
        1280
    } else if d == 53 {
        1327
    } else if d == 54 {
        1376
    } else if d == 55 {
        1428
    } else if d == 56 {
        1483
    } else if d == 57 {
        1540
    } else if d == 58 {
        1600
    } else if d == 59 {
        1664
    } else if d == 60 {
        1732
    } else if d == 61 {
        1804
    } else if d == 62 {
        1881
    } else if d == 63 {
        1963
    } else if d == 64 {
        2050
    } else if d == 65 {
        2145
    } else if d == 66 {
        2246
    } else if d == 67 {
        2356
    } else if d == 68 {
        2475
    } else if d == 69 {
        2605
    } else if d == 70 {
        2747
    } else if d == 71 {
        2904
    } else if d == 72 {
        3078
    } else if d == 73 {
        3271
    } else if d == 74 {
        3487
    } else if d == 75 {
        3732
    } else if d == 76 {
        4011
    } else if d == 77 {
        4331
    } else if d == 78 {
        4705
    } else if d == 79 {
        5145
    } else if d == 80 {
        5671
    } else if d == 81 {
        6314
    } else if d == 82 {
        7115
    } else if d == 83 {
        8144
    } else if d == 84 {
        9514
    } else if d == 85 {
        11430
    } else if d == 86 {
        14301
    } else if d == 87 {
        19081
    } else if d == 88 {
        28636
    } else if d == 89 {
        57290
    } else {
        0
    }
}

/// Tangent in milli-units of a signed degree, `-89 <= d <= 89`.
pub open spec fn tan_signed(d: int) -> int {
    if d >= 0 {
        tan_milli(d)
    } else {
        -tan_milli(-d)
    }
}

/// Table lookup matching `tan_milli`.
pub fn tan_lookup(d: i32) -> (t: i64)
    requires
        0 <= d <= 89,
    ensures
        t == tan_milli(d as int),
        0 <= t <= 57290,
{
    if d == 0 {
        0
    } else if d == 1 {
        17
    } else if d == 2 {
        35
    } else if d == 3 {
        52
    } else if d == 4 {
        70
    } else if d == 5 {
        87
    } else if d == 6 {
        105
    } else if d == 7 {
        123
    } else if d == 8 {
        141
    } else if d == 9 {
        158
    } else if d == 10 {
        176
    } else if d == 11 {
        194
    } else if d == 12 {
        213
    } else if d == 13 {
        231
    } else if d == 14 {
        249
    } else if d == 15 {
        268
    } else if d == 16 {
        287
    } else if d == 17 {
        306
    } else if d == 18 {
        325
    } else if d == 19 {
        344
    } else if d == 20 {
        364
    } else if d == 21 {
        384
    } else if d == 22 {
        404
    } else if d == 23 {
        424
    } else if d == 24 {
        445
    } else if d == 25 {
        466
    } else if d == 26 {
        488
    } else if d == 27 {
        510
    } else if d == 28 {
        532
    } else if d == 29 {
        554
    } else if d == 30 {
        577
    } else if d == 31 {
        601
    } else if d == 32 {
        625
    } else if d == 33 {
        649
    } else if d == 34 {
        675
    } else if d == 35 {
        700
    } else if d == 36 {
        727
    } else if d == 37 {
        754
    } else if d == 38 {
        781
    } else if d == 39 {
        810
    } else if d == 40 {
        839
    } else if d == 41 {
        869
    } else if d == 42 {
        900
    } else if d == 43 {
        933
    } else if d == 44 {
        966
    } else if d == 45 {
        1000
    } else if d == 46 {
        1036
    } else if d == 47 {
        1072
    } else if d == 48 {
        1111
    } else if d == 49 {
        1150
    } else if d == 50 {
        1192
    } else if d == 51 {
        1235
    } else if d == 52 {
        1280
    } else if d == 53 {
        1327
    } else if d == 54 {
        1376
    } else if d == 55 {
        1428
    } else if d == 56 {
        1483
    } else if d == 57 {
        1540
    } else if d == 58 {
        1600
    } else if d == 59 {
        1664
    } else if d == 60 {
        1732
    } else if d == 61 {
        1804
    } else if d == 62 {
        1881
    } else if d == 63 {
        1963
    } else if d == 64 {
        2050
    } else if d == 65 {
        2145
    } else if d == 66 {
        2246
    } else if d == 67 {
        2356
    } else if d == 68 {
        2475
    } else if d == 69 {
        2605
    } else if d == 70 {
        2747
    } else if d == 71 {
        2904
    } else if d == 72 {
        3078
    } else if d == 73 {
        3271
    } else if d == 74 {
        3487
    } else if d == 75 {
        3732
    } else if d == 76 {
        4011
    } else if d == 77 {
        4331
    } else if d == 78 {
        4705
    } else if d == 79 {
        5145
    } else if d == 80 {
        5671
    } else if d == 81 {
        6314
    } else if d == 82 {
        7115
    } else if d == 83 {
        8144
    } else if d == 84 {
        9514
    } else if d == 85 {
        11430
    } else if d == 86 {
        14301
    } else if d == 87 {
        19081
    } else if d == 88 {
        28636
    } else if d == 89 {
        57290
    } else {
        0
    }
}

/// Absolute difference.
pub open spec fn dist(a: int, b: int) -> int {
    if a >= b {
        a - b
    } else {
        b - a
    }
}

/// The degree in `[0, d]` whose tangent is closest to `t` (ties go to
/// the smaller degree).
pub open spec fn atan_best_upto(t: int, d: int) -> int
    decreases d,
{
    if d <= 0 {
        0
    } else {
        let b = atan_best_upto(t, d - 1);
        if dist(tan_milli(d), t) < dist(tan_milli(b), t) {
            d
        } else {
            b
        }
    }
}

/// The whole degree in `[-89, 89]` whose tangent is nearest to `t`
/// milli-units: the rounding used to turn a quadratic root back into
/// a launch angle.
pub open spec fn atan_deg(t: int) -> int {
    if t >= 0 {
        atan_best_upto(t, 89)
    } else {
        -atan_best_upto(-t, 89)
    }
}

pub proof fn lemma_atan_best_range(t: int, d: int)
    requires
        0 <= d <= 89,
    ensures
        0 <= atan_best_upto(t, d) <= d,
    decreases d,
{
    if d > 0 {
        lemma_atan_best_range(t, d - 1);
    }
}

/// Nearest-degree arc tangent by scanning the table.
pub fn atan_lookup(t: i128) -> (d: i32)
    requires
        t > i128::MIN,
    ensures
        d == atan_deg(t as int),
        -89 <= d <= 89,
{
    let neg: bool = t < 0;
    let tu: i128 = if neg {
        -t
    } else {
        t
    };
    let mut best: i32 = 0;
    let mut bdist: i128 = tu;
    let mut dd: i32 = 1;
    while dd <= 89
        invariant
            1 <= dd <= 90,
            0 <= best < dd,
            tu >= 0,
            best == atan_best_upto(tu as int, dd - 1),
            bdist == dist(tan_milli(best as int), tu as int),
        decreases 90 - dd,
    {
        let tv: i128 = tan_lookup(dd) as i128;
        let dcur: i128 = if tv >= tu {
            tv - tu
        } else {
            tu - tv
        };
        if dcur < bdist {
            best = dd;
            bdist = dcur;
        }
        dd = dd + 1;
    }
    if neg {
        -best
    } else {
        best
    }
}

/// The rounded arc tangent always lies strictly inside `(-90, 90)`.
pub proof fn lemma_atan_deg_range(t: int)
    ensures
        -89 <= atan_deg(t) <= 89,
{
    lemma_atan_best_range(t, 89);
    lemma_atan_best_range(-t, 89);
}

} // verus!

//! Letter grades from judged-hit counts. The grades compare ratios of hit counts
//! with fixed fractions (more than 90 % 300s, at most 1 % 50s, ...); here every
//! ratio is compared exactly, by cross-multiplying whole numbers.
use vstd::prelude::*;

verus! {

/// A grade before it is named: the names depend on Hidden or Flashlight.
#[derive(Debug, Clone, Copy, PartialEq, Eq)]
pub enum HitGrade {
    Perfect,
    S,
    A,
    B,
    C,
    D,
}

/// `part / total > num / den` as exact fractions, for `den > 0` and `total != 0`.
pub open spec fn ratio_above(part: int, total: int, num: int, den: int) -> bool {
    if total > 0 {
        part * den > num * total
    } else {
        part * den < num * total
    }
}

/// `part / total < num / den` as exact fractions, for `den > 0` and `total != 0`.
pub open spec fn ratio_below(part: int, total: int, num: int, den: int) -> bool {
    if total > 0 {
        part * den < num * total
    } else {
        part * den > num * total
    }
}

/// The grade tosu gives a play in osu! or taiko: perfect when nothing was judged
/// or every hit was a 300; S above 90 % 300s with under 1 % 50s and no miss; A
/// above 80 % 300s without a miss or above 90 %; B above 70 % without a miss or
/// above 80 %; C above 60 %; D below.
pub open spec fn tosu_hit_grade(h300: int, h100: int, h50: int, miss: int) -> HitGrade {
    let total = h300 + h100 + h50 + miss;
    if total == 0 || h300 == total {
        HitGrade::Perfect
    } else if ratio_above(h300, total, 9, 10) && ratio_below(h50, total, 1, 100) && miss == 0 {
        HitGrade::S
    } else if (ratio_above(h300, total, 8, 10) && miss == 0) || ratio_above(h300, total, 9, 10) {
        HitGrade::A
    } else if (ratio_above(h300, total, 7, 10) && miss == 0) || ratio_above(h300, total, 8, 10) {
        HitGrade::B
    } else if ratio_above(h300, total, 6, 10) {
        HitGrade::C
    } else {
        HitGrade::D
    }
}

/// Hidden (8) or Flashlight (1024) turn the top grades silver.
pub open spec fn silver_mods_spec(mods: u32) -> bool {
    mods & 8 != 0 || mods & 1024 != 0
}

/// tosu's name of a grade: `X`/`XH` for perfect, `S`/`SH`, then `A` to `D`.
pub open spec fn tosu_grade_name_spec(grade: HitGrade, silver: bool) -> Seq<char> {
    match grade {
        HitGrade::Perfect => if silver {
            "XH"@
        } else {
            "X"@
        },
        HitGrade::S => if silver {
            "SH"@
        } else {
            "S"@
        },
        HitGrade::A => "A"@,
        HitGrade::B => "B"@,
        HitGrade::C => "C"@,
        HitGrade::D => "D"@,
    }
}

/// The grade of a play by the client's own rule: `F` when failed; `SS` when
/// nothing was judged; `SS`/`SSH` when every hit was a 300; `S`/`SH` above 90 %
/// 300s with at most 1 % 50s and no miss; then `A` to `D` as for tosu.
pub open spec fn play_grade_spec(h300: int, h100: int, h50: int, miss: int, failed: bool, silver: bool) -> Seq<char> {
    let total = h300 + h100 + h50 + miss;
    if failed {
        "F"@
    } else if total <= 0 {
        "SS"@
    } else if h300 == total {
        if silver {
            "SSH"@
        } else {
            "SS"@
        }
    } else if 10 * h300 > 9 * total && 100 * h50 <= total && miss == 0 {
        if silver {
            "SH"@
        } else {
            "S"@
        }
    } else if (10 * h300 > 8 * total && miss == 0) || 10 * h300 > 9 * total {
        "A"@
    } else if (10 * h300 > 7 * total && miss == 0) || 10 * h300 > 8 * total {
        "B"@
    } else if 10 * h300 > 6 * total {
        "C"@
    } else {
        "D"@
    }
}

/// The client's grade by bands of the share of 300s among the judged hits (with
/// `t` the judged total, `r` the share): `F` for a failed play; `SS` when nothing
/// was judged; `SS`/`SSH` for all 300s; `S`/`SH` above 90 % with at most 1 % 50s
/// and no miss; otherwise `A` above 90 % whatever the misses, or above 80 % with no
/// miss; `B` above 80 % with a miss, or above 70 % with none; `C` above 70 % with a
/// miss, or above 60 %; `D` at 60 % or below.
pub proof fn lemma_play_grade_bands(h300: int, h100: int, h50: int, miss: int, failed: bool, silver: bool)
    ensures
        failed ==> play_grade_spec(h300, h100, h50, miss, failed, silver) == "F"@,
        !failed && h300 + h100 + h50 + miss <= 0 ==> play_grade_spec(h300, h100, h50, miss, failed, silver) == "SS"@,
        ({
            let t = h300 + h100 + h50 + miss;
            let g = play_grade_spec(h300, h100, h50, miss, failed, silver);
            &&& !failed && t > 0 && h300 == t ==> g == (if silver { "SSH"@ } else { "SS"@ })
            &&& !failed && t > 0 && h300 != t && h300 * 10 > t * 9 && h50 * 100 <= t && miss == 0 ==> g == (
                if silver { "SH"@ } else { "S"@ })
            &&& !failed && t > 0 && h300 != t && h300 * 10 > t * 9 && !(h50 * 100 <= t && miss == 0) ==> g == "A"@
            &&& !failed && t > 0 && t * 8 < h300 * 10 <= t * 9 && miss == 0 ==> g == "A"@
            &&& !failed && t > 0 && t * 8 < h300 * 10 <= t * 9 && miss != 0 ==> g == "B"@
            &&& !failed && t > 0 && t * 7 < h300 * 10 <= t * 8 && miss == 0 ==> g == "B"@
            &&& !failed && t > 0 && t * 7 < h300 * 10 <= t * 8 && miss != 0 ==> g == "C"@
            &&& !failed && t > 0 && t * 6 < h300 * 10 <= t * 7 ==> g == "C"@
            &&& !failed && t > 0 && h300 * 10 <= t * 6 ==> g == "D"@
        }),
{
}

/// tosu's grade by the same bands, for plays with judged hits (`t > 0`): perfect
/// for all 300s; S above 90 % 300s with under 1 % 50s and no miss; A above 90 %
/// whatever the misses, or above 80 % with no miss; B above 80 % with a miss, or
/// above 70 % with none; C above 70 % with a miss, or above 60 %; D at 60 % or
/// below. Nothing judged is perfect.
pub proof fn lemma_tosu_grade_bands(h300: int, h100: int, h50: int, miss: int)
    ensures
        h300 + h100 + h50 + miss == 0 ==> tosu_hit_grade(h300, h100, h50, miss) == HitGrade::Perfect,
        ({
            let t = h300 + h100 + h50 + miss;
            let g = tosu_hit_grade(h300, h100, h50, miss);
            &&& t > 0 && h300 == t ==> g == HitGrade::Perfect
            &&& t > 0 && h300 != t && h300 * 10 > t * 9 && h50 * 100 < t && miss == 0 ==> g == HitGrade::S
            &&& t > 0 && h300 != t && h300 * 10 > t * 9 && !(h50 * 100 < t && miss == 0) ==> g == HitGrade::A
            &&& t > 0 && t * 8 < h300 * 10 <= t * 9 && miss == 0 ==> g == HitGrade::A
            &&& t > 0 && t * 8 < h300 * 10 <= t * 9 && miss != 0 ==> g == HitGrade::B
            &&& t > 0 && t * 7 < h300 * 10 <= t * 8 && miss == 0 ==> g == HitGrade::B
            &&& t > 0 && t * 7 < h300 * 10 <= t * 8 && miss != 0 ==> g == HitGrade::C
            &&& t > 0 && t * 6 < h300 * 10 <= t * 7 ==> g == HitGrade::C
            &&& t > 0 && h300 * 10 <= t * 6 ==> g == HitGrade::D
        }),
{
}

/// Whether `mods` hold Hidden or Flashlight.
pub fn silver_mods(mods: u32) -> (res: bool)
    ensures
        res == silver_mods_spec(mods),
{
    mods & 8 != 0 || mods & 1024 != 0
}

/// `part / total > num / den`, exactly; the products stay far inside `i64`.
fn above(part: i64, total: i64, num: i64, den: i64) -> (res: bool)
    requires
        -0x40000 <= part <= 0x40000,
        -0x40000 <= total <= 0x40000,
        0 <= num <= 100,
        0 < den <= 100,
    ensures
        res == ratio_above(part as int, total as int, num as int, den as int),
{
    assert(-0x40000 * 100 <= part * den <= 0x40000 * 100) by (nonlinear_arith)
        requires
            -0x40000 <= part <= 0x40000,
            0 < den <= 100,
    ;
    assert(-0x40000 * 100 <= num * total <= 0x40000 * 100) by (nonlinear_arith)
        requires
            -0x40000 <= total <= 0x40000,
            0 <= num <= 100,
    ;
    if total > 0 {
        part * den > num * total
    } else {
        part * den < num * total
    }
}

/// `part / total < num / den`, exactly.
fn below(part: i64, total: i64, num: i64, den: i64) -> (res: bool)
    requires
        -0x40000 <= part <= 0x40000,
        -0x40000 <= total <= 0x40000,
        0 <= num <= 100,
        0 < den <= 100,
    ensures
        res == ratio_below(part as int, total as int, num as int, den as int),
{
    assert(-0x40000 * 100 <= part * den <= 0x40000 * 100) by (nonlinear_arith)
        requires
            -0x40000 <= part <= 0x40000,
            0 < den <= 100,
    ;
    assert(-0x40000 * 100 <= num * total <= 0x40000 * 100) by (nonlinear_arith)
        requires
            -0x40000 <= total <= 0x40000,
            0 <= num <= 100,
    ;
    if total > 0 {
        part * den < num * total
    } else {
        part * den > num * total
    }
}

/// The grade tosu gives the hit counts of an osu! or taiko play.
pub fn tosu_grade_of_hits(hit_300: i16, hit_100: i16, hit_50: i16, hit_miss: i16) -> (res: HitGrade)
    ensures
        res == tosu_hit_grade(hit_300 as int, hit_100 as int, hit_50 as int, hit_miss as int),
{
    let h300 = hit_300 as i64;
    let h50 = hit_50 as i64;
    let total: i64 = h300 + hit_100 as i64 + h50 + hit_miss as i64;
    if total == 0 || h300 == total {
        HitGrade::Perfect
    } else if above(h300, total, 9, 10) && below(h50, total, 1, 100) && hit_miss == 0 {
        HitGrade::S
    } else if (above(h300, total, 8, 10) && hit_miss == 0) || above(h300, total, 9, 10) {
        HitGrade::A
    } else if (above(h300, total, 7, 10) && hit_miss == 0) || above(h300, total, 8, 10) {
        HitGrade::B
    } else if above(h300, total, 6, 10) {
        HitGrade::C
    } else {
        HitGrade::D
    }
}

/// tosu's name of `grade`.
pub fn tosu_grade_name(grade: HitGrade, silver: bool) -> (res: &'static str)
    ensures
        res@ == tosu_grade_name_spec(grade, silver),
{
    match grade {
        HitGrade::Perfect => if silver {
            "XH"
        } else {
            "X"
        },
        HitGrade::S => if silver {
            "SH"
        } else {
            "S"
        },
        HitGrade::A => "A",
        HitGrade::B => "B",
        HitGrade::C => "C",
        HitGrade::D => "D",
    }
}

/// The grade tosu shows for an osu! or taiko play with `mods`.
pub fn tosu_hit_grade_name(hit_300: i16, hit_100: i16, hit_50: i16, hit_miss: i16, mods: u32) -> (res: &'static str)
    ensures
        res@ == tosu_grade_name_spec(
            tosu_hit_grade(hit_300 as int, hit_100 as int, hit_50 as int, hit_miss as int),
            silver_mods_spec(mods),
        ),
{
    tosu_grade_name(tosu_grade_of_hits(hit_300, hit_100, hit_50, hit_miss), silver_mods(mods))
}

/// The grade of a play by the client's rule; `failed` says the health bar is empty.
pub fn play_grade(hit_300: i16, hit_100: i16, hit_50: i16, hit_miss: i16, failed: bool, has_hd_fl: bool) -> (res: &'static str)
    ensures
        res@ == play_grade_spec(hit_300 as int, hit_100 as int, hit_50 as int, hit_miss as int, failed, has_hd_fl),
{
    if failed {
        return "F";
    }
    let h300 = hit_300 as i64;
    let h50 = hit_50 as i64;
    let total: i64 = h300 + hit_100 as i64 + h50 + hit_miss as i64;
    if total <= 0 {
        "SS"
    } else if h300 == total {
        if has_hd_fl {
            "SSH"
        } else {
            "SS"
        }
    } else if 10 * h300 > 9 * total && 100 * h50 <= total && hit_miss == 0 {
        if has_hd_fl {
            "SH"
        } else {
            "S"
        }
    } else if (10 * h300 > 8 * total && hit_miss == 0) || 10 * h300 > 9 * total {
        "A"
    } else if (10 * h300 > 7 * total && hit_miss == 0) || 10 * h300 > 8 * total {
        "B"
    } else if 10 * h300 > 6 * total {
        "C"
    } else {
        "D"
    }
}

} // verus!

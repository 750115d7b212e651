//! Calendar dates of the proleptic Gregorian calendar.

use vstd::prelude::*;
use crate::json::{Json, JsonView};
use crate::number;

verus! {

// ---- meaning ----

/// Whether the year `y` has a 29th of February.
pub open spec fn is_leap(y: int) -> bool {
    y % 4 == 0 && (y % 100 != 0 || y % 400 == 0)
}

/// How many days the month `m` of the year `y` has.
pub open spec fn month_length(y: int, m: int) -> int {
    if m == 2 {
        if is_leap(y) {
            29
        } else {
            28
        }
    } else if m == 4 || m == 6 || m == 9 || m == 11 {
        30
    } else {
        31
    }
}

/// How many days of the year `y` lie before its month `m`.
pub open spec fn days_before_month(y: int, m: int) -> int
    decreases m,
{
    if m <= 1 {
        0
    } else {
        days_before_month(y, m - 1) + month_length(y, m - 1)
    }
}

/// How many days lie between the first of January 1970 and that of the year `y`:
/// 365 for each year, and one for each leap year among them.
pub open spec fn year_start(y: int) -> int {
    365 * (y - 1970) + (leaps_before(y) - leaps_before(1970))
}

/// How many leap years lie before the year `y`, counted from the year 1 on.
pub open spec fn leaps_before(y: int) -> int {
    (y - 1) / 4 - (y - 1) / 100 + (y - 1) / 400
}

/// A calendar date.
pub struct Civil {
    pub year: i64,
    pub month: i64,
    pub day: i64,
}

/// Whether `c` is a date of the calendar.
pub open spec fn valid_date(c: Civil) -> bool {
    1 <= c.month <= 12 && 1 <= c.day <= month_length(c.year as int, c.month as int)
}

/// How many days lie between the first of January 1970 and the date `c`.
pub open spec fn day_number(c: Civil) -> int {
    year_start(c.year as int) + days_before_month(c.year as int, c.month as int) + c.day - 1
}

/// The date that lies `days` days after the first of January 1970.
pub open spec fn date_of(days: int) -> Civil {
    choose|c: Civil| valid_date(c) && day_number(c) == days
}

/// The day on which the moment `ms` milliseconds after the start of 1970 lies, counted
/// in days from the first of January 1970.
pub open spec fn day_of(ms: int) -> int {
    ms / 86_400_000
}

/// A date as it is written: `YYYY-MM-DD`.
pub open spec fn written(c: Civil) -> Seq<char> {
    number::padded(c.year as int, 4) + seq!['-'] + number::padded(c.month as int, 2) + seq!['-'] + number::padded(
        c.day as int,
        2,
    )
}

/// What `date` shows of a value: the date of a whole number of epoch
/// milliseconds, a dash for anything else.
pub open spec fn shown_date(v: JsonView) -> Seq<char> {
    match v.whole() {
        Some(ms) => written(date_of(day_of(ms as int))),
        None => seq!['-'],
    }
}

// ---- facts ----

/// The days before each month, written out.
pub proof fn lemma_months(y: int)
    ensures
        ({
            let f = month_length(y, 2);
            &&& days_before_month(y, 1) == 0
            &&& days_before_month(y, 2) == 31
            &&& days_before_month(y, 3) == 31 + f
            &&& days_before_month(y, 4) == 62 + f
            &&& days_before_month(y, 5) == 92 + f
            &&& days_before_month(y, 6) == 123 + f
            &&& days_before_month(y, 7) == 153 + f
            &&& days_before_month(y, 8) == 184 + f
            &&& days_before_month(y, 9) == 215 + f
            &&& days_before_month(y, 10) == 245 + f
            &&& days_before_month(y, 11) == 276 + f
            &&& days_before_month(y, 12) == 306 + f
            &&& days_before_month(y, 13) == 337 + f
        }),
{
    assert(days_before_month(y, 1) == 0);
    assert(days_before_month(y, 2) == 31);
    assert(days_before_month(y, 3) == 31 + month_length(y, 2));
    assert(days_before_month(y, 4) == days_before_month(y, 3) + 31);
    assert(days_before_month(y, 5) == days_before_month(y, 4) + 30);
    assert(days_before_month(y, 6) == days_before_month(y, 5) + 31);
    assert(days_before_month(y, 7) == days_before_month(y, 6) + 30);
    assert(days_before_month(y, 8) == days_before_month(y, 7) + 31);
    assert(days_before_month(y, 9) == days_before_month(y, 8) + 31);
    assert(days_before_month(y, 10) == days_before_month(y, 9) + 30);
    assert(days_before_month(y, 11) == days_before_month(y, 10) + 31);
    assert(days_before_month(y, 12) == days_before_month(y, 11) + 30);
    assert(days_before_month(y, 13) == days_before_month(y, 12) + 31);
}

/// One step of a count of multiples.
proof fn lemma_step(y: int, k: int)
    requires
        k == 4 || k == 100 || k == 400,
    ensures
        y / k - (y - 1) / k == (if y % k == 0 {
            1int
        } else {
            0
        }),
{
    if k == 4 {
        assert(y / 4 - (y - 1) / 4 == (if y % 4 == 0 {
            1int
        } else {
            0
        }));
    } else if k == 100 {
        assert(y / 100 - (y - 1) / 100 == (if y % 100 == 0 {
            1int
        } else {
            0
        }));
    } else {
        assert(y / 400 - (y - 1) / 400 == (if y % 400 == 0 {
            1int
        } else {
            0
        }));
    }
}

/// The multiples of 400 are multiples of 100, and those are multiples of 4.
proof fn lemma_multiples(y: int)
    ensures
        y % 400 == 0 ==> y % 100 == 0,
        y % 100 == 0 ==> y % 4 == 0,
{
}

/// Every year is as long as its months, and the next one starts right after it.
pub proof fn law_years_follow(y: int)
    ensures
        year_start(y + 1) == year_start(y) + 365 + (if is_leap(y) {
            1int
        } else {
            0
        }),
        days_before_month(y, 13) == year_start(y + 1) - year_start(y),
        year_start(1970) == 0,
{
    lemma_months(y);
    lemma_step(y, 4);
    lemma_step(y, 100);
    lemma_step(y, 400);
    lemma_multiples(y);
}

/// The first of January never lies later in an earlier year.
proof fn lemma_year_start_grows(a: int, b: int)
    requires
        a <= b,
    ensures
        year_start(a) + 365 * (b - a) <= year_start(b),
    decreases b - a,
{
    if a < b {
        lemma_year_start_grows(a, b - 1);
        law_years_follow(b - 1);
    }
}

/// A date lies inside its year.
proof fn lemma_inside_year(c: Civil)
    requires
        valid_date(c),
    ensures
        year_start(c.year as int) <= day_number(c) < year_start(c.year + 1),
{
    law_years_follow(c.year as int);
    reveal_with_fuel(days_before_month, 13);
}

/// Two dates with the same day number are the same date.
pub proof fn law_one_date_per_day(a: Civil, b: Civil)
    requires
        valid_date(a),
        valid_date(b),
        day_number(a) == day_number(b),
    ensures
        a == b,
{
    lemma_inside_year(a);
    lemma_inside_year(b);
    if a.year < b.year {
        lemma_year_start_grows(a.year + 1, b.year as int);
    }
    if b.year < a.year {
        lemma_year_start_grows(b.year + 1, a.year as int);
    }
    reveal_with_fuel(days_before_month, 13);
}

/// The days before the first of March of the year that starts `yoe` years into
/// the 400-year cycle `era`.
proof fn lemma_march(era: int, yoe: int)
    requires
        0 <= yoe < 400,
    ensures
        year_start(era * 400 + yoe) + days_before_month(era * 400 + yoe, 3) == era * 146_097
            + 365 * yoe + yoe / 4 - yoe / 100 - 719_468,
{
    let y = era * 400 + yoe;
    lemma_months(y);
    lemma_step(y, 4);
    lemma_step(y, 100);
    lemma_step(y, 400);
    lemma_multiples(y);
    assert(y / 4 == era * 100 + yoe / 4);
    assert(y / 100 == era * 4 + yoe / 100);
    assert(y / 400 == era);
}

/// The days from the first of March to the month `mp` months later.
spec fn march_days(mp: int) -> int {
    (153 * mp + 2) / 5
}

/// The month and day that lie `doy` days after the first of March of `y`.
proof fn lemma_month_of(y: int, doy: int, mp: int)
    requires
        0 <= doy <= 365,
        mp == (5 * doy + 2) / 153,
    ensures
        0 <= mp <= 11,
        march_days(mp) <= doy,
        mp < 10 ==> {
            &&& days_before_month(y, mp + 3) == days_before_month(y, 3) + march_days(mp)
            &&& doy - march_days(mp) < month_length(y, mp + 3)
        },
        mp >= 10 ==> {
            &&& days_before_month(y + 1, mp - 9) == march_days(mp) - 306
            &&& mp == 10 ==> doy - march_days(mp) < 31
            &&& mp == 11 ==> march_days(mp) == 337
        },
{
    lemma_months(y);
    lemma_months(y + 1);
    assert(0 <= mp <= 11);
    if mp == 0 {
    } else if mp == 1 {
    } else if mp == 2 {
    } else if mp == 3 {
    } else if mp == 4 {
    } else if mp == 5 {
    } else if mp == 6 {
    } else if mp == 7 {
    } else if mp == 8 {
    } else if mp == 9 {
    } else if mp == 10 {
    } else {
    }
}

// ---- operations ----

/// The place of the day `z` in the calendar whose years start in March: the
/// 400-year cycle, the year in it, and the day in that year.
fn march_place(z: i64) -> (r: (i64, i64, i64))
    requires
        -1_000_001_000_000 <= z <= 1_000_001_000_000,
    ensures
        ({
            let (era, yoe, doy) = r;
            &&& 0 <= yoe < 400
            &&& 0 <= doy <= 365
            &&& z == era * 146_097 + 365 * yoe + yoe / 4 - yoe / 100 + doy
            &&& doy == 365 ==> yoe % 4 == 3 && (yoe % 100 != 99 || yoe == 399)
            &&& -7_000_000 <= era <= 7_000_000
        }),
{
    let era: i64 = (if z >= 0 {
        z
    } else {
        z - 146_096
    }) / 146_097;
    let doe: i64 = z - era * 146_097;
    assert(0 <= doe < 146_097);
    let century: i64 = if doe / 36_524 > 3 {
        3
    } else {
        doe / 36_524
    };
    let doc: i64 = doe - century * 36_524;
    assert(0 <= doc <= 36_524);
    assert(doc == 36_524 ==> century == 3);
    let four: i64 = doc / 1_461;
    let dof: i64 = doc - four * 1_461;
    assert(0 <= four <= 24 && 0 <= dof < 1_461);
    assert(four == 24 && dof == 1_460 ==> doc == 36_524);
    let one: i64 = if dof / 365 > 3 {
        3
    } else {
        dof / 365
    };
    let doy: i64 = dof - one * 365;
    assert(0 <= doy <= 365);
    assert(doy == 365 ==> one == 3 && dof == 1_460);
    let yoe: i64 = century * 100 + four * 4 + one;
    assert(yoe / 4 == century * 25 + four);
    assert(yoe / 100 == century);
    (era, yoe, doy)
}

/// The date at a place in the calendar whose years start in March.
proof fn lemma_place(days: int, era: int, yoe: int, doy: int, mp: int, c: Civil)
    requires
        0 <= yoe < 400,
        0 <= doy <= 365,
        days + 719_468 == era * 146_097 + 365 * yoe + yoe / 4 - yoe / 100 + doy,
        doy == 365 ==> yoe % 4 == 3 && (yoe % 100 != 99 || yoe == 399),
        mp == (5 * doy + 2) / 153,
        c.day == doy - march_days(mp) + 1,
        mp < 10 ==> c.month == mp + 3 && c.year == yoe + era * 400,
        mp >= 10 ==> c.month == mp - 9 && c.year == yoe + era * 400 + 1,
    ensures
        valid_date(c),
        day_number(c) == days,
{
    let y = era * 400 + yoe;
    lemma_march(era, yoe);
    lemma_month_of(y, doy, mp);
    if mp >= 10 {
        law_years_follow(y);
        lemma_months(y);
        if mp == 11 && doy == 365 {
            // Only a leap year has a day 365 days after its first of March.
            lemma_leap_after(era, yoe);
        }
    }
}

/// The year after the one that lies `yoe` years into the 400-year cycle `era` is
/// a leap year where the year `yoe + 1` is one.
proof fn lemma_leap_after(era: int, yoe: int)
    requires
        0 <= yoe < 400,
        yoe % 4 == 3,
        yoe % 100 != 99 || yoe == 399,
    ensures
        is_leap(era * 400 + yoe + 1),
{
    vstd::arithmetic::div_mod::lemma_mod_multiples_vanish(era * 100, yoe + 1, 4);
    vstd::arithmetic::div_mod::lemma_mod_multiples_vanish(era * 4, yoe + 1, 100);
    vstd::arithmetic::div_mod::lemma_mod_multiples_vanish(era, yoe + 1, 400);
    assert((yoe + 1) % 4 == 0);
    assert(yoe == 399 ==> (yoe + 1) % 400 == 0);
    assert(yoe % 100 != 99 ==> (yoe + 1) % 100 != 0);
}

/// The date that lies `days` days after the first of January 1970.
pub fn civil(days: i64) -> (r: Civil)
    requires
        -1_000_000_000_000 <= days <= 1_000_000_000_000,
    ensures
        valid_date(r),
        day_number(r) == days,
        r == date_of(days as int),
{
    let (era, yoe, doy) = march_place(days + 719_468);
    let mp: i64 = (5 * doy + 2) / 153;
    proof {
        lemma_month_of(era * 400 + yoe, doy as int, mp as int);
    }
    let d: i64 = doy - (153 * mp + 2) / 5 + 1;
    let m: i64 = if mp < 10 {
        mp + 3
    } else {
        mp - 9
    };
    let y: i64 = yoe + era * 400 + (if m <= 2 {
        1
    } else {
        0
    });
    let r = Civil { year: y, month: m, day: d };
    proof {
        lemma_place(days as int, era as int, yoe as int, doy as int, mp as int, r);
        law_one_date_per_day(r, date_of(days as int));
    }
    r
}

/// Epoch milliseconds as a date; a dash for anything that is no whole number.
pub fn date(v: &Json) -> (r: String)
    ensures
        r@ == shown_date(v@),
{
    let ms = match v.as_i64() {
        Some(ms) => ms,
        None => {
            let mut r = String::new();
            r.push('-');
            assert(r@ =~= seq!['-']);
            return r;
        },
    };
    let day: i64 = if ms >= 0 {
        ms / 86_400_000
    } else {
        -1 - (-1 - ms) / 86_400_000
    };
    assert(day == day_of(ms as int));
    let c = civil(day);
    let mut r = number::padded_text(c.year as i128, 4);
    r.push('-');
    let m = number::padded_text(c.month as i128, 2);
    r.append(m.as_str());
    r.push('-');
    let d = number::padded_text(c.day as i128, 2);
    r.append(d.as_str());
    assert(r@ =~= written(c));
    r
}

} // verus!

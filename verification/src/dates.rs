//! Civil (proleptic Gregorian) date arithmetic and rendering.
//!
//! A video's creation timestamp arrives as an RFC 3339 string and a user's
//! timezone as a fixed-offset string; both are parsed by chrono behind
//! trusted wrappers. Everything after that — localizing the instant,
//! splitting it into a civil date and a time of day, and rendering the
//! short and long date forms — is verified arithmetic on plain integers.

use vstd::prelude::*;
use vstd::string::*;
use vstd::arithmetic::div_mod::{
    lemma_div_is_ordered, lemma_fundamental_div_mod, lemma_fundamental_div_mod_converse_div,
    lemma_mod_bound, lemma_mod_multiples_vanish,
};
use crate::text::{dec_chars, int_chars, zero_pad, u64_to_string, i32_to_string, zero_pad_str};

verus! {

/// A Gregorian year that has 366 days.
pub open spec fn is_leap_year(y: int) -> bool {
    y % 4 == 0 && (y % 100 != 0 || y % 400 == 0)
}

/// The number of days of year `y`.
pub open spec fn days_in_year(y: int) -> int {
    if is_leap_year(y) {
        366
    } else {
        365
    }
}

/// The number of days of month `m` of year `y` (zero outside 1..=12).
pub open spec fn days_in_month(y: int, m: int) -> int {
    if m == 1 {
        31
    } else if m == 2 {
        if is_leap_year(y) {
            29
        } else {
            28
        }
    } else if m == 3 {
        31
    } else if m == 4 {
        30
    } else if m == 5 {
        31
    } else if m == 6 {
        30
    } else if m == 7 {
        31
    } else if m == 8 {
        31
    } else if m == 9 {
        30
    } else if m == 10 {
        31
    } else if m == 11 {
        30
    } else if m == 12 {
        31
    } else {
        0
    }
}

/// The number of days of year `y` that lie before month `m`.
pub open spec fn month_prefix_days(y: int, m: int) -> int
    decreases m,
{
    if m <= 1 {
        0
    } else {
        month_prefix_days(y, m - 1) + days_in_month(y, m - 1)
    }
}

/// The day count from 1970-01-01 to the first day of year `y`
/// (negative for years before 1970).
pub open spec fn year_start_days(y: int) -> int
    decreases (if y >= 1970 { y - 1970 } else { 1970 - y }),
{
    if y == 1970 {
        0
    } else if y > 1970 {
        year_start_days(y - 1) + days_in_year(y - 1)
    } else {
        year_start_days(y + 1) - days_in_year(y)
    }
}

/// `m`/`d` is a day of the calendar of year `y`.
pub open spec fn valid_date(y: int, m: int, d: int) -> bool {
    1 <= m <= 12 && 1 <= d <= days_in_month(y, m)
}

/// The day count from 1970-01-01 to the civil date `y`-`m`-`d`.
pub open spec fn days_from_civil(y: int, m: int, d: int) -> int {
    year_start_days(y) + month_prefix_days(y, m) + (d - 1)
}

/// A localized instant, split into civil date and time of day.
pub struct CivilDateTime {
    pub year: i64,
    pub month: u8,
    pub day: u8,
    pub hour: u8,
    pub minute: u8,
    pub second: u8,
}

impl CivilDateTime {
    /// The fields name a real calendar day and time of day.
    pub open spec fn wf(self) -> bool {
        &&& valid_date(self.year as int, self.month as int, self.day as int)
        &&& self.hour < 24
        &&& self.minute < 60
        &&& self.second < 60
    }

    /// The second count from the epoch to this civil date and time, read
    /// as a date and time of the timezone it was computed in.
    pub open spec fn local_seconds(self) -> int {
        86400 * days_from_civil(self.year as int, self.month as int, self.day as int) + 3600
            * (self.hour as int) + 60 * (self.minute as int) + (self.second as int)
    }
}

proof fn lemma_year_start_bounds(y: int)
    ensures
        y >= 1970 ==> year_start_days(y) >= 365 * (y - 1970),
        y >= 1970 ==> year_start_days(y) <= 366 * (y - 1970),
        y <= 1970 ==> year_start_days(y) <= 365 * (y - 1970),
        y <= 1970 ==> year_start_days(y) >= 366 * (y - 1970),
    decreases (if y >= 1970 { y - 1970 } else { 1970 - y }),
{
    if y > 1970 {
        lemma_year_start_bounds(y - 1);
    } else if y < 1970 {
        lemma_year_start_bounds(y + 1);
    }
}

/// The months of a year cover exactly its days.
proof fn lemma_months_cover_year(y: int)
    ensures
        month_prefix_days(y, 13) == days_in_year(y),
{
    reveal_with_fuel(month_prefix_days, 13);
}

proof fn lemma_year_step(y: int)
    ensures
        year_start_days(y + 1) == year_start_days(y) + days_in_year(y),
{
    if y + 1 <= 1970 {
        assert(year_start_days(y) == year_start_days(y + 1) - days_in_year(y));
    }
}

proof fn lemma_year_start_monotone(y1: int, y2: int)
    requires
        y1 <= y2,
    ensures
        year_start_days(y1) + 365 * (y2 - y1) <= year_start_days(y2),
    decreases y2 - y1,
{
    if y1 < y2 {
        lemma_year_start_monotone(y1, y2 - 1);
        lemma_year_step(y2 - 1);
    }
}

proof fn lemma_month_prefix_monotone(y: int, m1: int, m2: int)
    requires
        m1 <= m2,
    ensures
        month_prefix_days(y, m1) <= month_prefix_days(y, m2),
    decreases m2 - m1,
{
    if m1 < m2 {
        lemma_month_prefix_monotone(y, m1, m2 - 1);
    }
}

/// A day count determines the civil date that names it: `days_from_civil`
/// is injective over valid dates.
proof fn lemma_civil_date_unique(y1: int, m1: int, d1: int, y2: int, m2: int, d2: int)
    requires
        valid_date(y1, m1, d1),
        valid_date(y2, m2, d2),
        days_from_civil(y1, m1, d1) == days_from_civil(y2, m2, d2),
    ensures
        y1 == y2,
        m1 == m2,
        d1 == d2,
{
    lemma_day_in_year_range(y1, m1, d1);
    lemma_day_in_year_range(y2, m2, d2);
    if y1 < y2 {
        lemma_year_start_monotone(y1 + 1, y2);
        lemma_year_step(y1);
        assert(false);
    }
    if y2 < y1 {
        lemma_year_start_monotone(y2 + 1, y1);
        lemma_year_step(y2);
        assert(false);
    }
    if m1 < m2 {
        lemma_month_prefix_monotone(y1, m1 + 1, m2);
        assert(false);
    }
    if m2 < m1 {
        lemma_month_prefix_monotone(y1, m2 + 1, m1);
        assert(false);
    }
}

/// The day offset of a valid date lies within its year.
proof fn lemma_day_in_year_range(y: int, m: int, d: int)
    requires
        valid_date(y, m, d),
    ensures
        0 <= month_prefix_days(y, m) + (d - 1) < days_in_year(y),
{
    lemma_month_prefix_monotone(y, 1, m);
    lemma_month_prefix_monotone(y, m + 1, 13);
    lemma_months_cover_year(y);
}

/// The unique civil date and time of day that a localized second count
/// names.
pub open spec fn civil_of(secs: int) -> CivilDateTime {
    choose|c: CivilDateTime| c.wf() && c.local_seconds() == secs
}

/// Two well-formed civil datetimes of the same localized second count are
/// the same.
pub proof fn lemma_civil_unique(c1: CivilDateTime, c2: CivilDateTime)
    requires
        c1.wf(),
        c2.wf(),
        c1.local_seconds() == c2.local_seconds(),
    ensures
        c1 == c2,
{
    let x = c1.local_seconds();
    let day1 = days_from_civil(c1.year as int, c1.month as int, c1.day as int);
    let day2 = days_from_civil(c2.year as int, c2.month as int, c2.day as int);
    let tod1 = 3600 * (c1.hour as int) + 60 * (c1.minute as int) + (c1.second as int);
    let tod2 = 3600 * (c2.hour as int) + 60 * (c2.minute as int) + (c2.second as int);
    lemma_fundamental_div_mod_converse_div(x, 86400, day1, tod1);
    lemma_fundamental_div_mod_converse_div(x, 86400, day2, tod2);
    lemma_civil_date_unique(
        c1.year as int,
        c1.month as int,
        c1.day as int,
        c2.year as int,
        c2.month as int,
        c2.day as int,
    );
    lemma_fundamental_div_mod_converse_div(tod1, 3600, c1.hour as int, 60 * (c1.minute as int) + (
    c1.second as int));
    lemma_fundamental_div_mod_converse_div(tod2, 3600, c2.hour as int, 60 * (c2.minute as int) + (
    c2.second as int));
    lemma_fundamental_div_mod_converse_div(
        60 * (c1.minute as int) + (c1.second as int),
        60,
        c1.minute as int,
        c1.second as int,
    );
    lemma_fundamental_div_mod_converse_div(
        60 * (c2.minute as int) + (c2.second as int),
        60,
        c2.minute as int,
        c2.second as int,
    );
}

fn is_leap_year_exec(y: i64) -> (r: bool)
    requires
        -1_000_000 <= y <= 1_000_000,
    ensures
        r == is_leap_year(y as int),
{
    let u: u64 = (y + 400_000_000) as u64;
    proof {
        lemma_mod_multiples_vanish(100_000_000, y as int, 4);
        lemma_mod_multiples_vanish(4_000_000, y as int, 100);
        lemma_mod_multiples_vanish(1_000_000, y as int, 400);
    }
    u % 4 == 0 && (u % 100 != 0 || u % 400 == 0)
}

fn days_in_year_exec(y: i64) -> (r: u32)
    requires
        -1_000_000 <= y <= 1_000_000,
    ensures
        r == days_in_year(y as int),
{
    if is_leap_year_exec(y) {
        366
    } else {
        365
    }
}

fn days_in_month_exec(y: i64, m: u8) -> (r: u32)
    requires
        -1_000_000 <= y <= 1_000_000,
        1 <= m <= 12,
    ensures
        r == days_in_month(y as int, m as int),
{
    if m == 2 {
        if is_leap_year_exec(y) {
            29
        } else {
            28
        }
    } else if m == 4 || m == 6 || m == 9 || m == 11 {
        30
    } else {
        31
    }
}

/// Splits a day count from the epoch into the unique civil date it names.
pub(crate) fn civil_from_days(days: i64) -> (r: (i64, u8, u8))
    requires
        -106_000_000 <= days <= 106_000_000,
    ensures
        valid_date(r.0 as int, r.1 as int, r.2 as int),
        days_from_civil(r.0 as int, r.1 as int, r.2 as int) == days,
        -300_000 <= r.0 <= 293_000,
{
    let mut y: i64 = 1970;
    let mut rem: i64 = days;
    while rem < 0
        invariant
            -106_000_000 <= days <= 106_000_000,
            -300_000 <= y <= 1970,
            days <= rem,
            rem <= 106_000_000,
            year_start_days(y as int) + rem == days,
        decreases y + 300_001,
    {
        proof {
            lemma_year_start_bounds(y as int);
            assert(365 * (y - 1970) >= year_start_days(y as int));
            assert(y >= -289_000);
            assert(year_start_days((y - 1) as int) == year_start_days(y as int) - days_in_year(
                (y - 1) as int,
            ));
        }
        y = y - 1;
        let dy = days_in_year_exec(y);
        rem = rem + dy as i64;
    }
    while rem >= days_in_year_exec(y) as i64
        invariant
            -106_000_000 <= days <= 106_000_000,
            -300_000 <= y <= 293_000,
            0 <= rem <= 106_000_000,
            year_start_days(y as int) + rem == days,
        decreases rem,
    {
        proof {
            lemma_year_start_bounds(y as int);
            assert(year_start_days((y + 1) as int) == year_start_days(y as int) + days_in_year(
                y as int,
            ));
        }
        let dy = days_in_year_exec(y);
        rem = rem - dy as i64;
        y = y + 1;
        proof {
            lemma_year_start_bounds(y as int);
            if y >= 1970 {
                assert(365 * (y - 1970) <= year_start_days(y as int));
            }
            assert(y <= 293_000);
        }
    }
    proof {
        assert(rem < days_in_year(y as int));
    }
    let ghost rem0 = rem as int;
    let mut m: u8 = 1;
    while rem >= days_in_month_exec(y, m) as i64
        invariant
            -1_000_000 <= y <= 1_000_000,
            1 <= m <= 12,
            rem >= 0,
            month_prefix_days(y as int, m as int) + rem == rem0,
            rem0 < days_in_year(y as int),
        decreases 12 - m,
    {
        proof {
            lemma_months_cover_year(y as int);
            if m == 12 {
                reveal_with_fuel(month_prefix_days, 13);
                assert(false);
            }
        }
        let dm = days_in_month_exec(y, m);
        rem = rem - dm as i64;
        m = m + 1;
    }
    let d: u8 = (rem + 1) as u8;
    (y, m, d)
}

/// A second count within one day, split into hour, minute and second.
fn split_time_of_day(rem: u64) -> (r: (u8, u8, u8))
    requires
        rem < 86400,
    ensures
        r.0 < 24,
        r.1 < 60,
        r.2 < 60,
        3600 * (r.0 as int) + 60 * (r.1 as int) + (r.2 as int) == rem,
{
    let h = rem / 3600;
    let r2 = rem % 3600;
    let mi = r2 / 60;
    let sec = r2 % 60;
    proof {
        lemma_fundamental_div_mod(rem as int, 3600);
        lemma_fundamental_div_mod(r2 as int, 60);
        lemma_mod_bound(rem as int, 3600);
        lemma_mod_bound(r2 as int, 60);
        lemma_div_is_ordered(rem as int, 86399, 3600);
        lemma_div_is_ordered(r2 as int, 3599, 60);
    }
    (h as u8, mi as u8, sec as u8)
}

/// Localizes the instant `t` (seconds from the epoch) by the fixed offset
/// `off` and splits it into its civil date and time of day.
pub(crate) fn civil_from_instant(t: i64, off: i32) -> (c: CivilDateTime)
    requires
        -9_000_000_000_000 < t < 9_000_000_000_000,
        -86400 < off < 86400,
    ensures
        c.wf(),
        c.local_seconds() == t + off,
        c == civil_of(t + off),
        -300_000 <= c.year <= 293_000,
{
    let shifted: i64 = t + off as i64 + 9_028_800_000_000;
    let u: u64 = shifted as u64;
    let du: u64 = u / 86400;
    let rem: u64 = u % 86400;
    proof {
        lemma_fundamental_div_mod(u as int, 86400);
        lemma_mod_bound(u as int, 86400);
        lemma_div_is_ordered(u as int, 18_028_886_400_000, 86400);
    }
    let days: i64 = du as i64 - 104_500_000;
    let (y, m, d) = civil_from_days(days);
    let (h, mi, s) = split_time_of_day(rem);
    let c = CivilDateTime { year: y, month: m, day: d, hour: h, minute: mi, second: s };
    proof {
        assert(86400 * days_from_civil(y as int, m as int, d as int) == 86400 * (days as int));
        assert(c.local_seconds() == t + off);
        assert(civil_of(t + off).wf() && civil_of(t + off).local_seconds() == t + off) by {
            assert(c.wf() && c.local_seconds() == t + off);
        }
        lemma_civil_unique(c, civil_of(t + off));
    }
    c
}

/// The short date form: zero-padded `year-month-day`.
pub open spec fn date_prefix_chars(y: int, m: int, d: int) -> Seq<char> {
    zero_pad(int_chars(y), 4) + seq!['-'] + zero_pad(dec_chars(m as nat), 2) + seq!['-']
        + zero_pad(dec_chars(d as nat), 2)
}

/// Renders the short date form of a civil date.
pub fn get_date_prefix(c: &CivilDateTime) -> (r: String)
    requires
        -1_000_000 <= c.year <= 1_000_000,
    ensures
        r@ == date_prefix_chars(c.year as int, c.month as int, c.day as int),
{
    proof {
        reveal_strlit("-");
        assert("-"@ =~= seq!['-']);
    }
    let mut r = zero_pad_str(i32_to_string(c.year as i32).as_str(), 4);
    r.append("-");
    r.append(zero_pad_str(u64_to_string(c.month as u64).as_str(), 2).as_str());
    r.append("-");
    r.append(zero_pad_str(u64_to_string(c.day as u64).as_str(), 2).as_str());
    proof {
        assert(r@ =~= date_prefix_chars(c.year as int, c.month as int, c.day as int));
    }
    r
}

/// The rendering of a fixed offset: sign, zero-padded hours, colon,
/// zero-padded minutes.
pub open spec fn offset_chars(off: int) -> Seq<char> {
    (if off < 0 {
        seq!['-']
    } else {
        seq!['+']
    }) + zero_pad(dec_chars((abs_of(off) / 3600) as nat), 2) + seq![':'] + zero_pad(
        dec_chars(((abs_of(off) % 3600) / 60) as nat),
        2,
    )
}

/// The absolute value of an integer.
pub open spec fn abs_of(x: int) -> int {
    if x < 0 {
        -x
    } else {
        x
    }
}

/// The long date form: short date, time of day and offset, separated by
/// single spaces.
pub open spec fn long_datetime_chars(c: CivilDateTime, off: int) -> Seq<char> {
    date_prefix_chars(c.year as int, c.month as int, c.day as int) + seq![' '] + zero_pad(
        dec_chars(c.hour as nat),
        2,
    ) + seq![':'] + zero_pad(dec_chars(c.minute as nat), 2) + seq![':'] + zero_pad(
        dec_chars(c.second as nat),
        2,
    ) + seq![' '] + offset_chars(off)
}

/// Renders the long date form of a localized instant.
pub fn format_local_datetime(c: &CivilDateTime, off: i32) -> (r: String)
    requires
        -1_000_000 <= c.year <= 1_000_000,
        -86400 < off < 86400,
    ensures
        r@ == long_datetime_chars(*c, off as int),
{
    proof {
        reveal_strlit(" ");
        reveal_strlit(":");
        reveal_strlit("-");
        reveal_strlit("+");
        assert(" "@ =~= seq![' ']);
        assert(":"@ =~= seq![':']);
        assert("-"@ =~= seq!['-']);
        assert("+"@ =~= seq!['+']);
    }
    let mut r = get_date_prefix(c);
    r.append(" ");
    r.append(zero_pad_str(u64_to_string(c.hour as u64).as_str(), 2).as_str());
    r.append(":");
    r.append(zero_pad_str(u64_to_string(c.minute as u64).as_str(), 2).as_str());
    r.append(":");
    r.append(zero_pad_str(u64_to_string(c.second as u64).as_str(), 2).as_str());
    r.append(" ");
    if off < 0 {
        r.append("-");
    } else {
        r.append("+");
    }
    let mag: u64 = if off < 0 {
        (-(off as i64)) as u64
    } else {
        off as u64
    };
    r.append(zero_pad_str(u64_to_string(mag / 3600).as_str(), 2).as_str());
    r.append(":");
    r.append(zero_pad_str(u64_to_string((mag % 3600) / 60).as_str(), 2).as_str());
    proof {
        assert(mag as int == abs_of(off as int));
        assert(r@ =~= long_datetime_chars(*c, off as int));
    }
    r
}

/// What chrono's RFC 3339 parser returns for a text: the represented
/// instant as seconds from the epoch, or nothing when the text does not
/// parse. The result depends on the text alone.
pub uninterp spec fn rfc3339_secs_of(s: Seq<char>) -> Option<i64>;

/// What chrono's fixed-offset parser returns for a text: the offset east
/// of UTC in seconds, or nothing when the text does not parse. The result
/// depends on the text alone.
pub uninterp spec fn offset_secs_of(s: Seq<char>) -> Option<i32>;

/// Relies on chrono's `DateTime::parse_from_rfc3339` and
/// `DateTime::timestamp`: parsing depends on the text alone, and chrono
/// limits dates to roughly ±262,000 years around the epoch, whose second
/// counts stay far below 9·10¹² in magnitude.
#[verifier::external_body]
pub(crate) fn parse_date(s: &str) -> (r: Option<i64>)
    ensures
        r == rfc3339_secs_of(s@),
        r matches Some(t) ==> -9_000_000_000_000 < t < 9_000_000_000_000,
{
    chrono::DateTime::parse_from_rfc3339(s).ok().map(|d| d.timestamp())
}

/// Relies on chrono's `FixedOffset` parser and
/// `FixedOffset::local_minus_utc`: parsing depends on the text alone, and
/// a `FixedOffset` holds strictly between -86400 and 86400 seconds.
#[verifier::external_body]
pub(crate) fn parse_fixed_offset(s: &str) -> (r: Option<i32>)
    ensures
        r == offset_secs_of(s@),
        r matches Some(o) ==> -86400 < o < 86400,
{
    s.parse::<chrono::FixedOffset>().ok().map(|o| o.local_minus_utc())
}

} // verus!

use vstd::prelude::*;
use vstd::string::StringExecFns;

use crate::text::{dec_rep, padded_dec, zero_pad};

verus! {

// ---------------------------------------------------------------------------
// Epoch-seconds timestamps and their civil-calendar rendering.
// ---------------------------------------------------------------------------

/// Offset of the rendered time zone (UTC+7) in seconds.
pub const WIB_OFFSET: u64 = 25200;

/// An instant as whole seconds since the Unix epoch.
#[derive(Clone, Copy, Debug, PartialEq, Eq, Structural)]
pub struct Time(pub u64);

pub open spec fn spec_is_leap_year(year: int) -> bool {
    (year % 4 == 0 && year % 100 != 0) || year % 400 == 0
}

pub open spec fn spec_days_in_year(year: int) -> int {
    if spec_is_leap_year(year) {
        366
    } else {
        365
    }
}

/// Length of month `m` (1 = January .. 12 = December) of `year`.
pub open spec fn spec_days_in_month(year: int, m: int) -> int
    recommends
        1 <= m <= 12,
{
    if m == 2 {
        if spec_is_leap_year(year) {
            29
        } else {
            28
        }
    } else if m == 4 || m == 6 || m == 9 || m == 11 {
        30
    } else {
        31
    }
}

/// Days in the months of `year` up to and including month `m`.
pub open spec fn spec_cum_days(year: int, m: int) -> int
    decreases m,
{
    if m <= 0 {
        0
    } else {
        spec_cum_days(year, m - 1) + spec_days_in_month(year, m)
    }
}

/// Walk whole years forward from `year`: the year that `days` lands in, and
/// the day's index within that year.
pub open spec fn spec_civil_year(year: int, days: int) -> (int, int)
    decreases days,
{
    if days >= spec_days_in_year(year) {
        spec_civil_year(year + 1, days - spec_days_in_year(year))
    } else {
        (year, days)
    }
}

/// Walk months forward from month `m`: the month that day index `day` lands
/// in, and the one-based day of that month.
pub open spec fn spec_month_day(year: int, m: int, day: int) -> (int, int)
    decreases 12 - m,
{
    if m >= 12 || day < spec_days_in_month(year, m) {
        (m, day + 1)
    } else {
        spec_month_day(year, m + 1, day - spec_days_in_month(year, m))
    }
}

pub proof fn lemma_cum_days_total(year: int)
    ensures
        spec_cum_days(year, 12) == spec_days_in_year(year),
{
    reveal_with_fuel(spec_cum_days, 13);
}

/// The rendered text of instant `t`: date and time of day in the WIB zone as
/// `YYYY-MM-DD HH:MM:SS WIB`.
pub open spec fn render_time(t: int) -> Seq<char> {
    let epoch = t + WIB_OFFSET;
    let days = epoch / 86400;
    let sid = epoch % 86400;
    let yd = spec_civil_year(1970, days);
    let md = spec_month_day(yd.0, 1, yd.1);
    zero_pad(dec_rep(yd.0), 4) + "-"@ + zero_pad(dec_rep(md.0), 2) + "-"@ + zero_pad(
        dec_rep(md.1),
        2,
    ) + " "@ + zero_pad(dec_rep(sid / 3600), 2) + ":"@ + zero_pad(dec_rep((sid % 3600) / 60), 2)
        + ":"@ + zero_pad(dec_rep(sid % 60), 2) + " WIB"@
}

#[verifier::external_type_specification]
#[verifier::external_body]
pub struct ExSystemTime(std::time::SystemTime);

/// Relies on std::time::SystemTime::now: the clock's reading is decided
/// outside the program, so nothing is promised of it.
#[verifier::external_body]
fn clock_now() -> std::time::SystemTime {
    std::time::SystemTime::now()
}

/// Relies on SystemTime::duration_since(UNIX_EPOCH): the whole seconds
/// between the epoch and `t`; a reading before the epoch counts as zero.
#[verifier::external_body]
fn secs_since_epoch(t: std::time::SystemTime) -> u64 {
    match t.duration_since(std::time::UNIX_EPOCH) {
        Ok(d) => d.as_secs(),
        Err(_) => 0,
    }
}

/// The clock's reading as whole seconds since the Unix epoch.
pub fn sys_now() -> u64 {
    secs_since_epoch(clock_now())
}

impl Time {
    pub fn new(t: u64) -> (r: Self)
        ensures
            r.0 == t,
    {
        Self(t)
    }

    /// The clock's current reading.
    pub fn now() -> Self {
        let now = sys_now();
        Self(now)
    }

    pub fn is_leap_year(year: i64) -> (r: bool)
        ensures
            r == spec_is_leap_year(year as int),
    {
        (year % 4 == 0 && year % 100 != 0) || (year % 400 == 0)
    }

    /// Length of month `m` (1 = January .. 12 = December) of `year`.
    pub fn month_len(year: i64, m: u32) -> (r: u32)
        requires
            1 <= m <= 12,
        ensures
            r == spec_days_in_month(year as int, m as int),
    {
        match m {
            2 => if Self::is_leap_year(year) {
                29
            } else {
                28
            },
            4 | 6 | 9 | 11 => 30,
            _ => 31,
        }
    }

    /// The month and one-based day that day index `day_of_year` of `year`
    /// falls on.
    pub fn day_of_year_to_date(year: i64, day_of_year: u32) -> (r: (u32, u32))
        requires
            day_of_year < spec_days_in_year(year as int),
        ensures
            (r.0 as int, r.1 as int) == spec_month_day(year as int, 1, day_of_year as int),
            1 <= r.0 <= 12,
            1 <= r.1 <= 31,
            spec_cum_days(year as int, r.0 as int - 1) + r.1 - 1 == day_of_year,
    {
        let mut month: u32 = 1;
        let mut day: u32 = day_of_year;
        proof {
            lemma_cum_days_total(year as int);
        }
        while day >= Self::month_len(year, month)
            invariant
                1 <= month <= 12,
                day_of_year < spec_days_in_year(year as int),
                spec_cum_days(year as int, 12) == spec_days_in_year(year as int),
                spec_cum_days(year as int, month as int - 1) + day == day_of_year,
                spec_month_day(year as int, 1, day_of_year as int) == spec_month_day(
                    year as int,
                    month as int,
                    day as int,
                ),
            decreases 12 - month,
        {
            proof {
                if month == 12 {
                    assert(spec_cum_days(year as int, 11) + spec_days_in_month(year as int, 12)
                        == spec_cum_days(year as int, 12));
                    assert(false);
                }
            }
            day = day - Self::month_len(year, month);
            month = month + 1;
        }
        (month, day + 1)
    }

    /// Split seconds of a day into hours, minutes and seconds.
    pub fn seconds_to_hms(seconds: u32) -> (r: (u32, u32, u32))
        ensures
            r.0 == seconds / 3600,
            r.1 == (seconds % 3600) / 60,
            r.2 == seconds % 60,
            r.1 < 60,
            r.2 < 60,
            r.0 * 3600 + r.1 * 60 + r.2 == seconds,
    {
        let hours = seconds / 3600;
        let minutes = (seconds % 3600) / 60;
        let secs = seconds % 60;
        proof {
            assert(seconds / 3600 * 3600 + ((seconds % 3600) / 60) * 60 + seconds % 60
                == seconds) by (nonlinear_arith);
            assert((seconds % 3600) / 60 < 60) by (nonlinear_arith);
        }
        (hours, minutes, secs)
    }

    /// The instant rendered as `YYYY-MM-DD HH:MM:SS WIB` (converted to the
    /// WIB zone).
    pub fn to_text(&self) -> (s: String)
        requires
            self.0 + WIB_OFFSET <= u64::MAX,
        ensures
            s@ == render_time(self.0 as int),
    {
        let epoch = self.0 + WIB_OFFSET;
        let days_since_epoch = epoch / 86400;
        let seconds_in_day = (epoch % 86400) as u32;

        let mut year: i64 = 1970;
        let mut days: u64 = days_since_epoch;
        while days >= Self::days_in_year(year) as u64
            invariant
                1970 <= year,
                days <= days_since_epoch,
                (year - 1970) * 365 <= days_since_epoch - days,
                spec_civil_year(year as int, days as int) == spec_civil_year(
                    1970,
                    days_since_epoch as int,
                ),
            decreases days,
        {
            proof {
                assert((year + 1 - 1970) * 365 == (year - 1970) * 365 + 365);
            }
            days = days - Self::days_in_year(year) as u64;
            year = year + 1;
        }

        let date = Self::day_of_year_to_date(year, days as u32);
        let hms = Self::seconds_to_hms(seconds_in_day);

        let mut s = padded_dec(year as u64, 4);
        s.append("-");
        let part = padded_dec(date.0 as u64, 2);
        s.append(part.as_str());
        s.append("-");
        let part = padded_dec(date.1 as u64, 2);
        s.append(part.as_str());
        s.append(" ");
        let part = padded_dec(hms.0 as u64, 2);
        s.append(part.as_str());
        s.append(":");
        let part = padded_dec(hms.1 as u64, 2);
        s.append(part.as_str());
        s.append(":");
        let part = padded_dec(hms.2 as u64, 2);
        s.append(part.as_str());
        s.append(" WIB");
        proof {
            assert(s@ =~= render_time(self.0 as int));
        }
        s
    }

    pub fn days_in_year(year: i64) -> (r: u32)
        ensures
            r == spec_days_in_year(year as int),
    {
        if Self::is_leap_year(year) {
            366
        } else {
            365
        }
    }
}

} // verus!

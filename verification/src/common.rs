//! Shared helpers: error codes, formatting, the civil-date arithmetic the
//! runtime's diagnostics use, and the clock edge it reads through.

pub mod errcode;
pub mod strfmt;
pub mod bitmap;
pub mod tsidallocator;
pub mod atomicqueue;
pub mod indexring;
pub mod ringbuf;
pub mod tsmap;
pub mod tsqueue;
pub mod rawstring;
pub mod uuid;

use vstd::prelude::*;
use vstd::string::*;
use crate::common::strfmt::spec_udec_pad;

verus! {

pub const UNIX_EPOCH_STRING: &'static str = "1970-1-1 00:00:00.000";

/// std::time::SystemTime carried opaquely; only the trusted clock edges
/// below look inside it.
#[verifier::external_type_specification]
#[verifier::external_body]
pub struct ExSystemTime(std::time::SystemTime);

/// Relies on SystemTime::elapsed of UNIX_EPOCH: microseconds since the Unix
/// epoch, zero when the clock reads before it. The clock's value cannot be
/// promised.
#[verifier::external_body]
pub fn get_now_usec64() -> u64 {
    match std::time::SystemTime::UNIX_EPOCH.elapsed() {
        Err(_) => 0,
        Ok(d) => d.as_micros() as u64,
    }
}

/// Relies on SystemTime::checked_add: the epoch moved forward by the given
/// microseconds, or the epoch itself on overflow.
#[verifier::external_body]
pub fn get_time_from_usec(usec: u64) -> std::time::SystemTime {
    match std::time::SystemTime::UNIX_EPOCH.checked_add(std::time::Duration::from_micros(usec)) {
        None => std::time::SystemTime::UNIX_EPOCH,
        Some(t) => t,
    }
}

/// Relies on SystemTime::duration_since of UNIX_EPOCH: the microseconds a
/// time lies past the epoch, zero for times before it.
#[verifier::external_body]
fn systime_usecs(dt: &std::time::SystemTime) -> u64 {
    match dt.duration_since(std::time::SystemTime::UNIX_EPOCH) {
        Err(_) => 0,
        Ok(d) => d.as_micros() as u64,
    }
}

/// Relies on time::UtcOffset::current_local_offset and whole_seconds: the
/// machine's UTC offset in seconds, zero when it cannot be determined. The
/// offset type admits up to 25:59:59 in either direction, so the value lies
/// within plus or minus 93599 seconds.
#[verifier::external_body]
fn local_offset_secs() -> (r: i64)
    ensures
        -93599 <= r <= 93599,
{
    match time::UtcOffset::current_local_offset() {
        Ok(local) => local.whole_seconds() as i64,
        Err(_) => 0,
    }
}

/// Integer ceiling division: the least n with n * b >= a, for b > 0.
pub fn ceiling(a: u64, b: u64) -> (r: u64)
    requires
        b > 0,
    ensures
        r == (a as int + b as int - 1) / (b as int),
        r as int * b as int >= a as int,
{
    let r: u64 = if a % b == 0 {
        a / b
    } else {
        proof {
            assert(b >= 2);
            assert(a / b < u64::MAX) by (nonlinear_arith)
                requires
                    b >= 2,
                    a <= u64::MAX,
            ;
        }
        a / b + 1
    };
    proof {
        assert(r as int * b as int >= a as int) by (nonlinear_arith)
            requires
                b > 0,
                r == if a as int % b as int == 0 {
                    a as int / b as int
                } else {
                    a as int / b as int + 1
                },
        ;
        assert(r == (a as int + b as int - 1) / (b as int)) by (nonlinear_arith)
            requires
                b > 0,
                r == if a as int % b as int == 0 {
                    a as int / b as int
                } else {
                    a as int / b as int + 1
                },
        ;
    }
    r
}

/// Whether a year is a Gregorian leap year.
pub open spec fn spec_is_leap_year(year: int) -> bool {
    (year % 4 == 0 && year % 100 != 0) || year % 400 == 0
}

pub fn is_leap_year(year: u64) -> (r: bool)
    ensures
        r == spec_is_leap_year(year as int),
{
    ((year % 4 == 0) && (year % 100 != 0)) || (year % 400 == 0)
}

pub const INVALID_MONTH: u16 = 0xFFFF;

/// Days in one month, months counted from 0.
pub open spec fn spec_days_of_month(m: int, leap: bool) -> int {
    if m == 1 {
        if leap {
            29
        } else {
            28
        }
    } else if m == 3 || m == 5 || m == 8 || m == 10 {
        30
    } else {
        31
    }
}

/// Days in the months before month m (0-based), of a year.
pub open spec fn spec_days_before_month(m: int, leap: bool) -> int
    decreases m,
{
    if m <= 0 {
        0
    } else {
        spec_days_before_month(m - 1, leap) + spec_days_of_month(m - 1, leap)
    }
}

/// The month (1-based) and day-of-month (1-based) a 0-based day of the year
/// falls in; `INVALID_MONTH` past the year's end.
pub fn get_month(day_in_year: u16, leap_year: bool) -> (r: (u16, u16))
    ensures
        day_in_year < spec_days_before_month(12, leap_year) ==> {
            &&& 1 <= r.0 <= 12
            &&& spec_days_before_month(r.0 - 1, leap_year) <= day_in_year < spec_days_before_month(
                r.0 as int,
                leap_year,
            )
            &&& r.1 == day_in_year + 1 - spec_days_before_month(r.0 - 1, leap_year)
        },
        day_in_year >= spec_days_before_month(12, leap_year) ==> r.0 == INVALID_MONTH && r.1 == 0,
{
    proof {
        reveal_with_fuel(spec_days_before_month, 13);
    }
    let mut cuml: u16 = 0;
    let mut i: usize = 0;
    while i < 12
        invariant
            i <= 12,
            cuml == spec_days_before_month(i as int, leap_year),
            cuml <= 366,
            day_in_year >= cuml,
        decreases 12 - i,
    {
        proof {
            reveal_with_fuel(spec_days_before_month, 13);
        }
        let dm: u16 = if i == 1 {
            if leap_year {
                29
            } else {
                28
            }
        } else if i == 3 || i == 5 || i == 8 || i == 10 {
            30
        } else {
            31
        };
        if day_in_year < cuml + dm {
            return ((i + 1) as u16, day_in_year + 1 - cuml);
        }
        cuml = cuml + dm;
        i = i + 1;
    }
    (INVALID_MONTH, 0)
}

/// A rough year count for a day count, used as the starting guess of
/// `get_years_since_1970`.
pub fn get_years_of_days(days: u64) -> (r: u64)
    ensures
        r == (if days as int % 365 > 58 {
            days as int / 365
        } else {
            days as int / 365 + 1
        }),
{
    if days % 365 > 58 {
        days / 365
    } else {
        proof {
            assert(days as int / 365 < u64::MAX) by (nonlinear_arith)
                requires
                    days <= u64::MAX,
            ;
        }
        days / 365 + 1
    }
}

/// Whole years elapsed since 1970 for a day count, and the days those years
/// cover: 365 per year plus the leap days the estimate accounts.
pub fn get_years_since_1970(days: u64) -> (r: (u64, u64))
    ensures
        r.1 <= days,
        r.1 >= r.0 * 365,
{
    let years0 = get_years_of_days(days);
    let a1 = (years0 + 2) / 4;
    let a2 = (70 + years0) / 100;
    let a3 = (370 + years0) / 400;
    let leap_years = if a1 + a3 >= a2 {
        a1 + a3 - a2
    } else {
        0
    };
    let lv = if leap_years <= days {
        days - leap_years
    } else {
        0
    };
    let years = lv / 365;
    proof {
        assert(years * 365 <= lv) by (nonlinear_arith)
            requires
                years == lv as int / 365,
                lv >= 0,
        ;
    }
    (years, years * 365 + (if leap_years <= days { leap_years } else { 0 }))
}

pub const SECS_PER_DAY: u64 = 24 * 3600;

/// A broken-down civil date and time, kept together with the microsecond
/// instant it was computed from.
#[derive(Clone, Copy)]
pub struct datetime_t {
    pub usecs: u64,
    pub year: u32,
    pub mon: u8,
    pub day: u8,
    pub hour: u8,
    pub min: u8,
    pub sec: u8,
    pub msec: u16,
}

impl datetime_t {
    /// Sane field ranges for a computed date.
    pub open spec fn wf(&self) -> bool {
        &&& 1970 <= self.year
        &&& self.hour < 24
        &&& self.min < 60
        &&& self.sec < 60
        &&& self.msec < 1000
    }

    /// The Unix epoch.
    pub fn new() -> (r: Self)
        ensures
            r.wf(),
            r.year == 1970,
            r.mon == 1,
            r.day == 1,
            r.hour == 0,
            r.min == 0,
            r.sec == 0,
            r.msec == 0,
            r.usecs == 0,
    {
        Self { usecs: 0, year: 1970, mon: 1, day: 1, hour: 0, min: 0, sec: 0, msec: 0 }
    }

    pub fn get_year(&self) -> (r: u32)
        ensures
            r == self.year,
    {
        self.year
    }

    pub fn get_mon_in_year(&self) -> (r: u8)
        ensures
            r == self.mon,
    {
        self.mon
    }

    pub fn get_day_in_mon(&self) -> (r: u8)
        ensures
            r == self.day,
    {
        self.day
    }

    pub fn get_hour_in_day(&self) -> (r: u8)
        ensures
            r == self.hour,
    {
        self.hour
    }

    pub fn get_min_in_hour(&self) -> (r: u8)
        ensures
            r == self.min,
    {
        self.min
    }

    pub fn get_secs_in_min(&self) -> (r: u8)
        ensures
            r == self.sec,
    {
        self.sec
    }

    /// The 1-based day of the year this date falls on.
    pub fn get_day_in_year(&self) -> (r: u16)
        requires
            self.wf(),
            1 <= self.mon <= 12,
        ensures
            r == spec_days_before_month(self.mon - 1, spec_is_leap_year(self.year as int))
                + self.day,
    {
        proof {
            reveal_with_fuel(spec_days_before_month, 13);
        }
        let leap = is_leap_year(self.year as u64);
        let mut days_in_year: u16 = 0;
        let mut i: usize = 0;
        let m = self.mon as usize;
        while i < m - 1
            invariant
                i <= m - 1,
                1 <= m <= 12,
                leap == spec_is_leap_year(self.year as int),
                days_in_year == spec_days_before_month(i as int, leap),
                days_in_year <= 366,
            decreases m - 1 - i,
        {
            proof {
                reveal_with_fuel(spec_days_before_month, 13);
            }
            let dm: u16 = if i == 1 {
                if leap {
                    29
                } else {
                    28
                }
            } else if i == 3 || i == 5 || i == 8 || i == 10 {
                30
            } else {
                31
            };
            days_in_year = days_in_year + dm;
            i = i + 1;
        }
        days_in_year + self.day as u16
    }

    /// The date this many days earlier, at UTC.
    pub fn prev_ndays(&self, days: u64) -> (r: Self)
        ensures
            r.wf(),
    {
        let step = days.checked_mul(SECS_PER_DAY * 1000000);
        let prev = match step {
            None => 0u64,
            Some(d) => {
                if self.usecs >= d {
                    self.usecs - d
                } else {
                    self.usecs
                }
            },
        };
        get_datetime_from_usec(prev, 0)
    }

    /// The date this many seconds earlier, at UTC.
    pub fn prev_secs(&self, secs: u64) -> (r: Self)
        ensures
            r.wf(),
    {
        let step = secs.checked_mul(1000000);
        let prev = match step {
            None => 0u64,
            Some(d) => {
                if self.usecs >= d {
                    self.usecs - d
                } else {
                    self.usecs
                }
            },
        };
        get_datetime_from_usec(prev, 0)
    }

    /// The microsecond instant the date was computed from.
    pub fn to_usecs(&self) -> (r: u64)
        ensures
            r == self.usecs,
    {
        self.usecs
    }
}

/// The broken-down civil date of a microsecond instant, shifted by a UTC
/// offset. The time-of-day fields are exact in the shifted milliseconds;
/// the calendar fields follow the runtime's year estimate.
pub fn get_datetime_from_usec(usec: u64, offset_secs: i64) -> (r: datetime_t)
    requires
        -100000 <= offset_secs <= 100000,
    ensures
        r.wf(),
        r.usecs == usec,
{
    let base_ms: u64 = usec / 1000;
    let shift: u64 = if offset_secs >= 0 {
        let add = (offset_secs as u64) * 1000;
        if base_ms <= u64::MAX - add {
            base_ms + add
        } else {
            base_ms
        }
    } else {
        let sub = ((-offset_secs) as u64) * 1000;
        if base_ms >= sub {
            base_ms - sub
        } else {
            0
        }
    };
    let dur = shift;
    if dur == 0 {
        let mut r = datetime_t::new();
        r.usecs = usec;
        return r;
    }
    let total_days = dur / (SECS_PER_DAY * 1000);
    let (years, days_elapsed) = get_years_since_1970(total_days);
    let days_in_year = total_days - days_elapsed;
    let leap_year = is_leap_year(1970 + years);
    let diy: u16 = if days_in_year < 366 {
        days_in_year as u16
    } else {
        365
    };
    let (mon, day_in_mon) = get_month(diy, leap_year);
    let mut msec = dur % (SECS_PER_DAY * 1000);
    proof {
        assert(0 <= dur as int % 86400000 < 86400000) by (nonlinear_arith);
    }
    let hour = msec / 3600000;
    msec = msec - hour * 3600000;
    let min = msec / 60000;
    msec = msec - min * 60000;
    let sec = msec / 1000;
    msec = msec % 1000;
    let year: u32 = if years + 1970 <= 0xFFFFFFFFu64 {
        (years + 1970) as u32
    } else {
        0xFFFFFFFFu32
    };
    proof {
        assert(hour < 24 && min < 60 && sec < 60) by (nonlinear_arith)
            requires
                hour == (dur as int % 86400000) / 3600000,
                min == ((dur as int % 86400000) - hour * 3600000) / 60000,
                sec == (((dur as int % 86400000) - hour * 3600000) - min * 60000) / 1000,
                0 <= dur as int % 86400000 < 86400000,
        ;
    }
    datetime_t {
        usecs: usec,
        year,
        mon: (mon % 256) as u8,
        day: (day_in_mon % 256) as u8,
        hour: hour as u8,
        min: min as u8,
        sec: sec as u8,
        msec: msec as u16,
    }
}

/// The broken-down local civil date of a system time, using the machine's
/// current UTC offset.
pub fn get_datetime_from_std(dt: &std::time::SystemTime) -> (r: datetime_t)
    ensures
        r.wf(),
{
    let usec = systime_usecs(dt);
    let offset = local_offset_secs();
    get_datetime_from_usec(usec, offset)
}

/// A date rendered as `YYYY-MM-DD hh:mm:ss.mmm`.
pub fn format_datetime_parts(t: &datetime_t) -> (r: String)
    ensures
        r@ == spec_udec_pad(t.year as nat, 4) + seq!['-'] + spec_udec_pad(t.mon as nat, 2)
            + seq!['-'] + spec_udec_pad(t.day as nat, 2) + seq![' '] + spec_udec_pad(
            t.hour as nat,
            2,
        ) + seq![':'] + spec_udec_pad(t.min as nat, 2) + seq![':'] + spec_udec_pad(t.sec as nat, 2)
            + seq!['.'] + spec_udec_pad(t.msec as nat, 3),
{
    proof {
        reveal_strlit("-");
        reveal_strlit(" ");
        reveal_strlit(":");
        reveal_strlit(".");
    }
    let mut s = strfmt::u64_to_dec_pad(t.year as u64, 4);
    s.append("-");
    s.append(strfmt::u64_to_dec_pad(t.mon as u64, 2).as_str());
    s.append("-");
    s.append(strfmt::u64_to_dec_pad(t.day as u64, 2).as_str());
    s.append(" ");
    s.append(strfmt::u64_to_dec_pad(t.hour as u64, 2).as_str());
    s.append(":");
    s.append(strfmt::u64_to_dec_pad(t.min as u64, 2).as_str());
    s.append(":");
    s.append(strfmt::u64_to_dec_pad(t.sec as u64, 2).as_str());
    s.append(".");
    s.append(strfmt::u64_to_dec_pad(t.msec as u64, 3).as_str());
    proof {
        assert(s@ =~= spec_udec_pad(t.year as nat, 4) + seq!['-'] + spec_udec_pad(t.mon as nat, 2)
            + seq!['-'] + spec_udec_pad(t.day as nat, 2) + seq![' '] + spec_udec_pad(
            t.hour as nat,
            2,
        ) + seq![':'] + spec_udec_pad(t.min as nat, 2) + seq![':'] + spec_udec_pad(t.sec as nat, 2)
            + seq!['.'] + spec_udec_pad(t.msec as nat, 3));
    }
    s
}

/// A system time rendered as `YYYY-MM-DD hh:mm:ss.mmm`, local time.
pub fn format_datetime(dt: &std::time::SystemTime) -> (r: String)
    ensures
        r@.len() > 0,
{
    let t = get_datetime_from_std(dt);
    let s = format_datetime_parts(&t);
    proof {
        strfmt::lemma_udec_len_bound(t.year as nat);
    }
    s
}

/// A system time rendered as `YYYY-MM-DDThh:mm:ssZ`, local time.
pub fn format_datetime_golang(dt: &std::time::SystemTime) -> (r: String)
    ensures
        r@.len() > 0,
{
    proof {
        reveal_strlit("-");
        reveal_strlit("T");
        reveal_strlit(":");
        reveal_strlit("Z");
    }
    let t = get_datetime_from_std(dt);
    let mut s = strfmt::u64_to_dec_pad(t.year as u64, 4);
    s.append("-");
    s.append(strfmt::u64_to_dec_pad(t.mon as u64, 2).as_str());
    s.append("-");
    s.append(strfmt::u64_to_dec_pad(t.day as u64, 2).as_str());
    s.append("T");
    s.append(strfmt::u64_to_dec_pad(t.hour as u64, 2).as_str());
    s.append(":");
    s.append(strfmt::u64_to_dec_pad(t.min as u64, 2).as_str());
    s.append(":");
    s.append(strfmt::u64_to_dec_pad(t.sec as u64, 2).as_str());
    s.append("Z");
    proof {
        assert(spec_udec_pad(t.year as nat, 4).len() >= 4) by {
            strfmt::lemma_udec_len_bound(t.year as nat);
        }
    }
    s
}

} // verus!

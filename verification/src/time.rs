use vstd::prelude::*;
use crate::error::S3Error;
use crate::text::{hex_digit, push_char, spec_hex_digit};

verus! {

// ----------------------------------------------------------------------------
// Calendar timestamps
//
// A timestamp is kept as plain civil fields, always in UTC.  The supported
// range is year 0 through year 9999; arithmetic that leaves that range is
// reported as an error rather than wrapped.
// ----------------------------------------------------------------------------

#[derive(Clone, Copy, Debug, PartialEq, Eq, Structural)]
pub struct Timestamp {
    pub year: u16,
    pub month: u8,
    pub day: u8,
    pub hour: u8,
    pub minute: u8,
    pub second: u8,
    pub nanosecond: u32,
}

pub open spec fn spec_is_leap_year(y: int) -> bool {
    (y % 4 == 0 && y % 100 != 0) || y % 400 == 0
}

pub open spec fn spec_days_in_month(y: int, m: int) -> int {
    if m == 1 {
        31
    } else if m == 2 {
        if spec_is_leap_year(y) {
            29
        } else {
            28
        }
    } else if m == 3 {
        31
    } else if m == 4 {
        30
    } else if m == 5 {
        31
    } else if m == 6 {
        30
    } else if m == 7 {
        31
    } else if m == 8 {
        31
    } else if m == 9 {
        30
    } else if m == 10 {
        31
    } else if m == 11 {
        30
    } else {
        31
    }
}

pub fn days_in_month(y: u16, m: u8) -> (r: u8)
    requires
        1 <= m <= 12,
    ensures
        r == spec_days_in_month(y as int, m as int),
{
    if m == 2 {
        let y32 = y as u32;
        if (y32 % 4 == 0 && y32 % 100 != 0) || y32 % 400 == 0 {
            29
        } else {
            28
        }
    } else if m == 4 || m == 6 || m == 9 || m == 11 {
        30
    } else {
        31
    }
}

impl Timestamp {
    /// Well-formed: every field in its civil range, the day valid for the
    /// month and year, the year within the four-digit range.
    pub open spec fn wf(self) -> bool {
        &&& self.year <= 9999
        &&& 1 <= self.month <= 12
        &&& 1 <= self.day <= spec_days_in_month(self.year as int, self.month as int)
        &&& self.hour <= 23
        &&& self.minute <= 59
        &&& self.second <= 59
        &&& self.nanosecond < 1_000_000_000
    }

    /// Runtime check of `wf`.
    pub fn is_wf(&self) -> (r: bool)
        ensures
            r == self.wf(),
    {
        self.year <= 9999 && 1 <= self.month && self.month <= 12 && 1 <= self.day && {
            let dim = days_in_month(self.year, self.month);
            self.day <= dim && self.hour <= 23 && self.minute <= 59 && self.second <= 59
                && self.nanosecond < 1_000_000_000
        }
    }
}

// ----------------------------------------------------------------------------
// Days since 0000-03-01
//
// Civil-calendar arithmetic in the standard era/cycle form, kept entirely in
// non-negative numbers by counting days from the first of March of year 0.
// ----------------------------------------------------------------------------

/// Day count of a civil date, measured from 0000-03-01 (which is day 0).
/// Defined for dates from March of year 0 onward.
pub open spec fn spec_days0(y: int, m: int, d: int) -> int {
    let y2 = if m <= 2 {
        y - 1
    } else {
        y
    };
    let era = y2 / 400;
    let yoe = y2 % 400;
    let mp = if m > 2 {
        m - 3
    } else {
        m + 9
    };
    let doy = (153 * mp + 2) / 5 + d - 1;
    let doe = yoe * 365 + yoe / 4 - yoe / 100 + doy;
    era * 146097 + doe
}

/// Day count back to a civil date (year, month, day).  The two inner
/// subtractions cannot go below zero for any day count that `spec_days0`
/// produces; they are written to stop at zero so that the whole function is
/// defined on every input.
pub open spec fn spec_civil0(days0: int) -> (int, int, int) {
    let era = days0 / 146097;
    let doe = days0 % 146097;
    let yoe = (doe - doe / 1460 + doe / 36524 - doe / 146096) / 365;
    let ydays = 365 * yoe + yoe / 4 - yoe / 100;
    let doy = if doe >= ydays {
        doe - ydays
    } else {
        0
    };
    let mp = (5 * doy + 2) / 153;
    let mdays = (153 * mp + 2) / 5;
    let d = if doy >= mdays {
        doy - mdays + 1
    } else {
        1
    };
    let m = if mp < 10 {
        mp + 3
    } else {
        mp - 9
    };
    if m <= 2 {
        (y_of_civil0(yoe, era) + 1, m, d)
    } else {
        (y_of_civil0(yoe, era), m, d)
    }
}

pub open spec fn y_of_civil0(yoe: int, era: int) -> int {
    yoe + era * 400
}

/// The day count and the civil date invert each other: for every civil
/// date in the supported range, converting to the day count and back yields
/// the same year, month and day.
#[verifier::rlimit(100)]
#[verifier::spinoff_prover]
pub proof fn lemma_civil0_of_days0(y: int, m: int, d: int)
    requires
        0 <= y <= 9999,
        1 <= m <= 12,
        1 <= d <= spec_days_in_month(y, m),
        m >= 3 || y >= 1,
    ensures
        spec_civil0(spec_days0(y, m, d)) == (y, m, d),
{
    let y2 = if m <= 2 {
        y - 1
    } else {
        y
    };
    let era = y2 / 400;
    let yoe = y2 % 400;
    let mp = if m > 2 {
        m - 3
    } else {
        m + 9
    };
    let doy = (153 * mp + 2) / 5 + d - 1;
    let doe = yoe * 365 + yoe / 4 - yoe / 100 + doy;
    let z = era * 146097 + doe;
    assert(z == spec_days0(y, m, d));
    assert(0 <= yoe <= 399 && era >= 0);
    assert(0 <= mp <= 11);
    assert(0 <= doy <= 365);
    assert(0 <= doe <= 146096);
    assert(z / 146097 == era && z % 146097 == doe);
    let a = doe - doe / 1460 + doe / 36524 - doe / 146096;
    assert(365 * yoe <= a);
    assert(a < 365 * yoe + 365);
    assert(a / 365 == yoe);
    let ydays = 365 * yoe + yoe / 4 - yoe / 100;
    assert(doe >= ydays && doe - ydays == doy);
    assert((5 * doy + 2) / 153 == mp);
    assert((153 * mp + 2) / 5 <= doy && doy - (153 * mp + 2) / 5 + 1 == d);
    assert(y_of_civil0(yoe, era) == y2);
    assert(spec_civil0(z) == (y, m, d));
}

/// Seconds between 0000-03-01T00:00:00 and the given UTC instant.
pub open spec fn spec_secs0(y: int, m: int, d: int, hh: int, mm: int, ss: int) -> int {
    spec_days0(y, m, d) * 86400 + hh * 3600 + mm * 60 + ss
}

/// Seconds from the Unix epoch to 0000-03-01T00:00:00, negated: the Unix
/// epoch is day 719468 of the era count.
pub const EPOCH_SECS0: u64 = 719468 * 86400;

/// Largest supported instant in era seconds: 9999-12-31T23:59:59.
pub const MAX_SECS0: u64 = 3652364 * 86400 + 86399;

pub fn days0_of(y: u16, m: u8, d: u8) -> (r: u64)
    requires
        y <= 9999,
        1 <= m <= 12,
        1 <= d <= 31,
        m >= 3 || y >= 1,
    ensures
        r == spec_days0(y as int, m as int, d as int),
        r <= 3700000,
{
    let y2: u64 = if m <= 2 {
        (y - 1) as u64
    } else {
        y as u64
    };
    let era: u64 = y2 / 400;
    let yoe: u64 = y2 % 400;
    let mp: u64 = if m > 2 {
        (m - 3) as u64
    } else {
        (m + 9) as u64
    };
    let doy: u64 = (153 * mp + 2) / 5 + d as u64 - 1;
    let doe: u64 = yoe * 365 + yoe / 4 - yoe / 100 + doy;
    era * 146097 + doe
}

pub fn civil0_of(days0: u64) -> (r: (u64, u64, u64))
    requires
        days0 <= 3700000,
    ensures
        (r.0 as int, r.1 as int, r.2 as int) == spec_civil0(days0 as int),
{
    let era: u64 = days0 / 146097;
    let doe: u64 = days0 % 146097;
    let yoe: u64 = (doe - doe / 1460 + doe / 36524 - doe / 146096) / 365;
    let y: u64 = yoe + era * 400;
    let ydays: u64 = 365 * yoe + yoe / 4 - yoe / 100;
    let doy: u64 = if doe >= ydays {
        doe - ydays
    } else {
        0
    };
    let mp: u64 = (5 * doy + 2) / 153;
    let mdays: u64 = (153 * mp + 2) / 5;
    let d: u64 = if doy >= mdays {
        doy - mdays + 1
    } else {
        1
    };
    let m: u64 = if mp < 10 {
        mp + 3
    } else {
        mp - 9
    };
    if m <= 2 {
        (y + 1, m, d)
    } else {
        (y, m, d)
    }
}

// ----------------------------------------------------------------------------
// Zero-padded decimal fields
// ----------------------------------------------------------------------------

pub open spec fn spec_pad2(n: int) -> Seq<char> {
    seq![spec_hex_digit(n / 10), spec_hex_digit(n % 10)]
}

pub open spec fn spec_pad4(n: int) -> Seq<char> {
    seq![
        spec_hex_digit(n / 1000),
        spec_hex_digit(n / 100 % 10),
        spec_hex_digit(n / 10 % 10),
        spec_hex_digit(n % 10),
    ]
}

pub open spec fn spec_pad9(n: int) -> Seq<char> {
    seq![
        spec_hex_digit(n / 100000000),
        spec_hex_digit(n / 10000000 % 10),
        spec_hex_digit(n / 1000000 % 10),
        spec_hex_digit(n / 100000 % 10),
        spec_hex_digit(n / 10000 % 10),
        spec_hex_digit(n / 1000 % 10),
        spec_hex_digit(n / 100 % 10),
        spec_hex_digit(n / 10 % 10),
        spec_hex_digit(n % 10),
    ]
}

fn pad2_into(r: &mut String, n: u8)
    requires
        n < 100,
    ensures
        final(r)@ == old(r)@ + spec_pad2(n as int),
{
    push_char(r, hex_digit(n / 10));
    push_char(r, hex_digit(n % 10));
    proof {
        assert(final(r)@ =~= old(r)@ + spec_pad2(n as int));
    }
}

fn pad4_into(r: &mut String, n: u16)
    requires
        n < 10000,
    ensures
        final(r)@ == old(r)@ + spec_pad4(n as int),
{
    push_char(r, hex_digit((n / 1000) as u8));
    push_char(r, hex_digit((n / 100 % 10) as u8));
    push_char(r, hex_digit((n / 10 % 10) as u8));
    push_char(r, hex_digit((n % 10) as u8));
    proof {
        assert(final(r)@ =~= old(r)@ + spec_pad4(n as int));
    }
}

fn pad9_into(r: &mut String, n: u32)
    requires
        n < 1_000_000_000,
    ensures
        final(r)@ == old(r)@ + spec_pad9(n as int),
{
    push_char(r, hex_digit((n / 100000000) as u8));
    push_char(r, hex_digit((n / 10000000 % 10) as u8));
    push_char(r, hex_digit((n / 1000000 % 10) as u8));
    push_char(r, hex_digit((n / 100000 % 10) as u8));
    push_char(r, hex_digit((n / 10000 % 10) as u8));
    push_char(r, hex_digit((n / 1000 % 10) as u8));
    push_char(r, hex_digit((n / 100 % 10) as u8));
    push_char(r, hex_digit((n / 10 % 10) as u8));
    push_char(r, hex_digit((n % 10) as u8));
    proof {
        assert(final(r)@ =~= old(r)@ + spec_pad9(n as int));
    }
}

// ----------------------------------------------------------------------------
// The timestamp formats this crate emits
// ----------------------------------------------------------------------------

/// The signing date stamp: `YYYYMMDD`.
pub open spec fn spec_date_stamp(ts: Timestamp) -> Seq<char> {
    spec_pad4(ts.year as int) + spec_pad2(ts.month as int) + spec_pad2(ts.day as int)
}

/// The signing timestamp: `YYYYMMDDThhmmssZ`.
pub open spec fn spec_amz_date(ts: Timestamp) -> Seq<char> {
    spec_date_stamp(ts) + seq!['T'] + spec_pad2(ts.hour as int) + spec_pad2(ts.minute as int)
        + spec_pad2(ts.second as int) + seq!['Z']
}

/// An RFC 3339 timestamp in UTC: date, `T`, time, a nine-digit fraction when
/// the nanosecond field is non-zero, and `Z`.
pub open spec fn spec_rfc3339(ts: Timestamp) -> Seq<char> {
    spec_pad4(ts.year as int) + seq!['-'] + spec_pad2(ts.month as int) + seq!['-'] + spec_pad2(
        ts.day as int,
    ) + seq!['T'] + spec_pad2(ts.hour as int) + seq![':'] + spec_pad2(ts.minute as int) + seq![':']
        + spec_pad2(ts.second as int) + (if ts.nanosecond == 0 {
        Seq::<char>::empty()
    } else {
        seq!['.'] + spec_pad9(ts.nanosecond as int)
    }) + seq!['Z']
}

impl Timestamp {
    pub fn date_stamp(&self) -> (r: String)
        requires
            self.wf(),
        ensures
            r@ == spec_date_stamp(*self),
    {
        let mut r = String::new();
        pad4_into(&mut r, self.year);
        pad2_into(&mut r, self.month);
        pad2_into(&mut r, self.day);
        proof {
            assert(r@ =~= spec_date_stamp(*self));
        }
        r
    }

    pub fn amz_date(&self) -> (r: String)
        requires
            self.wf(),
        ensures
            r@ == spec_amz_date(*self),
    {
        let mut r = self.date_stamp();
        push_char(&mut r, 'T');
        pad2_into(&mut r, self.hour);
        pad2_into(&mut r, self.minute);
        pad2_into(&mut r, self.second);
        push_char(&mut r, 'Z');
        proof {
            assert(r@ =~= spec_amz_date(*self));
        }
        r
    }

    pub fn rfc3339(&self) -> (r: String)
        requires
            self.wf(),
        ensures
            r@ == spec_rfc3339(*self),
    {
        let mut r = String::new();
        pad4_into(&mut r, self.year);
        push_char(&mut r, '-');
        pad2_into(&mut r, self.month);
        push_char(&mut r, '-');
        pad2_into(&mut r, self.day);
        push_char(&mut r, 'T');
        pad2_into(&mut r, self.hour);
        push_char(&mut r, ':');
        pad2_into(&mut r, self.minute);
        push_char(&mut r, ':');
        pad2_into(&mut r, self.second);
        if self.nanosecond > 0 {
            push_char(&mut r, '.');
            pad9_into(&mut r, self.nanosecond);
        }
        push_char(&mut r, 'Z');
        proof {
            assert(r@ =~= spec_rfc3339(*self));
        }
        r
    }
}

// ----------------------------------------------------------------------------
// HTTP dates (If-Modified-Since, Expires, ...)
// ----------------------------------------------------------------------------

/// Day of the week of a day count, with Sunday as 0: day 0 of the era count
/// (0000-03-01) was a Wednesday, and the shift by 3 aligns the cycle.
pub open spec fn spec_weekday0(days0: int) -> int {
    (days0 + 3) % 7
}

pub open spec fn spec_weekday_name(w: int) -> Seq<char> {
    if w == 0 {
        "Sunday"@
    } else if w == 1 {
        "Monday"@
    } else if w == 2 {
        "Tuesday"@
    } else if w == 3 {
        "Wednesday"@
    } else if w == 4 {
        "Thursday"@
    } else if w == 5 {
        "Friday"@
    } else {
        "Saturday"@
    }
}

pub open spec fn spec_month_abbrev(m: int) -> Seq<char> {
    if m == 1 {
        "Jan"@
    } else if m == 2 {
        "Feb"@
    } else if m == 3 {
        "Mar"@
    } else if m == 4 {
        "Apr"@
    } else if m == 5 {
        "May"@
    } else if m == 6 {
        "Jun"@
    } else if m == 7 {
        "Jul"@
    } else if m == 8 {
        "Aug"@
    } else if m == 9 {
        "Sep"@
    } else if m == 10 {
        "Oct"@
    } else {
        if m == 11 {
            "Nov"@
        } else {
            "Dec"@
        }
    }
}

fn weekday_name(w: u64) -> (r: &'static str)
    requires
        w <= 6,
    ensures
        r@ == spec_weekday_name(w as int),
{
    match w {
        0 => "Sunday",
        1 => "Monday",
        2 => "Tuesday",
        3 => "Wednesday",
        4 => "Thursday",
        5 => "Friday",
        _ => "Saturday",
    }
}

fn month_abbrev(m: u8) -> (r: &'static str)
    requires
        1 <= m <= 12,
    ensures
        r@ == spec_month_abbrev(m as int),
{
    match m {
        1 => "Jan",
        2 => "Feb",
        3 => "Mar",
        4 => "Apr",
        5 => "May",
        6 => "Jun",
        7 => "Jul",
        8 => "Aug",
        9 => "Sep",
        10 => "Oct",
        11 => "Nov",
        _ => "Dec",
    }
}

/// The header date format `Weekday, DD Mon YYYY HH:MM:SS GMT`.
pub open spec fn spec_http_date(ts: Timestamp) -> Seq<char> {
    spec_weekday_name(
        spec_weekday0(spec_days0(ts.year as int, ts.month as int, ts.day as int)),
    ) + ", "@ + spec_pad2(ts.day as int) + " "@ + spec_month_abbrev(ts.month as int) + " "@
        + spec_pad4(ts.year as int) + " "@ + spec_pad2(ts.hour as int) + ":"@ + spec_pad2(
        ts.minute as int,
    ) + ":"@ + spec_pad2(ts.second as int) + " GMT"@
}

impl Timestamp {
    /// Format for the conditional and expiry headers.  Dates in year 0
    /// before March are outside the supported day count.
    pub fn http_date(&self) -> (r: String)
        requires
            self.wf(),
            self.year >= 1 || self.month >= 3,
        ensures
            r@ == spec_http_date(*self),
    {
        let days0 = days0_of(self.year, self.month, self.day);
        let w = (days0 + 3) % 7;
        let mut r = String::new();
        r.append(weekday_name(w));
        r.append(", ");
        pad2_into(&mut r, self.day);
        r.append(" ");
        r.append(month_abbrev(self.month));
        r.append(" ");
        pad4_into(&mut r, self.year);
        r.append(" ");
        pad2_into(&mut r, self.hour);
        r.append(":");
        pad2_into(&mut r, self.minute);
        r.append(":");
        pad2_into(&mut r, self.second);
        r.append(" GMT");
        proof {
            assert(r@ =~= spec_http_date(*self));
        }
        r
    }
}

// ----------------------------------------------------------------------------
// The Unix epoch and the clock
// ----------------------------------------------------------------------------

/// Civil UTC timestamp of a count of seconds (and subsecond nanoseconds)
/// since the Unix epoch.  Instants outside year 0 through year 9999 give
/// `None`; nanosecond counts from a folded leap second stop at the last
/// representable nanosecond.
pub open spec fn spec_timestamp_from_unix(secs: int, nanos: int) -> Option<Timestamp> {
    let s0 = secs + EPOCH_SECS0;
    if 0 <= s0 <= MAX_SECS0 {
        let c = spec_civil0(s0 / 86400);
        let rem = s0 % 86400;
        if 0 <= c.0 <= 9999 && 1 <= c.1 <= 12 && 1 <= c.2 <= 31 {
            let ts = Timestamp {
                year: c.0 as u16,
                month: c.1 as u8,
                day: c.2 as u8,
                hour: (rem / 3600) as u8,
                minute: (rem % 3600 / 60) as u8,
                second: (rem % 60) as u8,
                nanosecond: if nanos < 1_000_000_000 {
                    nanos as u32
                } else {
                    999_999_999
                },
            };
            if ts.wf() {
                Some(ts)
            } else {
                None
            }
        } else {
            None
        }
    } else {
        None
    }
}

/// Convert a Unix instant to a civil UTC timestamp.
pub fn timestamp_from_unix(secs: i64, nanos: u32) -> (r: Result<Timestamp, S3Error>)
    ensures
        r matches Ok(ts) ==> spec_timestamp_from_unix(secs as int, nanos as int) == Some(ts)
            && ts.wf(),
        r is Err ==> spec_timestamp_from_unix(secs as int, nanos as int) is None,
        r matches Err(e) ==> e == S3Error::ConfigError,
{
    if secs < -(EPOCH_SECS0 as i64) || secs > (MAX_SECS0 as i64) - (EPOCH_SECS0 as i64) {
        return Err(S3Error::ConfigError);
    }
    let s0: u64 = (secs + (EPOCH_SECS0 as i64)) as u64;
    let c = civil0_of(s0 / 86400);
    let rem: u64 = s0 % 86400;
    if !(c.0 <= 9999 && 1 <= c.1 && c.1 <= 12 && 1 <= c.2 && c.2 <= 31) {
        return Err(S3Error::ConfigError);
    }
    let ts = Timestamp {
        year: c.0 as u16,
        month: c.1 as u8,
        day: c.2 as u8,
        hour: (rem / 3600) as u8,
        minute: (rem % 3600 / 60) as u8,
        second: (rem % 60) as u8,
        nanosecond: if nanos < 1_000_000_000 {
            nanos
        } else {
            999_999_999
        },
    };
    if ts.is_wf() {
        Ok(ts)
    } else {
        Err(S3Error::ConfigError)
    }
}

/// Relies on chrono's Utc::now: seconds since the Unix epoch and the
/// subsecond nanoseconds of the current time.  The nanosecond count is below
/// two billion (chrono folds a leap second into it).
#[verifier::external_body]
fn utc_now_unix() -> (r: (i64, u32))
    ensures
        r.1 < 2_000_000_000,
{
    let n = chrono::Utc::now();
    (n.timestamp(), n.timestamp_subsec_nanos())
}

/// The current time as a civil UTC timestamp.
pub fn now_timestamp() -> (r: Result<Timestamp, S3Error>)
    ensures
        r matches Ok(ts) ==> ts.wf(),
        r matches Err(e) ==> e == S3Error::ConfigError,
{
    let (secs, nanos) = utc_now_unix();
    timestamp_from_unix(secs, nanos)
}

// ----------------------------------------------------------------------------
// RFC 3339 parsing
// ----------------------------------------------------------------------------

pub open spec fn is_digit(c: char) -> bool {
    48 <= (c as u32) && (c as u32) <= 57
}

pub open spec fn digit_val(c: char) -> int {
    (c as u32) - 48
}

pub open spec fn spec_num2(s: Seq<char>, i: int) -> int {
    digit_val(s[i]) * 10 + digit_val(s[i + 1])
}

pub open spec fn spec_num4(s: Seq<char>, i: int) -> int {
    digit_val(s[i]) * 1000 + digit_val(s[i + 1]) * 100 + digit_val(s[i + 2]) * 10 + digit_val(
        s[i + 3],
    )
}

/// The fixed `YYYY-MM-DDTHH:MM:SS` front of an RFC 3339 string; the date and
/// time separator may be `T`, `t` or a space.
pub open spec fn spec_rfc3339_shape(s: Seq<char>) -> bool {
    &&& s.len() >= 20
    &&& is_digit(s[0]) && is_digit(s[1]) && is_digit(s[2]) && is_digit(s[3])
    &&& s[4] == '-'
    &&& is_digit(s[5]) && is_digit(s[6])
    &&& s[7] == '-'
    &&& is_digit(s[8]) && is_digit(s[9])
    &&& (s[10] == 'T' || s[10] == 't' || s[10] == ' ')
    &&& is_digit(s[11]) && is_digit(s[12])
    &&& s[13] == ':'
    &&& is_digit(s[14]) && is_digit(s[15])
    &&& s[16] == ':'
    &&& is_digit(s[17]) && is_digit(s[18])
}

/// First position at or after `i` that does not hold a digit.
pub open spec fn spec_digit_span_end(s: Seq<char>, i: int) -> int
    decreases s.len() - i,
{
    if i < s.len() && is_digit(s[i]) {
        spec_digit_span_end(s, i + 1)
    } else {
        i
    }
}

/// Value of the first nine digits of `s[i..end]`, right-padded with zeros:
/// the nanosecond count of a fraction; digits past the ninth are ignored.
pub open spec fn spec_frac_nanos(s: Seq<char>, i: int, end: int, k: int) -> int
    decreases k,
{
    if k <= 0 {
        0
    } else {
        spec_frac_nanos(s, i, end, k - 1) * 10 + (if i + k - 1 < end {
            digit_val(s[i + k - 1])
        } else {
            0
        })
    }
}

/// The offset tail starting at `k`: `Z` (either case) for UTC, or a signed
/// `hh:mm` within 23:59; anything else, or trailing text, is a parse error.
pub open spec fn spec_parse_offset(s: Seq<char>, k: int) -> Option<int> {
    if k < s.len() && (s[k] == 'Z' || s[k] == 'z') && s.len() == k + 1 {
        Some(0)
    } else if k + 6 == s.len() && (s[k] == '+' || s[k] == '-') && is_digit(s[k + 1]) && is_digit(
        s[k + 2],
    ) && s[k + 3] == ':' && is_digit(s[k + 4]) && is_digit(s[k + 5]) {
        let hh = spec_num2(s, k + 1);
        let mm = spec_num2(s, k + 4);
        if hh <= 23 && mm <= 59 {
            if s[k] == '-' {
                Some(-(hh * 3600 + mm * 60))
            } else {
                Some(hh * 3600 + mm * 60)
            }
        } else {
            None
        }
    } else {
        None
    }
}

/// Apply an offset to parsed civil fields.  A zero offset keeps the fields;
/// any other offset converts through the day count, which rejects the two
/// months of year 0 that precede its origin and any result outside the
/// supported years.
pub open spec fn spec_apply_offset(
    y: int,
    mo: int,
    d: int,
    h: int,
    mi: int,
    se: int,
    ns: int,
    off: int,
) -> Option<Timestamp> {
    if off == 0 {
        Some(
            Timestamp {
                year: y as u16,
                month: mo as u8,
                day: d as u8,
                hour: h as u8,
                minute: mi as u8,
                second: se as u8,
                nanosecond: ns as u32,
            },
        )
    } else if y == 0 && mo <= 2 {
        None
    } else {
        spec_timestamp_from_unix(spec_secs0(y, mo, d, h, mi, se) - off - EPOCH_SECS0, ns)
    }
}

/// Parse an RFC 3339 timestamp and normalize it to UTC.  Out-of-range
/// fields, a leap second, a malformed fraction or offset, and any text
/// around the timestamp are parse errors.
pub open spec fn spec_parse_rfc3339(s: Seq<char>) -> Option<Timestamp> {
    if !spec_rfc3339_shape(s) {
        None
    } else {
        let y = spec_num4(s, 0);
        let mo = spec_num2(s, 5);
        let d = spec_num2(s, 8);
        let h = spec_num2(s, 11);
        let mi = spec_num2(s, 14);
        let se = spec_num2(s, 17);
        if !(1 <= mo <= 12 && 1 <= d <= spec_days_in_month(y, mo) && h <= 23 && mi <= 59 && se
            <= 59) {
            None
        } else {
            if s[19] == '.' {
                let fe = spec_digit_span_end(s, 20);
                if fe == 20 {
                    None
                } else {
                    match spec_parse_offset(s, fe) {
                        Some(off) => spec_apply_offset(
                            y,
                            mo,
                            d,
                            h,
                            mi,
                            se,
                            spec_frac_nanos(s, 20, fe, 9),
                            off,
                        ),
                        None => None,
                    }
                }
            } else {
                match spec_parse_offset(s, 19) {
                    Some(off) => spec_apply_offset(y, mo, d, h, mi, se, 0, off),
                    None => None,
                }
            }
        }
    }
}

proof fn lemma_digit_char(n: int)
    requires
        0 <= n <= 9,
    ensures
        is_digit(spec_hex_digit(n)),
        digit_val(spec_hex_digit(n)) == n,
{
}

#[verifier::rlimit(50)]
proof fn lemma_pad2_value(n: int)
    requires
        0 <= n < 100,
    ensures
        is_digit(spec_pad2(n)[0]),
        is_digit(spec_pad2(n)[1]),
        digit_val(spec_pad2(n)[0]) * 10 + digit_val(spec_pad2(n)[1]) == n,
        spec_pad2(n).len() == 2,
{
    lemma_digit_char(n / 10);
    lemma_digit_char(n % 10);
}

#[verifier::rlimit(50)]
proof fn lemma_pad4_value(n: int)
    requires
        0 <= n < 10000,
    ensures
        is_digit(spec_pad4(n)[0]),
        is_digit(spec_pad4(n)[1]),
        is_digit(spec_pad4(n)[2]),
        is_digit(spec_pad4(n)[3]),
        digit_val(spec_pad4(n)[0]) * 1000 + digit_val(spec_pad4(n)[1]) * 100 + digit_val(
            spec_pad4(n)[2],
        ) * 10 + digit_val(spec_pad4(n)[3]) == n,
        spec_pad4(n).len() == 4,
{
    lemma_digit_char(n / 1000);
    lemma_digit_char(n / 100 % 10);
    lemma_digit_char(n / 10 % 10);
    lemma_digit_char(n % 10);
}

/// Formatting a well-formed timestamp and parsing the text back yields the
/// same timestamp: the decoder inverts the encoder on its own output.
pub proof fn lemma_rfc3339_round_trip(ts: Timestamp)
    requires
        ts.wf(),
    ensures
        spec_parse_rfc3339(spec_rfc3339(ts)) == Some(ts),
{
    let y = ts.year as int;
    let mo = ts.month as int;
    let d = ts.day as int;
    let h = ts.hour as int;
    let mi = ts.minute as int;
    let se = ts.second as int;
    let ns = ts.nanosecond as int;
    let s = spec_rfc3339(ts);
    lemma_pad4_value(y);
    lemma_pad2_value(mo);
    lemma_pad2_value(d);
    lemma_pad2_value(h);
    lemma_pad2_value(mi);
    lemma_pad2_value(se);
    if ts.nanosecond == 0 {
        assert(s =~= spec_pad4(y) + seq!['-'] + spec_pad2(mo) + seq!['-'] + spec_pad2(d)
            + seq!['T'] + spec_pad2(h) + seq![':'] + spec_pad2(mi) + seq![':'] + spec_pad2(se)
            + seq!['Z']);
        assert(s.len() == 20);
        assert(s[0] == spec_pad4(y)[0] && s[1] == spec_pad4(y)[1] && s[2] == spec_pad4(y)[2] && s[3]
            == spec_pad4(y)[3]);
        assert(s[4] == '-' && s[7] == '-' && s[10] == 'T' && s[13] == ':' && s[16] == ':');
        assert(s[5] == spec_pad2(mo)[0] && s[6] == spec_pad2(mo)[1]);
        assert(s[8] == spec_pad2(d)[0] && s[9] == spec_pad2(d)[1]);
        assert(s[11] == spec_pad2(h)[0] && s[12] == spec_pad2(h)[1]);
        assert(s[14] == spec_pad2(mi)[0] && s[15] == spec_pad2(mi)[1]);
        assert(s[17] == spec_pad2(se)[0] && s[18] == spec_pad2(se)[1]);
        assert(s[19] == 'Z');
        assert(spec_rfc3339_shape(s));
        assert(spec_num4(s, 0) == y);
        assert(spec_num2(s, 5) == mo && spec_num2(s, 8) == d);
        assert(spec_num2(s, 11) == h && spec_num2(s, 14) == mi && spec_num2(s, 17) == se);
        assert(s[19] != '.');
        assert(spec_parse_offset(s, 19) == Some(0int));
        assert(spec_parse_rfc3339(s) == Some(ts));
    } else {
        let f = spec_pad9(ns);
        assert(s =~= spec_pad4(y) + seq!['-'] + spec_pad2(mo) + seq!['-'] + spec_pad2(d)
            + seq!['T'] + spec_pad2(h) + seq![':'] + spec_pad2(mi) + seq![':'] + spec_pad2(se)
            + seq!['.'] + f + seq!['Z']);
        assert(s.len() == 30);
        assert(s[0] == spec_pad4(y)[0] && s[1] == spec_pad4(y)[1] && s[2] == spec_pad4(y)[2] && s[3]
            == spec_pad4(y)[3]);
        assert(s[4] == '-' && s[7] == '-' && s[10] == 'T' && s[13] == ':' && s[16] == ':');
        assert(s[5] == spec_pad2(mo)[0] && s[6] == spec_pad2(mo)[1]);
        assert(s[8] == spec_pad2(d)[0] && s[9] == spec_pad2(d)[1]);
        assert(s[11] == spec_pad2(h)[0] && s[12] == spec_pad2(h)[1]);
        assert(s[14] == spec_pad2(mi)[0] && s[15] == spec_pad2(mi)[1]);
        assert(s[17] == spec_pad2(se)[0] && s[18] == spec_pad2(se)[1]);
        assert(s[19] == '.');
        assert(s[29] == 'Z');
        assert(spec_rfc3339_shape(s));
        assert(spec_num4(s, 0) == y);
        assert(spec_num2(s, 5) == mo && spec_num2(s, 8) == d);
        assert(spec_num2(s, 11) == h && spec_num2(s, 14) == mi && spec_num2(s, 17) == se);
        // the fraction digits
        lemma_digit_char(ns / 100000000);
        lemma_digit_char(ns / 10000000 % 10);
        lemma_digit_char(ns / 1000000 % 10);
        lemma_digit_char(ns / 100000 % 10);
        lemma_digit_char(ns / 10000 % 10);
        lemma_digit_char(ns / 1000 % 10);
        lemma_digit_char(ns / 100 % 10);
        lemma_digit_char(ns / 10 % 10);
        lemma_digit_char(ns % 10);
        assert(forall|j: int| 20 <= j < 29 ==> s[j] == f[j - 20]);
        assert(is_digit(s[20]) && is_digit(s[21]) && is_digit(s[22]) && is_digit(s[23]) && is_digit(
            s[24],
        ) && is_digit(s[25]) && is_digit(s[26]) && is_digit(s[27]) && is_digit(s[28]));
        assert(spec_digit_span_end(s, 29) == 29);
        assert(spec_digit_span_end(s, 28) == 29);
        assert(spec_digit_span_end(s, 27) == 29);
        assert(spec_digit_span_end(s, 26) == 29);
        assert(spec_digit_span_end(s, 25) == 29);
        assert(spec_digit_span_end(s, 24) == 29);
        assert(spec_digit_span_end(s, 23) == 29);
        assert(spec_digit_span_end(s, 22) == 29);
        assert(spec_digit_span_end(s, 21) == 29);
        assert(spec_digit_span_end(s, 20) == 29);
        // the fraction value folds back to the nanosecond count
        assert(spec_frac_nanos(s, 20, 29, 0) == 0);
        assert(spec_frac_nanos(s, 20, 29, 1) == ns / 100000000);
        assert(spec_frac_nanos(s, 20, 29, 2) == ns / 10000000) by {
            assert(ns / 10000000 == (ns / 100000000) * 10 + ns / 10000000 % 10) by (nonlinear_arith)
                requires 0 <= ns < 1000000000;
        }
        assert(spec_frac_nanos(s, 20, 29, 3) == ns / 1000000) by {
            assert(ns / 1000000 == (ns / 10000000) * 10 + ns / 1000000 % 10) by (nonlinear_arith)
                requires 0 <= ns < 1000000000;
        }
        assert(spec_frac_nanos(s, 20, 29, 4) == ns / 100000) by {
            assert(ns / 100000 == (ns / 1000000) * 10 + ns / 100000 % 10) by (nonlinear_arith)
                requires 0 <= ns < 1000000000;
        }
        assert(spec_frac_nanos(s, 20, 29, 5) == ns / 10000) by {
            assert(ns / 10000 == (ns / 100000) * 10 + ns / 10000 % 10) by (nonlinear_arith)
                requires 0 <= ns < 1000000000;
        }
        assert(spec_frac_nanos(s, 20, 29, 6) == ns / 1000) by {
            assert(ns / 1000 == (ns / 10000) * 10 + ns / 1000 % 10) by (nonlinear_arith)
                requires 0 <= ns < 1000000000;
        }
        assert(spec_frac_nanos(s, 20, 29, 7) == ns / 100) by {
            assert(ns / 100 == (ns / 1000) * 10 + ns / 100 % 10) by (nonlinear_arith)
                requires 0 <= ns < 1000000000;
        }
        assert(spec_frac_nanos(s, 20, 29, 8) == ns / 10) by {
            assert(ns / 10 == (ns / 100) * 10 + ns / 10 % 10) by (nonlinear_arith)
                requires 0 <= ns < 1000000000;
        }
        assert(spec_frac_nanos(s, 20, 29, 9) == ns) by {
            assert(ns == (ns / 10) * 10 + ns % 10);
        }
        assert(spec_parse_offset(s, 29) == Some(0int));
        assert(spec_parse_rfc3339(s) == Some(ts));
    }
}

/// Read one decimal digit.
fn read_digit(s: &str, i: usize) -> (r: Option<u8>)
    requires
        i < s@.len(),
    ensures
        r matches Some(v) ==> is_digit(s@[i as int]) && v == digit_val(s@[i as int]) && v <= 9,
        r is None ==> !is_digit(s@[i as int]),
{
    let c = s.get_char(i);
    let u = c as u32;
    if 48 <= u && u <= 57 {
        Some((u - 48) as u8)
    } else {
        None
    }
}

/// Powers of ten up to one billion.
pub open spec fn spec_pow10(k: int) -> int {
    if k <= 0 {
        1
    } else if k == 1 {
        10
    } else if k == 2 {
        100
    } else if k == 3 {
        1000
    } else if k == 4 {
        10000
    } else if k == 5 {
        100000
    } else if k == 6 {
        1000000
    } else if k == 7 {
        10000000
    } else if k == 8 {
        100000000
    } else {
        1000000000
    }
}

/// Read two decimal digits as one number.
fn read_num2(s: &str, i: usize) -> (r: Option<u8>)
    requires
        i + 1 < s@.len(),
        i + 2 <= usize::MAX,
    ensures
        r matches Some(v) ==> is_digit(s@[i as int]) && is_digit(s@[i + 1]) && v == spec_num2(
            s@,
            i as int,
        ) && v <= 99,
        r is None ==> !(is_digit(s@[i as int]) && is_digit(s@[i + 1])),
{
    let d0 = match read_digit(s, i) {
        Some(v) => v,
        None => {
            return None;
        },
    };
    let d1 = match read_digit(s, i + 1) {
        Some(v) => v,
        None => {
            return None;
        },
    };
    Some(d0 * 10 + d1)
}

/// Whether the character at `i` equals `c`.
fn char_at_is(s: &str, i: usize, c: char) -> (r: bool)
    requires
        i < s@.len(),
    ensures
        r == (s@[i as int] == c),
{
    s.get_char(i) == c
}

/// Parse an RFC 3339 timestamp, normalized to UTC.
#[verifier::rlimit(40)]
pub fn parse_rfc3339(s: &str) -> (r: Result<Timestamp, S3Error>)
    ensures
        r matches Ok(ts) ==> spec_parse_rfc3339(s@) == Some(ts) && ts.wf(),
        r is Err ==> spec_parse_rfc3339(s@) is None,
        r matches Err(e) ==> e == S3Error::DecodeError,
{
    let n = s.unicode_len();
    if n < 20 {
        return Err(S3Error::DecodeError);
    }
    let y = match read_num2(s, 0) {
        Some(hi) => match read_num2(s, 2) {
            Some(lo) => (hi as u16) * 100 + (lo as u16),
            None => {
                return Err(S3Error::DecodeError);
            },
        },
        None => {
            return Err(S3Error::DecodeError);
        },
    };
    if !char_at_is(s, 4, '-') {
        return Err(S3Error::DecodeError);
    }
    let mo = match read_num2(s, 5) {
        Some(v) => v,
        None => {
            return Err(S3Error::DecodeError);
        },
    };
    if !char_at_is(s, 7, '-') {
        return Err(S3Error::DecodeError);
    }
    let d = match read_num2(s, 8) {
        Some(v) => v,
        None => {
            return Err(S3Error::DecodeError);
        },
    };
    if !(char_at_is(s, 10, 'T') || char_at_is(s, 10, 't') || char_at_is(s, 10, ' ')) {
        return Err(S3Error::DecodeError);
    }
    let h = match read_num2(s, 11) {
        Some(v) => v,
        None => {
            return Err(S3Error::DecodeError);
        },
    };
    if !char_at_is(s, 13, ':') {
        return Err(S3Error::DecodeError);
    }
    let mi = match read_num2(s, 14) {
        Some(v) => v,
        None => {
            return Err(S3Error::DecodeError);
        },
    };
    if !char_at_is(s, 16, ':') {
        return Err(S3Error::DecodeError);
    }
    let se = match read_num2(s, 17) {
        Some(v) => v,
        None => {
            return Err(S3Error::DecodeError);
        },
    };
    proof {
        assert(spec_rfc3339_shape(s@));
        assert(y as int == spec_num4(s@, 0)) by {
            assert(spec_num2(s@, 0) * 100 + spec_num2(s@, 2) == spec_num4(s@, 0));
        }
    }
    if !(1 <= mo && mo <= 12) {
        return Err(S3Error::DecodeError);
    }
    if !(1 <= d && d <= days_in_month(y, mo)) {
        return Err(S3Error::DecodeError);
    }
    if !(h <= 23 && mi <= 59 && se <= 59) {
        return Err(S3Error::DecodeError);
    }
    // fraction
    let mut ns: u32 = 0;
    let mut off_pos: usize = 19;
    if char_at_is(s, 19, '.') {
        let mut fe: usize = 20;
        loop
            invariant
                20 <= fe <= n,
                n == s@.len(),
                forall|k: int| 20 <= k < fe ==> is_digit(#[trigger] s@[k]),
                spec_digit_span_end(s@, 20) == spec_digit_span_end(s@, fe as int),
            ensures
                fe == spec_digit_span_end(s@, 20),
                20 <= fe <= n,
            decreases n - fe,
        {
            if fe >= n {
                break;
            }
            match read_digit(s, fe) {
                Some(_) => {
                    fe = fe + 1;
                },
                None => {
                    break;
                },
            }
        }
        if fe == 20 {
            return Err(S3Error::DecodeError);
        }
        let ghost fend = fe as int;
        let mut k: usize = 0;
        while k < 9
            invariant
                k <= 9,
                20 <= fe <= n,
                n == s@.len(),
                fend == fe as int,
                fend == spec_digit_span_end(s@, 20),
                forall|j: int| 20 <= j < fend ==> is_digit(#[trigger] s@[j]),
                ns == spec_frac_nanos(s@, 20, fend, k as int),
                ns < spec_pow10(k as int),
            decreases 9 - k,
        {
            let dig: u32 = if 20 + k < fe {
                match read_digit(s, 20 + k) {
                    Some(v) => v as u32,
                    None => 0,
                }
            } else {
                0
            };
            ns = ns * 10 + dig;
            k = k + 1;
        }
        off_pos = fe;
    }
    // offset
    if off_pos >= n {
        return Err(S3Error::DecodeError);
    }
    let off: i64 = if char_at_is(s, off_pos, 'Z') || char_at_is(s, off_pos, 'z') {
        if n - off_pos != 1 {
            return Err(S3Error::DecodeError);
        }
        0
    } else if char_at_is(s, off_pos, '+') || char_at_is(s, off_pos, '-') {
        if n - off_pos != 6 {
            return Err(S3Error::DecodeError);
        }
        let hh = match read_num2(s, off_pos + 1) {
            Some(v) => v,
            None => {
                return Err(S3Error::DecodeError);
            },
        };
        if !char_at_is(s, off_pos + 3, ':') {
            return Err(S3Error::DecodeError);
        }
        let mm = match read_num2(s, off_pos + 4) {
            Some(v) => v,
            None => {
                return Err(S3Error::DecodeError);
            },
        };
        if !(hh <= 23 && mm <= 59) {
            return Err(S3Error::DecodeError);
        }
        let magnitude = (hh as i64) * 3600 + (mm as i64) * 60;
        if char_at_is(s, off_pos, '-') {
            -magnitude
        } else {
            magnitude
        }
    } else {
        return Err(S3Error::DecodeError);
    };
    proof {
        assert(spec_parse_offset(s@, off_pos as int) == Some(off as int));
    }
    // apply the offset
    if off == 0 {
        let ts = Timestamp { year: y, month: mo, day: d, hour: h, minute: mi, second: se, nanosecond: ns };
        proof {
            assert(ts.wf());
            assert(spec_parse_rfc3339(s@) == Some(ts));
        }
        Ok(ts)
    } else {
        if y == 0 && mo <= 2 {
            return Err(S3Error::DecodeError);
        }
        let days0 = days0_of(y, mo, d);
        let secs0: i64 = (days0 as i64) * 86400 + (h as i64) * 3600 + (mi as i64) * 60 + (se as i64)
            - off;
        let unix: i64 = secs0 - (EPOCH_SECS0 as i64);
        match timestamp_from_unix(unix, ns) {
            Ok(ts) => {
                proof {
                    assert(spec_parse_rfc3339(s@) == Some(ts));
                }
                Ok(ts)
            },
            Err(_) => {
                proof {
                    assert(spec_parse_rfc3339(s@) is None);
                }
                Err(S3Error::DecodeError)
            },
        }
    }
}

} // verus!

//! Readers for the temporal literals: dates, times of day, datetimes,
//! timestamps and durations, each to the integer that stands for it.
use crate::text::find_byte;
use crate::text::find_from;
use crate::text::i64_of;
use crate::text::parse_i64;
use crate::text::piece;
use crate::text::piece_bounds;
use crate::text::utf8;
use chrono::Datelike;
use chrono::TimeZone;
use vstd::prelude::*;
use vstd::string::StringExecFns;
use vstd::string::StringSliceAdditionalSpecFns;

verus! {

/// Days from 0001-01-01 (day 1) to 1970-01-01.
pub const UNIX_EPOCH_DAY: i32 = 719_163;

/// Nanoseconds in one day.
pub const NS_IN_DAY: i64 = 86_400_000_000_000;

/// The format in which a datetime literal is handed to the calendar.
pub open spec fn datetime_format() -> Seq<char> {
    "%Y-%m-%dT%H:%M:%S%.f"@
}

/// The format in which a timestamp literal is handed to the calendar.
pub open spec fn timestamp_format() -> Seq<char> {
    "%Y-%m-%dD%H:%M:%S%.f"@
}

/// The clock text that completes a literal which ends at its date.
pub open spec fn midnight() -> Seq<char> {
    "00:00:00.0"@
}

pub open spec fn fits_i64(v: int) -> bool {
    i64::MIN <= v <= i64::MAX
}

/// `s` filled up with zeros on the right to nine bytes; longer text is kept.
pub open spec fn pad9(s: Seq<u8>) -> Seq<u8> {
    if s.len() >= 9 {
        s
    } else {
        s + Seq::new((9 - s.len()) as nat, |i: int| 48u8)
    }
}

/// The part of a time literal before the fraction: the whole literal where it
/// has at most eight bytes, else what stands before the first `.`.
pub open spec fn clock_part(t: Seq<u8>) -> Seq<u8> {
    if t.len() > 8 {
        t.subrange(0, find_from(t, 46, 0))
    } else {
        t
    }
}

/// The fraction digits of a time literal: none where it has at most eight
/// bytes, else what stands behind its one `.`. A literal of more than eight
/// bytes without a `.`, or with more than one, has no fraction part at all.
pub open spec fn fraction_part(t: Seq<u8>) -> Option<Seq<u8>> {
    if t.len() > 8 {
        if piece(t, 46, 2) is Some {
            None
        } else {
            piece(t, 46, 1)
        }
    } else {
        Some(Seq::empty())
    }
}

/// Nanoseconds since midnight for hours, minutes, seconds and nanoseconds.
pub open spec fn clock_nanos(hh: int, mm: int, ss: int, nano: int) -> int {
    (hh * 3600 + mm * 60 + ss) * 1_000_000_000 + nano
}

/// The nanoseconds since midnight that a time literal `HH:MM:SS[.fraction]`
/// denotes, or `None` where it is no time: a field is missing or no integer,
/// a fourth field follows, a field is below 0, hours exceed 23, minutes or
/// seconds 59, or the fraction has more than nine bytes. A time lies in
/// `[0, 86_400_000_000_000)`.
pub open spec fn time_of(t: Seq<u8>) -> Option<int> {
    let clock = clock_part(t);
    match (fraction_part(t), piece(clock, 58, 0), piece(clock, 58, 1), piece(clock, 58, 2)) {
        (Some(f), Some(h), Some(m), Some(s)) => match (
            i64_of(h),
            i64_of(m),
            i64_of(s),
            i64_of(pad9(f)),
        ) {
            (Ok(hh), Ok(mm), Ok(ss), Ok(nano)) => if piece(clock, 58, 3) is None && f.len() <= 9
                && 0 <= hh <= 23 && 0 <= mm <= 59 && 0 <= ss <= 59 && 0 <= nano <= 999_999_999 {
                Some(clock_nanos(hh, mm, ss, nano))
            } else {
                None
            },
            _ => None,
        },
        _ => None,
    }
}

/// A time of day lies within one day.
pub proof fn lemma_time_within_a_day(t: Seq<u8>)
    requires
        time_of(t) is Some,
    ensures
        0 <= time_of(t)->0 < NS_IN_DAY,
{
}

/// The message of a rejected time literal.
pub open spec fn time_error(t: Seq<char>) -> Seq<char> {
    "Not a valid time, "@ + t
}

/// The message of a rejected duration literal.
pub open spec fn duration_error(t: Seq<char>) -> Seq<char> {
    "Not a valid duration, "@ + t
}

/// The message of a rejected date literal.
pub open spec fn date_error(t: Seq<char>) -> Seq<char> {
    "Not a valid date, "@ + t
}

/// The message of a rejected datetime literal.
pub open spec fn datetime_error(t: Seq<char>) -> Seq<char> {
    "Not a valid datetime, "@ + t
}

/// The message of a rejected timestamp literal.
pub open spec fn timestamp_error(t: Seq<char>) -> Seq<char> {
    "Not a valid timestamp, "@ + t
}

fn padded_fraction(f: &[u8]) -> (r: Vec<u8>)
    ensures
        r@ == pad9(f@),
{
    let mut out: Vec<u8> = Vec::new();
    let mut i: usize = 0;
    while i < f.len()
        invariant
            i <= f@.len(),
            out@ == f@.subrange(0, i as int),
        decreases f@.len() - i,
    {
        out.push(f[i]);
        proof {
            assert(out@ =~= f@.subrange(0, i + 1));
        }
        i += 1;
    }
    proof {
        assert(f@.subrange(0, f@.len() as int) =~= f@);
    }
    while out.len() < 9
        invariant
            f@.len() <= out@.len(),
            f@.len() < 9 ==> out@.len() <= 9,
            f@.len() >= 9 ==> out@.len() == f@.len(),
            out@ =~= f@ + Seq::new((out@.len() - f@.len()) as nat, |i: int| 48u8),
        decreases 9 - out@.len(),
    {
        out.push(48);
    }
    proof {
        if f@.len() >= 9 {
            assert(out@ =~= f@);
        }
    }
    out
}

/// The nanoseconds since midnight of the bytes of a time literal.
pub fn time_nanos(t: &[u8]) -> (r: Option<i64>)
    ensures
        match time_of(t@) {
            Some(v) => r == Some(v as i64) && 0 <= v < NS_IN_DAY,
            None => r is None,
        },
{
    let n = t.len();
    let mut clock_end = n;
    let mut from: usize = 0;
    let mut to: usize = 0;
    if n > 8 {
        clock_end = find_byte(t, 46, 0);
        if piece_bounds(t, 46, 2).is_some() {
            return None;
        }
        match piece_bounds(t, 46, 1) {
            Some((a, b)) => {
                from = a;
                to = b;
            },
            None => {
                return None;
            },
        }
    }
    proof {
        if n <= 8 {
            assert(t@.subrange(0, n as int) =~= t@);
            assert(t@.subrange(0, 0) =~= Seq::<u8>::empty());
        }
    }
    let clock = &t[0..clock_end];
    let fraction = &t[from..to];
    assert(clock@ == clock_part(t@));
    assert(Some(fraction@) == fraction_part(t@));
    let (h0, h1) = match piece_bounds(clock, 58, 0) {
        Some(b) => b,
        None => {
            return None;
        },
    };
    let (m0, m1) = match piece_bounds(clock, 58, 1) {
        Some(b) => b,
        None => {
            return None;
        },
    };
    let (s0, s1) = match piece_bounds(clock, 58, 2) {
        Some(b) => b,
        None => {
            return None;
        },
    };
    if piece_bounds(clock, 58, 3).is_some() || fraction.len() > 9 {
        return None;
    }
    let hh = match parse_i64(&clock[h0..h1]) {
        Ok(v) => v,
        Err(_) => {
            return None;
        },
    };
    if hh < 0 || hh > 23 {
        return None;
    }
    let mm = match parse_i64(&clock[m0..m1]) {
        Ok(v) => v,
        Err(_) => {
            return None;
        },
    };
    if mm < 0 || mm > 59 {
        return None;
    }
    let ss = match parse_i64(&clock[s0..s1]) {
        Ok(v) => v,
        Err(_) => {
            return None;
        },
    };
    if ss < 0 || ss > 59 {
        return None;
    }
    let padded = padded_fraction(fraction);
    let nano = match parse_i64(padded.as_slice()) {
        Ok(v) => v,
        Err(_) => {
            return None;
        },
    };
    if nano < 0 || nano > 999_999_999 {
        return None;
    }
    Some((hh * 3600 + mm * 60 + ss) * 1_000_000_000 + nano)
}

/// Reads a time of day `HH:MM:SS[.fraction]` as nanoseconds since midnight.
pub fn parse_time(time: &str) -> (r: Result<i64, String>)
    ensures
        match time_of(utf8(time@)) {
            Some(v) => r == Ok::<i64, String>(v as i64),
            None => r is Err && r->Err_0@ == time_error(time@),
        },
{
    match time_nanos(time.as_bytes()) {
        Some(v) => Ok(v),
        None => Err("Not a valid time, ".to_owned().concat(time)),
    }
}

/// Whether the last byte of `d` is `c`.
pub open spec fn last_is(d: Seq<u8>, c: u8) -> bool {
    d.len() >= 1 && d[d.len() - 1] == c
}

/// `d` without its last `n` bytes.
pub open spec fn without_last(d: Seq<u8>, n: int) -> Seq<u8> {
    d.subrange(0, d.len() - n)
}

/// The integer of `text` times `unit`, where both the integer and the product
/// fit in 64 bits.
pub open spec fn scaled(text: Seq<u8>, unit: int) -> Option<int> {
    match i64_of(text) {
        Ok(v) => if fits_i64(v * unit) {
            Some(v * unit)
        } else {
            None
        },
        Err(_) => None,
    }
}

/// The nanoseconds of a duration in day form, `<days>D[<time>]`: the days
/// times the length of a day, plus the time of day, or minus it where the
/// literal begins with `-`. A literal with a second `D` is no duration.
pub open spec fn day_form_of(d: Seq<u8>) -> Option<int> {
    match (piece(d, 68, 0), piece(d, 68, 1)) {
        (Some(days), Some(time)) => match i64_of(days) {
            Ok(day) => {
                let nano = if piece(d, 68, 2) is Some {
                    None
                } else if time.len() == 0 {
                    Some(0int)
                } else {
                    time_of(time)
                };
                match nano {
                    Some(n) => {
                        let v = if d[0] == 45 {
                            day * NS_IN_DAY - n
                        } else {
                            day * NS_IN_DAY + n
                        };
                        if fits_i64(v) {
                            Some(v)
                        } else {
                            None
                        }
                    },
                    None => None,
                }
            },
            Err(_) => None,
        },
        _ => None,
    }
}

/// The nanoseconds that a duration literal denotes: the day form where it
/// holds a `D`, else an integer with one of the units `ns`, `s`, `m`, `h`.
pub open spec fn duration_of(d: Seq<u8>) -> Option<int> {
    if find_from(d, 68, 0) < d.len() {
        day_form_of(d)
    } else if last_is(d, 115) && last_is(without_last(d, 1), 110) {
        scaled(without_last(d, 2), 1)
    } else if last_is(d, 115) {
        scaled(without_last(d, 1), 1_000_000_000)
    } else if last_is(d, 109) {
        scaled(without_last(d, 1), 60_000_000_000)
    } else if last_is(d, 104) {
        scaled(without_last(d, 1), 3_600_000_000_000)
    } else {
        None
    }
}

fn scaled_i64(text: &[u8], unit: i64) -> (r: Option<i64>)
    requires
        0 < unit <= 3_600_000_000_000,
    ensures
        match scaled(text@, unit as int) {
            Some(v) => r == Some(v as i64),
            None => r is None,
        },
{
    match parse_i64(text) {
        Ok(v) => {
            assert(-0x8000_0000_0000_0000 * 3_600_000_000_000 <= v * unit
                <= 0x8000_0000_0000_0000 * 3_600_000_000_000) by (nonlinear_arith)
                requires
                    -0x8000_0000_0000_0000 <= v <= 0x8000_0000_0000_0000,
                    0 < unit <= 3_600_000_000_000,
            ;
            let p: i128 = (v as i128) * (unit as i128);
            if p < i64::MIN as i128 || p > i64::MAX as i128 {
                None
            } else {
                Some(p as i64)
            }
        },
        Err(_) => None,
    }
}

/// The nanoseconds of the bytes of a duration literal.
pub fn duration_nanos(d: &[u8]) -> (r: Option<i64>)
    ensures
        match duration_of(d@) {
            Some(v) => r == Some(v as i64),
            None => r is None,
        },
{
    let n = d.len();
    let cut = find_byte(d, 68, 0);
    if cut < n {
        let (a0, a1) = match piece_bounds(d, 68, 0) {
            Some(b) => b,
            None => {
                return None;
            },
        };
        let (b0, b1) = match piece_bounds(d, 68, 1) {
            Some(b) => b,
            None => {
                return None;
            },
        };
        let day = match parse_i64(&d[a0..a1]) {
            Ok(v) => v,
            Err(_) => {
                return None;
            },
        };
        if piece_bounds(d, 68, 2).is_some() {
            return None;
        }
        let nano: i64 = if b0 == b1 {
            0
        } else {
            match time_nanos(&d[b0..b1]) {
                Some(v) => v,
                None => {
                    return None;
                },
            }
        };
        let whole: i128 = (day as i128) * (NS_IN_DAY as i128);
        let v: i128 = if d[0] == 45 {
            whole - (nano as i128)
        } else {
            whole + (nano as i128)
        };
        if v < i64::MIN as i128 || v > i64::MAX as i128 {
            return None;
        }
        Some(v as i64)
    } else if n >= 2 && d[n - 1] == 115 && d[n - 2] == 110 {
        scaled_i64(&d[0..n - 2], 1)
    } else if n >= 1 && d[n - 1] == 115 {
        scaled_i64(&d[0..n - 1], 1_000_000_000)
    } else if n >= 1 && d[n - 1] == 109 {
        scaled_i64(&d[0..n - 1], 60_000_000_000)
    } else if n >= 1 && d[n - 1] == 104 {
        scaled_i64(&d[0..n - 1], 3_600_000_000_000)
    } else {
        None
    }
}

/// Reads a duration, `<days>D[<time>]` or `<n>ns`, `<n>s`, `<n>m`, `<n>h`, as
/// nanoseconds.
pub fn parse_duration(duration: &str) -> (r: Result<i64, String>)
    ensures
        match duration_of(utf8(duration@)) {
            Some(v) => r == Ok::<i64, String>(v as i64),
            None => r is Err && r->Err_0@ == duration_error(duration@),
        },
{
    match duration_nanos(duration.as_bytes()) {
        Some(v) => Ok(v),
        None => Err("Not a valid duration, ".to_owned().concat(duration)),
    }
}

/// What the calendar makes of a date text in the form year-month-day: the
/// count of days in which 0001-01-01 is day 1, or `None` where it takes the
/// text for no date.
pub uninterp spec fn calendar_days(date: Seq<char>) -> Option<i32>;

/// What the calendar makes of a text in a format: seconds since
/// 1970-01-01T00:00:00 and nanoseconds of the second, as the text reads with
/// no zone applied, or `None` where it does not take the text.
pub uninterp spec fn calendar_instant(text: Seq<char>, format: Seq<char>) -> Option<(i64, u32)>;

/// `chrono::NaiveDate::parse_from_str` with the format `%Y-%m-%d`, then
/// `Datelike::num_days_from_ce` of the date. The result is named, not stated;
/// the bound is the one that the calendar's range of years gives its day count.
#[verifier::external_body]
fn days_from_ce(date: &str) -> (r: Option<i32>)
    ensures
        r == calendar_days(date@),
        r is Some ==> -100_000_000 < r->0 < 100_000_000,
{
    match chrono::NaiveDate::parse_from_str(date, "%Y-%m-%d") {
        Ok(d) => Some(d.num_days_from_ce()),
        Err(_) => None,
    }
}

/// `chrono::NaiveDateTime::parse_from_str`, the value handed back as the
/// seconds and the nanoseconds that `and_utc().timestamp()` and
/// `and_utc().timestamp_subsec_nanos()` give for it. The result is named, not
/// stated; the bound on the seconds is the one that the calendar's range of
/// years gives them.
#[verifier::external_body]
fn naive_instant(text: &str, format: &str) -> (r: Option<(i64, u32)>)
    ensures
        r == calendar_instant(text@, format@),
        match r {
            Some((seconds, _)) => -9_000_000_000_000 < seconds < 9_000_000_000_000,
            None => true,
        },
{
    match chrono::NaiveDateTime::parse_from_str(text, format) {
        Ok(d) => Some((d.and_utc().timestamp(), d.and_utc().timestamp_subsec_nanos())),
        Err(_) => None,
    }
}

/// Whether the instant `s` may be what a zone makes of the wall-clock time
/// `wall`, both in seconds: a zone is less than a day off UTC.
pub open spec fn near(wall: int, s: int) -> bool {
    wall - 86_400 < s < wall + 86_400
}

/// `chrono::Local.from_local_datetime` on the wall-clock time that lies
/// `seconds` after 1970-01-01T00:00:00, then `earliest` of what it gives: the
/// seconds since the epoch of the first instant that this machine's zone gives
/// the wall-clock time, `None` where the zone gives it none or the wall-clock
/// time is out of the calendar's range. Which instant comes back is the
/// machine's matter; it is the wall-clock time less the zone's offset, and the
/// calendar keeps an offset under one day.
#[verifier::external_body]
fn local_seconds(seconds: i64) -> (r: Option<i64>)
    ensures
        r is Some ==> near(seconds as int, r->0 as int),
{
    match chrono::DateTime::from_timestamp(seconds, 0) {
        Some(wall) => match chrono::Local.from_local_datetime(&wall.naive_utc()).earliest() {
            Some(at) => Some(at.timestamp()),
            None => None,
        },
        None => None,
    }
}

/// Reads a date `YYYY-MM-DD` as a count of days in which 0001-01-01 is day 1.
pub fn parse_date(date: &str) -> (r: Result<i32, String>)
    ensures
        match calendar_days(date@) {
            Some(d) => r == Ok::<i32, String>(d),
            None => r is Err && r->Err_0@ == date_error(date@),
        },
        r is Ok ==> -100_000_000 < r->Ok_0 < 100_000_000,
{
    date_from_days(days_from_ce(date), date)
}

/// The result of reading `date`, given what the calendar made of it.
pub fn date_from_days(days: Option<i32>, date: &str) -> (r: Result<i32, String>)
    ensures
        match days {
            Some(d) => r == Ok::<i32, String>(d),
            None => r is Err && r->Err_0@ == date_error(date@),
        },
{
    match days {
        Some(d) => Ok(d),
        None => Err("Not a valid date, ".to_owned().concat(date)),
    }
}

/// The text handed to the calendar for a literal: the literal itself, or with
/// midnight behind it where it ends in the letter `mark`.
pub open spec fn completed(text: Seq<char>, mark: u8) -> Seq<char> {
    if last_is(utf8(text), mark) {
        text + midnight()
    } else {
        text
    }
}

fn complete(text: &str, mark: u8) -> (r: String)
    ensures
        r@ == completed(text@, mark),
{
    let b = text.as_bytes();
    if b.len() >= 1 && b[b.len() - 1] == mark {
        text.to_owned().concat("00:00:00.0")
    } else {
        text.to_owned()
    }
}

/// Milliseconds since the epoch for an instant given in seconds and
/// nanoseconds of the second.
pub open spec fn millis_at(seconds: int, nanos: int) -> int {
    seconds * 1000 + nanos / 1_000_000
}

/// Nanoseconds since the epoch for an instant given in seconds and nanoseconds
/// of the second, or 0 where they do not fit in 64 bits.
pub open spec fn nanos_at(seconds: int, nanos: int) -> int {
    if fits_i64(seconds * 1_000_000_000 + nanos) {
        seconds * 1_000_000_000 + nanos
    } else {
        0
    }
}

/// The instant of a wall-clock time, given what the zone made of it: the
/// zone's instant, or the wall-clock time read as UTC where the zone made none.
pub open spec fn instant_of(wall: int, zoned: Option<i64>) -> int {
    match zoned {
        Some(s) => s as int,
        None => wall,
    }
}

/// Whether `v` may be the milliseconds since the epoch of the wall-clock time
/// that lies `wall` seconds and `nanos` nanoseconds after 1970-01-01T00:00:00:
/// it is the milliseconds of an instant that a zone may make of it.
pub open spec fn local_millis(wall: int, nanos: int, v: int) -> bool {
    exists|s: int| near(wall, s) && v == #[trigger] millis_at(s, nanos)
}

/// Whether `v` may be the nanoseconds since the epoch of the wall-clock time
/// that lies `wall` seconds and `nanos` nanoseconds after 1970-01-01T00:00:00:
/// it is the nanoseconds of an instant that a zone may make of it, 0 where
/// they do not fit in 64 bits.
pub open spec fn local_nanos(wall: int, nanos: int, v: int) -> bool {
    exists|s: int| near(wall, s) && v == #[trigger] nanos_at(s, nanos)
}

/// The milliseconds of the datetime literal `dt`, given what the calendar made
/// of it and, where it made a wall-clock time, what the zone made of that.
pub fn datetime_millis(parsed: Option<(i64, u32)>, zoned: Option<i64>, dt: &str) -> (r: Result<
    i64,
    String,
>)
    requires
        match parsed {
            Some((wall, _)) => -9_000_000_000_000 < wall < 9_000_000_000_000 && (zoned is Some
                ==> near(wall as int, zoned->0 as int)),
            None => true,
        },
    ensures
        match parsed {
            Some((wall, nanos)) => r == Ok::<i64, String>(
                millis_at(instant_of(wall as int, zoned), nanos as int) as i64,
            ) && r->Ok_0 == millis_at(instant_of(wall as int, zoned), nanos as int),
            None => r is Err && r->Err_0@ == datetime_error(dt@),
        },
{
    match parsed {
        Some((wall, nanos)) => {
            let s = match zoned {
                Some(s) => s,
                None => wall,
            };
            Ok(s * 1000 + (nanos / 1_000_000) as i64)
        },
        None => Err("Not a valid datetime, ".to_owned().concat(dt)),
    }
}

/// The nanoseconds of the timestamp literal `ts`, given what the calendar made
/// of it and, where it made a wall-clock time, what the zone made of that.
pub fn timestamp_nanos(parsed: Option<(i64, u32)>, zoned: Option<i64>, ts: &str) -> (r: Result<
    i64,
    String,
>)
    requires
        match parsed {
            Some((wall, _)) => -9_000_000_000_000 < wall < 9_000_000_000_000 && (zoned is Some
                ==> near(wall as int, zoned->0 as int)),
            None => true,
        },
    ensures
        match parsed {
            Some((wall, nanos)) => r == Ok::<i64, String>(
                nanos_at(instant_of(wall as int, zoned), nanos as int) as i64,
            ) && r->Ok_0 == nanos_at(instant_of(wall as int, zoned), nanos as int),
            None => r is Err && r->Err_0@ == timestamp_error(ts@),
        },
{
    match parsed {
        Some((wall, nanos)) => {
            let s = match zoned {
                Some(s) => s,
                None => wall,
            };
            let v: i128 = (s as i128) * 1_000_000_000 + (nanos as i128);
            if v < i64::MIN as i128 || v > i64::MAX as i128 {
                Ok(0)
            } else {
                Ok(v as i64)
            }
        },
        None => Err("Not a valid timestamp, ".to_owned().concat(ts)),
    }
}

/// Reads a datetime `YYYY-MM-DDTHH:MM:SS[.fraction]`, or `YYYY-MM-DDT` for
/// midnight, as milliseconds since the epoch, taking the literal as wall-clock
/// time in this machine's zone.
///
/// A literal that the calendar refuses is an error. One that it takes is read
/// in the zone, with the literal's own fraction: as the first instant that the
/// zone gives the wall-clock time, or as UTC where the zone gives it none.
/// Either way the instant lies less than a day from the wall-clock time.
pub fn parse_datetime(dt: &str) -> (r: Result<i64, String>)
    ensures
        match calendar_instant(completed(dt@, 84), datetime_format()) {
            Some((wall, nanos)) => r is Ok && local_millis(
                wall as int,
                nanos as int,
                r->Ok_0 as int,
            ),
            None => r is Err && r->Err_0@ == datetime_error(dt@),
        },
{
    let text = complete(dt, 84);
    let parsed = naive_instant(text.as_str(), "%Y-%m-%dT%H:%M:%S%.f");
    let zoned = match parsed {
        Some((wall, _)) => local_seconds(wall),
        None => None,
    };
    let r = datetime_millis(parsed, zoned, dt);
    proof {
        match parsed {
            Some((wall, nanos)) => {
                let s = instant_of(wall as int, zoned);
                assert(near(wall as int, s));
                assert(r->Ok_0 == millis_at(s, nanos as int));
            },
            None => {},
        }
    }
    r
}

/// Reads a timestamp `YYYY-MM-DDDHH:MM:SS[.fraction]`, or `YYYY-MM-DDD` for
/// midnight, as nanoseconds since the epoch, taking the literal as wall-clock
/// time in this machine's zone as [`parse_datetime`] does; an instant whose
/// nanoseconds do not fit in 64 bits reads as 0.
pub fn parse_timestamp(ts: &str) -> (r: Result<i64, String>)
    ensures
        match calendar_instant(completed(ts@, 68), timestamp_format()) {
            Some((wall, nanos)) => r is Ok && local_nanos(
                wall as int,
                nanos as int,
                r->Ok_0 as int,
            ),
            None => r is Err && r->Err_0@ == timestamp_error(ts@),
        },
{
    let text = complete(ts, 68);
    let parsed = naive_instant(text.as_str(), "%Y-%m-%dD%H:%M:%S%.f");
    let zoned = match parsed {
        Some((wall, _)) => local_seconds(wall),
        None => None,
    };
    let r = timestamp_nanos(parsed, zoned, ts);
    proof {
        match parsed {
            Some((wall, nanos)) => {
                let s = instant_of(wall as int, zoned);
                assert(near(wall as int, s));
                assert(r->Ok_0 == nanos_at(s, nanos as int));
            },
            None => {},
        }
    }
    r
}

/// `iana_time_zone::get_timezone`: the name of this machine's time zone, or
/// `None` where the machine does not tell. Nothing is said of the name.
#[verifier::external_body]
fn host_zone() -> (r: Option<String>) {
    match iana_time_zone::get_timezone() {
        Ok(name) => Some(name),
        Err(_) => None,
    }
}

/// The name of a time zone that was looked for: the name that was found, or
/// `UTC` where none was.
pub open spec fn zone_name(found: Option<Seq<char>>) -> Seq<char> {
    match found {
        Some(name) => name,
        None => "UTC"@,
    }
}

/// The name of a time zone that was looked for: the name that was found, or
/// `UTC` where none was.
pub fn zone_or_utc(found: Option<String>) -> (r: String)
    ensures
        r@ == zone_name(
            match found {
                Some(name) => Some(name@),
                None => None,
            },
        ),
{
    match found {
        Some(name) => name,
        None => "UTC".to_owned(),
    }
}

/// The name of this machine's time zone, `UTC` where the machine does not
/// tell.
pub fn local_zone() -> (r: String) {
    zone_or_utc(host_zone())
}

} // verus!

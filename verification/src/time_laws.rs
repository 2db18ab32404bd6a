//! What holds of the readers of times of day and of durations.
use crate::temporal::duration_of;
use crate::temporal::fits_i64;
use crate::temporal::time_of;
use crate::temporal::NS_IN_DAY;
use crate::text::find_from;
use crate::text::i64_of;
use crate::text::piece;
use crate::text::scan_digits;
use crate::text::IntError;
use vstd::prelude::*;

verus! {

/// No byte of `s` is `sep`.
pub open spec fn free_of(s: Seq<u8>, sep: u8) -> bool {
    forall|i: int| 0 <= i < s.len() ==> s[i] != sep
}

/// Where `sep` does not stand in `s` from `from` on, none is found.
pub proof fn lemma_none_found(s: Seq<u8>, sep: u8, from: int)
    requires
        0 <= from <= s.len(),
        forall|i: int| from <= i < s.len() ==> s[i] != sep,
    ensures
        find_from(s, sep, from) == s.len(),
    decreases s.len() - from,
{
    if from < s.len() {
        lemma_none_found(s, sep, from + 1);
    }
}

/// The first `sep` of `a`, `sep`, `b` joined stands behind `a`, where `a`
/// holds none.
pub proof fn lemma_found_at_joint(a: Seq<u8>, sep: u8, b: Seq<u8>, from: int)
    requires
        0 <= from <= a.len(),
        free_of(a, sep),
    ensures
        find_from(a + seq![sep] + b, sep, from) == a.len(),
    decreases a.len() - from,
{
    let s = a + seq![sep] + b;
    if from < a.len() {
        assert(s[from] == a[from]);
        lemma_found_at_joint(a, sep, b, from + 1);
    } else {
        assert(s[from] == sep);
    }
}

/// Cut at `sep`, the pieces of `a`, `sep`, `b` joined are `a` and `b`, where
/// neither holds a `sep`.
pub proof fn lemma_two_pieces(a: Seq<u8>, sep: u8, b: Seq<u8>)
    requires
        free_of(a, sep),
        free_of(b, sep),
    ensures
        piece(a + seq![sep] + b, sep, 0) == Some(a),
        piece(a + seq![sep] + b, sep, 1) == Some(b),
        piece(a + seq![sep] + b, sep, 2) is None,
{
    let s = a + seq![sep] + b;
    lemma_found_at_joint(a, sep, b, 0);
    assert(s.subrange(0, a.len() as int) =~= a);
    let rest = s.subrange(a.len() as int + 1, s.len() as int);
    assert(rest =~= b);
    lemma_none_found(b, sep, 0);
    assert(b.subrange(0, b.len() as int) =~= b);
    reveal_with_fuel(piece, 3);
}

/// The time that days and a time of day make together, which is added to the
/// days, or taken from them where the days begin with `-`.
pub open spec fn joined_duration(days: Seq<u8>, time: Seq<u8>) -> Option<int> {
    match i64_of(days) {
        Ok(d) => {
            let nano = if time.len() == 0 {
                Some(0int)
            } else {
                time_of(time)
            };
            match nano {
                Some(t) => {
                    let v = if days[0] == 45 {
                        d * NS_IN_DAY - t
                    } else {
                        d * NS_IN_DAY + t
                    };
                    if fits_i64(v) {
                        Some(v)
                    } else {
                        None
                    }
                },
                None => None,
            }
        },
        Err(_) => None,
    }
}

/// A duration in day form is read part by part: the literal made of days, `D`
/// and a time of day denotes the days times the length of a day, plus the
/// time of day, or minus it where the days are negative.
pub proof fn lemma_duration_additive(days: Seq<u8>, time: Seq<u8>)
    requires
        days.len() > 0,
        free_of(days, 68),
        free_of(time, 68),
    ensures
        duration_of(days + seq![68u8] + time) == joined_duration(days, time),
{
    let d = days + seq![68u8] + time;
    lemma_found_at_joint(days, 68, time, 0);
    lemma_two_pieces(days, 68, time);
    assert(d[0] == days[0]);
}

/// The two digits of a number below 100.
pub open spec fn two_digits(x: int) -> Seq<u8> {
    seq![(48 + x / 10) as u8, (48 + x % 10) as u8]
}

/// The nine digits of a number below a thousand million.
pub open spec fn nine_digits(f: int) -> Seq<u8> {
    let q1 = f / 10;
    let q2 = q1 / 10;
    let q3 = q2 / 10;
    let q4 = q3 / 10;
    let q5 = q4 / 10;
    let q6 = q5 / 10;
    let q7 = q6 / 10;
    let q8 = q7 / 10;
    seq![
        (48 + q8 % 10) as u8,
        (48 + q7 % 10) as u8,
        (48 + q6 % 10) as u8,
        (48 + q5 % 10) as u8,
        (48 + q4 % 10) as u8,
        (48 + q3 % 10) as u8,
        (48 + q2 % 10) as u8,
        (48 + q1 % 10) as u8,
        (48 + f % 10) as u8,
    ]
}

/// The literal `HH:MM:SS.fffffffff` of a time of day given in nanoseconds
/// since midnight.
pub open spec fn time_text(ns: int) -> Seq<u8> {
    let seconds = ns / 1_000_000_000;
    two_digits(seconds / 3600) + seq![58u8] + two_digits(seconds / 60 % 60) + seq![58u8]
        + two_digits(seconds % 60) + seq![46u8] + nine_digits(ns % 1_000_000_000)
}

proof fn lemma_two_digits_read(x: int)
    requires
        0 <= x < 100,
    ensures
        i64_of(two_digits(x)) == Ok::<int, IntError>(x),
{
    reveal_with_fuel(scan_digits, 3);
    let s = two_digits(x);
    assert(s[0] == 48 + x / 10);
    assert(s[1] == 48 + x % 10);
}

proof fn lemma_scan_step(s: Seq<u8>, i: int, acc: int)
    requires
        0 <= i < s.len(),
        48 <= s[i] <= 57,
        i64::MIN <= acc * 10 + (s[i] - 48) <= i64::MAX,
    ensures
        scan_digits(s, i, acc, false, i64::MIN as int, i64::MAX as int) == scan_digits(
            s,
            i + 1,
            acc * 10 + (s[i] - 48),
            false,
            i64::MIN as int,
            i64::MAX as int,
        ),
{
}

proof fn lemma_nine_digits_read(f: int)
    requires
        0 <= f < 1_000_000_000,
    ensures
        i64_of(nine_digits(f)) == Ok::<int, IntError>(f),
{
    let q1 = f / 10;
    let q2 = q1 / 10;
    let q3 = q2 / 10;
    let q4 = q3 / 10;
    let q5 = q4 / 10;
    let q6 = q5 / 10;
    let q7 = q6 / 10;
    let q8 = q7 / 10;
    let s = nine_digits(f);
    assert(s.len() == 9);
    assert(s[0] == 48 + q8 % 10);
    assert(s[1] == 48 + q7 % 10);
    assert(s[2] == 48 + q6 % 10);
    assert(s[3] == 48 + q5 % 10);
    assert(s[4] == 48 + q4 % 10);
    assert(s[5] == 48 + q3 % 10);
    assert(s[6] == 48 + q2 % 10);
    assert(s[7] == 48 + q1 % 10);
    assert(s[8] == 48 + f % 10);
    assert(q8 < 10);
    lemma_scan_step(s, 0, 0);
    lemma_scan_step(s, 1, q8);
    lemma_scan_step(s, 2, q7);
    lemma_scan_step(s, 3, q6);
    lemma_scan_step(s, 4, q5);
    lemma_scan_step(s, 5, q4);
    lemma_scan_step(s, 6, q3);
    lemma_scan_step(s, 7, q2);
    lemma_scan_step(s, 8, q1);
}

/// A time of day that is written out in full and read again is the same time
/// of day.
pub proof fn lemma_time_round_trip(ns: int)
    requires
        0 <= ns < NS_IN_DAY,
    ensures
        time_of(time_text(ns)) == Some(ns),
{
    let seconds = ns / 1_000_000_000;
    let f = ns % 1_000_000_000;
    let hh = seconds / 3600;
    let mm = seconds / 60 % 60;
    let ss = seconds % 60;
    let h = two_digits(hh);
    let m = two_digits(mm);
    let s = two_digits(ss);
    let n = nine_digits(f);
    let clock = h + seq![58u8] + m + seq![58u8] + s;
    let t = time_text(ns);
    assert(t =~= clock + seq![46u8] + n);
    assert(free_of(clock, 46));
    assert(free_of(n, 46));
    lemma_found_at_joint(clock, 46, n, 0);
    lemma_two_pieces(clock, 46, n);
    assert(t.subrange(0, 8) =~= clock);
    let tail = m + seq![58u8] + s;
    assert(clock =~= h + seq![58u8] + tail);
    assert(free_of(h, 58));
    assert(free_of(m, 58));
    assert(free_of(s, 58));
    lemma_found_at_joint(h, 58, tail, 0);
    assert(clock.subrange(0, 2) =~= h);
    assert(clock.subrange(3, 8) =~= tail);
    lemma_two_pieces(m, 58, s);
    assert(piece(clock, 58, 0) == Some(h));
    assert(piece(clock, 58, 1) == Some(m)) by {
        reveal_with_fuel(piece, 2);
    }
    assert(piece(clock, 58, 2) == Some(s)) by {
        reveal_with_fuel(piece, 3);
    }
    lemma_two_digits_read(hh);
    lemma_two_digits_read(mm);
    lemma_two_digits_read(ss);
    lemma_nine_digits_read(f);
    assert(crate::temporal::pad9(n) == n);
}

} // verus!

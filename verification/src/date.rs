//! The date of a post as Jekyll's front matter writes it, and the date part
//! used in file and folder names.

use vstd::prelude::*;
use crate::text::{
    decimal, i32_to_chars, pad_left, push_str, push_zero_padded, signed_decimal,
    string_of, usize_to_chars, chars_of, sub_chars,
};

verus! {

/// A local date and time, with the offset of the local time zone from UTC in
/// seconds (positive east of Greenwich).
#[derive(Clone, Copy, Debug)]
pub struct LocalDateTime {
    pub year: i32,
    pub month: u32,
    pub day: u32,
    pub hour: u32,
    pub minute: u32,
    pub second: u32,
    pub utc_offset: i32,
}

/// The hour and minute of the time `seconds` after midnight, as
/// `chrono::NaiveDateTime::from_timestamp_opt(seconds, 0)` gives it and its
/// `hour()` and `minute()` read it.
///
/// Within the first day after the epoch the date is always in range and the
/// time of day is `seconds`, so the hour is `seconds / 3600` and the minute
/// `seconds / 60 % 60` (chrono's `DateTime::from_timestamp` and
/// `NaiveTime::hms`).
#[verifier::external_body]
fn clock_after_midnight(seconds: i64) -> (r: Option<(u32, u32)>)
    requires
        0 <= seconds < 86400,
    ensures
        r == Some(((seconds / 3600) as u32, ((seconds / 60) % 60) as u32)),
{
    #[allow(deprecated)]
    let t = chrono::NaiveDateTime::from_timestamp_opt(seconds, 0);
    t.map(|t| (chrono::Timelike::hour(&t), chrono::Timelike::minute(&t)))
}

/// The digits of `n`, padded with zeros to two characters.
pub open spec fn two_digits(n: nat) -> Seq<char> {
    pad_left(decimal(n), 2, '0')
}

/// The date `d` as the front matter of a post writes it:
/// `YYYY-MM-DD hh:mm:ss.000000000 ±hh:mm`, where the sign is `+` only for a
/// positive offset.
pub open spec fn yaml_date(d: LocalDateTime) -> Seq<char> {
    let off = if d.utc_offset < 0 {
        -d.utc_offset
    } else {
        d.utc_offset as int
    };
    pad_left(signed_decimal(d.year as int), 4, '0') + seq!['-'] + two_digits(d.month as nat)
        + seq!['-'] + two_digits(d.day as nat) + seq![' '] + two_digits(d.hour as nat) + seq![
        ':',
    ] + two_digits(d.minute as nat) + seq![':'] + two_digits(d.second as nat)
        + ".000000000 "@ + (if d.utc_offset > 0 {
        seq!['+']
    } else {
        seq!['-']
    }) + two_digits((off / 3600) as nat) + seq![':'] + two_digits(((off / 60) % 60) as nat)
}

fn push_two_digits(out: &mut Vec<char>, n: u32)
    ensures
        final(out)@ == old(out)@ + two_digits(n as nat),
{
    let d = usize_to_chars(n as usize);
    push_zero_padded(out, &d, 2);
}

/// Writes the date `d` as the front matter of a post holds it:
/// `YYYY-MM-DD hh:mm:ss.000000000 ±hh:mm`.
pub fn format_yaml_date(d: LocalDateTime) -> (r: String)
    requires
        -86400 < d.utc_offset < 86400,
    ensures
        r@ == yaml_date(d),
{
    let off: i64 = if d.utc_offset < 0 {
        -(d.utc_offset as i64)
    } else {
        d.utc_offset as i64
    };
    let clock = clock_after_midnight(off);
    let (tz_hour, tz_minute) = match clock {
        Some(c) => c,
        None => (0, 0),
    };
    let mut out: Vec<char> = Vec::new();
    let year = i32_to_chars(d.year);
    push_zero_padded(&mut out, &year, 4);
    out.push('-');
    push_two_digits(&mut out, d.month);
    out.push('-');
    push_two_digits(&mut out, d.day);
    out.push(' ');
    push_two_digits(&mut out, d.hour);
    out.push(':');
    push_two_digits(&mut out, d.minute);
    out.push(':');
    push_two_digits(&mut out, d.second);
    push_str(&mut out, ".000000000 ");
    if d.utc_offset > 0 {
        out.push('+');
    } else {
        out.push('-');
    }
    push_two_digits(&mut out, tz_hour);
    out.push(':');
    push_two_digits(&mut out, tz_minute);
    assert(out@ =~= yaml_date(d));
    string_of(&out)
}

/// The first ten characters of `date` (all of it when shorter): the
/// `YYYY-MM-DD` part of a front matter date.
pub open spec fn date_part(date: Seq<char>) -> Seq<char> {
    if date.len() <= 10 {
        date
    } else {
        date.subrange(0, 10)
    }
}

/// The date part of a date: its first ten characters.
pub fn date_slug(date: &str) -> (r: String)
    ensures
        r@ == date_part(date@),
{
    let s = chars_of(date);
    if s.len() <= 10 {
        string_of(&s)
    } else {
        let t = sub_chars(&s, 0, 10);
        string_of(&t)
    }
}

proof fn lemma_decimal_len(n: nat)
    ensures
        n < 10 ==> decimal(n).len() == 1,
        n < 100 ==> decimal(n).len() <= 2,
        n < 1000 ==> decimal(n).len() <= 3,
        n < 10000 ==> decimal(n).len() <= 4,
        decimal(n).len() >= 1,
    decreases n,
{
    if n >= 10 {
        lemma_decimal_len(n / 10);
    }
}

/// The date part of the front matter date of a day between the years 0 and
/// 9999 is `YYYY-MM-DD`: the year padded to four digits, then the month and
/// the day padded to two.
pub proof fn lemma_date_slug_of_yaml_date(d: LocalDateTime)
    requires
        0 <= d.year <= 9999,
        d.month < 100,
        d.day < 100,
    ensures
        date_part(yaml_date(d)) == pad_left(decimal(d.year as nat), 4, '0') + seq!['-']
            + two_digits(d.month as nat) + seq!['-'] + two_digits(d.day as nat),
{
    lemma_decimal_len(d.year as nat);
    lemma_decimal_len(d.month as nat);
    lemma_decimal_len(d.day as nat);
    let head = pad_left(decimal(d.year as nat), 4, '0') + seq!['-'] + two_digits(d.month as nat)
        + seq!['-'] + two_digits(d.day as nat);
    assert(head.len() == 10);
    let full = yaml_date(d);
    assert(signed_decimal(d.year as int) == decimal(d.year as nat));
    assert(full.subrange(0, 10) =~= head);
}

} // verus!

//! The moment at which a document is converted, and dates written from it.

use vstd::prelude::*;
use crate::search::{contains_str, has};
use crate::text::{chars_of, copy_text, string_of};

verus! {

/// A moment of local time: the seconds and nanoseconds since the start of
/// 1970 in universal time, and the seconds that local time is ahead of it.
#[derive(Debug, Clone, Copy, PartialEq, Eq)]
pub struct Moment {
    pub secs: i64,
    pub nanos: u32,
    pub offset: i32,
}

/// The start of 1970 in universal time.
pub open spec fn start_of_1970() -> Moment {
    Moment { secs: 0, nanos: 0, offset: 0 }
}

/// Whether a text can ask for a date: every date substitution and every
/// date directive holds the word `date`.
pub open spec fn mentions_date(text: Seq<char>) -> bool {
    has(text, "date"@)
}

/// Whether a text can ask for a date.
pub fn asks_for_date(text: &Vec<char>) -> (b: bool)
    ensures
        b == mentions_date(text@),
{
    contains_str(text, "date")
}

/// The moment at which a text is converted: that of the clock where a date
/// can be asked for, so that the clock is read for no other text; else the
/// start of 1970.
pub(crate) fn moment_if(asked: bool) -> (now: Moment)
    ensures
        !asked ==> now == start_of_1970(),
{
    if asked {
        current_moment()
    } else {
        Moment { secs: 0, nanos: 0, offset: 0 }
    }
}

/// What `strftime` formatting gives for a moment and a format; none where
/// the moment is out of range or the format is not well formed.
pub uninterp spec fn strftime(secs: int, nanos: int, offset: int, format: Seq<char>) -> Option<
    Seq<char>,
>;

/// The text that an optional vector of scalar values holds.
pub open spec fn opt_text(r: Option<Vec<char>>) -> Option<Seq<char>> {
    match r {
        Some(v) => Some(v@),
        None => None,
    }
}

/// `chrono::Local::now`, read as plain numbers with `DateTime::timestamp`,
/// `DateTime::timestamp_subsec_nanos` and `FixedOffset::local_minus_utc`.
/// Nothing is promised of the moment: it is whatever the clock and the
/// time zone of the machine say.
#[verifier::external_body]
fn current_moment() -> Moment {
    let now = chrono::Local::now();
    Moment {
        secs: now.timestamp(),
        nanos: now.timestamp_subsec_nanos(),
        offset: now.offset().local_minus_utc(),
    }
}

/// `chrono::DateTime::format`, written out with `DelayedFormat::write_to`,
/// for the date and time in the zone `FixedOffset::east_opt(m.offset)` that
/// `TimeZone::timestamp_opt(m.secs, m.nanos)` gives. The text is a function
/// of the three numbers and the format alone, named `strftime`; there is none
/// where chrono refuses the offset, the moment or the format.
#[verifier::external_body]
fn format_with_chrono(m: &Moment, format: &str) -> (r: Option<String>)
    ensures
        opt_string(r) == strftime(m.secs as int, m.nanos as int, m.offset as int, format@),
{
    let zone = chrono::FixedOffset::east_opt(m.offset)?;
    let at = chrono::TimeZone::timestamp_opt(&zone, m.secs, m.nanos).single()?;
    let mut out = String::new();
    match at.format(format).write_to(&mut out) {
        Ok(()) => Some(out),
        Err(_) => None,
    }
}

/// The text that an optional string holds.
pub open spec fn opt_string(r: Option<String>) -> Option<Seq<char>> {
    match r {
        Some(v) => Some(v@),
        None => None,
    }
}

/// Formats the moment `m` as `format` asks.
pub fn format_moment(m: &Moment, format: &Vec<char>) -> (r: Option<Vec<char>>)
    ensures
        opt_text(r) == strftime(m.secs as int, m.nanos as int, m.offset as int, format@),
{
    let pattern = string_of(format);
    match format_with_chrono(m, pattern.as_str()) {
        Some(s) => Some(chars_of(s.as_str())),
        None => None,
    }
}

/// The format that a date is written in: the one asked for, or year, month
/// and day where none is asked for.
pub open spec fn date_format(args: Seq<char>) -> Seq<char> {
    if args.len() == 0 {
        "%Y-%m-%d"@
    } else {
        args
    }
}

/// The text of a date, given what formatting gave: the formatted text, or
/// the format itself where there is none.
pub open spec fn date_or_format(args: Seq<char>, formatted: Option<Seq<char>>) -> Seq<char> {
    match formatted {
        Some(t) => t,
        None => date_format(args),
    }
}

/// The date of the moment `now` in the format `args`.
pub open spec fn date_text(args: Seq<char>, now: Moment) -> Seq<char> {
    date_or_format(
        args,
        strftime(now.secs as int, now.nanos as int, now.offset as int, date_format(args)),
    )
}

/// Chooses between a formatted date and the format it was asked in.
pub fn date_from(args: &Vec<char>, formatted: Option<Vec<char>>) -> (r: Vec<char>)
    ensures
        r@ == date_or_format(args@, opt_text(formatted)),
{
    match formatted {
        Some(t) => t,
        None => {
            if args.len() == 0 {
                chars_of("%Y-%m-%d")
            } else {
                copy_text(args)
            }
        },
    }
}

/// Writes the date of the moment `now` in the format `args`.
pub fn render_date(args: &Vec<char>, now: &Moment) -> (r: Vec<char>)
    ensures
        r@ == date_text(args@, *now),
{
    let format = if args.len() == 0 {
        chars_of("%Y-%m-%d")
    } else {
        copy_text(args)
    };
    let formatted = format_moment(now, &format);
    date_from(args, formatted)
}

} // verus!

//! The date value that price records carry, and the conversions between
//! calendar text and UTC epoch seconds.
use vstd::prelude::*;
use chrono::Datelike;
use crate::calendar::{CivilDate, day_number, valid_ymd, lemma_day_number_nonneg, max_day, min_day, lemma_day_in_bounds, lemma_day_number_injective};
use crate::text::{lemma_four_digits, decimal, signed_decimal, zero_padded, decimal_string, signed_decimal_string};

verus! {

/// "2005-12-28"
pub const ISO_FORMAT: &'static str = "%Y-%m-%d";

/// "Dec 28,2005", as the history table writes its dates.
pub const COMPACT_FORMAT: &'static str = "%b %-d,%Y";

/// "Dec 28, 2005", as dates are displayed.
pub const DISPLAY_FORMAT: &'static str = "%b %-d, %Y";

/// "December"
pub const MONTH_FORMAT: &'static str = "%B";

#[derive(Clone, Copy, Debug, PartialEq, Eq, Structural)]
pub enum DateError {
    /// A date string did not match its expected pattern.
    Parse,
    /// An epoch value has no representable calendar date.
    Format,
}

/// A point in time: epoch seconds at UTC midnight, or a display string.
#[derive(Debug, Clone, PartialEq, Eq)]
pub enum Date {
    Timestamp(u64),
    Human(String),
}

impl Default for Date {
    fn default() -> (r: Date)
        ensures
            r == Date::Timestamp(0),
    {
        Date::Timestamp(0)
    }
}

/// Year, month and day that the calendar backend reads from `text` with the
/// pattern `fmt`, if it accepts it.
pub uninterp spec fn parsed_date(text: Seq<char>, fmt: Seq<char>) -> Option<(int, int, int)>;

pub open spec fn ymd(d: CivilDate) -> (int, int, int) {
    (d.year as int, d.month as int, d.day as int)
}

pub open spec fn month_name(m: int) -> Seq<char> {
    if m == 1 { seq!['J', 'a', 'n', 'u', 'a', 'r', 'y'] }
    else if m == 2 { seq!['F', 'e', 'b', 'r', 'u', 'a', 'r', 'y'] }
    else if m == 3 { seq!['M', 'a', 'r', 'c', 'h'] }
    else if m == 4 { seq!['A', 'p', 'r', 'i', 'l'] }
    else if m == 5 { seq!['M', 'a', 'y'] }
    else if m == 6 { seq!['J', 'u', 'n', 'e'] }
    else if m == 7 { seq!['J', 'u', 'l', 'y'] }
    else if m == 8 { seq!['A', 'u', 'g', 'u', 's', 't'] }
    else if m == 9 { seq!['S', 'e', 'p', 't', 'e', 'm', 'b', 'e', 'r'] }
    else if m == 10 { seq!['O', 'c', 't', 'o', 'b', 'e', 'r'] }
    else if m == 11 { seq!['N', 'o', 'v', 'e', 'm', 'b', 'e', 'r'] }
    else { seq!['D', 'e', 'c', 'e', 'm', 'b', 'e', 'r'] }
}

/// The short month name: the first three letters of the full one.
pub open spec fn month_abbrev(m: int) -> Seq<char> {
    month_name(m).subrange(0, 3)
}

/// A year as the "%Y" pattern writes it: four digits at least, and a sign
/// outside 0..=9999.
pub open spec fn year_text(y: int) -> Seq<char> {
    if 0 <= y <= 9999 {
        zero_padded(y as nat, 4)
    } else if y < 0 {
        seq!['-'] + zero_padded((-y) as nat, 4)
    } else {
        seq!['+'] + zero_padded(y as nat, 4)
    }
}

/// " 28, 2005" after a month name.
pub open spec fn phrase_tail(day: int, year_digits: Seq<char>) -> Seq<char> {
    seq![' '] + decimal(day as nat) + seq![',', ' '] + year_digits
}

/// "Dec 28, 2005"
pub open spec fn display_text(t: (int, int, int)) -> Seq<char> {
    month_abbrev(t.1) + phrase_tail(t.2, year_text(t.0))
}

/// "December 28, 2005"
pub open spec fn human_phrase(t: (int, int, int)) -> Seq<char> {
    month_name(t.1) + phrase_tail(t.2, signed_decimal(t.0))
}

pub open spec fn epoch_of(t: (int, int, int)) -> int {
    day_number(t.0, t.1, t.2) * 86400
}

/// The date whose day number is `n`.
pub open spec fn civil_of_day(n: int) -> CivilDate {
    choose|c: CivilDate| c.in_range() && c.days() == n
}

/// What the display of a millisecond timestamp is.
pub open spec fn millis_text(ms: int) -> Result<Seq<char>, DateError> {
    let n = ms / 86_400_000;
    if min_day() <= n <= max_day() {
        Ok(display_text(ymd(civil_of_day(n))))
    } else {
        Err(DateError::Format)
    }
}

/// Epoch seconds at UTC midnight of the date read from `text` with `fmt`.
pub open spec fn parsed_epoch(text: Seq<char>, fmt: Seq<char>) -> Result<int, DateError> {
    match parsed_date(text, fmt) {
        Some(t) => Ok(epoch_of(t)),
        None => Err(DateError::Parse),
    }
}

/// The long-form phrase of a "YYYY-MM-DD" text.
pub open spec fn human_phrase_of(text: Seq<char>) -> Result<Seq<char>, DateError> {
    match parsed_date(text, ISO_FORMAT@) {
        Some(t) => Ok(human_phrase(t)),
        None => Err(DateError::Parse),
    }
}

pub open spec fn int_result(r: Result<i64, DateError>) -> Result<int, DateError> {
    match r {
        Ok(v) => Ok(v as int),
        Err(e) => Err(e),
    }
}

pub open spec fn text_result(r: Result<String, DateError>) -> Result<Seq<char>, DateError> {
    match r {
        Ok(s) => Ok(s@),
        Err(e) => Err(e),
    }
}

impl Date {
    /// What a date value displays as.
    pub open spec fn display(self) -> Result<Seq<char>, DateError> {
        match self {
            Date::Timestamp(ts) => millis_text(ts * 1000),
            Date::Human(s) => Ok(s@),
        }
    }

    /// Renders the date as "Mon D, YYYY"; a display string is returned as it is.
    pub fn serialize(&self) -> (r: Result<String, DateError>)
        ensures
            text_result(r) == self.display(),
    {
        match self {
            Date::Timestamp(ts) => {
                if *ts > (i64::MAX as u64) / 1000 {
                    assert(*ts as int * 1000 / 86_400_000 > max_day());
                    return Err(DateError::Format);
                }
                timestamp_to_date((*ts * 1000) as i64)
            },
            Date::Human(s) => Ok(s.clone()),
        }
    }

    /// Reads a "YYYY-MM-DD" text as the epoch of its UTC midnight, with a
    /// date before 1970 held as epoch zero.
    pub fn deserialize(s: &str) -> (r: Result<Date, DateError>)
        ensures
            r == match parsed_epoch(s@, ISO_FORMAT@) {
                Ok(e) => Ok(Date::Timestamp(if e < 0 { 0 } else { e as u64 })),
                Err(err) => Err(err),
            },
    {
        match date_to_timestamp(s) {
            Ok(ts) => Ok(Date::Timestamp(if ts < 0 { 0 } else { ts as u64 })),
            Err(e) => Err(e),
        }
    }
}

/// Relies on chrono's `NaiveDate::parse_from_str`: the same text and pattern
/// always give the same date, and a parsed date is a valid one within the
/// years that chrono represents.
#[verifier::external_body]
pub(crate) fn parse_date(text: &str, fmt: &str) -> (r: Option<CivilDate>)
    ensures
        match r {
            Some(d) => parsed_date(text@, fmt@) == Some(ymd(d)) && d.in_range(),
            None => parsed_date(text@, fmt@) is None,
        },
{
    chrono::NaiveDate::parse_from_str(text, fmt).ok().map(
        |d| CivilDate { year: d.year(), month: d.month(), day: d.day() },
    )
}

/// Relies on chrono's `NaiveDateTime::and_utc` and `DateTime::timestamp`:
/// the epoch seconds of UTC midnight at the start of the date.
#[verifier::external_body]
fn midnight_timestamp(d: CivilDate) -> (r: i64)
    requires
        d.in_range(),
    ensures
        r == d.days() * 86400,
{
    let date = chrono::NaiveDate::from_ymd_opt(d.year, d.month, d.day).unwrap();
    date.and_hms_opt(0, 0, 0).unwrap().and_utc().timestamp()
}

/// Relies on chrono's `NaiveDate` subtraction and `TimeDelta::num_days`: the
/// whole days from `start` to `end`.
#[verifier::external_body]
pub(crate) fn days_between(start: CivilDate, end: CivilDate) -> (r: i64)
    requires
        start.in_range(),
        end.in_range(),
    ensures
        r == end.days() - start.days(),
{
    let from = chrono::NaiveDate::from_ymd_opt(start.year, start.month, start.day).unwrap();
    let to = chrono::NaiveDate::from_ymd_opt(end.year, end.month, end.day).unwrap();
    (to - from).num_days()
}

/// Relies on chrono's `Local::now`, written with "%Y-%m-%d": the date on the
/// local clock. Nothing is known of it beforehand.
#[verifier::external_body]
pub(crate) fn local_today() -> (r: String) {
    chrono::Local::now().format(ISO_FORMAT).to_string()
}

/// Relies on chrono's `DateTime::from_timestamp_millis`: the UTC calendar date
/// of a millisecond timestamp, and none outside chrono's range of dates.
#[verifier::external_body]
fn utc_date_of_millis(ms: i64) -> (r: Option<CivilDate>)
    ensures
        r is Some <==> min_day() <= ms as int / 86_400_000 <= max_day(),
        r matches Some(d) ==> d.in_range() && d.days() == ms as int / 86_400_000,
{
    chrono::DateTime::from_timestamp_millis(ms).map(
        |t| CivilDate { year: t.year(), month: t.month(), day: t.day() },
    )
}

/// Relies on chrono's `NaiveDate::format`: "%b %-d, %Y" writes the short
/// month name, the day without padding and the year as `year_text`; "%B"
/// writes the full month name.
#[verifier::external_body]
fn format_date(d: CivilDate, fmt: &str) -> (r: String)
    requires
        d.in_range(),
        fmt@ == DISPLAY_FORMAT@ || fmt@ == MONTH_FORMAT@,
    ensures
        fmt@ == DISPLAY_FORMAT@ ==> r@ == display_text(ymd(d)),
        fmt@ == MONTH_FORMAT@ ==> r@ == month_name(d.month as int),
{
    let date = chrono::NaiveDate::from_ymd_opt(d.year, d.month, d.day).unwrap();
    date.format(fmt).to_string()
}

/// Renders a millisecond timestamp as "Mon D, YYYY" in UTC.
fn timestamp_to_date(millis: i64) -> (r: Result<String, DateError>)
    ensures
        text_result(r) == millis_text(millis as int),
{
    match utc_date_of_millis(millis) {
        Some(d) => {
            proof {
                let c = civil_of_day(d.days());
                lemma_day_number_injective(c, d);
            }
            Ok(format_date(d, DISPLAY_FORMAT))
        },
        None => Err(DateError::Format),
    }
}

/// Reads "Mon D,YYYY" as the epoch seconds of its UTC midnight.
pub fn date_string_to_timestamp(date_str: &str) -> (r: Result<i64, DateError>)
    ensures
        int_result(r) == parsed_epoch(date_str@, COMPACT_FORMAT@),
{
    match parse_date(date_str, COMPACT_FORMAT) {
        Some(d) => Ok(midnight_timestamp(d)),
        None => Err(DateError::Parse),
    }
}

/// Reads "YYYY-MM-DD" as the epoch seconds of its UTC midnight.
pub fn date_to_timestamp(date_str: &str) -> (r: Result<i64, DateError>)
    ensures
        int_result(r) == parsed_epoch(date_str@, ISO_FORMAT@),
{
    match parse_date(date_str, ISO_FORMAT) {
        Some(d) => Ok(midnight_timestamp(d)),
        None => Err(DateError::Parse),
    }
}

/// Turns "YYYY-MM-DD" into "Month D, YYYY".
pub fn human_readable_date(date_str: &str) -> (r: Result<String, DateError>)
    ensures
        text_result(r) == human_phrase_of(date_str@),
{
    match parse_date(date_str, ISO_FORMAT) {
        Some(d) => {
            let mut phrase = format_date(d, MONTH_FORMAT);
            proof {
                reveal_strlit(" ");
                reveal_strlit(", ");
            }
            phrase.append(" ");
            phrase.append(decimal_string(d.day as u64).as_str());
            phrase.append(", ");
            phrase.append(signed_decimal_string(d.year as i64).as_str());
            assert(phrase@ =~= human_phrase(ymd(d)));
            Ok(phrase)
        },
        None => Err(DateError::Parse),
    }
}

/// The long-form phrase of a "YYYY-MM-DD" text, with its month name
/// abbreviated to three letters.
pub open spec fn short_phrase_of(text: Seq<char>) -> Result<Seq<char>, DateError> {
    match parsed_date(text, ISO_FORMAT@) {
        Some(t) => Ok(month_abbrev(t.1) + phrase_tail(t.2, signed_decimal(t.0))),
        None => Err(DateError::Parse),
    }
}

/// Reading a "YYYY-MM-DD" date as epoch seconds and displaying that epoch
/// selects the same calendar day as the long-form phrase of the text: the
/// display is the phrase with its month name abbreviated. This holds for
/// four-digit years from 1970 on, where the epoch is a non-negative number of
/// seconds.
pub proof fn lemma_canonical_round_trip(text: Seq<char>)
    requires
        parsed_date(text, ISO_FORMAT@) matches Some(t) && valid_ymd(t.0, t.1, t.2) && 1970 <= t.0
            <= 9999,
    ensures
        parsed_epoch(text, ISO_FORMAT@) matches Ok(e) && 0 <= e <= u64::MAX
            && Date::Timestamp(e as u64).display() == short_phrase_of(text),
        human_phrase_of(text) is Ok,
{
    let t = parsed_date(text, ISO_FORMAT@)->Some_0;
    let d = CivilDate { year: t.0 as i32, month: t.1 as u32, day: t.2 as u32 };
    assert(ymd(d) == t);
    lemma_day_number_nonneg(d);
    lemma_day_in_bounds(d);
    let n = d.days();
    let e = n * 86400;
    assert(e * 1000 / 86_400_000 == n) by (nonlinear_arith)
        requires
            e == n * 86400,
    ;
    assert(n <= 100_000_000);
    assert(e <= u64::MAX) by (nonlinear_arith)
        requires
            e == n * 86400,
            n <= 100_000_000,
    ;
    let c = civil_of_day(n);
    lemma_day_number_injective(c, d);
    lemma_four_digits(t.0 as nat);
}

} // verus!

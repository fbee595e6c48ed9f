//! What a history request asks for, and the name of the file a series is
//! written to.
use vstd::prelude::*;
use crate::date_util::{DateError, ISO_FORMAT, parsed_epoch, date_to_timestamp, local_today};
use crate::history::Frequency;
use crate::text::{signed_decimal, signed_decimal_string};

verus! {

pub const QUOTE_URL: &'static str = "https://finance.yahoo.com/quote/";

pub const HISTORY_PATH: &'static str = "/history";

/// Prefix of a file name chosen for the user.
pub const NAME_PREFIX: &'static str = "yfp_";

/// Stands for an open end of the range in a file name.
pub const OPEN_END: &'static str = "today";

/// The page to ask for and its query: the range as epoch seconds and the
/// sampling code.
pub struct HistoryQuery {
    pub url: String,
    pub period1: String,
    pub period2: String,
    pub frequency: String,
}

pub open spec fn history_url(ticker: Seq<char>) -> Seq<char> {
    QUOTE_URL@ + ticker + HISTORY_PATH@
}

/// Whether `r` is the request for `ticker` from `from` to `end`: made when
/// both dates read as "YYYY-MM-DD", a parse error otherwise.
pub open spec fn is_query_for(
    r: Result<HistoryQuery, DateError>,
    ticker: Seq<char>,
    from: Seq<char>,
    end: Seq<char>,
    frequency: Frequency,
) -> bool {
    match r {
        Ok(q) => {
            &&& parsed_epoch(from, ISO_FORMAT@) is Ok
            &&& parsed_epoch(end, ISO_FORMAT@) is Ok
            &&& q.url@ == history_url(ticker)
            &&& q.period1@ == signed_decimal(parsed_epoch(from, ISO_FORMAT@)->Ok_0)
            &&& q.period2@ == signed_decimal(parsed_epoch(end, ISO_FORMAT@)->Ok_0)
            &&& q.frequency@ == frequency.wire_code_spec()
        },
        Err(e) => e == DateError::Parse && (parsed_epoch(from, ISO_FORMAT@) is Err
            || parsed_epoch(end, ISO_FORMAT@) is Err),
    }
}

/// The request for `ticker` from `from` to `end` ("YYYY-MM-DD").
pub fn compose_query(ticker: &str, from: &str, end: &str, frequency: Frequency) -> (r: Result<
    HistoryQuery,
    DateError,
>)
    ensures
        is_query_for(r, ticker@, from@, end@, frequency),
{
    let start_date = match date_to_timestamp(from) {
        Ok(t) => t,
        Err(e) => return Err(e),
    };
    let end_date = match date_to_timestamp(end) {
        Ok(t) => t,
        Err(e) => return Err(e),
    };
    let url = String::from_str(QUOTE_URL).concat(ticker).concat(HISTORY_PATH);
    Ok(HistoryQuery {
        url,
        period1: signed_decimal_string(start_date),
        period2: signed_decimal_string(end_date),
        frequency: String::from_str(frequency.wire_code()),
    })
}

/// The request for `ticker` from `from` to `end`, or to today's local date
/// when no end is given.
pub fn compose_client(ticker: &str, from: &str, end: Option<&str>, frequency: Frequency) -> (r:
    Result<HistoryQuery, DateError>)
    ensures
        end matches Some(e) ==> is_query_for(r, ticker@, from@, e@, frequency),
        end is None ==> exists|today: Seq<char>| is_query_for(r, ticker@, from@, today, frequency),
{
    match end {
        Some(e) => compose_query(ticker, from, e, frequency),
        None => {
            let today = local_today();
            compose_query(ticker, from, today.as_str(), frequency)
        },
    }
}

pub open spec fn end_text(end: Option<&str>) -> Seq<char> {
    match end {
        Some(e) => e@,
        None => OPEN_END@,
    }
}

/// "yfp_{ticker}_{start}_{end}_{frequency}_{today}"
pub open spec fn auto_name(
    ticker: Seq<char>,
    start: Seq<char>,
    end: Seq<char>,
    frequency: Frequency,
    today: Seq<char>,
) -> Seq<char> {
    NAME_PREFIX@ + ticker + seq!['_'] + start + seq!['_'] + end + seq!['_'] + frequency.word_spec()
        + seq!['_'] + today
}

/// The file name for a series: the one given, or one made of the ticker,
/// the range, the frequency and the date `today`.
pub fn file_name_on(
    ticker: &str,
    start: &str,
    end: Option<&str>,
    frequency: Frequency,
    file_name: Option<&str>,
    today: &str,
) -> (r: String)
    ensures
        file_name matches Some(n) ==> r@ == n@,
        file_name is None ==> r@ == auto_name(ticker@, start@, end_text(end), frequency, today@),
{
    if let Some(name) = file_name {
        return String::from_str(name);
    }
    proof {
        reveal_strlit("_");
    }
    let end_part = match end {
        Some(e) => e,
        None => OPEN_END,
    };
    let name = String::from_str(NAME_PREFIX).concat(ticker).concat("_").concat(start).concat(
        "_",
    ).concat(end_part).concat("_").concat(frequency.word()).concat("_").concat(today);
    assert(name@ =~= auto_name(ticker@, start@, end_text(end), frequency, today@));
    name
}

/// The file name for a series: the one given, or one made of the ticker,
/// the range, the frequency and today's local date.
pub fn prepare_file_name(
    ticker: &str,
    start: &str,
    end: Option<&str>,
    frequency: Frequency,
    file_name: Option<&str>,
) -> (r: String)
    ensures
        file_name matches Some(n) ==> r@ == n@,
        file_name is None ==> exists|today: Seq<char>|
            r@ == auto_name(ticker@, start@, end_text(end), frequency, today),
{
    match file_name {
        Some(name) => String::from_str(name),
        None => {
            let today = local_today();
            file_name_on(ticker, start, end, frequency, None, today.as_str())
        },
    }
}

} // verus!

use yfp::date_util::{Date, DateError};
use yfp::numeral::is_numeral_text;
use yfp::{
    classify_row, estimate_for_span, extract_records, get_array_size_for_frequency, parse_html,
    parse_html_until, ExtractError, Frequency, Numeral, RowOutcome, OHLCV,
};

fn cells(texts: &[&str]) -> Vec<String> {
    texts.iter().map(|t| t.to_string()).collect()
}

fn table(rows: &[&[&str]]) -> String {
    let mut html = String::from("<table><thead><tr><th>Date</th><th>Open</th></tr></thead><tbody>");
    for row in rows {
        html.push_str("<tr>");
        for cell in row.iter() {
            html.push_str(&format!("<td>{cell}</td>"));
        }
        html.push_str("</tr>");
    }
    html.push_str("</tbody></table>");
    html
}

fn text(n: &Numeral) -> &str {
    n.text.as_str()
}

#[test]
fn data_row_gives_one_record() {
    let row = cells(&["Dec 24,2020", "1.0", "2.0", "0.5", "1.5", "1.5", "100"]);
    let RowOutcome::Emitted(bar) = classify_row(&row) else {
        panic!("the row should give a record");
    };
    assert_eq!(bar.date, Date::Timestamp(1608768000));
    assert_eq!(bar.date.serialize().unwrap(), "Dec 24, 2020");
    assert_eq!(text(&bar.open), "1.0");
    assert_eq!(text(&bar.high), "2.0");
    assert_eq!(text(&bar.low), "0.5");
    assert_eq!(text(&bar.close), "1.5");
    assert_eq!(text(&bar.adj_close), "1.5");
    assert_eq!(bar.volume, 100);
}

#[test]
fn annotation_row_gives_no_record() {
    let row = cells(&["Dec 24,2020", "2-for-1 Split"]);
    assert!(matches!(classify_row(&row), RowOutcome::Empty));
    let html = table(&[&["Dec 24,2020", "2-for-1 Split"]]);
    assert_eq!(parse_html_until(&html, Frequency::Daily, "2020-12-01", "2020-12-31"), Ok(vec![]));
}

#[test]
fn row_without_date_is_rejected() {
    assert!(matches!(classify_row(&cells(&[])), RowOutcome::Rejected));
    assert!(matches!(classify_row(&cells(&["Date", "1.0"])), RowOutcome::Rejected));
    assert!(matches!(classify_row(&cells(&["Jan 1,1970", "1.0"])), RowOutcome::Rejected));
}

#[test]
fn thousands_separators_are_stripped() {
    let row = cells(&["Jan 2,2024", "1,234.5", "x", "", "7", "8", "12,345,678"]);
    let RowOutcome::Emitted(bar) = classify_row(&row) else {
        panic!("the row should give a record");
    };
    assert_eq!(text(&bar.open), "1234.5");
    assert_eq!(text(&bar.high), "0");
    assert_eq!(text(&bar.low), "0");
    assert_eq!(text(&bar.close), "7");
    assert_eq!(bar.volume, 12345678);
}

#[test]
fn cells_beyond_the_sixth_are_ignored() {
    let row = cells(&["Jan 2,2024", "1", "2", "3", "4", "5", "6", "7", "8"]);
    let RowOutcome::Emitted(bar) = classify_row(&row) else {
        panic!("the row should give a record");
    };
    assert_eq!(text(&bar.adj_close), "5");
    assert_eq!(bar.volume, 6);
    let only_extra = cells(&["Jan 2,2024", "a", "b", "c", "d", "e", "f", "7"]);
    assert!(matches!(classify_row(&only_extra), RowOutcome::Empty));
}

#[test]
fn volume_is_truncated_not_rounded() {
    let row = cells(&["Jan 2,2024", "1", "1", "1", "1", "1", "99.99"]);
    let RowOutcome::Emitted(bar) = classify_row(&row) else {
        panic!("the row should give a record");
    };
    assert_eq!(bar.volume, 99);
    let negative = cells(&["Jan 2,2024", "1", "1", "1", "1", "1", "-5"]);
    let RowOutcome::Emitted(bar) = classify_row(&negative) else {
        panic!("the row should give a record");
    };
    assert_eq!(bar.volume, 0);
}

#[test]
fn date_before_epoch_is_held_as_zero() {
    let row = cells(&["Dec 31,1969", "1"]);
    let RowOutcome::Emitted(bar) = classify_row(&row) else {
        panic!("the row should give a record");
    };
    assert_eq!(bar.date, Date::Timestamp(0));
}

#[test]
fn numerals() {
    for good in ["0", "1.0", "-0.5", "+3", "3.", ".25", "1234567890123"] {
        assert!(is_numeral_text(good), "{good}");
    }
    for bad in ["", ".", "+", "-", "1.2.3", "2-for-1 Split", "1e5", " 1", "1,0"] {
        assert!(!is_numeral_text(bad), "{bad}");
    }
    let n = Numeral::parse("123.99".to_string()).unwrap();
    assert_eq!(n.truncate(), 123);
    assert_eq!(Numeral::parse("99999999999999999999999".to_string()).unwrap().truncate(), u64::MAX);
    assert_eq!(Numeral::parse("+.5".to_string()).unwrap().truncate(), 0);
    assert!(Numeral::parse("abc".to_string()).is_none());
    assert_eq!(Numeral::zero().text, "0");
}

#[test]
fn capacity_estimates() {
    assert_eq!(get_array_size_for_frequency(Frequency::Daily, "2020-01-01", "2020-01-10"), Ok(Some(9)));
    assert_eq!(get_array_size_for_frequency(Frequency::Monthly, "2020-01-01", "2020-01-10"), Ok(None));
    assert_eq!(get_array_size_for_frequency(Frequency::Weekly, "2020-01-01", "2020-01-22"), Ok(Some(3)));
    assert_eq!(get_array_size_for_frequency(Frequency::Weekly, "2020-01-01", "2020-01-21"), Ok(Some(2)));
    assert_eq!(get_array_size_for_frequency(Frequency::Daily, "2020-01-10", "2020-01-01"), Ok(Some(0)));
    assert_eq!(get_array_size_for_frequency(Frequency::Daily, "2019-01-01", "2020-01-01"), Ok(Some(365)));
    assert_eq!(get_array_size_for_frequency(Frequency::Monthly, "2020-01-01", "bad"), Err(DateError::Parse));
    assert_eq!(get_array_size_for_frequency(Frequency::Daily, "bad", "2020-01-01"), Err(DateError::Parse));
    assert_eq!(estimate_for_span(Frequency::Weekly, -6), Some(0));
    assert_eq!(estimate_for_span(Frequency::Daily, 9), Some(9));
}

#[test]
fn extraction_is_repeatable() {
    let html = table(&[
        &["Dec 24,2020", "1.0", "2.0", "0.5", "1.5", "1.5", "100"],
        &["Dec 23,2020", "1.5", "2.5", "1.0", "2.0", "2.0", "150"],
    ]);
    let first = parse_html_until(&html, Frequency::Daily, "2020-12-01", "2020-12-31");
    let second = parse_html_until(&html, Frequency::Daily, "2020-12-01", "2020-12-31");
    assert_eq!(first.as_ref().unwrap().len(), 2);
    assert_eq!(first, second);
}

#[test]
fn records_keep_row_order() {
    let html = table(&[
        &["Dec 22,2020", "3", "3", "3", "3", "3", "3"],
        &["Dec 24,2020", "1", "1", "1", "1", "1", "1"],
        &["Dec 24,2020", "0.08 Dividend"],
        &["Dec 23,2020", "2", "2", "2", "2", "2", "2"],
    ]);
    let bars = parse_html_until(&html, Frequency::Daily, "2020-12-01", "2020-12-31").unwrap();
    let volumes: Vec<u64> = bars.iter().map(|b: &OHLCV| b.volume).collect();
    assert_eq!(volumes, vec![3, 1, 2]);
}

#[test]
fn empty_body_and_missing_body() {
    let empty = "<table><tbody></tbody></table>".to_string();
    assert_eq!(parse_html(empty, Frequency::Daily, "2020-01-01", Some("2020-01-10")), Ok(vec![]));
    let headers_only = table(&[&["Date", "Open"]]);
    assert_eq!(parse_html_until(&headers_only, Frequency::Daily, "2020-01-01", "2020-01-10"), Ok(vec![]));
    let no_body = "<p>Too many requests</p>".to_string();
    assert_eq!(
        parse_html(no_body, Frequency::Daily, "2020-01-01", Some("2020-01-10")),
        Err(ExtractError::MissingTable)
    );
    assert_eq!(extract_records(&None, Frequency::Daily, "bad", "bad"), Err(ExtractError::MissingTable));
}

#[test]
fn bad_range_fails_extraction() {
    let html = table(&[&["Dec 24,2020", "1"]]);
    assert_eq!(
        parse_html_until(&html, Frequency::Monthly, "2020-12-01", "31/12/2020"),
        Err(ExtractError::DateParse)
    );
}

#[test]
fn open_range_ends_today() {
    let html = table(&[&["Dec 24,2020", "1"]]);
    let bars = parse_html(html, Frequency::Weekly, "2020-01-01", None).unwrap();
    assert_eq!(bars.len(), 1);
}

#[test]
fn only_first_table_body_is_read() {
    let html = format!(
        "{}{}",
        table(&[&["Dec 24,2020", "1"]]),
        table(&[&["Dec 25,2020", "2"], &["Dec 26,2020", "3"]])
    );
    let bars = parse_html_until(&html, Frequency::Daily, "2020-12-01", "2020-12-31").unwrap();
    assert_eq!(bars.len(), 1);
    assert_eq!(bars[0].date, Date::Timestamp(1608768000));
}

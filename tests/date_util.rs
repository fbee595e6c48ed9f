use chrono::{TimeZone, Utc};
use yfp::date_util::{
    date_string_to_timestamp, date_to_timestamp, human_readable_date, Date, DateError,
};

#[test]
fn test_serialization_from_timestamp() {
    let dt = Utc.with_ymd_and_hms(2005, 12, 28, 0, 0, 0).unwrap();
    let date = Date::Timestamp(dt.timestamp() as u64);
    let serialized = serde_json::to_string(&date.serialize().unwrap()).unwrap();

    assert_eq!(serialized, "\"Dec 28, 2005\"");
}

#[test]
fn test_date_to_timestamp_valid() {
    let date_str = "2025-02-09";
    let ts = date_to_timestamp(date_str).unwrap();
    let expected = Utc
        .with_ymd_and_hms(2025, 2, 9, 0, 0, 0)
        .map(|dt| dt.timestamp())
        .unwrap();
    assert_eq!(ts, expected);
}

#[test]
fn test_date_string_to_timestamp_valid() {
    let date_str = "Dec 20, 2024";
    let ts = date_string_to_timestamp(date_str).unwrap();
    let expected = Utc
        .with_ymd_and_hms(2024, 12, 20, 0, 0, 0)
        .map(|dt| dt.timestamp())
        .unwrap();
    assert_eq!(ts, expected);
}

#[test]
fn canonical_parse_gives_known_epoch() {
    assert_eq!(date_to_timestamp("2025-02-09"), Ok(1739059200));
    assert_eq!(date_to_timestamp("1970-01-01"), Ok(0));
    assert_eq!(date_to_timestamp("1969-12-31"), Ok(-86400));
}

#[test]
fn canonical_parse_rejects_malformed_text() {
    assert_eq!(date_to_timestamp("2025/02/09"), Err(DateError::Parse));
    assert_eq!(date_to_timestamp("2025-02-30"), Err(DateError::Parse));
    assert_eq!(date_to_timestamp(""), Err(DateError::Parse));
}

#[test]
fn compact_parse_without_space() {
    let expected = Utc.with_ymd_and_hms(2024, 12, 20, 0, 0, 0).unwrap().timestamp();
    assert_eq!(date_string_to_timestamp("Dec 20,2024"), Ok(expected));
    assert_eq!(expected, 1734652800);
}

#[test]
fn compact_parse_rejects_other_forms() {
    assert_eq!(date_string_to_timestamp("2024-12-20"), Err(DateError::Parse));
    assert_eq!(date_string_to_timestamp("Date"), Err(DateError::Parse));
    assert_eq!(date_string_to_timestamp("Feb 30,2024"), Err(DateError::Parse));
}

#[test]
fn human_phrase_uses_full_month_name() {
    assert_eq!(human_readable_date("2005-12-28").unwrap(), "December 28, 2005");
    assert_eq!(human_readable_date("2025-02-09").unwrap(), "February 9, 2025");
    assert_eq!(human_readable_date("Dec 28, 2005"), Err(DateError::Parse));
}

#[test]
fn display_and_phrase_select_the_same_day() {
    for text in ["2024-02-29", "1970-01-01", "2000-12-31", "2099-07-04"] {
        let epoch = date_to_timestamp(text).unwrap();
        let shown = Date::Timestamp(epoch as u64).serialize().unwrap();
        let phrase = human_readable_date(text).unwrap();
        let month_end = phrase.find(' ').unwrap();
        let shortened = format!("{}{}", &phrase[..3], &phrase[month_end..]);
        assert_eq!(shown, shortened);
    }
}

#[test]
fn display_string_is_returned_unchanged() {
    let date = Date::Human("Dec 24, 2020".to_string());
    assert_eq!(date.serialize().unwrap(), "Dec 24, 2020");
}

#[test]
fn default_date_is_epoch_zero() {
    assert_eq!(Date::default(), Date::Timestamp(0));
    assert_eq!(Date::default().serialize().unwrap(), "Jan 1, 1970");
}

#[test]
fn unrepresentable_epoch_fails_to_format() {
    assert_eq!(Date::Timestamp(u64::MAX).serialize(), Err(DateError::Format));
    assert_eq!(Date::Timestamp(10_000_000_000_000).serialize(), Err(DateError::Format));
}

#[test]
fn deserialize_reads_only_canonical_dates() {
    assert_eq!(Date::deserialize("2005-12-28"), Ok(Date::Timestamp(1135728000)));
    assert_eq!(Date::deserialize("1969-12-31"), Ok(Date::Timestamp(0)));
    // What `serialize` writes is not what `deserialize` reads.
    assert_eq!(Date::deserialize("Dec 28, 2005"), Err(DateError::Parse));
}

use yfp::date_util::DateError;
use yfp::{compose_query, file_name_on, prepare_file_name, FileFormat, Frequency};

#[test]
fn test_proper_naming() {
    let name = prepare_file_name(
        "VOO",
        "2020-01-01",
        Some("2024-01-01"),
        Frequency::Daily,
        None,
    );

    assert!(name.starts_with("yfp_VOO_2020-01-01_2024-01-01_daily_"));

    let given_name = prepare_file_name(
        "VOO",
        "2020-01-01",
        Some("2024-01-01"),
        Frequency::Daily,
        Some("proper_name"),
    );

    assert_eq!(given_name, "proper_name");
}

#[test]
fn file_name_with_open_end() {
    let name = file_name_on("VOO", "2020-01-01", None, Frequency::Weekly, None, "2025-03-01");
    assert_eq!(name, "yfp_VOO_2020-01-01_today_weekly_2025-03-01");
}

#[test]
fn frequency_words_and_codes() {
    assert_eq!(Frequency::Daily.word(), "daily");
    assert_eq!(Frequency::Weekly.word(), "weekly");
    assert_eq!(Frequency::Monthly.word(), "monthly");
    assert_eq!(Frequency::Daily.wire_code(), "1d");
    assert_eq!(Frequency::Weekly.wire_code(), "1wk");
    assert_eq!(Frequency::Monthly.wire_code(), "1mo");
    assert_eq!(FileFormat::CSV.extension(), "csv");
    assert_eq!(FileFormat::JSON.extension(), "json");
}

#[test]
fn query_carries_range_as_epoch_seconds() {
    let q = compose_query("VOO", "2020-01-01", "2024-01-01", Frequency::Monthly).unwrap();
    assert_eq!(q.url, "https://finance.yahoo.com/quote/VOO/history");
    assert_eq!(q.period1, "1577836800");
    assert_eq!(q.period2, "1704067200");
    assert_eq!(q.frequency, "1mo");
    let before = compose_query("VOO", "1969-12-31", "1970-01-02", Frequency::Daily).unwrap();
    assert_eq!(before.period1, "-86400");
    assert_eq!(before.period2, "86400");
}

#[test]
fn query_rejects_bad_dates() {
    assert!(matches!(
        compose_query("VOO", "2020-13-01", "2024-01-01", Frequency::Daily),
        Err(DateError::Parse)
    ));
    assert!(matches!(
        compose_query("VOO", "2020-01-01", "yesterday", Frequency::Daily),
        Err(DateError::Parse)
    ));
}

//! Price history tables turned into series of price bars.

pub mod calendar;
pub mod text;
pub mod date_util;
pub mod numeral;
pub mod history;
pub mod request;

pub use history::{
    OHLCV, Frequency, FileFormat, ExtractError, RowBuffer, RowOutcome, parse_html,
    parse_html_until, extract_records, classify_row, classify_cells, get_array_size_for_frequency,
    estimate_for_span,
};
pub use numeral::Numeral;
pub use request::{HistoryQuery, compose_client, compose_query, prepare_file_name, file_name_on};


//! The extraction engine: from the rows of a price-history table to a
//! sequence of price bars, and the estimate that sizes its output.
use vstd::prelude::*;
use crate::calendar::day_number;
use crate::date_util::{
    Date, DateError, ISO_FORMAT, COMPACT_FORMAT, parsed_date, parsed_epoch, int_result, parse_date,
    days_between, date_string_to_timestamp, local_today,
};
use crate::numeral::{Numeral, is_numeral, truncated};

verus! {

/// Sampling granularity of a price series.
#[derive(Clone, Copy, Debug, PartialEq, Eq, Structural)]
pub enum Frequency {
    Daily,
    Weekly,
    Monthly,
}

/// The formats that a series can be written in.
#[derive(Clone, Copy, Debug, PartialEq, Eq, Structural)]
pub enum FileFormat {
    CSV,
    JSON,
}

#[derive(Clone, Copy, Debug, PartialEq, Eq, Structural)]
pub enum ExtractError {
    /// The document holds no table body.
    MissingTable,
    /// A bound of the requested range is not a "YYYY-MM-DD" date.
    DateParse,
}

/// One observation of an instrument at one date.
#[derive(Clone, Debug, PartialEq, Eq)]
pub struct OHLCV {
    pub date: Date,
    pub open: Numeral,
    pub high: Numeral,
    pub low: Numeral,
    pub close: Numeral,
    pub adj_close: Numeral,
    pub volume: u64,
}

/// The contents of a price bar.
pub struct BarView {
    pub date: Date,
    pub open: Seq<char>,
    pub high: Seq<char>,
    pub low: Seq<char>,
    pub close: Seq<char>,
    pub adj_close: Seq<char>,
    pub volume: u64,
}

impl View for OHLCV {
    type V = BarView;

    open spec fn view(&self) -> BarView {
        BarView {
            date: self.date,
            open: self.open.text@,
            high: self.high.text@,
            low: self.low.text@,
            close: self.close.text@,
            adj_close: self.adj_close.text@,
            volume: self.volume,
        }
    }
}

/// The values read from one table row: its date, then open, high, low,
/// close, adjusted close and volume.
pub struct RowBuffer {
    pub date: i64,
    pub slots: Vec<Numeral>,
}

/// Number of value cells that follow the date cell in a row.
pub const ROW_FIELDS: usize = 6;

pub open spec fn clamped_epoch(e: int) -> u64 {
    if e < 0 { 0 } else { e as u64 }
}

impl Default for OHLCV {
    fn default() -> (r: OHLCV)
        ensures
            r@ == (BarView {
                date: Date::Timestamp(0),
                open: seq!['0'],
                high: seq!['0'],
                low: seq!['0'],
                close: seq!['0'],
                adj_close: seq!['0'],
                volume: 0,
            }),
    {
        OHLCV {
            date: Date::Timestamp(0),
            open: Numeral::zero(),
            high: Numeral::zero(),
            low: Numeral::zero(),
            close: Numeral::zero(),
            adj_close: Numeral::zero(),
            volume: 0,
        }
    }
}

impl OHLCV {
    /// Fills the bar from a row buffer; a date before 1970 becomes epoch zero
    /// and the volume is the last slot truncated toward zero.
    pub fn insert(&mut self, buf: RowBuffer)
        requires
            buf.slots.len() == ROW_FIELDS,
        ensures
            final(self)@ == (BarView {
                date: Date::Timestamp(clamped_epoch(buf.date as int)),
                open: buf.slots@[0].text@,
                high: buf.slots@[1].text@,
                low: buf.slots@[2].text@,
                close: buf.slots@[3].text@,
                adj_close: buf.slots@[4].text@,
                volume: truncated(buf.slots@[5].text@),
            }),
    {
        self.date = Date::Timestamp(if buf.date < 0 { 0 } else { buf.date as u64 });
        self.open = Numeral { text: buf.slots[0].text.clone() };
        self.high = Numeral { text: buf.slots[1].text.clone() };
        self.low = Numeral { text: buf.slots[2].text.clone() };
        self.close = Numeral { text: buf.slots[3].text.clone() };
        self.adj_close = Numeral { text: buf.slots[4].text.clone() };
        self.volume = buf.slots[5].truncate();
    }
}

/// How one table row is classified.
pub enum RowKind {
    /// The first cell holds no date: a header, spacer or other non-data row.
    Rejected,
    /// Dated, but no value cell holds a number: an annotation row.
    Empty,
    /// A data row and the bar it gives.
    Emitted(BarView),
}

/// The outcome of scanning one table row.
pub enum RowOutcome {
    Rejected,
    Empty,
    Emitted(OHLCV),
}

impl RowOutcome {
    pub open spec fn kind(self) -> RowKind {
        match self {
            RowOutcome::Rejected => RowKind::Rejected,
            RowOutcome::Empty => RowKind::Empty,
            RowOutcome::Emitted(b) => RowKind::Emitted(b@),
        }
    }
}

pub open spec fn strip_commas(s: Seq<char>) -> Seq<char> {
    s.filter(|c: char| c != ',')
}

/// The number in the `k`-th value cell of a row, if that cell holds one.
pub open spec fn field_text(cells: Seq<Seq<char>>, k: int) -> Option<Seq<char>> {
    if k + 1 < cells.len() && is_numeral(strip_commas(cells[k + 1])) {
        Some(strip_commas(cells[k + 1]))
    } else {
        None
    }
}

/// The `k`-th slot of a row: its number, or zero.
pub open spec fn slot_text(cells: Seq<Seq<char>>, k: int) -> Seq<char> {
    match field_text(cells, k) {
        Some(t) => t,
        None => seq!['0'],
    }
}

pub open spec fn any_field(cells: Seq<Seq<char>>) -> bool {
    exists|k: int| 0 <= k < ROW_FIELDS && field_text(cells, k) is Some
}

pub open spec fn bar_of(epoch: int, cells: Seq<Seq<char>>) -> BarView {
    BarView {
        date: Date::Timestamp(clamped_epoch(epoch)),
        open: slot_text(cells, 0),
        high: slot_text(cells, 1),
        low: slot_text(cells, 2),
        close: slot_text(cells, 3),
        adj_close: slot_text(cells, 4),
        volume: truncated(slot_text(cells, 5)),
    }
}

/// A row whose first cell was read as `date`.
pub open spec fn cells_kind(date: Result<int, DateError>, cells: Seq<Seq<char>>) -> RowKind {
    match date {
        Ok(e) => if e == 0 {
            RowKind::Rejected
        } else if any_field(cells) {
            RowKind::Emitted(bar_of(e, cells))
        } else {
            RowKind::Empty
        },
        Err(_) => RowKind::Rejected,
    }
}

pub open spec fn row_kind(cells: Seq<Seq<char>>) -> RowKind {
    if cells.len() == 0 {
        RowKind::Rejected
    } else {
        cells_kind(parsed_epoch(cells[0], COMPACT_FORMAT@), cells)
    }
}

/// The bars that a sequence of rows gives, in row order.
pub open spec fn emitted(rows: Seq<Seq<Seq<char>>>) -> Seq<BarView>
    decreases rows.len(),
{
    if rows.len() == 0 {
        Seq::empty()
    } else {
        let before = emitted(rows.drop_last());
        match row_kind(rows.last()) {
            RowKind::Emitted(b) => before.push(b),
            _ => before,
        }
    }
}

/// Relies on `str::replace`: every ',' removed, all else kept in order.
#[verifier::external_body]
fn without_commas(s: &str) -> (r: String)
    ensures
        r@ == strip_commas(s@),
{
    s.replace(",", "")
}

/// Classifies a row whose first cell was read as `date`.
pub fn classify_cells(date: Result<i64, DateError>, cells: &Vec<String>) -> (r: RowOutcome)
    ensures
        r.kind() == cells_kind(int_result(date), cells.deep_view()),
{
    let epoch = match date {
        Ok(e) => e,
        Err(_) => return RowOutcome::Rejected,
    };
    if epoch == 0 {
        return RowOutcome::Rejected;
    }
    let ghost view = cells.deep_view();
    let mut slots: Vec<Numeral> = Vec::new();
    let mut any = false;
    let mut k: usize = 0;
    while k < ROW_FIELDS
        invariant
            view == cells.deep_view(),
            k <= ROW_FIELDS,
            slots.len() == k,
            forall|j: int| 0 <= j < k ==> slots@[j].text@ == slot_text(view, j),
            any <==> exists|j: int| 0 <= j < k && field_text(view, j) is Some,
        decreases ROW_FIELDS - k,
    {
        let parsed = if k + 1 < cells.len() {
            Numeral::parse(without_commas(cells[k + 1].as_str()))
        } else {
            None
        };
        assert(parsed is Some <==> field_text(view, k as int) is Some);
        match parsed {
            Some(n) => {
                slots.push(n);
                any = true;
            },
            None => {
                slots.push(Numeral::zero());
            },
        }
        k = k + 1;
    }
    if !any {
        return RowOutcome::Empty;
    }
    let mut bar = OHLCV::default();
    bar.insert(RowBuffer { date: epoch, slots });
    RowOutcome::Emitted(bar)
}

/// Classifies one table row, given the text of its cells.
pub fn classify_row(cells: &Vec<String>) -> (r: RowOutcome)
    ensures
        r.kind() == row_kind(cells.deep_view()),
{
    if cells.len() == 0 {
        return RowOutcome::Rejected;
    }
    classify_cells(date_string_to_timestamp(cells[0].as_str()), cells)
}

/// The estimate for a span of `days` whole days.
pub open spec fn span_estimate(freq: Frequency, days: int) -> Option<u64> {
    match freq {
        Frequency::Daily => Some(if days < 0 { 0 } else { days as u64 }),
        Frequency::Weekly => Some(if days < 0 { 0 } else { (days / 7) as u64 }),
        Frequency::Monthly => None,
    }
}

/// The expected row count between two "YYYY-MM-DD" dates.
pub open spec fn capacity(freq: Frequency, start: Seq<char>, end: Seq<char>) -> Result<
    Option<u64>,
    DateError,
> {
    match parsed_date(start, ISO_FORMAT@) {
        Some(s) => match parsed_date(end, ISO_FORMAT@) {
            Some(e) => Ok(span_estimate(freq, day_number(e.0, e.1, e.2) - day_number(s.0, s.1, s.2))),
            None => Err(DateError::Parse),
        },
        None => Err(DateError::Parse),
    }
}

/// The estimate for a span of `days` whole days: days for a daily series,
/// whole weeks for a weekly one, none for a monthly one; never negative.
pub fn estimate_for_span(freq: Frequency, days: i64) -> (r: Option<u64>)
    ensures
        r == span_estimate(freq, days as int),
{
    match freq {
        Frequency::Daily => Some(if days < 0 { 0 } else { days as u64 }),
        Frequency::Weekly => Some(if days < 0 { 0 } else { (days / 7) as u64 }),
        Frequency::Monthly => None,
    }
}

/// Predicts how many rows a series between two "YYYY-MM-DD" dates holds.
pub fn get_array_size_for_frequency(freq: Frequency, start: &str, end: &str) -> (r: Result<
    Option<u64>,
    DateError,
>)
    ensures
        r == capacity(freq, start@, end@),
{
    let from = match parse_date(start, ISO_FORMAT) {
        Some(d) => d,
        None => return Err(DateError::Parse),
    };
    let to = match parse_date(end, ISO_FORMAT) {
        Some(d) => d,
        None => return Err(DateError::Parse),
    };
    Ok(estimate_for_span(freq, days_between(from, to)))
}

/// The rows of the first table body of an HTML document, each as the inner
/// HTML of its cells; none when the document has no table body.
pub uninterp spec fn table_body_cells(html: Seq<char>) -> Option<Seq<Seq<Seq<char>>>>;

pub open spec fn body_view(body: Option<Vec<Vec<String>>>) -> Option<Seq<Seq<Seq<char>>>> {
    match body {
        Some(rows) => Some(rows.deep_view()),
        None => None,
    }
}

/// Relies on scraper: `Html::parse_fragment`, then the first element that
/// `Selector` "tbody" picks, the "tr" elements within it and the "td"
/// elements within each, read with `ElementRef::inner_html`. The same text
/// always gives the same rows.
#[verifier::external_body]
fn first_table_body(html: &str) -> (r: Option<Vec<Vec<String>>>)
    ensures
        body_view(r) == table_body_cells(html@),
{
    let doc = scraper::Html::parse_fragment(html);
    let body = scraper::Selector::parse("tbody").ok()?;
    let row = scraper::Selector::parse("tr").ok()?;
    let cell = scraper::Selector::parse("td").ok()?;
    let tbody = doc.select(&body).next()?;
    Some(tbody.select(&row).map(|r| r.select(&cell).map(|c| c.inner_html()).collect()).collect())
}

/// What extraction gives for a table body, a frequency and a date range.
pub open spec fn extraction(
    body: Option<Seq<Seq<Seq<char>>>>,
    freq: Frequency,
    start: Seq<char>,
    end: Seq<char>,
) -> Result<Seq<BarView>, ExtractError> {
    match body {
        None => Err(ExtractError::MissingTable),
        Some(rows) => match capacity(freq, start, end) {
            Ok(_) => Ok(emitted(rows)),
            Err(_) => Err(ExtractError::DateParse),
        },
    }
}

pub open spec fn records_view(r: Result<Vec<OHLCV>, ExtractError>) -> Result<
    Seq<BarView>,
    ExtractError,
> {
    match r {
        Ok(bars) => Ok(bars@.map_values(|b: OHLCV| b@)),
        Err(e) => Err(e),
    }
}

/// Builds the price bars of a table body read from a document: one per data
/// row, in row order.
pub fn extract_records(
    body: &Option<Vec<Vec<String>>>,
    freq: Frequency,
    start: &str,
    end: &str,
) -> (r: Result<Vec<OHLCV>, ExtractError>)
    ensures
        records_view(r) == extraction(body_view(*body), freq, start@, end@),
{
    let rows = match body {
        Some(rows) => rows,
        None => return Err(ExtractError::MissingTable),
    };
    let estimate = match get_array_size_for_frequency(freq, start, end) {
        Ok(n) => n,
        Err(_) => return Err(ExtractError::DateParse),
    };
    // The estimate sizes the buffer; no more bars than rows can come out.
    let mut bars: Vec<OHLCV> = match estimate {
        Some(n) => Vec::with_capacity(if n > rows.len() as u64 { rows.len() } else { n as usize }),
        None => Vec::new(),
    };
    let ghost view = rows.deep_view();
    let mut i: usize = 0;
    while i < rows.len()
        invariant
            view == rows.deep_view(),
            i <= rows.len(),
            bars@.map_values(|b: OHLCV| b@) == emitted(view.take(i as int)),
        decreases rows.len() - i,
    {
        let outcome = classify_row(&rows[i]);
        assert(view.take(i + 1).drop_last() =~= view.take(i as int));
        assert(view.take(i + 1).last() == view[i as int]);
        match outcome {
            RowOutcome::Emitted(bar) => {
                bars.push(bar);
            },
            _ => {},
        }
        assert(bars@.map_values(|b: OHLCV| b@) =~= emitted(view.take(i + 1)));
        i = i + 1;
    }
    assert(view.take(rows.len() as int) =~= view);
    Ok(bars)
}

/// Extracts the price bars of the first table body of `html`, for the range
/// from `start` to `end` ("YYYY-MM-DD").
pub fn parse_html_until(html: &str, freq: Frequency, start: &str, end: &str) -> (r: Result<
    Vec<OHLCV>,
    ExtractError,
>)
    ensures
        records_view(r) == extraction(table_body_cells(html@), freq, start@, end@),
{
    let body = first_table_body(html);
    extract_records(&body, freq, start, end)
}

/// Extracts the price bars of the first table body of `html`; the range ends
/// at `end`, or at today's local date when none is given.
pub fn parse_html(html: String, freq: Frequency, start: &str, end: Option<&str>) -> (r: Result<
    Vec<OHLCV>,
    ExtractError,
>)
    ensures
        end matches Some(e) ==> records_view(r) == extraction(
            table_body_cells(html@),
            freq,
            start@,
            e@,
        ),
        end is None ==> exists|today: Seq<char>|
            records_view(r) == extraction(table_body_cells(html@), freq, start@, today),
{
    match end {
        Some(e) => parse_html_until(html.as_str(), freq, start, e),
        None => {
            let today = local_today();
            parse_html_until(html.as_str(), freq, start, today.as_str())
        },
    }
}

/// Rows are taken in document order and nothing is sorted: the rows of
/// `front` followed by those of `back` give the bars of `front` followed by
/// the bars of `back`.
pub proof fn lemma_row_order_kept(front: Seq<Seq<Seq<char>>>, back: Seq<Seq<Seq<char>>>)
    ensures
        emitted(front + back) == emitted(front) + emitted(back),
    decreases back.len(),
{
    if back.len() == 0 {
        assert(front + back =~= front);
        assert(emitted(front) + emitted(back) =~= emitted(front));
    } else {
        lemma_row_order_kept(front, back.drop_last());
        assert((front + back).drop_last() =~= front + back.drop_last());
        assert((front + back).last() == back.last());
        let earlier = emitted(front);
        let later = emitted(back.drop_last());
        match row_kind(back.last()) {
            RowKind::Emitted(b) => {
                assert((earlier + later).push(b) =~= earlier + later.push(b));
            },
            _ => {},
        }
    }
}

/// A single row gives its own bar when it is a data row, and nothing
/// otherwise.
pub proof fn lemma_single_row(row: Seq<Seq<char>>)
    ensures
        emitted(seq![row]) == match row_kind(row) {
            RowKind::Emitted(b) => seq![b],
            _ => Seq::<BarView>::empty(),
        },
{
    assert(seq![row].drop_last() =~= Seq::<Seq<Seq<char>>>::empty());
    assert(seq![row].last() == row);
    assert(emitted(Seq::<Seq<Seq<char>>>::empty()) == Seq::<BarView>::empty());
    match row_kind(row) {
        RowKind::Emitted(b) => {
            assert(Seq::<BarView>::empty().push(b) =~= seq![b]);
        },
        _ => {},
    }
}

/// Extraction is a function of its inputs: two runs on the same document,
/// frequency and range give the same bars, or the same error.
pub proof fn lemma_extraction_repeatable(
    html: Seq<char>,
    freq: Frequency,
    start: Seq<char>,
    end: Seq<char>,
    first: Result<Seq<BarView>, ExtractError>,
    second: Result<Seq<BarView>, ExtractError>,
)
    requires
        first == extraction(table_body_cells(html), freq, start, end),
        second == extraction(table_body_cells(html), freq, start, end),
    ensures
        first == second,
{
}

proof fn lemma_no_data_rows(rows: Seq<Seq<Seq<char>>>)
    requires
        forall|i: int| 0 <= i < rows.len() ==> !(row_kind(rows[i]) is Emitted),
    ensures
        emitted(rows) == Seq::<BarView>::empty(),
    decreases rows.len(),
{
    if rows.len() > 0 {
        assert(rows.last() == rows[rows.len() - 1]);
        lemma_no_data_rows(rows.drop_last());
    }
}

/// A table body with no data rows gives an empty sequence and no error; a
/// document without a table body gives `MissingTable`.
pub proof fn lemma_empty_body(
    rows: Seq<Seq<Seq<char>>>,
    freq: Frequency,
    start: Seq<char>,
    end: Seq<char>,
)
    requires
        capacity(freq, start, end) is Ok,
        forall|i: int| 0 <= i < rows.len() ==> !(row_kind(rows[i]) is Emitted),
    ensures
        extraction(Some(rows), freq, start, end) == Ok::<Seq<BarView>, ExtractError>(Seq::empty()),
        extraction(None, freq, start, end) == Err::<Seq<BarView>, ExtractError>(
            ExtractError::MissingTable,
        ),
{
    lemma_no_data_rows(rows);
}

impl Frequency {
    pub open spec fn word_spec(self) -> Seq<char> {
        match self {
            Frequency::Daily => seq!['d', 'a', 'i', 'l', 'y'],
            Frequency::Weekly => seq!['w', 'e', 'e', 'k', 'l', 'y'],
            Frequency::Monthly => seq!['m', 'o', 'n', 't', 'h', 'l', 'y'],
        }
    }

    pub open spec fn wire_code_spec(self) -> Seq<char> {
        match self {
            Frequency::Daily => seq!['1', 'd'],
            Frequency::Weekly => seq!['1', 'w', 'k'],
            Frequency::Monthly => seq!['1', 'm', 'o'],
        }
    }

    /// "daily", "weekly" or "monthly".
    pub fn word(&self) -> (r: &'static str)
        ensures
            r@ == self.word_spec(),
    {
        proof {
            reveal_strlit("daily");
            reveal_strlit("weekly");
            reveal_strlit("monthly");
        }
        let r = match self {
            Frequency::Daily => "daily",
            Frequency::Weekly => "weekly",
            Frequency::Monthly => "monthly",
        };
        assert(r@ =~= self.word_spec());
        r
    }

    /// The sampling code that the data source takes: "1d", "1wk" or "1mo".
    pub fn wire_code(&self) -> (r: &'static str)
        ensures
            r@ == self.wire_code_spec(),
    {
        proof {
            reveal_strlit("1d");
            reveal_strlit("1wk");
            reveal_strlit("1mo");
        }
        let r = match self {
            Frequency::Daily => "1d",
            Frequency::Weekly => "1wk",
            Frequency::Monthly => "1mo",
        };
        assert(r@ =~= self.wire_code_spec());
        r
    }
}

impl FileFormat {
    pub open spec fn extension_spec(self) -> Seq<char> {
        match self {
            FileFormat::CSV => seq!['c', 's', 'v'],
            FileFormat::JSON => seq!['j', 's', 'o', 'n'],
        }
    }

    /// "csv" or "json".
    pub fn extension(&self) -> (r: &'static str)
        ensures
            r@ == self.extension_spec(),
    {
        proof {
            reveal_strlit("csv");
            reveal_strlit("json");
        }
        let r = match self {
            FileFormat::CSV => "csv",
            FileFormat::JSON => "json",
        };
        assert(r@ =~= self.extension_spec());
        r
    }
}

} // verus!

//! Time series related operations.
//!
//! A time-series response holds a metadata block and a table of per-period
//! records keyed by date. Which metadata key names the zone, and under which key
//! the table stands, depend on the query variant ([`Function`]); adjusted
//! variants carry three more fields per record.
use crate::datetime::{
    instant_lt, is_before, is_time_zone, resolve, resolve_outcome, zone_known, Timestamp,
};
use crate::error::{parsing_error, result_view, Error, ErrorView};
use crate::json::{
    as_text, decode, envelope, envelope_error, is_object, json_decode, json_keys, json_member,
    json_str, keys, member, member_str, member_text, same_text,
};
use crate::numeric::{is_float_literal, is_float_text, parse_u64, unsigned_value};
use vstd::prelude::*;

verus! {

/// How much of a series to ask for.
#[derive(Debug, Clone, Copy, PartialEq, Eq, Structural)]
pub enum OutputSize {
    /// The latest 100 points.
    Compact,
    /// The whole series.
    Full,
}

impl OutputSize {
    pub open spec fn text(self) -> Seq<char> {
        match self {
            OutputSize::Compact => "compact"@,
            OutputSize::Full => "full"@,
        }
    }

    /// The value of the `outputsize` query parameter.
    pub fn to_string(&self) -> (r: &'static str)
        ensures
            r@ == self.text(),
    {
        match self {
            OutputSize::Compact => "compact",
            OutputSize::Full => "full",
        }
    }
}

/// Represents the interval for an intraday time series.
#[derive(Debug, Clone, Copy, PartialEq, Eq, Structural)]
pub enum IntradayInterval {
    /// 1 minute.
    OneMinute,
    /// 5 minutes.
    FiveMinutes,
    /// 15 minutes.
    FifteenMinutes,
    /// 30 minutes.
    ThirtyMinutes,
    /// 60 minutes.
    SixtyMinutes,
}

impl IntradayInterval {
    pub open spec fn text(self) -> Seq<char> {
        match self {
            IntradayInterval::OneMinute => "1min"@,
            IntradayInterval::FiveMinutes => "5min"@,
            IntradayInterval::FifteenMinutes => "15min"@,
            IntradayInterval::ThirtyMinutes => "30min"@,
            IntradayInterval::SixtyMinutes => "60min"@,
        }
    }

    /// The interval as the API writes it.
    pub fn to_string(self) -> (r: &'static str)
        ensures
            r@ == self.text(),
    {
        match self {
            IntradayInterval::OneMinute => "1min",
            IntradayInterval::FiveMinutes => "5min",
            IntradayInterval::FifteenMinutes => "15min",
            IntradayInterval::ThirtyMinutes => "30min",
            IntradayInterval::SixtyMinutes => "60min",
        }
    }
}

/// The query variants of the time-series operations.
#[derive(Debug, Clone, Copy, PartialEq, Eq, Structural)]
pub enum Function {
    IntraDay(IntradayInterval),
    Daily,
    Weekly,
    Monthly,
    DailyAdjusted,
    WeeklyAdjusted,
    MonthlyAdjusted,
}

impl Function {
    pub open spec fn adjusted(self) -> bool {
        match self {
            Function::DailyAdjusted | Function::WeeklyAdjusted | Function::MonthlyAdjusted => true,
            _ => false,
        }
    }

    pub open spec fn name_text(self) -> Seq<char> {
        match self {
            Function::IntraDay(_) => "TIME_SERIES_INTRADAY"@,
            Function::Daily => "TIME_SERIES_DAILY"@,
            Function::Weekly => "TIME_SERIES_WEEKLY"@,
            Function::Monthly => "TIME_SERIES_MONTHLY"@,
            Function::DailyAdjusted => "TIME_SERIES_DAILY_ADJUSTED"@,
            Function::WeeklyAdjusted => "TIME_SERIES_WEEKLY_ADJUSTED"@,
            Function::MonthlyAdjusted => "TIME_SERIES_MONTHLY_ADJUSTED"@,
        }
    }

    /// The metadata key of the zone: the number of lines before it differs by
    /// variant.
    pub open spec fn zone_key(self) -> Seq<char> {
        match self {
            Function::IntraDay(_) => "6. Time Zone"@,
            Function::Daily | Function::DailyAdjusted => "5. Time Zone"@,
            _ => "4. Time Zone"@,
        }
    }

    /// The key of the data table.
    pub open spec fn table_key(self) -> Seq<char> {
        match self {
            Function::IntraDay(i) => "Time Series ("@ + i.text() + ")"@,
            Function::Daily | Function::DailyAdjusted => "Time Series (Daily)"@,
            Function::Weekly => "Weekly Time Series"@,
            Function::Monthly => "Monthly Time Series"@,
            Function::WeeklyAdjusted => "Weekly Adjusted Time Series"@,
            Function::MonthlyAdjusted => "Monthly Adjusted Time Series"@,
        }
    }

    /// Whether records of this variant carry the adjustment fields.
    pub fn is_adjusted(&self) -> (r: bool)
        ensures
            r == self.adjusted(),
    {
        match self {
            Function::DailyAdjusted | Function::WeeklyAdjusted | Function::MonthlyAdjusted => true,
            _ => false,
        }
    }

    /// The value of the `function` query parameter.
    pub fn name(&self) -> (r: &'static str)
        ensures
            r@ == self.name_text(),
    {
        match self {
            Function::IntraDay(_) => "TIME_SERIES_INTRADAY",
            Function::Daily => "TIME_SERIES_DAILY",
            Function::Weekly => "TIME_SERIES_WEEKLY",
            Function::Monthly => "TIME_SERIES_MONTHLY",
            Function::DailyAdjusted => "TIME_SERIES_DAILY_ADJUSTED",
            Function::WeeklyAdjusted => "TIME_SERIES_WEEKLY_ADJUSTED",
            Function::MonthlyAdjusted => "TIME_SERIES_MONTHLY_ADJUSTED",
        }
    }

    /// The metadata key under which the zone stands.
    pub fn time_zone_key(&self) -> (r: &'static str)
        ensures
            r@ == self.zone_key(),
    {
        match self {
            Function::IntraDay(_) => "6. Time Zone",
            Function::Daily | Function::DailyAdjusted => "5. Time Zone",
            Function::Weekly
            | Function::Monthly
            | Function::WeeklyAdjusted
            | Function::MonthlyAdjusted => "4. Time Zone",
        }
    }

    /// The key under which the data table stands.
    pub fn time_series_key(&self) -> (r: String)
        ensures
            r@ == self.table_key(),
    {
        match self {
            Function::IntraDay(i) => String::from_str("Time Series (").concat(i.to_string()).concat(
                ")",
            ),
            Function::Daily | Function::DailyAdjusted => String::from_str("Time Series (Daily)"),
            Function::Weekly => String::from_str("Weekly Time Series"),
            Function::Monthly => String::from_str("Monthly Time Series"),
            Function::WeeklyAdjusted => String::from_str("Weekly Adjusted Time Series"),
            Function::MonthlyAdjusted => String::from_str("Monthly Adjusted Time Series"),
        }
    }
}

/// Represents a set of values for an equity for a given period in the time series.
///
/// Prices are the decimal text of the response, which `f64::from_str` accepts.
#[derive(Debug, PartialEq, Clone)]
pub struct Entry {
    /// Date.
    pub date: Timestamp,
    /// Open value.
    pub open: String,
    /// High value.
    pub high: String,
    /// Low value.
    pub low: String,
    /// Close value.
    pub close: String,
    /// Trading volume.
    pub volume: u64,
    /// Adjusted close value.
    pub adjusted_close: Option<String>,
    /// Dividend amount.
    pub dividend_amount: Option<String>,
    /// Split coefficient.
    pub split_coefficient: Option<String>,
}

pub struct EntryView {
    pub date: Timestamp,
    pub open: Seq<char>,
    pub high: Seq<char>,
    pub low: Seq<char>,
    pub close: Seq<char>,
    pub volume: u64,
    pub adjusted_close: Option<Seq<char>>,
    pub dividend_amount: Option<Seq<char>>,
    pub split_coefficient: Option<Seq<char>>,
}

pub open spec fn text_option(o: Option<String>) -> Option<Seq<char>> {
    match o {
        Some(s) => Some(s@),
        None => None,
    }
}

impl View for Entry {
    type V = EntryView;

    open spec fn view(&self) -> EntryView {
        EntryView {
            date: self.date,
            open: self.open@,
            high: self.high@,
            low: self.low@,
            close: self.close@,
            volume: self.volume,
            adjusted_close: text_option(self.adjusted_close),
            dividend_amount: text_option(self.dividend_amount),
            split_coefficient: text_option(self.split_coefficient),
        }
    }
}

/// Represents a time series for a given symbol.
#[derive(Debug, Clone)]
pub struct TimeSeries {
    /// Symbol the time series refers to.
    pub symbol: String,
    /// Date the information was last refreshed at.
    pub last_refreshed: Timestamp,
    /// Entries in the time series, sorted by ascending dates.
    pub entries: Vec<Entry>,
}

pub struct TimeSeriesView {
    pub symbol: Seq<char>,
    pub last_refreshed: Timestamp,
    pub entries: Seq<EntryView>,
}

pub open spec fn entries_view(v: Seq<Entry>) -> Seq<EntryView> {
    v.map_values(|e: Entry| e@)
}

impl View for TimeSeries {
    type V = TimeSeriesView;

    open spec fn view(&self) -> TimeSeriesView {
        TimeSeriesView {
            symbol: self.symbol@,
            last_refreshed: self.last_refreshed,
            entries: entries_view(self.entries@),
        }
    }
}

/// The metadata block of a time-series response, read.
#[derive(Debug, Clone)]
pub struct TimeSeriesHelper {
    pub symbol: String,
    /// Name of the zone in which the response's dates are local.
    pub time_zone: String,
    pub last_refreshed: Timestamp,
}

/// A price field: a string member that `f64::from_str` accepts.
pub open spec fn price_of(record: serde_json::Value, key: Seq<char>) -> Option<Seq<char>> {
    match member_text(record, key) {
        Some(t) => if is_float_literal(t) {
            Some(t)
        } else {
            None
        },
        None => None,
    }
}

/// A volume field: a string member that `u64::from_str` accepts.
pub open spec fn volume_of(record: serde_json::Value, key: Seq<char>) -> Option<u64> {
    match member_text(record, key) {
        Some(t) => unsigned_value(t),
        None => None,
    }
}

/// The split coefficient of an adjusted record, `1.0` where the record has none.
pub open spec fn split_of(record: serde_json::Value) -> Option<Seq<char>> {
    match json_member(record, "8. split coefficient"@) {
        None => Some("1.0"@),
        Some(m) => match json_str(m) {
            Some(t) => if is_float_literal(t) {
                Some(t)
            } else {
                None
            },
            None => None,
        },
    }
}

/// The record has every field that its variant needs, each readable.
pub open spec fn record_ok(f: Function, record: serde_json::Value) -> bool {
    &&& price_of(record, "1. open"@) is Some
    &&& price_of(record, "2. high"@) is Some
    &&& price_of(record, "3. low"@) is Some
    &&& price_of(record, "4. close"@) is Some
    &&& if f.adjusted() {
        &&& price_of(record, "5. adjusted close"@) is Some
        &&& volume_of(record, "6. volume"@) is Some
        &&& price_of(record, "7. dividend amount"@) is Some
        &&& split_of(record) is Some
    } else {
        volume_of(record, "5. volume"@) is Some
    }
}

/// The entry that a readable record makes at `date`.
pub open spec fn record_entry(f: Function, record: serde_json::Value, date: Timestamp) -> EntryView {
    EntryView {
        date,
        open: price_of(record, "1. open"@)->Some_0,
        high: price_of(record, "2. high"@)->Some_0,
        low: price_of(record, "3. low"@)->Some_0,
        close: price_of(record, "4. close"@)->Some_0,
        volume: if f.adjusted() {
            volume_of(record, "6. volume"@)->Some_0
        } else {
            volume_of(record, "5. volume"@)->Some_0
        },
        adjusted_close: if f.adjusted() {
            price_of(record, "5. adjusted close"@)
        } else {
            None
        },
        dividend_amount: if f.adjusted() {
            price_of(record, "7. dividend amount"@)
        } else {
            None
        },
        split_coefficient: if f.adjusted() {
            split_of(record)
        } else {
            None
        },
    }
}

pub open spec fn bad_entry() -> ErrorView {
    ErrorView::Parsing("error parsing entry"@)
}

/// How the record under `key` reads: its fields, then its date in `zone`.
pub open spec fn entry_outcome(
    f: Function,
    zone: Seq<char>,
    key: Seq<char>,
    record: Option<serde_json::Value>,
) -> Result<EntryView, ErrorView> {
    match record {
        None => Err(bad_entry()),
        Some(rec) => if !record_ok(f, rec) {
            Err(bad_entry())
        } else {
            match resolve_outcome(key, zone) {
                Err(e) => Err(e),
                Ok(t) => Ok(record_entry(f, rec, t)),
            }
        },
    }
}

/// The entries of the records under `keys`, in the order of the keys; the first
/// record that does not read stops the reading.
pub open spec fn entries_outcome(
    f: Function,
    zone: Seq<char>,
    table: serde_json::Value,
    keys: Seq<Seq<char>>,
) -> Result<Seq<EntryView>, ErrorView>
    decreases keys.len(),
{
    if keys.len() == 0 {
        Ok(Seq::empty())
    } else {
        match entries_outcome(f, zone, table, keys.drop_last()) {
            Err(e) => Err(e),
            Ok(s) => match entry_outcome(f, zone, keys.last(), json_member(table, keys.last())) {
                Err(e) => Err(e),
                Ok(x) => Ok(s.push(x)),
            },
        }
    }
}

/// Where `x` goes in `s`: after every entry that is not later than it.
pub open spec fn insert_index(s: Seq<EntryView>, x: EntryView) -> nat
    decreases s.len(),
{
    if s.len() == 0 {
        0
    } else if instant_lt(x.date, s.last().date) {
        insert_index(s.drop_last(), x)
    } else {
        s.len()
    }
}

pub open spec fn insert_by_time(s: Seq<EntryView>, x: EntryView) -> Seq<EntryView> {
    s.insert(insert_index(s, x) as int, x)
}

/// `s` sorted by date, entries of one instant in the order of `s`.
pub open spec fn sort_by_time(s: Seq<EntryView>) -> Seq<EntryView>
    decreases s.len(),
{
    if s.len() == 0 {
        s
    } else {
        insert_by_time(sort_by_time(s.drop_last()), s.last())
    }
}

/// Each member of the document besides the error and the metadata is a table;
/// a document with no such member has them all.
pub open spec fn tables_present(doc: serde_json::Value) -> bool {
    match json_keys(doc) {
        None => false,
        Some(ks) => forall|i: int|
            0 <= i < ks.len() && !is_reserved(#[trigger] ks[i]) ==> is_table(json_member(doc, ks[i])),
    }
}

pub open spec fn is_reserved(k: Seq<char>) -> bool {
    k == "Error Message"@ || k == "Meta Data"@
}

pub open spec fn is_table(v: Option<serde_json::Value>) -> bool {
    match v {
        Some(t) => json_keys(t) is Some,
        None => false,
    }
}

pub open spec fn missing(what: Seq<char>) -> ErrorView {
    ErrorView::Parsing(what)
}

/// The metadata of a time-series document: its symbol, the name of its zone and
/// when it was last refreshed.
pub open spec fn metadata_outcome(f: Function, doc: serde_json::Value) -> Result<
    (Seq<char>, Seq<char>, Timestamp),
    ErrorView,
> {
    match json_member(doc, "Meta Data"@) {
        None => Err(missing("missing metadata"@)),
        Some(meta) => match member_text(meta, "2. Symbol"@) {
            None => Err(missing("missing symbol"@)),
            Some(symbol) => match member_text(meta, f.zone_key()) {
                None => Err(missing("missing time zone"@)),
                Some(zone) => if !zone_known(zone) {
                    Err(missing("error parsing time zone"@))
                } else {
                    match member_text(meta, "3. Last Refreshed"@) {
                        None => Err(missing("missing last refreshed"@)),
                        Some(text) => match resolve_outcome(text, zone) {
                            Err(e) => Err(e),
                            Ok(t) => Ok((symbol, zone, t)),
                        },
                    }
                },
            },
        },
    }
}

/// The keys of the requested table, where the document has it.
pub open spec fn table_keys(f: Function, doc: serde_json::Value) -> Option<Seq<Seq<char>>> {
    match json_member(doc, f.table_key()) {
        Some(table) => json_keys(table),
        None => None,
    }
}

/// The time series that a decoded document describes for the variant `f`.
pub open spec fn time_series_outcome(f: Function, doc: serde_json::Value) -> Result<
    TimeSeriesView,
    ErrorView,
> {
    match envelope_error(doc) {
        Some(m) => Err(ErrorView::Api(m)),
        None => match metadata_outcome(f, doc) {
            Err(e) => Err(e),
            Ok((symbol, zone, last)) => match table_keys(f, doc) {
                None => if tables_present(doc) {
                    Err(missing("missing requested time series"@))
                } else {
                    Err(missing("missing time series"@))
                },
                Some(keys) => match entries_outcome(
                    f,
                    zone,
                    json_member(doc, f.table_key())->Some_0,
                    keys,
                ) {
                    Err(e) => Err(e),
                    Ok(s) => Ok(
                        TimeSeriesView { symbol, last_refreshed: last, entries: sort_by_time(s) },
                    ),
                },
            },
        },
    }
}

/// The time series that a response body describes for the variant `f`.
pub open spec fn parse_outcome(f: Function, bytes: Seq<u8>) -> Result<TimeSeriesView, ErrorView> {
    match json_decode(bytes) {
        Err(m) => Err(ErrorView::Parsing(m)),
        Ok(doc) => time_series_outcome(f, doc),
    }
}


/// A price field of a record.
fn price(record: &serde_json::Value, key: &str) -> (r: Option<String>)
    ensures
        r is Some <==> price_of(*record, key@) is Some,
        r matches Some(s) ==> price_of(*record, key@) == Some(s@),
{
    match member_str(record, key) {
        Some(t) => if is_float_text(t) {
            Some(String::from_str(t))
        } else {
            None
        },
        None => None,
    }
}

/// A volume field of a record.
fn volume(record: &serde_json::Value, key: &str) -> (r: Option<u64>)
    ensures
        r == volume_of(*record, key@),
{
    match member_str(record, key) {
        Some(t) => parse_u64(t),
        None => None,
    }
}

/// The split coefficient of an adjusted record.
fn split(record: &serde_json::Value) -> (r: Option<String>)
    ensures
        r is Some <==> split_of(*record) is Some,
        r matches Some(s) ==> split_of(*record) == Some(s@),
{
    match member(record, "8. split coefficient") {
        None => Some(String::from_str("1.0")),
        Some(m) => match as_text(m) {
            Some(t) => if is_float_text(t) {
                Some(String::from_str(t))
            } else {
                None
            },
            None => None,
        },
    }
}

/// Reads the record under `key` as an entry of the variant `f`.
pub fn read_entry(f: &Function, zone: &str, key: &str, record: &serde_json::Value) -> (r: Result<
    Entry,
    Error,
>)
    requires
        zone_known(zone@),
    ensures
        result_view(r) == entry_outcome(*f, zone@, key@, Some(*record)),
{
    let open = price(record, "1. open");
    let high = price(record, "2. high");
    let low = price(record, "3. low");
    let close = price(record, "4. close");
    if open.is_none() || high.is_none() || low.is_none() || close.is_none() {
        return Err(parsing_error("error parsing entry"));
    }
    let (volume, adjusted_close, dividend_amount, split_coefficient) = if f.is_adjusted() {
        let adjusted_close = price(record, "5. adjusted close");
        let volume = volume(record, "6. volume");
        let dividend_amount = price(record, "7. dividend amount");
        let split_coefficient = split(record);
        if adjusted_close.is_none() || volume.is_none() || dividend_amount.is_none()
            || split_coefficient.is_none() {
            return Err(parsing_error("error parsing entry"));
        }
        (volume.unwrap(), adjusted_close, dividend_amount, split_coefficient)
    } else {
        match volume(record, "5. volume") {
            Some(v) => (v, None, None, None),
            None => return Err(parsing_error("error parsing entry")),
        }
    };
    let date = match resolve(key, zone) {
        Ok(t) => t,
        Err(e) => return Err(e),
    };
    Ok(
        Entry {
            date,
            open: open.unwrap(),
            high: high.unwrap(),
            low: low.unwrap(),
            close: close.unwrap(),
            volume,
            adjusted_close,
            dividend_amount,
            split_coefficient,
        },
    )
}

/// Inserts `x` into entries sorted by date, after those not later than it.
pub fn insert_sorted(v: &mut Vec<Entry>, x: Entry)
    ensures
        entries_view(final(v)@) == insert_by_time(entries_view(old(v)@), x@),
{
    let ghost s = entries_view(v@);
    let mut j = v.len();
    assert(s.take(s.len() as int) == s);
    while j > 0 && is_before(&x.date, &v[j - 1].date)
        invariant
            j <= v.len(),
            s == entries_view(v@),
            insert_index(s.take(j as int), x@) == insert_index(s, x@),
        decreases j,
    {
        proof {
            assert(s.take(j as int).drop_last() == s.take(j - 1));
        }
        j = j - 1;
    }
    proof {
        if j == 0 {
            assert(s.take(0).len() == 0);
        } else {
            assert(s.take(j as int).last() == s[j - 1]);
        }
    }
    v.insert(j, x);
    assert(entries_view(v@) =~= s.insert(j as int, x@));
}

proof fn lemma_prefix_error(
    f: Function,
    zone: Seq<char>,
    table: serde_json::Value,
    ks: Seq<Seq<char>>,
    n: int,
)
    requires
        0 <= n <= ks.len(),
        entries_outcome(f, zone, table, ks.take(n)) is Err,
    ensures
        entries_outcome(f, zone, table, ks) == entries_outcome(f, zone, table, ks.take(n)),
    decreases ks.len(),
{
    if ks.len() == n {
        assert(ks.take(n) == ks);
    } else {
        assert(ks.drop_last().take(n) == ks.take(n));
        lemma_prefix_error(f, zone, table, ks.drop_last(), n);
    }
}

/// Reads the records of a table under `keys`, and sorts them by date.
fn read_entries(f: &Function, zone: &str, table: &serde_json::Value, keys: &Vec<String>) -> (r:
    Result<Vec<Entry>, Error>)
    requires
        zone_known(zone@),
    ensures
        match entries_outcome(*f, zone@, *table, keys@.map_values(|k: String| k@)) {
            Ok(s) => r is Ok && entries_view(r->Ok_0@) == sort_by_time(s),
            Err(e) => r is Err && r->Err_0@ == e,
        },
{
    let ghost ks = keys@.map_values(|k: String| k@);
    let mut out: Vec<Entry> = Vec::new();
    let mut i: usize = 0;
    assert(ks.take(0).len() == 0);
    while i < keys.len()
        invariant
            i <= keys.len(),
            zone_known(zone@),
            ks == keys@.map_values(|k: String| k@),
            entries_outcome(*f, zone@, *table, ks.take(i as int)) is Ok,
            entries_view(out@) == sort_by_time(
                entries_outcome(*f, zone@, *table, ks.take(i as int))->Ok_0,
            ),
        decreases keys.len() - i,
    {
        let key = keys[i].as_str();
        proof {
            assert(ks.take(i + 1).drop_last() == ks.take(i as int));
            assert(ks.take(i + 1).last() == key@);
        }
        let entry = match member(table, key) {
            None => {
                proof {
                    lemma_prefix_error(*f, zone@, *table, ks, i + 1);
                }
                return Err(parsing_error("error parsing entry"));
            },
            Some(rec) => match read_entry(f, zone, key, rec) {
                Ok(e) => e,
                Err(e) => {
                    proof {
                        lemma_prefix_error(*f, zone@, *table, ks, i + 1);
                    }
                    return Err(e);
                },
            },
        };
        let ghost before = entries_outcome(*f, zone@, *table, ks.take(i as int))->Ok_0;
        insert_sorted(&mut out, entry);
        proof {
            assert(before.push(entry@).drop_last() == before);
        }
        i = i + 1;
    }
    assert(ks.take(keys.len() as int) == ks);
    Ok(out)
}

/// Whether each member of the document besides the error and the metadata is a
/// table.
fn has_tables(doc: &serde_json::Value) -> (r: bool)
    ensures
        r == tables_present(*doc),
{
    match keys(doc) {
        None => false,
        Some(ks) => {
            let ghost kv = ks@.map_values(|k: String| k@);
            let mut i: usize = 0;
            while i < ks.len()
                invariant
                    i <= ks.len(),
                    kv == ks@.map_values(|k: String| k@),
                    json_keys(*doc) == Some(kv),
                    forall|k: int|
                        0 <= k < i && !is_reserved(#[trigger] kv[k]) ==> is_table(
                            json_member(*doc, kv[k]),
                        ),
                decreases ks.len() - i,
            {
                let k = ks[i].as_str();
                assert(kv[i as int] == k@);
                if !same_text(k, "Error Message") && !same_text(k, "Meta Data") {
                    match member(doc, k) {
                        None => return false,
                        Some(t) => if !is_object(t) {
                            return false;
                        },
                    }
                }
                i = i + 1;
            }
            true
        },
    }
}

/// Reads the metadata block of a time-series document.
pub fn read_metadata(f: &Function, doc: &serde_json::Value) -> (r: Result<TimeSeriesHelper, Error>)
    ensures
        match metadata_outcome(*f, *doc) {
            Ok((symbol, zone, last)) => r is Ok && r->Ok_0.symbol@ == symbol && r->Ok_0.time_zone@
                == zone && r->Ok_0.last_refreshed == last,
            Err(e) => r is Err && r->Err_0@ == e,
        },
{
    let meta = match member(doc, "Meta Data") {
        Some(m) => m,
        None => return Err(parsing_error("missing metadata")),
    };
    let symbol = match member_str(meta, "2. Symbol") {
        Some(s) => s,
        None => return Err(parsing_error("missing symbol")),
    };
    let zone = match member_str(meta, f.time_zone_key()) {
        Some(z) => z,
        None => return Err(parsing_error("missing time zone")),
    };
    if !is_time_zone(zone) {
        return Err(parsing_error("error parsing time zone"));
    }
    let text = match member_str(meta, "3. Last Refreshed") {
        Some(t) => t,
        None => return Err(parsing_error("missing last refreshed")),
    };
    let last_refreshed = match resolve(text, zone) {
        Ok(t) => t,
        Err(e) => return Err(e),
    };
    Ok(
        TimeSeriesHelper {
            symbol: String::from_str(symbol),
            time_zone: String::from_str(zone),
            last_refreshed,
        },
    )
}

/// Interprets a decoded time-series document for the variant `function`.
pub fn parse_document(function: &Function, doc: &serde_json::Value) -> (r: Result<
    TimeSeries,
    Error,
>)
    ensures
        result_view(r) == time_series_outcome(*function, *doc),
{
    if let Some(m) = envelope(doc) {
        return Err(Error::APIError(m));
    }
    let meta = match read_metadata(function, doc) {
        Ok(m) => m,
        Err(e) => return Err(e),
    };
    let key = function.time_series_key();
    let found = match member(doc, key.as_str()) {
        Some(t) => match keys(t) {
            Some(k) => Some((t, k)),
            None => None,
        },
        None => None,
    };
    let (table, names) = match found {
        Some(found) => found,
        None => {
            if has_tables(doc) {
                return Err(parsing_error("missing requested time series"));
            } else {
                return Err(parsing_error("missing time series"));
            }
        },
    };
    let entries = match read_entries(function, meta.time_zone.as_str(), table, &names) {
        Ok(v) => v,
        Err(e) => return Err(e),
    };
    Ok(TimeSeries { symbol: meta.symbol, last_refreshed: meta.last_refreshed, entries })
}

/// Parses a time-series response body for the variant `function`.
pub fn parse(function: &Function, data: &[u8]) -> (r: Result<TimeSeries, Error>)
    ensures
        result_view(r) == parse_outcome(*function, data@),
{
    match decode(data) {
        Ok(doc) => parse_document(function, &doc),
        Err(m) => Err(Error::ParsingError(m)),
    }
}


/// No entry is dated before an earlier one.
pub open spec fn sorted_by_date(s: Seq<EntryView>) -> bool {
    forall|i: int, j: int| 0 <= i < j < s.len() ==> !instant_lt(#[trigger] s[j].date, #[trigger] s[i].date)
}

/// Each entry is dated after the one before it.
pub open spec fn strictly_ascending(s: Seq<EntryView>) -> bool {
    forall|i: int, j: int| 0 <= i < j < s.len() ==> instant_lt(#[trigger] s[i].date, #[trigger] s[j].date)
}

pub open spec fn same_instant(a: Timestamp, b: Timestamp) -> bool {
    a.seconds == b.seconds && a.nanosecond == b.nanosecond
}

/// No two entries are dated at the same instant.
pub open spec fn distinct_instants(s: Seq<EntryView>) -> bool {
    forall|i: int, j: int| 0 <= i < j < s.len() ==> !same_instant(#[trigger] s[i].date, #[trigger] s[j].date)
}

/// The adjustment fields are all there for an adjusted variant, and all absent
/// for another.
pub open spec fn has_variant_fields(f: Function, e: EntryView) -> bool {
    if f.adjusted() {
        e.adjusted_close is Some && e.dividend_amount is Some && e.split_coefficient is Some
    } else {
        e.adjusted_close is None && e.dividend_amount is None && e.split_coefficient is None
    }
}

/// The keys of the requested table name distinct instants in the document's zone.
pub open spec fn keys_name_distinct_instants(f: Function, doc: serde_json::Value) -> bool {
    let keys = table_keys(f, doc)->Some_0;
    let zone = metadata_outcome(f, doc)->Ok_0.1;
    forall|i: int, j: int|
        0 <= i < j < keys.len() ==> !same_instant(
            #[trigger] resolve_outcome(keys[i], zone)->Ok_0,
            #[trigger] resolve_outcome(keys[j], zone)->Ok_0,
        )
}

proof fn lemma_insert_index(s: Seq<EntryView>, x: EntryView)
    ensures
        insert_index(s, x) <= s.len(),
        forall|k: int| insert_index(s, x) <= k < s.len() ==> instant_lt(x.date, #[trigger] s[k].date),
        insert_index(s, x) > 0 ==> !instant_lt(x.date, s[insert_index(s, x) - 1].date),
    decreases s.len(),
{
    if s.len() > 0 && instant_lt(x.date, s.last().date) {
        let d = s.drop_last();
        lemma_insert_index(d, x);
        assert forall|k: int| insert_index(s, x) <= k < s.len() implies instant_lt(
            x.date,
            #[trigger] s[k].date,
        ) by {
            if k < d.len() {
                assert(s[k] == d[k]);
            }
        }
        if insert_index(s, x) > 0 {
            assert(s[insert_index(s, x) - 1] == d[insert_index(d, x) - 1]);
        }
    }
}

proof fn lemma_insert_sorted(s: Seq<EntryView>, x: EntryView)
    requires
        sorted_by_date(s),
    ensures
        insert_by_time(s, x).len() == s.len() + 1,
        sorted_by_date(insert_by_time(s, x)),
        forall|k: int|
            0 <= k < s.len() + 1 ==> #[trigger] insert_by_time(s, x)[k] == x || s.contains(
                insert_by_time(s, x)[k],
            ),
{
    lemma_insert_index(s, x);
    let p = insert_index(s, x) as int;
    let r = insert_by_time(s, x);
    s.insert_ensures(p, x);
    assert forall|k: int| 0 <= k < s.len() + 1 implies #[trigger] r[k] == x || s.contains(r[k]) by {
        if k < p {
            assert(r[k] == s[k]);
        } else if k > p {
            assert(r[k] == s[k - 1]);
        }
    }
    assert forall|i: int, j: int| 0 <= i < j < r.len() implies !instant_lt(
        #[trigger] r[j].date,
        #[trigger] r[i].date,
    ) by {
        if j < p {
            assert(r[i] == s[i] && r[j] == s[j]);
        } else if j == p {
            assert(r[i] == s[i]);
            if i < p - 1 {
                assert(!instant_lt(s[p - 1].date, s[i].date));
            }
        } else if i < p {
            assert(r[i] == s[i] && r[j] == s[j - 1]);
        } else if i == p {
            assert(r[j] == s[j - 1]);
        } else {
            assert(r[i] == s[i - 1] && r[j] == s[j - 1]);
        }
    }
}

/// Sorting keeps every entry, invents none, and sorts by date.
proof fn lemma_sort(s: Seq<EntryView>)
    ensures
        sort_by_time(s).len() == s.len(),
        sorted_by_date(sort_by_time(s)),
        forall|k: int| 0 <= k < s.len() ==> s.contains(#[trigger] sort_by_time(s)[k]),
        sort_by_time(s).to_multiset() == s.to_multiset(),
    decreases s.len(),
{
    broadcast use vstd::seq_lib::group_to_multiset_ensures;

    if s.len() > 0 {
        let d = s.drop_last();
        lemma_sort(d);
        lemma_insert_sorted(sort_by_time(d), s.last());
        let r = sort_by_time(s);
        let t = sort_by_time(d);
        lemma_insert_index(t, s.last());
        let p = insert_index(t, s.last()) as int;
        t.insert_ensures(p, s.last());
        assert(r.remove(p) =~= t);
        assert(r[p] == s.last());
        assert(r.to_multiset().count(s.last()) > 0) by {
            assert(r.contains(s.last()));
        }
        assert(r.to_multiset() =~= t.to_multiset().insert(s.last()));
        assert(d.push(s.last()) =~= s);
        assert forall|k: int| 0 <= k < s.len() implies s.contains(#[trigger] r[k]) by {
            if r[k] == s.last() {
                assert(s[s.len() - 1] == r[k]);
            } else {
                let j = choose|j: int| 0 <= j < sort_by_time(d).len() && sort_by_time(d)[j] == r[k];
                assert(d.contains(sort_by_time(d)[j]));
                let m = choose|m: int| 0 <= m < d.len() && d[m] == sort_by_time(d)[j];
                assert(s[m] == r[k]);
            }
        }
    }
}

/// Entries dated at distinct instants sort into a strictly ascending sequence.
proof fn lemma_sort_strict(s: Seq<EntryView>)
    requires
        distinct_instants(s),
    ensures
        strictly_ascending(sort_by_time(s)),
    decreases s.len(),
{
    if s.len() > 0 {
        let d = s.drop_last();
        let x = s.last();
        let t = sort_by_time(d);
        assert(distinct_instants(d)) by {
            assert forall|i: int, j: int| 0 <= i < j < d.len() implies !same_instant(
                #[trigger] d[i].date,
                #[trigger] d[j].date,
            ) by {
                assert(d[i] == s[i] && d[j] == s[j]);
            }
        }
        lemma_sort_strict(d);
        lemma_sort(d);
        lemma_insert_sorted(t, x);
        let r = sort_by_time(s);
        assert forall|k: int| 0 <= k < t.len() implies !same_instant(#[trigger] t[k].date, x.date) by {
            assert(d.contains(t[k]));
            let m = choose|m: int| 0 <= m < d.len() && d[m] == t[k];
            assert(s[m] == t[k]);
            assert(!same_instant(s[m].date, s[s.len() - 1].date));
        }
        lemma_insert_index(t, x);
        let p = insert_index(t, x) as int;
        t.insert_ensures(p, x);
        assert forall|i: int, j: int| 0 <= i < j < r.len() implies instant_lt(
            #[trigger] r[i].date,
            #[trigger] r[j].date,
        ) by {
            assert(!instant_lt(r[j].date, r[i].date));
            if i < p {
                assert(r[i] == t[i]);
                if j < p {
                    assert(r[j] == t[j]);
                } else if j > p {
                    assert(r[j] == t[j - 1]);
                }
            } else if i == p {
                assert(r[j] == t[j - 1]);
            } else {
                assert(r[i] == t[i - 1] && r[j] == t[j - 1]);
            }
        }
    }
}

/// What the entries of a table are made of: one per key, dated by the key, with
/// the fields of the variant.
proof fn lemma_entries_outcome(
    f: Function,
    zone: Seq<char>,
    table: serde_json::Value,
    keys: Seq<Seq<char>>,
)
    requires
        entries_outcome(f, zone, table, keys) is Ok,
    ensures
        entries_outcome(f, zone, table, keys)->Ok_0.len() == keys.len(),
        forall|i: int|
            0 <= i < keys.len() ==> (#[trigger] entries_outcome(f, zone, table, keys)->Ok_0[i]).date
                == resolve_outcome(keys[i], zone)->Ok_0 && resolve_outcome(keys[i], zone) is Ok
                && has_variant_fields(f, entries_outcome(f, zone, table, keys)->Ok_0[i]),
    decreases keys.len(),
{
    if keys.len() > 0 {
        let d = keys.drop_last();
        lemma_entries_outcome(f, zone, table, d);
        let s = entries_outcome(f, zone, table, keys)->Ok_0;
        assert forall|i: int| 0 <= i < keys.len() implies (#[trigger] s[i]).date == resolve_outcome(
            keys[i],
            zone,
        )->Ok_0 && resolve_outcome(keys[i], zone) is Ok && has_variant_fields(f, s[i]) by {
            if i < d.len() {
                assert(d[i] == keys[i]);
            }
        }
    }
}

/// The zone named by the document's metadata.
pub open spec fn series_zone(f: Function, doc: serde_json::Value) -> Seq<char> {
    metadata_outcome(f, doc)->Ok_0.1
}

/// The requested table of the document.
pub open spec fn series_table(f: Function, doc: serde_json::Value) -> serde_json::Value {
    json_member(doc, f.table_key())->Some_0
}

/// How the record under the `i`-th key of the requested table reads.
pub open spec fn record_outcome(f: Function, doc: serde_json::Value, i: int) -> Result<
    EntryView,
    ErrorView,
> {
    let key = table_keys(f, doc)->Some_0[i];
    entry_outcome(f, series_zone(f, doc), key, json_member(series_table(f, doc), key))
}

/// Every record of the requested table reads.
pub open spec fn records_read(f: Function, doc: serde_json::Value) -> bool {
    forall|i: int| 0 <= i < table_keys(f, doc)->Some_0.len() ==> #[trigger] record_outcome(f, doc, i) is Ok
}

/// The entries of the requested table's records, in the order of its keys.
pub open spec fn record_entries(f: Function, doc: serde_json::Value) -> Seq<EntryView> {
    Seq::new(table_keys(f, doc)->Some_0.len(), |i: int| record_outcome(f, doc, i)->Ok_0)
}

/// The entries of a table are read record by record: they exist exactly when each
/// record reads, and are then those records' entries in key order.
proof fn lemma_entries_each(
    f: Function,
    zone: Seq<char>,
    table: serde_json::Value,
    keys: Seq<Seq<char>>,
)
    ensures
        entries_outcome(f, zone, table, keys) is Ok <==> forall|i: int|
            0 <= i < keys.len() ==> #[trigger] entry_outcome(
                f,
                zone,
                keys[i],
                json_member(table, keys[i]),
            ) is Ok,
        entries_outcome(f, zone, table, keys) is Ok ==> entries_outcome(
            f,
            zone,
            table,
            keys,
        )->Ok_0 =~= Seq::new(
            keys.len(),
            |i: int| entry_outcome(f, zone, keys[i], json_member(table, keys[i]))->Ok_0,
        ),
    decreases keys.len(),
{
    if keys.len() > 0 {
        let d = keys.drop_last();
        lemma_entries_each(f, zone, table, d);
        assert forall|i: int| 0 <= i < d.len() implies d[i] == keys[i] by {}
        if entries_outcome(f, zone, table, d) is Err {
            let i = choose|i: int|
                0 <= i < d.len() && !(#[trigger] entry_outcome(
                    f,
                    zone,
                    d[i],
                    json_member(table, d[i]),
                ) is Ok);
            assert(d[i] == keys[i]);
        }
    }
}

/// For a document with no error envelope, readable metadata and the requested
/// table, the time series exists exactly when every record of the table reads.
/// It then has one entry per key of the table: the records' entries, sorted by
/// date, and strictly ascending where the keys name distinct instants.
pub proof fn lemma_entries_sorted(f: Function, doc: serde_json::Value)
    requires
        envelope_error(doc) is None,
        metadata_outcome(f, doc) is Ok,
        table_keys(f, doc) is Some,
    ensures
        time_series_outcome(f, doc) is Ok <==> records_read(f, doc),
        records_read(f, doc) ==> time_series_outcome(f, doc)->Ok_0.entries.len() == table_keys(
            f,
            doc,
        )->Some_0.len(),
        records_read(f, doc) ==> sorted_by_date(time_series_outcome(f, doc)->Ok_0.entries),
        records_read(f, doc) ==> time_series_outcome(f, doc)->Ok_0.entries.to_multiset()
            == record_entries(f, doc).to_multiset(),
        records_read(f, doc) && keys_name_distinct_instants(f, doc) ==> strictly_ascending(
            time_series_outcome(f, doc)->Ok_0.entries,
        ),
{
    let zone = series_zone(f, doc);
    let keys = table_keys(f, doc)->Some_0;
    let table = series_table(f, doc);
    lemma_entries_each(f, zone, table, keys);
    if records_read(f, doc) {
        assert forall|i: int| 0 <= i < keys.len() implies #[trigger] entry_outcome(
            f,
            zone,
            keys[i],
            json_member(table, keys[i]),
        ) is Ok by {
            assert(record_outcome(f, doc, i) is Ok);
        }
    }
    if entries_outcome(f, zone, table, keys) is Ok {
        assert forall|i: int| 0 <= i < keys.len() implies #[trigger] record_outcome(f, doc, i) is Ok by {
            assert(entry_outcome(f, zone, keys[i], json_member(table, keys[i])) is Ok);
        }
    }
    if records_read(f, doc) {
        let s = entries_outcome(f, zone, table, keys)->Ok_0;
        assert(s =~= record_entries(f, doc));
        lemma_entries_outcome(f, zone, table, keys);
        lemma_sort(s);
        if keys_name_distinct_instants(f, doc) {
            assert forall|i: int, j: int| 0 <= i < j < s.len() implies !same_instant(
                #[trigger] s[i].date,
                #[trigger] s[j].date,
            ) by {
                assert(s[i].date == resolve_outcome(keys[i], zone)->Ok_0);
                assert(s[j].date == resolve_outcome(keys[j], zone)->Ok_0);
            }
            lemma_sort_strict(s);
        }
    }
}

/// In a time series of an adjusted variant every entry has the adjusted close,
/// the dividend amount and the split coefficient; in one of another variant no
/// entry has any of them.
pub proof fn lemma_adjustment_fields(f: Function, doc: serde_json::Value)
    requires
        time_series_outcome(f, doc) is Ok,
    ensures
        forall|i: int|
            0 <= i < time_series_outcome(f, doc)->Ok_0.entries.len() ==> has_variant_fields(
                f,
                #[trigger] time_series_outcome(f, doc)->Ok_0.entries[i],
            ),
{
    let zone = metadata_outcome(f, doc)->Ok_0.1;
    let keys = table_keys(f, doc)->Some_0;
    let table = json_member(doc, f.table_key())->Some_0;
    let s = entries_outcome(f, zone, table, keys)->Ok_0;
    lemma_entries_outcome(f, zone, table, keys);
    lemma_sort(s);
    let r = sort_by_time(s);
    assert forall|i: int| 0 <= i < r.len() implies has_variant_fields(f, #[trigger] r[i]) by {
        assert(s.contains(r[i]));
        let m = choose|m: int| 0 <= m < s.len() && s[m] == r[i];
        assert(has_variant_fields(f, s[m]));
    }
}

/// Parsing depends on the response body and the variant alone: two parses of
/// one body give equal results, errors included.
pub proof fn lemma_parse_repeatable(f: Function, first: Seq<u8>, second: Seq<u8>)
    requires
        first == second,
    ensures
        parse_outcome(f, first) == parse_outcome(f, second),
{
}

} // verus!

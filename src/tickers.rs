//! Ticker search related operations.
//!
//! A search response holds an array of matches, best first. Each match is an
//! object of nine string fields; the market's hours are times of day and its
//! zone is written as a fixed offset such as `UTC+01` or `UTC-05.5`.
use crate::datetime::{parse_time, time_outcome, TimeOfDay, UtcOffset};
use crate::error::{parsing_error, result_view, Error, ErrorView};
use crate::json::{
    decode, elements, envelope, envelope_error, json_array, json_decode, json_member, member,
    member_str, member_text,
};
use crate::numeric::{hours_seconds, is_float_literal, is_float_text, parse_hours};
use vstd::prelude::*;

verus! {

/// Respresent a set of search results.
#[derive(Debug, Clone)]
pub struct SearchResults {
    /// The query that was searched.
    pub query: Option<String>,
    /// The list of matches, sorted by highest match score to lowest.
    pub entries: Vec<Entry>,
}

/// Represents a set of values for a ticker
#[derive(Debug, PartialEq, Clone)]
pub struct Entry {
    /// Symbol.
    pub symbol: String,
    /// Name.
    pub name: String,
    /// Type.
    pub stock_type: String,
    /// Region.
    pub region: String,
    /// Market open time.
    pub market_open: TimeOfDay,
    /// Market close time.
    pub market_close: TimeOfDay,
    /// Timezone.
    pub timezone: UtcOffset,
    /// Currency.
    pub currency: String,
    /// Match score, as decimal text that `f64::from_str` accepts.
    pub match_score: String,
}

pub struct EntryView {
    pub symbol: Seq<char>,
    pub name: Seq<char>,
    pub stock_type: Seq<char>,
    pub region: Seq<char>,
    pub market_open: TimeOfDay,
    pub market_close: TimeOfDay,
    pub timezone: UtcOffset,
    pub currency: Seq<char>,
    pub match_score: Seq<char>,
}

impl View for Entry {
    type V = EntryView;

    open spec fn view(&self) -> EntryView {
        EntryView {
            symbol: self.symbol@,
            name: self.name@,
            stock_type: self.stock_type@,
            region: self.region@,
            market_open: self.market_open,
            market_close: self.market_close,
            timezone: self.timezone,
            currency: self.currency@,
            match_score: self.match_score@,
        }
    }
}

pub struct SearchResultsView {
    pub query: Option<Seq<char>>,
    pub entries: Seq<EntryView>,
}

impl View for SearchResults {
    type V = SearchResultsView;

    open spec fn view(&self) -> SearchResultsView {
        SearchResultsView {
            query: match self.query {
                Some(q) => Some(q@),
                None => None,
            },
            entries: self.entries@.map_values(|e: Entry| e@),
        }
    }
}

/// The index of the last `+` or `-` in `s`, if it has one.
pub open spec fn last_sign_index(s: Seq<char>) -> Option<int>
    decreases s.len(),
{
    if s.len() == 0 {
        None
    } else if s.last() == '+' || s.last() == '-' {
        Some(s.len() - 1)
    } else {
        last_sign_index(s.drop_last())
    }
}

/// The seconds east of UTC that an offset text `<anything>±HH` denotes: the sign
/// is its last `+` or `-`, and what follows is an hour count read by
/// [`hours_seconds`]. The offset must be less than a day.
pub open spec fn offset_seconds(s: Seq<char>) -> Option<int> {
    match last_sign_index(s) {
        None => None,
        Some(i) => match hours_seconds(s.skip(i + 1)) {
            Some(x) => if x < 86400 {
                Some(
                    if s[i] == '+' {
                        x
                    } else {
                        -x
                    },
                )
            } else {
                None
            },
            None => None,
        },
    }
}

/// Every field of a match is a string, and its score reads as a number.
pub open spec fn fields_ok(m: serde_json::Value) -> bool {
    &&& member_text(m, "1. symbol"@) is Some
    &&& member_text(m, "2. name"@) is Some
    &&& member_text(m, "3. type"@) is Some
    &&& member_text(m, "4. region"@) is Some
    &&& member_text(m, "5. marketOpen"@) is Some
    &&& member_text(m, "6. marketClose"@) is Some
    &&& member_text(m, "7. timezone"@) is Some
    &&& member_text(m, "8. currency"@) is Some
    &&& member_text(m, "9. matchScore"@) is Some
    &&& is_float_literal(member_text(m, "9. matchScore"@)->Some_0)
}

/// How one match reads: its fields, then its offset, then its opening and
/// closing times.
pub open spec fn match_outcome(m: serde_json::Value) -> Result<EntryView, ErrorView> {
    if !fields_ok(m) {
        Err(ErrorView::Parsing("error parsing search result"@))
    } else {
        match offset_seconds(member_text(m, "7. timezone"@)->Some_0) {
            None => Err(ErrorView::Parsing("error parsing offset"@)),
            Some(offset) => match time_outcome(member_text(m, "5. marketOpen"@)->Some_0) {
                Err(e) => Err(e),
                Ok(open) => match time_outcome(member_text(m, "6. marketClose"@)->Some_0) {
                    Err(e) => Err(e),
                    Ok(close) => Ok(
                        EntryView {
                            symbol: member_text(m, "1. symbol"@)->Some_0,
                            name: member_text(m, "2. name"@)->Some_0,
                            stock_type: member_text(m, "3. type"@)->Some_0,
                            region: member_text(m, "4. region"@)->Some_0,
                            market_open: open,
                            market_close: close,
                            timezone: UtcOffset { seconds: offset as i32 },
                            currency: member_text(m, "8. currency"@)->Some_0,
                            match_score: member_text(m, "9. matchScore"@)->Some_0,
                        },
                    ),
                },
            },
        }
    }
}

/// The entries of the matches, in their order; the first match that does not
/// read stops the reading.
pub open spec fn matches_outcome(items: Seq<serde_json::Value>) -> Result<Seq<EntryView>, ErrorView>
    decreases items.len(),
{
    if items.len() == 0 {
        Ok(Seq::empty())
    } else {
        match matches_outcome(items.drop_last()) {
            Err(e) => Err(e),
            Ok(s) => match match_outcome(items.last()) {
                Err(e) => Err(e),
                Ok(x) => Ok(s.push(x)),
            },
        }
    }
}

/// The search results that a decoded document describes.
pub open spec fn search_outcome(query: Option<Seq<char>>, doc: serde_json::Value) -> Result<
    SearchResultsView,
    ErrorView,
> {
    match envelope_error(doc) {
        Some(m) => Err(ErrorView::Api(m)),
        None => match json_member(doc, "bestMatches"@) {
            None => Err(ErrorView::Parsing("missing best matches"@)),
            Some(b) => match json_array(b) {
                None => Err(ErrorView::Parsing("missing best matches"@)),
                Some(items) => match matches_outcome(items) {
                    Err(e) => Err(e),
                    Ok(s) => Ok(SearchResultsView { query, entries: s }),
                },
            },
        },
    }
}

/// The search results that a response body describes.
pub open spec fn parse_outcome(query: Option<Seq<char>>, bytes: Seq<u8>) -> Result<
    SearchResultsView,
    ErrorView,
> {
    match json_decode(bytes) {
        Err(m) => Err(ErrorView::Parsing(m)),
        Ok(doc) => search_outcome(query, doc),
    }
}

/// Reads an offset text such as `UTC+01` as seconds east of UTC.
pub fn parse_offset(offset: &str) -> (r: Option<i32>)
    ensures
        r is None <==> offset_seconds(offset@) is None,
        r matches Some(x) ==> offset_seconds(offset@) == Some(x as int),
{
    let n = offset.unicode_len();
    let mut j = n;
    assert(offset@.take(n as int) =~= offset@);
    while j > 0 && offset.get_char(j - 1) != '+' && offset.get_char(j - 1) != '-'
        invariant
            j <= n,
            n == offset@.len(),
            last_sign_index(offset@.take(j as int)) == last_sign_index(offset@),
        decreases j,
    {
        assert(offset@.take(j as int).drop_last() =~= offset@.take(j - 1));
        j = j - 1;
    }
    if j == 0 {
        assert(offset@.take(0) =~= Seq::<char>::empty());
        return None;
    }
    assert(offset@.take(j as int).last() == offset@[j - 1]);
    let sign = offset.get_char(j - 1);
    let hours = offset.substring_char(j, n);
    assert(hours@ == offset@.skip(j as int));
    match parse_hours(hours) {
        None => None,
        Some(x) => if sign == '+' {
            Some(x as i32)
        } else {
            Some(-(x as i32))
        },
    }
}

/// The fixed UTC offset that an offset text such as `UTC+01` denotes.
pub fn get_utc_offset_from_str(offset: &str) -> (r: Result<UtcOffset, Error>)
    ensures
        match offset_seconds(offset@) {
            Some(x) => r is Ok && r->Ok_0.seconds == x,
            None => r is Err && r->Err_0@ == ErrorView::Parsing("error parsing offset"@),
        },
{
    match parse_offset(offset) {
        Some(x) => Ok(UtcOffset { seconds: x }),
        None => Err(parsing_error("error parsing offset")),
    }
}

/// Reads one match of a search.
fn read_match(m: &serde_json::Value) -> (r: Result<Entry, Error>)
    ensures
        result_view(r) == match_outcome(*m),
{
    let symbol = member_str(m, "1. symbol");
    let name = member_str(m, "2. name");
    let stock_type = member_str(m, "3. type");
    let region = member_str(m, "4. region");
    let open = member_str(m, "5. marketOpen");
    let close = member_str(m, "6. marketClose");
    let zone = member_str(m, "7. timezone");
    let currency = member_str(m, "8. currency");
    let score = member_str(m, "9. matchScore");
    if symbol.is_none() || name.is_none() || stock_type.is_none() || region.is_none()
        || open.is_none() || close.is_none() || zone.is_none() || currency.is_none()
        || score.is_none() {
        return Err(parsing_error("error parsing search result"));
    }
    let score = score.unwrap();
    if !is_float_text(score) {
        return Err(parsing_error("error parsing search result"));
    }
    let timezone = match get_utc_offset_from_str(zone.unwrap()) {
        Ok(o) => o,
        Err(e) => return Err(e),
    };
    let market_open = match parse_time(open.unwrap()) {
        Ok(t) => t,
        Err(e) => return Err(e),
    };
    let market_close = match parse_time(close.unwrap()) {
        Ok(t) => t,
        Err(e) => return Err(e),
    };
    Ok(
        Entry {
            symbol: String::from_str(symbol.unwrap()),
            name: String::from_str(name.unwrap()),
            stock_type: String::from_str(stock_type.unwrap()),
            region: String::from_str(region.unwrap()),
            market_open,
            market_close,
            timezone,
            currency: String::from_str(currency.unwrap()),
            match_score: String::from_str(score),
        },
    )
}

proof fn lemma_prefix_error(items: Seq<serde_json::Value>, n: int)
    requires
        0 <= n <= items.len(),
        matches_outcome(items.take(n)) is Err,
    ensures
        matches_outcome(items) == matches_outcome(items.take(n)),
    decreases items.len(),
{
    if items.len() == n {
        assert(items.take(n) == items);
    } else {
        assert(items.drop_last().take(n) == items.take(n));
        lemma_prefix_error(items.drop_last(), n);
    }
}

/// Interprets a decoded search document; `query` is the text that was searched.
pub fn parse_document(query: Option<String>, doc: &serde_json::Value) -> (r: Result<
    SearchResults,
    Error,
>)
    ensures
        result_view(r) == search_outcome(
            match query {
                Some(q) => Some(q@),
                None => None,
            },
            *doc,
        ),
{
    if let Some(m) = envelope(doc) {
        return Err(Error::APIError(m));
    }
    let best = match member(doc, "bestMatches") {
        Some(b) => b,
        None => return Err(parsing_error("missing best matches")),
    };
    let items = match elements(best) {
        Some(a) => a,
        None => return Err(parsing_error("missing best matches")),
    };
    let mut entries: Vec<Entry> = Vec::new();
    let mut i: usize = 0;
    assert(items@.take(0).len() == 0);
    while i < items.len()
        invariant
            i <= items.len(),
            envelope_error(*doc) is None,
            json_member(*doc, "bestMatches"@) == Some(*best),
            json_array(*best) == Some(items@),
            matches_outcome(items@.take(i as int)) is Ok,
            entries@.map_values(|e: Entry| e@) == matches_outcome(items@.take(i as int))->Ok_0,
        decreases items.len() - i,
    {
        proof {
            assert(items@.take(i + 1).drop_last() == items@.take(i as int));
            assert(items@.take(i + 1).last() == items@[i as int]);
        }
        let entry = match read_match(&items[i]) {
            Ok(e) => e,
            Err(e) => {
                proof {
                    lemma_prefix_error(items@, i + 1);
                }
                return Err(e);
            },
        };
        let ghost before = entries@;
        entries.push(entry);
        assert(entries@.map_values(|e: Entry| e@) =~= before.map_values(|e: Entry| e@).push(
            entry@,
        ));
        i = i + 1;
    }
    assert(items@.take(items.len() as int) == items@);
    Ok(SearchResults { query, entries })
}

/// Parses a search response body; `query` is the text that was searched.
pub fn parse(query: Option<String>, data: &[u8]) -> (r: Result<SearchResults, Error>)
    ensures
        result_view(r) == parse_outcome(
            match query {
                Some(q) => Some(q@),
                None => None,
            },
            data@,
        ),
{
    match decode(data) {
        Ok(doc) => parse_document(query, &doc),
        Err(m) => Err(Error::ParsingError(m)),
    }
}

} // verus!

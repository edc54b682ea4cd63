//! The requests that the client sends: an operation name, the API key and the
//! operation's parameters, written as the query of one fixed endpoint.
use crate::time_series::{Function, OutputSize};
use vstd::prelude::*;

verus! {

/// The endpoint that every operation queries.
pub const URL_ENDPOINT: &'static str = "https://www.alphavantage.co/query";

/// Makes the requests of one API key.
pub struct APIRequestBuilder {
    key: String,
}

impl APIRequestBuilder {
    pub closed spec fn key(&self) -> Seq<char> {
        self.key@
    }

    pub fn new(key: &str) -> (r: APIRequestBuilder)
        ensures
            r.key() == key@,
    {
        APIRequestBuilder { key: String::from_str(key) }
    }

    /// A request for the operation `function` with the query parameters `params`.
    pub fn create<'a>(&'a self, function: &'a str, params: &'a [(&'a str, &'a str)]) -> (r:
        APIRequest<'a>)
        ensures
            r.key() == self.key(),
            r.function() == function@,
            r.params() == pair_texts(params@),
    {
        APIRequest::new(self.key.as_str(), function, params)
    }
}

/// The texts of a list of query pairs.
pub open spec fn pair_texts(params: Seq<(&str, &str)>) -> Seq<(Seq<char>, Seq<char>)> {
    params.map_values(|p: (&str, &str)| (p.0@, p.1@))
}

/// One request: an operation, the key and the operation's parameters.
pub struct APIRequest<'a> {
    key: &'a str,
    function: &'a str,
    params: &'a [(&'a str, &'a str)],
}

/// What `reqwest::Url::parse_with_params` makes of an address and query pairs,
/// written as text; `None` where the address is not a URL.
pub uninterp spec fn url_with_query(
    address: Seq<char>,
    pairs: Seq<(Seq<char>, Seq<char>)>,
) -> Option<Seq<char>>;

/// Relies on `reqwest::Url::parse_with_params`, and its `Display`: the address with
/// the pairs appended, form-encoded, as its query.
#[verifier::external_body]
fn encode_url(address: &str, pairs: &Vec<(&str, &str)>) -> (r: Option<String>)
    ensures
        r is None <==> url_with_query(address@, pair_texts(pairs@)) is None,
        r matches Some(u) ==> url_with_query(address@, pair_texts(pairs@)) == Some(u@),
{
    reqwest::Url::parse_with_params(address, pairs.iter()).ok().map(|u| u.to_string())
}

impl<'a> APIRequest<'a> {
    pub closed spec fn key(&self) -> Seq<char> {
        self.key@
    }

    pub closed spec fn function(&self) -> Seq<char> {
        self.function@
    }

    pub closed spec fn params(&self) -> Seq<(Seq<char>, Seq<char>)> {
        pair_texts(self.params@)
    }

    /// The query pairs of the request: the operation, the key, then the parameters.
    pub open spec fn query(&self) -> Seq<(Seq<char>, Seq<char>)> {
        seq![("function"@, self.function()), ("apikey"@, self.key())] + self.params()
    }

    pub fn new(key: &'a str, function: &'a str, params: &'a [(&'a str, &'a str)]) -> (r:
        APIRequest<'a>)
        ensures
            r.key() == key@,
            r.function() == function@,
            r.params() == pair_texts(params@),
    {
        APIRequest { key, function, params }
    }

    /// The URL of the request: the endpoint with the request's query pairs.
    pub fn url(&self) -> (r: Option<String>)
        ensures
            r is None <==> url_with_query(URL_ENDPOINT@, self.query()) is None,
            r matches Some(u) ==> url_with_query(URL_ENDPOINT@, self.query()) == Some(u@),
    {
        let mut pairs: Vec<(&str, &str)> = Vec::new();
        pairs.push(("function", self.function));
        pairs.push(("apikey", self.key));
        let mut i: usize = 0;
        while i < self.params.len()
            invariant
                i <= self.params@.len(),
                pair_texts(pairs@) == seq![("function"@, self.function()), ("apikey"@, self.key())]
                    + pair_texts(self.params@.take(i as int)),
            decreases self.params@.len() - i,
        {
            let ghost before = pairs@;
            pairs.push(self.params[i]);
            assert(pair_texts(pairs@) =~= pair_texts(before).push(
                (self.params@[i as int].0@, self.params@[i as int].1@),
            ));
            assert(self.params@.take(i + 1) =~= self.params@.take(i as int).push(
                self.params@[i as int],
            ));
            assert(pair_texts(self.params@.take(i + 1)) =~= pair_texts(
                self.params@.take(i as int),
            ).push((self.params@[i as int].0@, self.params@[i as int].1@)));
            i = i + 1;
        }
        assert(self.params@.take(self.params@.len() as int) =~= self.params@);
        encode_url(URL_ENDPOINT, &pairs)
    }
}

/// The query parameters of a time-series request: the symbol, the output size,
/// and for an intraday series the interval.
pub fn time_series_params<'a>(function: &Function, symbol: &'a str, output_size: OutputSize) -> (r:
    Vec<(&'a str, &'a str)>)
    ensures
        pair_texts(r@) == seq![("symbol"@, symbol@), ("outputsize"@, output_size.text())] + match *function {
            Function::IntraDay(i) => seq![("interval"@, i.text())],
            _ => Seq::empty(),
        },
{
    let mut params: Vec<(&'a str, &'a str)> = Vec::new();
    params.push(("symbol", symbol));
    params.push(("outputsize", output_size.to_string()));
    if let Function::IntraDay(interval) = function {
        params.push(("interval", interval.to_string()));
    }
    assert(pair_texts(params@) =~= seq![("symbol"@, symbol@), ("outputsize"@, output_size.text())]
        + match *function {
        Function::IntraDay(i) => seq![("interval"@, i.text())],
        _ => Seq::empty(),
    });
    params
}

} // verus!

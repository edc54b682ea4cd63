//! Exchange rate related operations.
//!
//! An exchange-rate response holds one object of seven string fields: the two
//! currencies' codes and names, the rate, the time of the last refresh and the
//! zone in which that time is local.
use crate::datetime::{is_time_zone, resolve, resolve_outcome, zone_known, Timestamp};
use crate::error::{parsing_error, result_view, Error, ErrorView};
use crate::json::{decode, envelope, envelope_error, json_decode, json_member, member, member_str, member_text};
use crate::numeric::{is_float_literal, is_float_text};
use vstd::prelude::*;

verus! {

/// Represents a currency.
#[derive(Debug, Eq, PartialEq, Clone)]
pub struct Currency {
    /// The currency's name.
    pub name: String,
    /// The currency's code. Can be a physical currency using ISO 4217 or a cryptocurrency.
    pub code: String,
}

/// Represents the exchange rate for a currency pair.
#[derive(Debug, PartialEq, Clone)]
pub struct ExchangeRate {
    /// Currency to get the exchange rate for.
    pub from: Currency,
    /// Destination currency for the exchange rate.
    pub to: Currency,
    /// Value of the exchange rate, as decimal text that `f64::from_str` accepts.
    pub rate: String,
    /// Date the exchange rate corresponds to.
    pub date: Timestamp,
}

pub struct ExchangeRateView {
    pub from_name: Seq<char>,
    pub from_code: Seq<char>,
    pub to_name: Seq<char>,
    pub to_code: Seq<char>,
    pub rate: Seq<char>,
    pub date: Timestamp,
}

impl View for ExchangeRate {
    type V = ExchangeRateView;

    open spec fn view(&self) -> ExchangeRateView {
        ExchangeRateView {
            from_name: self.from.name@,
            from_code: self.from.code@,
            to_name: self.to.name@,
            to_code: self.to.code@,
            rate: self.rate@,
            date: self.date,
        }
    }
}

/// The exchange rate that a decoded document describes.
pub open spec fn exchange_rate_outcome(doc: serde_json::Value) -> Result<ExchangeRateView, ErrorView> {
    match envelope_error(doc) {
        Some(m) => Err(ErrorView::Api(m)),
        None => match json_member(doc, "Realtime Currency Exchange Rate"@) {
            None => Err(ErrorView::Parsing("missing exchange rate data"@)),
            Some(data) => {
                let from_code = member_text(data, "1. From_Currency Code"@);
                let from_name = member_text(data, "2. From_Currency Name"@);
                let to_code = member_text(data, "3. To_Currency Code"@);
                let to_name = member_text(data, "4. To_Currency Name"@);
                let rate = member_text(data, "5. Exchange Rate"@);
                let refreshed = member_text(data, "6. Last Refreshed"@);
                let zone = member_text(data, "7. Time Zone"@);
                if from_code is None {
                    Err(ErrorView::Parsing("missing from currency code"@))
                } else if from_name is None {
                    Err(ErrorView::Parsing("missing from currency name"@))
                } else if to_code is None {
                    Err(ErrorView::Parsing("missing to currency code"@))
                } else if to_name is None {
                    Err(ErrorView::Parsing("missing to currency name"@))
                } else if rate is None {
                    Err(ErrorView::Parsing("missing exchange rate"@))
                } else if refreshed is None {
                    Err(ErrorView::Parsing("missing last refreshed"@))
                } else if zone is None {
                    Err(ErrorView::Parsing("missing time zone"@))
                } else if !is_float_literal(rate->Some_0) {
                    Err(ErrorView::Parsing("error parsing exchange rate"@))
                } else if !zone_known(zone->Some_0) {
                    Err(ErrorView::Parsing("error parsing time zone"@))
                } else {
                    match resolve_outcome(refreshed->Some_0, zone->Some_0) {
                        Err(e) => Err(e),
                        Ok(date) => Ok(
                            ExchangeRateView {
                                from_name: from_name->Some_0,
                                from_code: from_code->Some_0,
                                to_name: to_name->Some_0,
                                to_code: to_code->Some_0,
                                rate: rate->Some_0,
                                date,
                            },
                        ),
                    }
                }
            },
        },
    }
}

/// The exchange rate that a response body describes.
pub open spec fn parse_outcome(bytes: Seq<u8>) -> Result<ExchangeRateView, ErrorView> {
    match json_decode(bytes) {
        Err(m) => Err(ErrorView::Parsing(m)),
        Ok(doc) => exchange_rate_outcome(doc),
    }
}

/// Interprets a decoded exchange-rate document.
pub fn parse_document(doc: &serde_json::Value) -> (r: Result<ExchangeRate, Error>)
    ensures
        result_view(r) == exchange_rate_outcome(*doc),
{
    if let Some(m) = envelope(doc) {
        return Err(Error::APIError(m));
    }
    let data = match member(doc, "Realtime Currency Exchange Rate") {
        Some(d) => d,
        None => return Err(parsing_error("missing exchange rate data")),
    };
    let from_code = member_str(data, "1. From_Currency Code");
    let from_name = member_str(data, "2. From_Currency Name");
    let to_code = member_str(data, "3. To_Currency Code");
    let to_name = member_str(data, "4. To_Currency Name");
    let rate = member_str(data, "5. Exchange Rate");
    let refreshed = member_str(data, "6. Last Refreshed");
    let zone = member_str(data, "7. Time Zone");
    let from_code = match from_code {
        Some(v) => v,
        None => return Err(parsing_error("missing from currency code")),
    };
    let from_name = match from_name {
        Some(v) => v,
        None => return Err(parsing_error("missing from currency name")),
    };
    let to_code = match to_code {
        Some(v) => v,
        None => return Err(parsing_error("missing to currency code")),
    };
    let to_name = match to_name {
        Some(v) => v,
        None => return Err(parsing_error("missing to currency name")),
    };
    let rate = match rate {
        Some(v) => v,
        None => return Err(parsing_error("missing exchange rate")),
    };
    let refreshed = match refreshed {
        Some(v) => v,
        None => return Err(parsing_error("missing last refreshed")),
    };
    let zone = match zone {
        Some(v) => v,
        None => return Err(parsing_error("missing time zone")),
    };
    if !is_float_text(rate) {
        return Err(parsing_error("error parsing exchange rate"));
    }
    if !is_time_zone(zone) {
        return Err(parsing_error("error parsing time zone"));
    }
    let date = match resolve(refreshed, zone) {
        Ok(t) => t,
        Err(e) => return Err(e),
    };
    Ok(
        ExchangeRate {
            from: Currency { name: String::from_str(from_name), code: String::from_str(from_code) },
            to: Currency { name: String::from_str(to_name), code: String::from_str(to_code) },
            rate: String::from_str(rate),
            date,
        },
    )
}

/// Parses an exchange-rate response body.
pub fn parse(data: &[u8]) -> (r: Result<ExchangeRate, Error>)
    ensures
        result_view(r) == parse_outcome(data@),
{
    match decode(data) {
        Ok(doc) => parse_document(&doc),
        Err(m) => Err(Error::ParsingError(m)),
    }
}

} // verus!

use alphavantage::datetime::{parse_time, UtcOffset};
use alphavantage::tickers::{self, get_utc_offset_from_str, parse_offset, Entry};
use alphavantage::Error;

fn result_text(fields: [&str; 9]) -> String {
    let keys = [
        "1. symbol",
        "2. name",
        "3. type",
        "4. region",
        "5. marketOpen",
        "6. marketClose",
        "7. timezone",
        "8. currency",
        "9. matchScore",
    ];
    let parts: Vec<String> = keys.iter().zip(fields.iter()).map(|(k, v)| format!("\"{}\": \"{}\"", k, v)).collect();
    format!("{{{}}}", parts.join(", "))
}

fn search_body(results: &[String]) -> Vec<u8> {
    format!("{{\"bestMatches\": [{}]}}", results.join(", ")).into_bytes()
}

fn tesco() -> Vec<u8> {
    search_body(&[
        result_text(["TSCO.LON", "Tesco PLC", "Equity", "United Kingdom", "08:00", "16:30", "UTC+01", "GBX", "0.7273"]),
        result_text(["TSCDF", "Tesco plc", "Equity", "United States", "09:30", "16:00", "UTC-04", "USD", "0.7143"]),
        result_text(["TSCDY", "Tesco plc", "Equity", "United States", "09:30", "16:00", "UTC-04", "USD", "0.7143"]),
        result_text(["TCO2.FRK", "TESCO PLC ADR/1 LS-05", "Equity", "Frankfurt", "08:00", "20:00", "UTC+02", "EUR", "0.5455"]),
        result_text(["TCO0.FRK", "TESCO PLC LS-0633333", "Equity", "Frankfurt", "08:00", "20:00", "UTC+02", "EUR", "0.5455"]),
    ])
}

#[test]
fn parse_tesco() {
    let data = tesco();
    let results = tickers::parse(None, &data).expect("failed to parse tesco search results");
    assert_eq!(results.query, None);
    assert_eq!(results.entries.len(), 5);
    assert_eq!(
        results.entries[0],
        Entry {
            symbol: "TSCO.LON".into(),
            name: "Tesco PLC".into(),
            stock_type: "Equity".into(),
            region: "United Kingdom".into(),
            market_open: parse_time("08:00").unwrap(),
            market_close: parse_time("16:30").unwrap(),
            timezone: get_utc_offset_from_str("UTC+01").unwrap(),
            currency: "GBX".into(),
            match_score: results.entries[0].match_score.clone(),
        }
    );
    assert_eq!(results.entries[0].timezone, UtcOffset { seconds: 1 * 60 * 60 });
    assert_eq!(results.entries[0].match_score.parse::<f64>().unwrap(), 0.7273);
}

#[test]
fn parse_tencent() {
    let data = search_body(&[
        result_text(["NNND.FRK", "Tencent Holdings Ltd", "Equity", "Frankfurt", "08:00", "20:00", "UTC+02", "EUR", "0.5185"]),
        result_text(["TCEHY", "Tencent Holdings Ltd", "Equity", "United States", "09:30", "16:00", "UTC-04", "USD", "0.4828"]),
        result_text(["TCTZF", "Tencent Holdings Ltd", "Equity", "United States", "09:30", "16:00", "UTC-04", "USD", "0.4828"]),
        result_text(["0700.HKG", "Tencent Holdings Ltd", "Equity", "Hong Kong", "09:30", "16:00", "UTC+08", "HKD", "0.4516"]),
        result_text(["NNND.DEX", "Tencent Holdings Ltd", "Equity", "XETRA", "08:00", "20:00", "UTC+02", "EUR", "0.4516"]),
        result_text(["NNN1.FRK", "Tencent Holdings Ltd ADR", "Equity", "Frankfurt", "08:00", "20:00", "UTC+02", "EUR", "0.4"]),
    ]);
    let results = tickers::parse(None, &data).expect("failed to parse tencent search results");
    assert_eq!(results.query, None);
    assert_eq!(results.entries.len(), 6);
    assert_eq!(
        results.entries[0],
        Entry {
            symbol: "NNND.FRK".into(),
            name: "Tencent Holdings Ltd".into(),
            stock_type: "Equity".into(),
            region: "Frankfurt".into(),
            market_open: parse_time("08:00").unwrap(),
            market_close: parse_time("20:00").unwrap(),
            timezone: UtcOffset { seconds: 2 * 60 * 60 },
            currency: "EUR".into(),
            match_score: results.entries[0].match_score.clone(),
        }
    );
    assert_eq!(results.entries[0].match_score.parse::<f64>().unwrap(), 0.5185);
}

#[test]
fn search_keeps_order_and_query() {
    let results = tickers::parse(Some("tesco".to_string()), &tesco()).unwrap();
    assert_eq!(results.query.as_deref(), Some("tesco"));
    let symbols: Vec<&str> = results.entries.iter().map(|e| e.symbol.as_str()).collect();
    assert_eq!(symbols, vec!["TSCO.LON", "TSCDF", "TSCDY", "TCO2.FRK", "TCO0.FRK"]);
    assert_eq!(results.entries[1].timezone.seconds, -4 * 3600);
    assert_eq!(results.entries[1].market_open.hour, 9);
    assert_eq!(results.entries[1].market_open.minute, 30);
}

#[test]
fn utc_plus_one_is_3600_seconds() {
    assert_eq!(get_utc_offset_from_str("UTC+01").unwrap(), UtcOffset { seconds: 3600 });
}

#[test]
fn offsets() {
    assert_eq!(parse_offset("UTC+01"), Some(3600));
    assert_eq!(parse_offset("UTC-05"), Some(-18000));
    assert_eq!(parse_offset("UTC+05.5"), Some(19800));
    assert_eq!(parse_offset("UTC-09.5"), Some(-34200));
    assert_eq!(parse_offset("UTC+5.75"), Some(20700));
    assert_eq!(parse_offset("UTC+0.999"), Some(3600));
    assert_eq!(parse_offset("UTC+.5"), Some(1800));
    assert_eq!(parse_offset("UTC+3."), Some(10800));
    assert_eq!(parse_offset("UTC+00"), Some(0));
    assert_eq!(parse_offset("UTC+23.99"), Some(86340));
    assert_eq!(parse_offset("UTC+24"), None);
    assert_eq!(parse_offset("UTC+23.995"), None);
    assert_eq!(parse_offset("UTC"), None);
    assert_eq!(parse_offset("UTC*01"), None);
    assert_eq!(parse_offset("UTC+"), None);
    assert_eq!(parse_offset("UTC+."), None);
    assert_eq!(parse_offset("UTC+1h"), None);
    assert_eq!(parse_offset("UTC+99999999999999999999999"), None);
    assert_eq!(parse_offset("X+01"), Some(3600));
    assert_eq!(parse_offset("+01"), Some(3600));
    assert_eq!(parse_offset("GMT-5"), Some(-18000));
    assert_eq!(parse_offset("Etc/UTC+02"), Some(7200));
    assert_eq!(parse_offset("UTC+01.0000000000000000000"), Some(3600));
    assert_eq!(parse_offset("UTC+0.0083333333333333333333"), Some(0));
    assert_eq!(parse_offset("UTC+0.0083333333333333333334"), Some(60));
    assert_eq!(parse_offset("UTC+0.00833333333333333333330000000001"), Some(0));
    assert_eq!(parse_offset("UTC+0.125"), Some(480));
    assert_eq!(parse_offset("01"), None);
    match get_utc_offset_from_str("GMT") {
        Err(Error::ParsingError(m)) => assert_eq!(m, "error parsing offset"),
        other => panic!("expected a parsing error, got {:?}", other),
    }
}

fn parsing_message(data: &[u8]) -> String {
    match tickers::parse(None, data) {
        Err(Error::ParsingError(m)) => m,
        other => panic!("expected a parsing error, got {:?}", other),
    }
}

#[test]
fn search_errors() {
    assert_eq!(parsing_message(b"{}"), "missing best matches");
    assert_eq!(parsing_message(b"{\"bestMatches\": {}}"), "missing best matches");
    let bad_score = search_body(&[result_text(["A", "B", "Equity", "R", "08:00", "16:30", "UTC+01", "GBX", "high"])]);
    assert_eq!(parsing_message(&bad_score), "error parsing search result");
    let bad_offset = search_body(&[result_text(["A", "B", "Equity", "R", "08:00", "16:30", "UTC", "GBX", "0.5"])]);
    assert_eq!(parsing_message(&bad_offset), "error parsing offset");
    let bad_time = search_body(&[
        result_text(["A", "B", "Equity", "R", "08:00", "16:30", "UTC+01", "GBX", "0.5"]),
        result_text(["A", "B", "Equity", "R", "8 am", "16:30", "UTC+01", "GBX", "0.5"]),
    ]);
    assert_eq!(parsing_message(&bad_time), "error parsing time");
    let missing = search_body(&["{\"1. symbol\": \"A\"}".to_string()]);
    assert_eq!(parsing_message(&missing), "error parsing search result");
    let empty = tickers::parse(None, b"{\"bestMatches\": []}").unwrap();
    assert_eq!(empty.entries.len(), 0);
    match tickers::parse(None, b"{\"Error Message\": \"Invalid API call.\"}") {
        Err(Error::APIError(m)) => assert_eq!(m, "Invalid API call."),
        other => panic!("expected an API error, got {:?}", other),
    }
}

use alphavantage::datetime::parse_date;
use alphavantage::time_series::{self, Entry, Function, IntradayInterval, OutputSize};
use alphavantage::Error;
use chrono::{Datelike, Duration, NaiveDate, NaiveDateTime};

/// One record of a non-adjusted table.
fn record(open: f64, high: f64, low: f64, close: f64, volume: u64) -> String {
    format!(
        "{{\"1. open\": \"{:.4}\", \"2. high\": \"{:.4}\", \"3. low\": \"{:.4}\", \"4. close\": \"{:.4}\", \"5. volume\": \"{}\"}}",
        open, high, low, close, volume
    )
}

/// One record of an adjusted table; `split` is left out where it is `None`.
fn adjusted_record(
    open: &str,
    high: &str,
    low: &str,
    close: &str,
    adjusted_close: &str,
    volume: u64,
    dividend: &str,
    split: Option<&str>,
) -> String {
    let split = match split {
        Some(s) => format!(", \"8. split coefficient\": \"{}\"", s),
        None => String::new(),
    };
    format!(
        "{{\"1. open\": \"{}\", \"2. high\": \"{}\", \"3. low\": \"{}\", \"4. close\": \"{}\", \"5. adjusted close\": \"{}\", \"6. volume\": \"{}\", \"7. dividend amount\": \"{}\"{}}}",
        open, high, low, close, adjusted_close, volume, dividend, split
    )
}

/// A whole response: metadata with the zone under `zone_key`, and one table.
fn document(zone_key: &str, table_key: &str, rows: &[(String, String)]) -> Vec<u8> {
    let rows: Vec<String> = rows
        .iter()
        .rev()
        .map(|(k, v)| format!("\"{}\": {}", k, v))
        .collect();
    format!(
        "{{\"Meta Data\": {{\"1. Information\": \"Prices\", \"2. Symbol\": \"MSFT\", \"3. Last Refreshed\": \"2018-06-08\", \"{}\": \"US/Eastern\"}}, \"{}\": {{{}}}}}",
        zone_key,
        table_key,
        rows.join(", ")
    )
    .into_bytes()
}

fn f(text: &str) -> f64 {
    text.parse::<f64>().unwrap()
}

fn assert_entry(
    e: &Entry,
    date: &str,
    open: f64,
    high: f64,
    low: f64,
    close: f64,
    volume: u64,
    adjusted: Option<(f64, f64, f64)>,
) {
    assert_eq!(e.date, parse_date(date, "US/Eastern").unwrap());
    assert_eq!(f(&e.open), open);
    assert_eq!(f(&e.high), high);
    assert_eq!(f(&e.low), low);
    assert_eq!(f(&e.close), close);
    assert_eq!(e.volume, volume);
    match adjusted {
        Some((a, d, s)) => {
            assert_eq!(f(e.adjusted_close.as_ref().unwrap()), a);
            assert_eq!(f(e.dividend_amount.as_ref().unwrap()), d);
            assert_eq!(f(e.split_coefficient.as_ref().unwrap()), s);
        }
        None => {
            assert_eq!(e.adjusted_close, None);
            assert_eq!(e.dividend_amount, None);
            assert_eq!(e.split_coefficient, None);
        }
    }
}

fn day(text: &str) -> NaiveDate {
    NaiveDate::parse_from_str(text, "%Y-%m-%d").unwrap()
}

/// Rows for the given dates: the first and last with the given records, the
/// others with made-up prices.
fn rows_for(dates: &[String], first: String, last: String) -> Vec<(String, String)> {
    let n = dates.len();
    dates
        .iter()
        .enumerate()
        .map(|(i, d)| {
            let r = if i == 0 {
                first.clone()
            } else if i == n - 1 {
                last.clone()
            } else {
                record(100.0 + i as f64, 101.0 + i as f64, 99.0 + i as f64, 100.5 + i as f64, 1000 + i as u64)
            };
            (d.clone(), r)
        })
        .collect()
}

#[test]
fn time_series_parse_intraday() {
    let start = NaiveDateTime::parse_from_str("2018-06-01 14:21:00", "%Y-%m-%d %H:%M:%S").unwrap();
    let dates: Vec<String> = (0..100)
        .map(|i| (start + Duration::minutes(i)).format("%Y-%m-%d %H:%M:%S").to_string())
        .collect();
    let rows = rows_for(
        &dates,
        record(100.3975, 100.4558, 100.3850, 100.4550, 67726),
        record(100.6150, 100.8100, 100.5900, 100.7900, 4129781),
    );
    let data = document("6. Time Zone", "Time Series (1min)", &rows);
    let time_series = time_series::parse(&Function::IntraDay(IntradayInterval::OneMinute), &data)
        .expect("failed to parse entries");
    assert_eq!(time_series.entries.len(), 100);
    assert_entry(
        &time_series.entries[0],
        "2018-06-01 14:21:00",
        100.3975,
        100.4558,
        100.3850,
        100.4550,
        67726,
        None,
    );
    assert_entry(
        &time_series.entries[99],
        "2018-06-01 16:00:00",
        100.6150,
        100.8100,
        100.5900,
        100.7900,
        4129781,
        None,
    );
}

#[test]
fn time_series_parse_daily() {
    let mut dates: Vec<String> = Vec::new();
    let mut d = day("2018-01-17");
    while dates.len() < 99 {
        if d.weekday().number_from_monday() <= 5 {
            dates.push(d.format("%Y-%m-%d").to_string());
        }
        d = d + Duration::days(1);
    }
    dates.push("2018-06-08".to_string());
    let rows = rows_for(
        &dates,
        record(89.0800, 90.2800, 88.7500, 90.1400, 24659472),
        record(101.0924, 101.9500, 100.5400, 101.6300, 22165128),
    );
    let data = document("5. Time Zone", "Time Series (Daily)", &rows);
    let time_series = time_series::parse(&Function::Daily, &data).expect("failed to parse entries");
    assert_eq!(time_series.entries.len(), 100);
    assert_entry(&time_series.entries[0], "2018-01-17", 89.0800, 90.2800, 88.7500, 90.1400, 24659472, None);
    assert_entry(
        &time_series.entries[99],
        "2018-06-08",
        101.0924,
        101.9500,
        100.5400,
        101.6300,
        22165128,
        None,
    );
}

#[test]
fn time_series_parse_weekly() {
    let start = day("2000-01-14");
    let dates: Vec<String> = (0..961)
        .map(|i| (start + Duration::weeks(i)).format("%Y-%m-%d").to_string())
        .collect();
    assert_eq!(dates[960], "2018-06-08");
    let rows = rows_for(
        &dates,
        record(113.4400, 114.2500, 101.5000, 112.2500, 157400000),
        record(101.2600, 102.6900, 100.3800, 101.6300, 122316267),
    );
    let data = document("4. Time Zone", "Weekly Time Series", &rows);
    let time_series = time_series::parse(&Function::Weekly, &data).expect("failed to parse entries");
    assert_eq!(time_series.entries.len(), 961);
    assert_entry(
        &time_series.entries[0],
        "2000-01-14",
        113.4400,
        114.2500,
        101.5000,
        112.2500,
        157400000,
        None,
    );
    assert_entry(
        &time_series.entries[960],
        "2018-06-08",
        101.2600,
        102.6900,
        100.3800,
        101.6300,
        122316267,
        None,
    );
}

#[test]
fn time_series_parse_monthly() {
    let mut dates: Vec<String> = Vec::new();
    let (mut y, mut m) = (2000, 3);
    while dates.len() < 220 {
        let last = NaiveDate::from_ymd_opt(y, m, 1).unwrap() - Duration::days(1);
        dates.push(last.format("%Y-%m-%d").to_string());
        m += 1;
        if m == 13 {
            m = 1;
            y += 1;
        }
    }
    dates.push("2018-06-08".to_string());
    assert_eq!(dates[0], "2000-02-29");
    let rows = rows_for(
        &dates,
        record(98.5000, 110.0000, 88.1200, 89.3700, 667243800),
        record(99.2798, 102.6900, 99.1700, 101.6300, 150971891),
    );
    let data = document("4. Time Zone", "Monthly Time Series", &rows);
    let time_series = time_series::parse(&Function::Monthly, &data).expect("failed to parse entries");
    assert_eq!(time_series.entries.len(), 221);
    assert_entry(
        &time_series.entries[0],
        "2000-02-29",
        98.5000,
        110.0000,
        88.1200,
        89.3700,
        667243800,
        None,
    );
    assert_entry(
        &time_series.entries[220],
        "2018-06-08",
        99.2798,
        102.6900,
        99.1700,
        101.6300,
        150971891,
        None,
    );
}

/// Adjusted rows: two given records at the first two dates, made-up ones after.
fn adjusted_rows(dates: &[String], first: String, second: String) -> Vec<(String, String)> {
    dates
        .iter()
        .enumerate()
        .map(|(i, d)| {
            let r = match i {
                0 => first.clone(),
                1 => second.clone(),
                _ => adjusted_record("200.00", "201.00", "199.00", "200.50", "199.5", 1000 + i as u64, "0.0000", Some("1.0")),
            };
            (d.clone(), r)
        })
        .collect()
}

#[test]
fn parse_daily_adjusted() {
    let mut dates: Vec<String> = Vec::new();
    let mut d = day("2024-08-20");
    while dates.len() < 100 {
        if d.weekday().number_from_monday() <= 5 {
            dates.push(d.format("%Y-%m-%d").to_string());
        }
        d = d + Duration::days(1);
    }
    let rows = adjusted_rows(
        &dates,
        adjusted_record("194.59", "196.21", "193.75", "196.03", "194.489652284383", 1790371, "0.0000", None),
        adjusted_record("195.97", "197.33", "194.115", "197.21", "195.660380181621", 2579343, "0.0", Some("1.0")),
    );
    let data = document("5. Time Zone", "Time Series (Daily)", &rows);
    let time_series = time_series::parse(&Function::DailyAdjusted, &data).expect("failed to parse entries");
    assert_eq!(time_series.entries.len(), 100);
    assert_entry(
        &time_series.entries[0],
        "2024-08-20",
        194.59,
        196.21,
        193.75,
        196.03,
        1790371,
        Some((194.489652284383, 0.0000, 1.0)),
    );
    assert_entry(
        &time_series.entries[1],
        "2024-08-21",
        195.97,
        197.33,
        194.115,
        197.21,
        2579343,
        Some((195.660380181621, 0.0, 1.0)),
    );
}

#[test]
fn parse_weekly_adjusted() {
    let start = day("2024-10-04");
    let dates: Vec<String> = (0..16)
        .map(|i| (start + Duration::weeks(i)).format("%Y-%m-%d").to_string())
        .collect();
    let rows = adjusted_rows(
        &dates,
        adjusted_record("220.6500", "226.0800", "215.7980", "226.0000", "224.2242", 17778630, "0.0000", Some("1.0")),
        adjusted_record("225.3800", "235.8300", "225.0200", "233.2600", "231.4271", 18398213, "0.0000", Some("1.0")),
    );
    let data = document("4. Time Zone", "Weekly Adjusted Time Series", &rows);
    let time_series = time_series::parse(&Function::WeeklyAdjusted, &data).expect("failed to parse entries");
    assert_eq!(time_series.entries.len(), 16);
    assert_entry(
        &time_series.entries[1],
        "2024-10-11",
        225.3800,
        235.8300,
        225.0200,
        233.2600,
        18398213,
        Some((231.4271, 0.0000, 1.0)),
    );
    assert_entry(
        &time_series.entries[0],
        "2024-10-04",
        220.6500,
        226.0800,
        215.7980,
        226.0000,
        17778630,
        Some((224.2242, 0.0000, 1.0)),
    );
}

#[test]
fn parse_monthly_adjusted() {
    let mut dates: Vec<String> = vec!["2024-03-28".to_string(), "2024-04-30".to_string()];
    for m in 5..=12 {
        let last = NaiveDate::from_ymd_opt(2024 + (m / 12) as i32, (m % 12 + 1) as u32, 1).unwrap() - Duration::days(1);
        dates.push(last.format("%Y-%m-%d").to_string());
    }
    dates.push("2025-01-15".to_string());
    let rows = adjusted_rows(
        &dates,
        adjusted_record("185.4900", "199.1800", "185.1800", "190.9600", "185.9534", 99921776, "0.0000", Some("1.0")),
        adjusted_record("190.0000", "193.2800", "165.2605", "166.2000", "161.8426", 98297181, "0.0000", Some("1.0")),
    );
    let data = document("4. Time Zone", "Monthly Adjusted Time Series", &rows);
    let time_series = time_series::parse(&Function::MonthlyAdjusted, &data).expect("failed to parse entries");
    assert_eq!(time_series.entries.len(), 11);
    assert_entry(
        &time_series.entries[0],
        "2024-03-28",
        185.4900,
        199.1800,
        185.1800,
        190.9600,
        99921776,
        Some((185.9534, 0.0000, 1.0)),
    );
    assert_entry(
        &time_series.entries[1],
        "2024-04-30",
        190.0000,
        193.2800,
        165.2605,
        166.2000,
        98297181,
        Some((161.8426, 0.0000, 1.0)),
    );
}

fn parsing_message(r: Result<time_series::TimeSeries, Error>) -> String {
    match r {
        Err(Error::ParsingError(m)) => m,
        other => panic!("expected a parsing error, got {:?}", other),
    }
}

#[test]
fn split_coefficient_defaults_to_one() {
    let rows = vec![(
        "2024-08-20".to_string(),
        adjusted_record("194.59", "196.21", "193.75", "196.03", "194.48", 1790371, "0.0000", None),
    )];
    let data = document("5. Time Zone", "Time Series (Daily)", &rows);
    let ts = time_series::parse(&Function::DailyAdjusted, &data).unwrap();
    assert_eq!(ts.entries[0].split_coefficient.as_deref(), Some("1.0"));
}

#[test]
fn entries_come_out_sorted_by_date() {
    let rows = vec![
        ("2018-06-08".to_string(), record(3.0, 3.0, 3.0, 3.0, 3)),
        ("2018-01-17".to_string(), record(1.0, 1.0, 1.0, 1.0, 1)),
        ("2018-03-01".to_string(), record(2.0, 2.0, 2.0, 2.0, 2)),
    ];
    let data = document("5. Time Zone", "Time Series (Daily)", &rows);
    let ts = time_series::parse(&Function::Daily, &data).unwrap();
    assert_eq!(ts.entries.len(), 3);
    let volumes: Vec<u64> = ts.entries.iter().map(|e| e.volume).collect();
    assert_eq!(volumes, vec![1, 2, 3]);
    for w in ts.entries.windows(2) {
        assert!(w[0].date.seconds < w[1].date.seconds);
    }
    assert_eq!(ts.symbol, "MSFT");
    assert_eq!(ts.last_refreshed, parse_date("2018-06-08", "US/Eastern").unwrap());
}

#[test]
fn every_entry_has_the_fields_of_its_variant() {
    let rows: Vec<(String, String)> = (1..=5)
        .map(|i| {
            (
                format!("2024-08-0{}", i),
                adjusted_record("1.0", "2.0", "0.5", "1.5", "1.4", i, "0.1", Some("2.0")),
            )
        })
        .collect();
    let data = document("5. Time Zone", "Time Series (Daily)", &rows);
    let ts = time_series::parse(&Function::DailyAdjusted, &data).unwrap();
    assert!(ts.entries.iter().all(|e| e.adjusted_close.is_some()
        && e.dividend_amount.is_some()
        && e.split_coefficient.is_some()));
    let ts = time_series::parse(&Function::Daily, &data);
    // an adjusted record lacks "5. volume", which a plain daily record needs
    assert_eq!(parsing_message(ts), "error parsing entry");
    let rows: Vec<(String, String)> = (1..=5)
        .map(|i| (format!("2024-08-0{}", i), record(1.0, 2.0, 0.5, 1.5, i)))
        .collect();
    let data = document("5. Time Zone", "Time Series (Daily)", &rows);
    let ts = time_series::parse(&Function::Daily, &data).unwrap();
    assert!(ts.entries.iter().all(|e| e.adjusted_close.is_none()
        && e.dividend_amount.is_none()
        && e.split_coefficient.is_none()));
}

#[test]
fn parsing_twice_gives_the_same_result() {
    let rows = vec![
        ("2018-06-08".to_string(), record(3.0, 3.0, 3.0, 3.0, 3)),
        ("2018-01-17".to_string(), record(1.0, 1.0, 1.0, 1.0, 1)),
    ];
    let data = document("5. Time Zone", "Time Series (Daily)", &rows);
    let a = time_series::parse(&Function::Daily, &data).unwrap();
    let b = time_series::parse(&Function::Daily, &data).unwrap();
    assert_eq!(a.symbol, b.symbol);
    assert_eq!(a.last_refreshed, b.last_refreshed);
    assert_eq!(a.entries, b.entries);
}

#[test]
fn error_envelope_is_an_api_error() {
    let data = b"{\"Error Message\": \"Invalid API call.\"}";
    match time_series::parse(&Function::Daily, data) {
        Err(Error::APIError(m)) => assert_eq!(m, "Invalid API call."),
        other => panic!("expected an API error, got {:?}", other),
    }
}

#[test]
fn empty_error_message_is_no_envelope() {
    let data = b"{\"Error Message\": \"\"}";
    assert_eq!(parsing_message(time_series::parse(&Function::Daily, data)), "missing metadata");
}

#[test]
fn metadata_errors() {
    let cases: Vec<(&str, &str)> = vec![
        ("{}", "missing metadata"),
        ("{\"Meta Data\": {}}", "missing symbol"),
        ("{\"Meta Data\": {\"2. Symbol\": \"MSFT\"}}", "missing time zone"),
        (
            "{\"Meta Data\": {\"2. Symbol\": \"MSFT\", \"5. Time Zone\": \"Mars/Olympus\"}}",
            "error parsing time zone",
        ),
        (
            "{\"Meta Data\": {\"2. Symbol\": \"MSFT\", \"5. Time Zone\": \"US/Eastern\"}}",
            "missing last refreshed",
        ),
        (
            "{\"Meta Data\": {\"2. Symbol\": \"MSFT\", \"5. Time Zone\": \"US/Eastern\", \"3. Last Refreshed\": \"2018-13-01\"}}",
            "error parsing date",
        ),
    ];
    for (text, message) in cases {
        assert_eq!(parsing_message(time_series::parse(&Function::Daily, text.as_bytes())), message);
    }
}

#[test]
fn table_errors() {
    let meta = "\"Meta Data\": {\"2. Symbol\": \"MSFT\", \"5. Time Zone\": \"US/Eastern\", \"3. Last Refreshed\": \"2018-06-08\"}";
    let no_table = format!("{{{}}}", meta);
    assert_eq!(
        parsing_message(time_series::parse(&Function::Daily, no_table.as_bytes())),
        "missing requested time series"
    );
    let only_a_note = format!("{{{}, \"Note\": \"slow down\"}}", meta);
    assert_eq!(
        parsing_message(time_series::parse(&Function::Daily, only_a_note.as_bytes())),
        "missing time series"
    );
    let wrong_table = format!("{{{}, \"Weekly Time Series\": {{}}}}", meta);
    assert_eq!(
        parsing_message(time_series::parse(&Function::Daily, wrong_table.as_bytes())),
        "missing requested time series"
    );
    let wrong_table_and_note = format!("{{{}, \"Weekly Time Series\": {{}}, \"Note\": \"x\"}}", meta);
    assert_eq!(
        parsing_message(time_series::parse(&Function::Daily, wrong_table_and_note.as_bytes())),
        "missing time series"
    );
    let with_a_note = format!("{{{}, \"Time Series (Daily)\": {{}}, \"Note\": \"slow down\"}}", meta);
    assert_eq!(time_series::parse(&Function::Daily, with_a_note.as_bytes()).unwrap().entries.len(), 0);
    let bad_price = format!(
        "{{{}, \"Time Series (Daily)\": {{\"2018-06-08\": {{\"1. open\": \"1,5\", \"2. high\": \"2\", \"3. low\": \"1\", \"4. close\": \"1\", \"5. volume\": \"7\"}}}}}}",
        meta
    );
    assert_eq!(
        parsing_message(time_series::parse(&Function::Daily, bad_price.as_bytes())),
        "error parsing entry"
    );
    let bad_date = format!("{{{}, \"Time Series (Daily)\": {{\"June 8\": {}}}}}", meta, record(1.0, 1.0, 1.0, 1.0, 1));
    assert_eq!(
        parsing_message(time_series::parse(&Function::Daily, bad_date.as_bytes())),
        "error parsing date"
    );
    let empty = format!("{{{}, \"Time Series (Daily)\": {{}}}}", meta);
    assert_eq!(time_series::parse(&Function::Daily, empty.as_bytes()).unwrap().entries.len(), 0);
}

#[test]
fn undecodable_body_is_a_parsing_error() {
    assert!(!parsing_message(time_series::parse(&Function::Daily, b"{not json")).is_empty());
}

#[test]
fn variant_keys() {
    assert_eq!(Function::IntraDay(IntradayInterval::SixtyMinutes).time_series_key(), "Time Series (60min)");
    assert_eq!(Function::IntraDay(IntradayInterval::FiveMinutes).time_zone_key(), "6. Time Zone");
    assert_eq!(Function::DailyAdjusted.time_series_key(), "Time Series (Daily)");
    assert_eq!(Function::DailyAdjusted.time_zone_key(), "5. Time Zone");
    assert_eq!(Function::WeeklyAdjusted.time_series_key(), "Weekly Adjusted Time Series");
    assert_eq!(Function::MonthlyAdjusted.time_series_key(), "Monthly Adjusted Time Series");
    assert_eq!(Function::Monthly.time_zone_key(), "4. Time Zone");
    assert_eq!(Function::Weekly.name(), "TIME_SERIES_WEEKLY");
    assert_eq!(IntradayInterval::FifteenMinutes.to_string(), "15min");
    assert_eq!(OutputSize::Full.to_string(), "full");
    assert!(Function::MonthlyAdjusted.is_adjusted());
    assert!(!Function::Monthly.is_adjusted());
}

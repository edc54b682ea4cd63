use alphavantage::api::{time_series_params, APIRequestBuilder};
use alphavantage::datetime::{parse_date, parse_time, utc_offset, TimeOfDay, UtcOffset};
use alphavantage::numeric::{is_float_text, parse_u64};
use alphavantage::time_series::{Function, IntradayInterval, OutputSize};
use alphavantage::Error;

#[test]
fn float_texts() {
    for t in ["100.3975", "0", "1.", ".5", "-2.5", "+7", "1e5", "1E-3", "2.5e+10", "inf", "-Infinity", "NaN", "nAn"] {
        assert!(is_float_text(t), "{}", t);
        assert!(t.parse::<f64>().is_ok());
    }
    for t in ["", ".", "-", "1,5", " 1", "1 ", "1e", "e5", "1.2.3", "0x10", "infinit", "1e+", "--1"] {
        assert!(!is_float_text(t), "{}", t);
        assert!(t.parse::<f64>().is_err());
    }
}

#[test]
fn unsigned_texts() {
    assert_eq!(parse_u64("67726"), Some(67726));
    assert_eq!(parse_u64("+12"), Some(12));
    assert_eq!(parse_u64("007"), Some(7));
    assert_eq!(parse_u64("18446744073709551615"), Some(u64::MAX));
    assert_eq!(parse_u64("18446744073709551616"), None);
    assert_eq!(parse_u64("99999999999999999999999"), None);
    assert_eq!(parse_u64(""), None);
    assert_eq!(parse_u64("+"), None);
    assert_eq!(parse_u64("-1"), None);
    assert_eq!(parse_u64("1.0"), None);
}

#[test]
fn dates_in_a_zone() {
    let t = parse_date("2018-06-01 14:21:00", "US/Eastern").unwrap();
    assert_eq!(t.seconds, 1527877260);
    assert_eq!(t.offset, -4 * 3600);
    assert_eq!(t.nanosecond, 0);
    let d = parse_date("2018-01-17", "US/Eastern").unwrap();
    assert_eq!(d.seconds, 1516165200);
    assert_eq!(d.offset, -5 * 3600);
    let utc = parse_date("1970-01-01", "UTC").unwrap();
    assert_eq!(utc.seconds, 0);
}

#[test]
fn date_and_midnight_agree() {
    let d = parse_date("2018-06-01", "US/Eastern").unwrap();
    assert_eq!(d, parse_date("2018-06-01 00:00:00", "US/Eastern").unwrap());
    assert_ne!(d, parse_date("2018-06-01 00:00:01", "US/Eastern").unwrap());
    assert_ne!(d, parse_date("2018-06-01 12:00:00", "US/Eastern").unwrap());
}

fn message<T: std::fmt::Debug>(r: Result<T, Error>) -> String {
    match r {
        Err(Error::ParsingError(m)) => m,
        other => panic!("expected a parsing error, got {:?}", other),
    }
}

#[test]
fn date_errors() {
    assert_eq!(message(parse_date("2018-03-11 02:30:00", "US/Eastern")), "unable to parse datetime");
    assert_eq!(message(parse_date("2018-11-04 01:30:00", "US/Eastern")), "unable to parse datetime");
    assert_eq!(message(parse_date("2018-02-30", "US/Eastern")), "error parsing date");
    assert_eq!(message(parse_date("2018-06-01 14:21", "US/Eastern")), "error parsing datetime");
    assert_eq!(message(parse_date("2018-06-01", "Eastern")), "error parsing time zone");
    assert_eq!(message(parse_date("2016-10-16", "America/Sao_Paulo")), "unable to parse date");
}

#[test]
fn times_of_day() {
    assert_eq!(parse_time("16:30").unwrap(), TimeOfDay { hour: 16, minute: 30, second: 0, nanosecond: 0 });
    assert_eq!(message(parse_time("24:00")), "error parsing time");
    assert_eq!(message(parse_time("noon")), "error parsing time");
}

#[test]
fn fixed_offsets() {
    assert_eq!(utc_offset(3600), Some(UtcOffset { seconds: 3600 }));
    assert_eq!(utc_offset(-86_399), Some(UtcOffset { seconds: -86_399 }));
    assert_eq!(utc_offset(86_400), None);
}

#[test]
fn request_url() {
    let builder = APIRequestBuilder::new("demo");
    let params = time_series_params(&Function::Daily, "IBM", OutputSize::Compact);
    assert_eq!(params, vec![("symbol", "IBM"), ("outputsize", "compact")]);
    let request = builder.create("TIME_SERIES_DAILY", &params);
    assert_eq!(
        request.url().unwrap(),
        "https://www.alphavantage.co/query?function=TIME_SERIES_DAILY&apikey=demo&symbol=IBM&outputsize=compact"
    );
    let params = time_series_params(&Function::IntraDay(IntradayInterval::FiveMinutes), "A B&C", OutputSize::Full);
    assert_eq!(params[2], ("interval", "5min"));
    let request = builder.create("TIME_SERIES_INTRADAY", &params);
    assert_eq!(
        request.url().unwrap(),
        "https://www.alphavantage.co/query?function=TIME_SERIES_INTRADAY&apikey=demo&symbol=A+B%26C&outputsize=full&interval=5min"
    );
}

#[test]
fn error_texts() {
    assert_eq!(Error::ServerError(503).to_string(), "server returned HTTP status code 503");
    assert_eq!(Error::ServerError(0).to_string(), "server returned HTTP status code 0");
    assert_eq!(Error::ParsingError("missing symbol".into()).to_string(), "parsing error: missing symbol");
    assert_eq!(Error::APIError("bad key".into()).to_string(), "API error: bad key");
    assert_eq!(Error::ConnectionError("refused".into()).to_string(), "connection error: refused");
}

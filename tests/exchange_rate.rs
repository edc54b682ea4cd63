use alphavantage::datetime::parse_date;
use alphavantage::exchange_rate::{self, Currency, ExchangeRate};
use alphavantage::Error;

fn body(fields: &[(&str, &str)]) -> Vec<u8> {
    let fields: Vec<String> = fields.iter().map(|(k, v)| format!("\"{}\": \"{}\"", k, v)).collect();
    format!("{{\"Realtime Currency Exchange Rate\": {{{}}}}}", fields.join(", ")).into_bytes()
}

fn euro_dollar() -> Vec<(&'static str, &'static str)> {
    vec![
        ("1. From_Currency Code", "EUR"),
        ("2. From_Currency Name", "Euro"),
        ("3. To_Currency Code", "USD"),
        ("4. To_Currency Name", "United States Dollar"),
        ("5. Exchange Rate", "1.16665014"),
        ("6. Last Refreshed", "2018-06-23 10:27:49"),
        ("7. Time Zone", "UTC"),
    ]
}

#[test]
fn parse() {
    let data = body(&euro_dollar());
    let exchange_rate = exchange_rate::parse(&data).expect("failed to parse exchange rate");
    assert_eq!(
        exchange_rate,
        ExchangeRate {
            from: Currency {
                name: "Euro".to_string(),
                code: "EUR".to_string(),
            },
            to: Currency {
                name: "United States Dollar".to_string(),
                code: "USD".to_string(),
            },
            rate: exchange_rate.rate.clone(),
            date: parse_date("2018-06-23 10:27:49", "UTC").unwrap(),
        }
    );
    assert_eq!(exchange_rate.rate.parse::<f64>().unwrap(), 1.16665014);
    assert_eq!(exchange_rate.date.seconds, 1529749669);
    assert_eq!(exchange_rate.date.offset, 0);
}

fn parsing_message(data: &[u8]) -> String {
    match exchange_rate::parse(data) {
        Err(Error::ParsingError(m)) => m,
        other => panic!("expected a parsing error, got {:?}", other),
    }
}

#[test]
fn exchange_rate_missing_fields() {
    let messages = [
        "missing from currency code",
        "missing from currency name",
        "missing to currency code",
        "missing to currency name",
        "missing exchange rate",
        "missing last refreshed",
        "missing time zone",
    ];
    for (i, message) in messages.iter().enumerate() {
        let mut fields = euro_dollar();
        fields.remove(i);
        assert_eq!(parsing_message(&body(&fields)), *message);
    }
    assert_eq!(parsing_message(b"{}"), "missing exchange rate data");
}

#[test]
fn exchange_rate_bad_values() {
    let mut fields = euro_dollar();
    fields[4] = ("5. Exchange Rate", "about one");
    assert_eq!(parsing_message(&body(&fields)), "error parsing exchange rate");
    let mut fields = euro_dollar();
    fields[6] = ("7. Time Zone", "Nowhere/Land");
    assert_eq!(parsing_message(&body(&fields)), "error parsing time zone");
    let mut fields = euro_dollar();
    fields[5] = ("6. Last Refreshed", "2018-06-23 25:27:49");
    assert_eq!(parsing_message(&body(&fields)), "error parsing datetime");
}

#[test]
fn exchange_rate_error_envelope() {
    match exchange_rate::parse(b"{\"Error Message\": \"Invalid API call.\"}") {
        Err(Error::APIError(m)) => assert_eq!(m, "Invalid API call."),
        other => panic!("expected an API error, got {:?}", other),
    }
}

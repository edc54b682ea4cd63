//! Errors reported by the parsers and by the client around them.
use vstd::prelude::*;

verus! {

/// Set of errors which can occur when calling the API.
#[derive(Debug)]
pub enum Error {
    /// Error establishing a network connection.
    ConnectionError(String),
    /// HTTP error returned by the API.
    ServerError(u16),
    /// Error parsing the API response.
    ParsingError(String),
    /// Error returned by the API.
    APIError(String),
}

/// The mathematical value of an [`Error`]: its kind and its message.
pub enum ErrorView {
    Connection(Seq<char>),
    Server(u16),
    Parsing(Seq<char>),
    Api(Seq<char>),
}

impl View for Error {
    type V = ErrorView;

    open spec fn view(&self) -> ErrorView {
        match self {
            Error::ConnectionError(m) => ErrorView::Connection(m@),
            Error::ServerError(c) => ErrorView::Server(*c),
            Error::ParsingError(m) => ErrorView::Parsing(m@),
            Error::APIError(m) => ErrorView::Api(m@),
        }
    }
}

/// The view of a parse result: the view of the value, or that of the error.
pub open spec fn result_view<T: View>(r: Result<T, Error>) -> Result<T::V, ErrorView> {
    match r {
        Ok(v) => Ok(v@),
        Err(e) => Err(e@),
    }
}

/// A parsing error with the given message.
pub fn parsing_error(message: &str) -> (e: Error)
    ensures
        e@ == ErrorView::Parsing(message@),
{
    Error::ParsingError(String::from_str(message))
}

/// The decimal digits of `n`.
pub open spec fn decimal(n: nat) -> Seq<char>
    decreases n,
{
    if n < 10 {
        seq![digit_char(n)]
    } else {
        decimal(n / 10).push(digit_char(n % 10))
    }
}

pub open spec fn digit_char(d: nat) -> char {
    seq!['0', '1', '2', '3', '4', '5', '6', '7', '8', '9'][d as int]
}

/// The digit `d`, below ten, as text.
fn digit_text(d: u16) -> (r: &'static str)
    requires
        d < 10,
    ensures
        r@ == seq![digit_char(d as nat)],
{
    proof {
        reveal_strlit("0");
        reveal_strlit("1");
        reveal_strlit("2");
        reveal_strlit("3");
        reveal_strlit("4");
        reveal_strlit("5");
        reveal_strlit("6");
        reveal_strlit("7");
        reveal_strlit("8");
        reveal_strlit("9");
    }
    let r = match d {
        0 => "0",
        1 => "1",
        2 => "2",
        3 => "3",
        4 => "4",
        5 => "5",
        6 => "6",
        7 => "7",
        8 => "8",
        _ => "9",
    };
    assert(r@ =~= seq![digit_char(d as nat)]);
    r
}

/// `n` written in decimal.
pub fn decimal_text(n: u16) -> (r: String)
    ensures
        r@ == decimal(n as nat),
    decreases n,
{
    if n < 10 {
        String::from_str(digit_text(n))
    } else {
        let r = decimal_text(n / 10).concat(digit_text(n % 10));
        assert(r@ =~= decimal((n / 10) as nat).push(digit_char((n % 10) as nat)));
        r
    }
}

impl Error {
    /// The text that describes this error to a person.
    pub fn to_string(&self) -> (s: String)
        ensures
            s@ == match self@ {
                ErrorView::Connection(m) => "connection error: "@ + m,
                ErrorView::Server(c) => "server returned HTTP status code "@ + decimal(c as nat),
                ErrorView::Parsing(m) => "parsing error: "@ + m,
                ErrorView::Api(m) => "API error: "@ + m,
            },
    {
        match self {
            Error::ConnectionError(m) => String::from_str("connection error: ").concat(m.as_str()),
            Error::ServerError(c) => {
                let code = decimal_text(*c);
                String::from_str("server returned HTTP status code ").concat(code.as_str())
            },
            Error::ParsingError(m) => String::from_str("parsing error: ").concat(m.as_str()),
            Error::APIError(m) => String::from_str("API error: ").concat(m.as_str()),
        }
    }
}

} // verus!

use vstd::prelude::*;
use vstd::string::StringExecFns;

verus! {

/// The failure kinds of the library and of the surrounding process.
///
/// Each variant carries a human-readable detail message.
/// - `SourceUnavailable`: the news API could not be reached or answered with
///   an HTTP-level failure.
/// - `SourceMalformed`: the API answered, but the JSON body is missing an
///   expected field or has a wrong type.
/// - `ParseFailure`: a timestamp or URL inside an otherwise well-formed
///   payload could not be parsed.
/// - `DeliveryFailure`: the webhook POST failed.
#[derive(Debug)]
pub enum Error {
    SourceUnavailable(String),
    SourceMalformed(String),
    ParseFailure(String),
    DeliveryFailure(String),
}

impl Error {
    /// The detail message carried by the error.
    pub fn detail(&self) -> (r: &String)
        ensures
            r@ == self.detail_spec(),
    {
        match self {
            Error::SourceUnavailable(m) => m,
            Error::SourceMalformed(m) => m,
            Error::ParseFailure(m) => m,
            Error::DeliveryFailure(m) => m,
        }
    }

    /// The view of the detail message, for contracts.
    pub open spec fn detail_spec(&self) -> Seq<char> {
        match self {
            Error::SourceUnavailable(m) => m@,
            Error::SourceMalformed(m) => m@,
            Error::ParseFailure(m) => m@,
            Error::DeliveryFailure(m) => m@,
        }
    }

    /// A one-line rendering of the error: a kind label followed by the detail.
    pub fn describe(&self) -> (r: String)
        ensures
            r@ == self.describe_spec(),
    {
        let mut out = match self {
            Error::SourceUnavailable(_) => String::from_str("source unavailable: "),
            Error::SourceMalformed(_) => String::from_str("source malformed: "),
            Error::ParseFailure(_) => String::from_str("parse failure: "),
            Error::DeliveryFailure(_) => String::from_str("delivery failure: "),
        };
        out.append(self.detail().as_str());
        out
    }

    /// What `describe` returns: the kind's label, then the detail message.
    pub open spec fn describe_spec(&self) -> Seq<char> {
        match self {
            Error::SourceUnavailable(m) => "source unavailable: "@ + m@,
            Error::SourceMalformed(m) => "source malformed: "@ + m@,
            Error::ParseFailure(m) => "parse failure: "@ + m@,
            Error::DeliveryFailure(m) => "delivery failure: "@ + m@,
        }
    }
}

} // verus!

//! The closed error taxonomy shared by every stage of the retrieval pipeline.

use vstd::prelude::*;

verus! {

/// Represents errors that can occur while fetching listings.
///
/// Every failure of a retrieval call is exactly one of these kinds; no kind
/// is ever retried inside the pipeline, each propagates unchanged to the
/// caller.
#[derive(Debug, Clone)]
pub enum FetchListingsError {
    /// An underlying transport or protocol failure, carrying its message.
    RequestError(String),
    /// A page fetch exceeded its configured time budget.
    TimeoutError,
    /// Session bootstrap could not obtain the anti-forgery token.
    CsrfTokenError(String),
    /// A response envelope was malformed, empty, or carried a
    /// server-reported error list.
    ParseError(String),
}

/// The mathematical model of a [`FetchListingsError`]: the same four kinds,
/// with each diagnostic message abstracted to its character sequence.
pub enum ErrorModel {
    Request(Seq<char>),
    Timeout,
    Csrf(Seq<char>),
    Parse(Seq<char>),
}

impl View for FetchListingsError {
    type V = ErrorModel;

    open spec fn view(&self) -> ErrorModel {
        match self {
            FetchListingsError::RequestError(m) => ErrorModel::Request(m@),
            FetchListingsError::TimeoutError => ErrorModel::Timeout,
            FetchListingsError::CsrfTokenError(m) => ErrorModel::Csrf(m@),
            FetchListingsError::ParseError(m) => ErrorModel::Parse(m@),
        }
    }
}

/// The human-readable message for an error, one line per kind.
pub open spec fn message_model(e: ErrorModel) -> Seq<char> {
    match e {
        ErrorModel::Request(m) => "Request error: "@ + m,
        ErrorModel::Timeout => "Request timed out"@,
        ErrorModel::Csrf(m) => "CSRF token error: "@ + m,
        ErrorModel::Parse(m) => "Parse error: "@ + m,
    }
}

impl FetchListingsError {
    /// A short human-readable description of the failure.
    pub fn message(&self) -> (r: String)
        ensures
            r@ == message_model(self@),
    {
        match self {
            FetchListingsError::RequestError(m) => {
                String::from_str("Request error: ").concat(m.as_str())
            },
            FetchListingsError::TimeoutError => String::from_str("Request timed out"),
            FetchListingsError::CsrfTokenError(m) => {
                String::from_str("CSRF token error: ").concat(m.as_str())
            },
            FetchListingsError::ParseError(m) => {
                String::from_str("Parse error: ").concat(m.as_str())
            },
        }
    }
}

} // verus!

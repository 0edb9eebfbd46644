//! Backend errors, with the message shown to visitors and the one kept for
//! the operator.
use vstd::prelude::*;

use crate::text::{concat, decimal, decimal_string, lemma_decimal_is_digits, push_str, to_owned};

verus! {

/// `std::io::Error`, carried through as an opaque value.
#[verifier::external_type_specification]
#[verifier::external_body]
pub struct ExIoError(std::io::Error);

/// `reqwest::Error`, carried through as an opaque value.
#[verifier::external_type_specification]
#[verifier::external_body]
pub struct ExReqwestError(reqwest::Error);

/// `roxmltree::Error`, carried through as an opaque value.
#[verifier::external_type_specification]
#[verifier::external_body]
pub struct ExXmlError(roxmltree::Error);

/// `serde_json::Error`, carried through as an opaque value.
#[verifier::external_type_specification]
#[verifier::external_body]
pub struct ExJsonError(serde_json::Error);

/// `url::ParseError`, carried through as an opaque value.
#[verifier::external_type_specification]
#[verifier::external_body]
pub struct ExUrlParseError(url::ParseError);

/// Everything that can go wrong while loading configuration or refreshing
/// a source. `path` fields hold the path as it is displayed.
#[derive(Debug)]
pub enum BackendError {
    SecretFileRead { label: &'static str, path: String, source: std::io::Error },
    EmptySecret { label: &'static str, path: String },
    Request(RequestFailure),
    Xml(roxmltree::Error),
    Json(serde_json::Error),
    Date(chrono::ParseError),
    Url(url::ParseError),
    MissingField(&'static str),
    NoCachedData,
    ClientBuild(reqwest::Error),
}

/// How an upstream request failed, as the library reads it: whether it
/// timed out, the HTTP status it was answered with (when it was), and the
/// failure's full text for the operator (the `Display` of the HTTP
/// client's error, which may hold the request's URL).
#[derive(Clone, Debug, PartialEq, Eq)]
pub struct RequestFailure {
    pub timed_out: bool,
    pub status: Option<u16>,
    pub detail: String,
}

/// The body of an API error response.
#[derive(Clone, Debug, PartialEq, Eq)]
pub struct ApiError {
    pub error: String,
}

/// The public text for a failed upstream request that timed out
/// (`timed_out`) or was answered with the HTTP status `status`.
pub open spec fn request_failure_text(timed_out: bool, status: Option<u16>) -> Seq<char> {
    if timed_out {
        "upstream request timed out"@
    } else if let Some(code) = status {
        "upstream request failed with status "@ + decimal(code as nat)
    } else {
        "upstream request failed"@
    }
}

/// The public text of a failed request never holds a `:`, so it never
/// repeats the request's URL, which holds one after its scheme.
pub proof fn lemma_request_text_holds_no_url(timed_out: bool, status: Option<u16>)
    ensures
        !request_failure_text(timed_out, status).contains(':'),
{
    reveal_strlit("upstream request timed out");
    reveal_strlit("upstream request failed with status ");
    reveal_strlit("upstream request failed");
    let text = request_failure_text(timed_out, status);
    if !timed_out {
        if let Some(code) = status {
            lemma_decimal_is_digits(code as nat);
            let head = "upstream request failed with status "@;
            assert forall|i: int| 0 <= i < text.len() implies text[i] != ':' by {
                if i >= head.len() {
                    assert(text[i] == decimal(code as nat)[i - head.len()]);
                }
            }
        }
    }
}

/// The public text of an error: what a visitor is shown.
pub open spec fn public_text(err: BackendError) -> Seq<char> {
    match err {
        BackendError::SecretFileRead { label, path, .. } => "failed to read "@ + label@
            + " from "@ + path@,
        BackendError::EmptySecret { label, path } => label@ + " file at "@ + path@
            + " is empty"@,
        BackendError::Request(f) => request_failure_text(f.timed_out, f.status),
        BackendError::Xml(_) | BackendError::Json(_) | BackendError::Date(_)
        | BackendError::Url(_) | BackendError::MissingField(_) => "upstream response could not be parsed"@,
        BackendError::NoCachedData => "no cached data is available after refresh failed"@,
        BackendError::ClientBuild(_) => "failed to build HTTP client"@,
    }
}

/// `text` is the public text of `err`.
pub open spec fn is_public_message(err: BackendError, text: Seq<char>) -> bool {
    text == public_text(err)
}

/// The operator's message for `err` up to the underlying error's own text.
pub open spec fn diagnostic_prefix(err: BackendError) -> Seq<char> {
    match err {
        BackendError::SecretFileRead { label, path, .. } => "failed to read "@ + label@
            + " from "@ + path@ + ": "@,
        BackendError::EmptySecret { label, path } => label@ + " file at "@ + path@
            + " is empty"@,
        BackendError::Request(_) => "request failed: "@,
        BackendError::Xml(_) => "xml parse failed: "@,
        BackendError::Json(_) => "json parse failed: "@,
        BackendError::Date(_) => "date parse failed: "@,
        BackendError::Url(_) => "url parse failed: "@,
        BackendError::MissingField(field) => "upstream data is missing "@ + field@,
        BackendError::NoCachedData => "no cached data is available after refresh failed"@,
        BackendError::ClientBuild(_) => "failed to build HTTP client: "@,
    }
}

/// `d` is what the `Display` of the wrapped error `e` writes (as
/// `to_string` gives it).
#[verifier::inline]
pub open spec fn shows<T: core::fmt::Display>(e: T, d: String) -> bool {
    vstd::string::to_string_from_display_ensures::<T>(&e, d)
}

/// `text` is the operator's message for `err`: [`diagnostic_prefix`],
/// followed, for an error that wraps another, by the wrapped error's own
/// text.
pub open spec fn is_diagnostic_message(err: BackendError, text: Seq<char>) -> bool {
    match err {
        BackendError::SecretFileRead { source, .. } => exists|d: String|
            #[trigger] shows(source, d) && text == diagnostic_prefix(err) + d@,
        BackendError::Request(f) => text == diagnostic_prefix(err) + f.detail@,
        BackendError::ClientBuild(e) => exists|d: String|
            #[trigger] shows(e, d) && text == diagnostic_prefix(err) + d@,
        BackendError::Xml(e) => exists|d: String|
            #[trigger] shows(e, d) && text == diagnostic_prefix(err) + d@,
        BackendError::Json(e) => exists|d: String|
            #[trigger] shows(e, d) && text == diagnostic_prefix(err) + d@,
        BackendError::Date(e) => exists|d: String|
            #[trigger] shows(e, d) && text == diagnostic_prefix(err) + d@,
        BackendError::Url(e) => exists|d: String|
            #[trigger] shows(e, d) && text == diagnostic_prefix(err) + d@,
        _ => text == diagnostic_prefix(err),
    }
}

/// The HTTP status an error is answered with: 500 for local failures
/// (secrets, client construction), 502 for upstream ones.
pub open spec fn status_of(err: BackendError) -> u16 {
    match err {
        BackendError::SecretFileRead { .. } | BackendError::EmptySecret { .. }
        | BackendError::ClientBuild(_) => 500,
        _ => 502,
    }
}

/// The public text for a failed request, from how it failed.
pub fn request_failure_message(timed_out: bool, status: Option<u16>) -> (res: String)
    ensures
        res@ == request_failure_text(timed_out, status),
{
    if timed_out {
        to_owned("upstream request timed out")
    } else if let Some(code) = status {
        let mut s = to_owned("upstream request failed with status ");
        let digits = decimal_string(code as u64);
        push_str(&mut s, digits.as_str());
        s
    } else {
        to_owned("upstream request failed")
    }
}

/// The public text for a failed request: it tells a timeout, an HTTP
/// status, or neither, and never repeats the request's URL.
pub fn public_request_error(err: &RequestFailure) -> (res: String)
    ensures
        res@ == request_failure_text(err.timed_out, err.status),
{
    request_failure_message(err.timed_out, err.status)
}

impl BackendError {
    /// The message shown to visitors.
    pub fn public_message(&self) -> (res: String)
        ensures
            is_public_message(*self, res@),
    {
        match self {
            BackendError::SecretFileRead { label, path, .. } => {
                let mut s = concat("failed to read ", label);
                push_str(&mut s, " from ");
                push_str(&mut s, path.as_str());
                s
            },
            BackendError::EmptySecret { label, path } => {
                let mut s = concat(label, " file at ");
                push_str(&mut s, path.as_str());
                push_str(&mut s, " is empty");
                s
            },
            BackendError::Request(err) => public_request_error(err),
            BackendError::Xml(_) | BackendError::Json(_) | BackendError::Date(_)
            | BackendError::Url(_) | BackendError::MissingField(_) => to_owned(
                "upstream response could not be parsed",
            ),
            BackendError::NoCachedData => to_owned(
                "no cached data is available after refresh failed",
            ),
            BackendError::ClientBuild(_) => to_owned("failed to build HTTP client"),
        }
    }

    /// The full message, for the operator's logs and notifications: the
    /// same text the error's `Display` writes, with the underlying error's
    /// own message where there is one.
    pub fn diagnostic_message(&self) -> (res: String)
        ensures
            is_diagnostic_message(*self, res@),
    {
        match self {
            BackendError::SecretFileRead { label, path, source } => {
                let mut s = concat("failed to read ", label);
                push_str(&mut s, " from ");
                push_str(&mut s, path.as_str());
                push_str(&mut s, ": ");
                let detail = source.to_string();
                push_str(&mut s, detail.as_str());
                assert(s@ =~= diagnostic_prefix(*self) + detail@);
                s
            },
            BackendError::EmptySecret { label, path } => {
                let mut s = concat(label, " file at ");
                push_str(&mut s, path.as_str());
                push_str(&mut s, " is empty");
                s
            },
            BackendError::Request(failure) => concat("request failed: ", failure.detail.as_str()),
            BackendError::Xml(err) => {
                let detail = err.to_string();
                concat("xml parse failed: ", detail.as_str())
            },
            BackendError::Json(err) => {
                let detail = err.to_string();
                concat("json parse failed: ", detail.as_str())
            },
            BackendError::Date(err) => {
                let detail = err.to_string();
                concat("date parse failed: ", detail.as_str())
            },
            BackendError::Url(err) => {
                let detail = err.to_string();
                concat("url parse failed: ", detail.as_str())
            },
            BackendError::MissingField(field) => concat("upstream data is missing ", field),
            BackendError::NoCachedData => to_owned(
                "no cached data is available after refresh failed",
            ),
            BackendError::ClientBuild(err) => {
                let detail = err.to_string();
                concat("failed to build HTTP client: ", detail.as_str())
            },
        }
    }

    /// The HTTP status the error is answered with.
    pub fn status_code(&self) -> (res: u16)
        ensures
            res == status_of(*self),
    {
        match self {
            BackendError::SecretFileRead { .. } | BackendError::EmptySecret { .. } => 500,
            BackendError::ClientBuild(_) => 500,
            BackendError::NoCachedData | BackendError::Request(_) => 502,
            BackendError::Xml(_) | BackendError::Json(_) | BackendError::Date(_)
            | BackendError::Url(_) | BackendError::MissingField(_) => 502,
        }
    }

    /// The API response body for the error.
    pub fn api_error(&self) -> (res: ApiError)
        ensures
            is_public_message(*self, res.error@),
    {
        ApiError { error: self.public_message() }
    }
}

} // verus!

use reqwest::ResponseBuilderExt;
use wyattwtf::server::error::{public_request_error, request_failure_message, BackendError, RequestFailure};

fn failure_of(err: &reqwest::Error) -> RequestFailure {
    RequestFailure {
        timed_out: err.is_timeout(),
        status: err.status().map(|status| status.as_u16()),
        detail: err.to_string(),
    }
}

#[test]
fn request_public_message_does_not_include_secret_url() {
    let upstream = http::Response::builder()
        .status(500)
        .url(reqwest::Url::parse("http://127.0.0.1:8080/feed?key=secret").unwrap())
        .body(String::new())
        .unwrap();
    let response = reqwest::Response::from(upstream);
    let err = response.error_for_status().unwrap_err();
    let failure = failure_of(&err);
    assert_eq!(public_request_error(&failure), "upstream request failed with status 500");

    let message = BackendError::Request(failure).public_message();

    assert_eq!(message, "upstream request failed with status 500");
    assert!(!message.contains("secret"));
    assert!(!message.contains("key="));
}

#[test]
fn request_failure_messages() {
    assert_eq!(request_failure_message(true, Some(504)), "upstream request timed out");
    assert_eq!(request_failure_message(false, Some(404)), "upstream request failed with status 404");
    assert_eq!(request_failure_message(false, None), "upstream request failed");
}

#[test]
fn public_and_diagnostic_messages() {
    let missing = BackendError::MissingField("title");
    assert_eq!(missing.public_message(), "upstream response could not be parsed");
    assert_eq!(missing.diagnostic_message(), "upstream data is missing title");
    assert_eq!(missing.status_code(), 502);
    assert_eq!(BackendError::NoCachedData.public_message(), "no cached data is available after refresh failed");
    assert_eq!(BackendError::NoCachedData.status_code(), 502);
    let empty = BackendError::EmptySecret { label: "Last.fm API key", path: "/run/key".to_string() };
    assert_eq!(empty.diagnostic_message(), "Last.fm API key file at /run/key is empty");
    assert_eq!(empty.status_code(), 500);
    assert_eq!(empty.api_error().error, "Last.fm API key file at /run/key is empty");
    let xml = roxmltree::Document::parse("<a>").unwrap_err();
    let shown = xml.to_string();
    let err = BackendError::Xml(xml);
    assert_eq!(err.public_message(), "upstream response could not be parsed");
    assert_eq!(err.diagnostic_message(), format!("xml parse failed: {shown}"));
}

#[test]
fn request_messages_follow_timeout_and_status_only() {
    let timed_out = RequestFailure { timed_out: true, status: None, detail: "http://a/?key=1".to_string() };
    let failure = |status| RequestFailure { timed_out: false, status, detail: "http://b/?key=2".to_string() };
    assert_eq!(BackendError::Request(timed_out).public_message(), "upstream request timed out");
    assert_eq!(BackendError::Request(failure(Some(404))).public_message(), "upstream request failed with status 404");
    assert_eq!(BackendError::Request(failure(None)).public_message(), "upstream request failed");
    let err = BackendError::Request(failure(Some(503)));
    assert_eq!(err.diagnostic_message(), "request failed: http://b/?key=2");
    assert_eq!(err.status_code(), 502);
    assert_eq!(err.api_error().error, "upstream request failed with status 503");
}

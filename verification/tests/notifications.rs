use wyattwtf::models::{Source, UtcTime};
use wyattwtf::server::error::BackendError;
use wyattwtf::server::notifications::{failure_email, failure_subject, failure_text, source_index, source_name, OutageTracker};

#[test]
fn sends_resend_email_for_source_failure() {
    let email = failure_email(
        Source::Goodreads,
        UtcTime { seconds: 1_777_723_200, nanos: 0 },
        &BackendError::MissingField("title").diagnostic_message(),
    )
    .unwrap();
    assert!(email.subject.contains("Goodreads source refresh failed"));
    assert_eq!(email.subject, "[wyatt.wtf] Goodreads source refresh failed");
    assert!(email.text.contains("upstream data is missing title"));
    assert_eq!(
        email.text,
        "The Goodreads activity source failed to refresh at 2026-05-02T12:00:00+00:00.\n\nupstream data is missing title"
    );
}

#[test]
fn sends_once_per_source_outage_and_resets_after_recovery() {
    let mut tracker = OutageTracker::new();
    let mut sent = 0;
    if tracker.begin_outage(Source::Letterboxd) {
        sent += 1;
    }
    if tracker.begin_outage(Source::Letterboxd) {
        sent += 1;
    }
    tracker.report_recovery(Source::Letterboxd);
    if tracker.begin_outage(Source::Letterboxd) {
        sent += 1;
    }
    assert_eq!(sent, 2);
}

#[test]
fn outages_are_tracked_per_source() {
    let mut tracker = OutageTracker::new();
    assert!(tracker.begin_outage(Source::Lastfm));
    assert!(tracker.begin_outage(Source::Goodreads));
    assert!(!tracker.begin_outage(Source::Lastfm));
    let mut quiet = OutageTracker::suppress_all();
    assert!(!quiet.begin_outage(Source::Letterboxd));
}

#[test]
fn source_names_and_indices() {
    assert_eq!(source_index(Source::Letterboxd), 0);
    assert_eq!(source_index(Source::Goodreads), 1);
    assert_eq!(source_index(Source::Lastfm), 2);
    assert_eq!(source_name(Source::Lastfm), "Last.fm");
    assert_eq!(failure_subject(Source::Lastfm), "[wyatt.wtf] Last.fm source refresh failed");
    assert_eq!(failure_text(Source::Letterboxd, "then", "why"), "The Letterboxd activity source failed to refresh at then.\n\nwhy");
}

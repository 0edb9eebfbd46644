//! Deciding when the operator is told about a failing source: once per
//! outage, again only after the source has recovered.
use vstd::prelude::*;

use crate::models::{Source, UtcTime};
use crate::text::{concat, push_str};
use crate::time::{format_rfc3339, rfc3339_text};

verus! {

/// The position of a source in per-source tables.
pub open spec fn source_index_spec(source: Source) -> int {
    match source {
        Source::Letterboxd => 0,
        Source::Goodreads => 1,
        Source::Lastfm => 2,
    }
}

/// The position of a source in per-source tables.
pub fn source_index(source: Source) -> (res: usize)
    ensures
        res == source_index_spec(source),
{
    match source {
        Source::Letterboxd => 0,
        Source::Goodreads => 1,
        Source::Lastfm => 2,
    }
}

/// The name of a source in notifications.
pub open spec fn source_name_spec(source: Source) -> Seq<char> {
    match source {
        Source::Letterboxd => "Letterboxd"@,
        Source::Goodreads => "Goodreads"@,
        Source::Lastfm => "Last.fm"@,
    }
}

/// The name of a source in notifications.
pub fn source_name(source: Source) -> (res: &'static str)
    ensures
        res@ == source_name_spec(source),
{
    match source {
        Source::Letterboxd => "Letterboxd",
        Source::Goodreads => "Goodreads",
        Source::Lastfm => "Last.fm",
    }
}

/// Which sources are in an outage the operator has been told about.
#[derive(Clone, Copy, Debug, PartialEq, Eq)]
pub struct OutageTracker {
    failing: [bool; 3],
}

/// The outage state after a failure of `source`, and whether that failure
/// begins an outage (so that the operator is to be told).
pub open spec fn begin_outage_spec(failing: Seq<bool>, source: Source) -> (Seq<bool>, bool) {
    (failing.update(source_index_spec(source), true), !failing[source_index_spec(source)])
}

/// The outage state after `source` refreshed again.
pub open spec fn recovery_spec(failing: Seq<bool>, source: Source) -> Seq<bool> {
    failing.update(source_index_spec(source), false)
}

impl OutageTracker {
    /// The outage state, one flag per source in [`source_index`] order.
    pub closed spec fn failing(self) -> Seq<bool> {
        self.failing@
    }

    /// No source is in an outage.
    pub fn new() -> (res: OutageTracker)
        ensures
            res.failing().len() == 3,
            res.failing() == seq![false, false, false],
    {
        let res = OutageTracker { failing: [false, false, false] };
        assert(res.failing@ =~= seq![false, false, false]);
        res
    }

    /// Every source is taken to be in an outage already, so that no
    /// failure is notified.
    pub fn suppress_all() -> (res: OutageTracker)
        ensures
            res.failing().len() == 3,
            res.failing() == seq![true, true, true],
    {
        let res = OutageTracker { failing: [true, true, true] };
        assert(res.failing@ =~= seq![true, true, true]);
        res
    }

    /// Records a failure of `source`; `true` when it begins an outage.
    pub fn begin_outage(&mut self, source: Source) -> (res: bool)
        ensures
            old(self).failing().len() == 3,
            final(self).failing().len() == 3,
            (final(self).failing(), res) == begin_outage_spec(old(self).failing(), source),
    {
        let i = source_index(source);
        let was_failing = self.failing[i];
        self.failing.set(i, true);
        !was_failing
    }

    /// Records that `source` refreshed again.
    pub fn report_recovery(&mut self, source: Source)
        ensures
            old(self).failing().len() == 3,
            final(self).failing().len() == 3,
            final(self).failing() == recovery_spec(old(self).failing(), source),
    {
        let i = source_index(source);
        self.failing.set(i, false);
    }
}

/// A tracker holds one flag per source.
pub proof fn lemma_one_flag_per_source(tracker: OutageTracker)
    ensures
        tracker.failing().len() == 3,
{
}

/// The operator is told once per outage: a second failure of the same
/// source is not notified, until the source recovers, after which the
/// next failure is notified again; the other sources are not affected.
pub proof fn lemma_one_notice_per_outage(failing: Seq<bool>, source: Source, other: Source)
    requires
        failing.len() == 3,
        other != source,
    ensures
        ({
            let (after_first, _) = begin_outage_spec(failing, source);
            let (after_second, second_notice) = begin_outage_spec(after_first, source);
            let recovered = recovery_spec(after_second, source);
            &&& !second_notice
            &&& begin_outage_spec(recovered, source).1
            &&& after_first[source_index_spec(other)] == failing[source_index_spec(other)]
            &&& recovered[source_index_spec(other)] == failing[source_index_spec(other)]
        }),
{
}

/// The subject of the notification that `source` failed.
pub open spec fn failure_subject_spec(source: Source) -> Seq<char> {
    "[wyatt.wtf] "@ + source_name_spec(source) + " source refresh failed"@
}

/// The body of the notification that `source` failed at the time written
/// `at`, with the operator's message `diagnostic`.
pub open spec fn failure_text_spec(source: Source, at: Seq<char>, diagnostic: Seq<char>) -> Seq<
    char,
> {
    "The "@ + source_name_spec(source) + " activity source failed to refresh at "@ + at
        + ".\n\n"@ + diagnostic
}

/// A notification email.
#[derive(Clone, Debug, PartialEq, Eq)]
pub struct FailureEmail {
    pub subject: String,
    pub text: String,
}

/// The subject of the notification that `source` failed.
pub fn failure_subject(source: Source) -> (res: String)
    ensures
        res@ == failure_subject_spec(source),
{
    let mut s = concat("[wyatt.wtf] ", source_name(source));
    push_str(&mut s, " source refresh failed");
    s
}

/// The body of the notification that `source` failed at `at`.
pub fn failure_text(source: Source, at: &str, diagnostic: &str) -> (res: String)
    ensures
        res@ == failure_text_spec(source, at@, diagnostic@),
{
    let mut s = concat("The ", source_name(source));
    push_str(&mut s, " activity source failed to refresh at ");
    push_str(&mut s, at);
    push_str(&mut s, ".\n\n");
    push_str(&mut s, diagnostic);
    s
}

/// The notification that `source` failed at `failed_at`, carrying the
/// operator's message `diagnostic`; `None` only when the time cannot be
/// written.
pub fn failure_email(source: Source, failed_at: UtcTime, diagnostic: &str) -> (res: Option<
    FailureEmail,
>)
    ensures
        match rfc3339_text(failed_at.seconds as int, failed_at.nanos as int) {
            Some(at) => res matches Some(email) && email.subject@ == failure_subject_spec(source)
                && email.text@ == failure_text_spec(source, at, diagnostic@),
            None => res is None,
        },
{
    match format_rfc3339(failed_at) {
        Some(at) => Some(
            FailureEmail {
                subject: failure_subject(source),
                text: failure_text(source, at.as_str(), diagnostic),
            },
        ),
        None => None,
    }
}

} // verus!

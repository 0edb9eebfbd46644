//! What the home page shows: the titles, labels and status line of the
//! feed, and the choice of sources a visitor filters by.
use vstd::prelude::*;

use crate::models::{Activity, ActivityDetails, ActivityFeed, Source, UtcTime};
use crate::text::{decimal, decimal_string, push_str, to_owned};
use crate::time::{format_utc, strftime_text};

pub mod details;

verus! {

/// Which sources the visitor wants to see.
#[derive(Clone, Copy, Debug, PartialEq, Eq, Structural)]
pub struct SourceFilters {
    pub lastfm: bool,
    pub goodreads: bool,
    pub letterboxd: bool,
}

/// The filters let `source` through.
pub open spec fn includes_spec(filters: SourceFilters, source: Source) -> bool {
    match source {
        Source::Letterboxd => filters.letterboxd,
        Source::Goodreads => filters.goodreads,
        Source::Lastfm => filters.lastfm,
    }
}

impl SourceFilters {
    /// Every source shown.
    pub fn all() -> (res: SourceFilters)
        ensures
            forall|s: Source| includes_spec(res, s),
    {
        SourceFilters { lastfm: true, goodreads: true, letterboxd: true }
    }

    /// Whether `source` is shown.
    pub fn includes(self, source: Source) -> (res: bool)
        ensures
            res == includes_spec(self, source),
    {
        match source {
            Source::Letterboxd => self.letterboxd,
            Source::Goodreads => self.goodreads,
            Source::Lastfm => self.lastfm,
        }
    }

    /// Shows or hides `source`, leaving the others as they are.
    pub fn set_source(&mut self, source: Source, enabled: bool)
        ensures
            includes_spec(*final(self), source) == enabled,
            forall|s: Source| s != source ==> includes_spec(*final(self), s) == includes_spec(*old(self), s),
    {
        match source {
            Source::Letterboxd => self.letterboxd = enabled,
            Source::Goodreads => self.goodreads = enabled,
            Source::Lastfm => self.lastfm = enabled,
        }
    }
}

/// The activities among `items[..n]` that the filters let through.
pub open spec fn filtered_upto(items: Seq<Activity>, filters: SourceFilters, n: int) -> Seq<Activity>
    decreases n,
{
    if n <= 0 || n > items.len() {
        Seq::empty()
    } else if includes_spec(filters, items[n - 1].source) {
        filtered_upto(items, filters, n - 1).push(items[n - 1])
    } else {
        filtered_upto(items, filters, n - 1)
    }
}

/// The activities the filters let through, in order.
pub open spec fn filtered_spec(items: Seq<Activity>, filters: SourceFilters) -> Seq<Activity> {
    filtered_upto(items, filters, items.len() as int)
}

/// The activities the filters let through, in order.
pub fn filtered_activities(items: &[Activity], filters: SourceFilters) -> (res: Vec<Activity>)
    ensures
        res@ == filtered_spec(items@, filters),
{
    let mut out: Vec<Activity> = Vec::new();
    let mut i: usize = 0;
    while i < items.len()
        invariant
            i <= items@.len(),
            out@ == filtered_upto(items@, filters, i as int),
        decreases items.len() - i,
    {
        if filters.includes(items[i].source) {
            out.push(items[i].clone());
        }
        i = i + 1;
    }
    out
}

/// With every source shown, nothing is filtered out.
pub proof fn lemma_all_filters_keep_everything(items: Seq<Activity>, filters: SourceFilters)
    requires
        forall|s: Source| includes_spec(filters, s),
    ensures
        filtered_spec(items, filters) == items,
{
    lemma_filtered_upto_all(items, filters, items.len() as int);
    assert(items.take(items.len() as int) =~= items);
}

proof fn lemma_filtered_upto_all(items: Seq<Activity>, filters: SourceFilters, n: int)
    requires
        0 <= n <= items.len(),
        forall|s: Source| includes_spec(filters, s),
    ensures
        filtered_upto(items, filters, n) == items.take(n),
    decreases n,
{
    if n > 0 {
        lemma_filtered_upto_all(items, filters, n - 1);
        assert(items.take(n) =~= items.take(n - 1).push(items[n - 1]));
    } else {
        assert(items.take(0) =~= Seq::<Activity>::empty());
    }
}

/// The label of a source.
pub open spec fn source_label_spec(source: Source) -> Seq<char> {
    match source {
        Source::Letterboxd => "Letterboxd"@,
        Source::Goodreads => "Goodreads"@,
        Source::Lastfm => "Last.fm"@,
    }
}

/// The label of a source.
pub fn source_label(source: Source) -> (res: &'static str)
    ensures
        res@ == source_label_spec(source),
{
    match source {
        Source::Letterboxd => "Letterboxd",
        Source::Goodreads => "Goodreads",
        Source::Lastfm => "Last.fm",
    }
}

/// The style class of a source's images.
pub open spec fn image_class_spec(source: Source) -> Seq<char> {
    match source {
        Source::Letterboxd => "activity-image--letterboxd"@,
        Source::Goodreads => "activity-image--goodreads"@,
        Source::Lastfm => "activity-image--lastfm"@,
    }
}

/// The style class of a source's images.
pub fn activity_image_class(source: Source) -> (res: &'static str)
    ensures
        res@ == image_class_spec(source),
{
    match source {
        Source::Letterboxd => "activity-image--letterboxd",
        Source::Goodreads => "activity-image--goodreads",
        Source::Lastfm => "activity-image--lastfm",
    }
}

/// The title shown for an activity: a film's title with its year, when
/// known, in parentheses.
pub open spec fn activity_title_spec(activity: Activity) -> Seq<char> {
    match activity.details {
        ActivityDetails::FilmWatch(watch) => match watch.year {
            Some(year) => activity.title@ + " ("@ + decimal(year as nat) + ")"@,
            None => activity.title@,
        },
        _ => activity.title@,
    }
}

/// The title shown for a book or a track is the activity's own title; a
/// film's begins with it (the release year may follow).
pub proof fn lemma_title_shows_the_activity_title(activity: Activity)
    ensures
        !(activity.details is FilmWatch) ==> activity_title_spec(activity) == activity.title@,
        activity.title@.is_prefix_of(activity_title_spec(activity)),
        activity.details matches ActivityDetails::FilmWatch(w) && w.year is None
            ==> activity_title_spec(activity) == activity.title@,
{
    let t = activity_title_spec(activity);
    assert(activity.title@ =~= t.take(activity.title@.len() as int));
}

/// The title shown for an activity.
pub fn activity_title(activity: &Activity) -> (res: String)
    ensures
        res@ == activity_title_spec(*activity),
{
    match &activity.details {
        ActivityDetails::FilmWatch(watch) => match watch.year {
            Some(year) => {
                let mut s = activity.title.clone();
                push_str(&mut s, " (");
                let digits = decimal_string(year as u64);
                push_str(&mut s, digits.as_str());
                push_str(&mut s, ")");
                s
            },
            None => activity.title.clone(),
        },
        _ => activity.title.clone(),
    }
}

/// The labels of `sources`, joined by `, `.
pub open spec fn joined_labels(sources: Seq<Source>) -> Seq<char>
    decreases sources.len(),
{
    if sources.len() == 0 {
        Seq::empty()
    } else if sources.len() == 1 {
        source_label_spec(sources[0])
    } else {
        joined_labels(sources.drop_last()) + ", "@ + source_label_spec(sources.last())
    }
}

/// The status line above the feed: which sources are shown from a stale
/// cache, and how many sources failed; empty when neither.
pub open spec fn feed_status_spec(stale: Seq<Source>, error_count: nat) -> Seq<char> {
    let cached = "Showing cached data for "@ + joined_labels(stale) + "."@;
    let failed = decimal(error_count) + " source error"@ + (if error_count == 1 {
        ""@
    } else {
        "s"@
    }) + "."@;
    if stale.len() > 0 && error_count > 0 {
        cached + " "@ + failed
    } else if stale.len() > 0 {
        cached
    } else if error_count > 0 {
        failed
    } else {
        Seq::empty()
    }
}

/// The labels of `sources`, joined by `, `.
fn join_labels(sources: &Vec<Source>) -> (res: String)
    ensures
        res@ == joined_labels(sources@),
{
    let mut s = String::new();
    let mut i: usize = 0;
    while i < sources.len()
        invariant
            i <= sources@.len(),
            s@ == joined_labels(sources@.take(i as int)),
        decreases sources.len() - i,
    {
        let ghost prefix = sources@.take(i + 1);
        assert(prefix.drop_last() =~= sources@.take(i as int));
        if i > 0 {
            push_str(&mut s, ", ");
        } else {
            assert(joined_labels(sources@.take(0)) == Seq::<char>::empty());
            assert(Seq::<char>::empty() + source_label_spec(sources@[0]) =~= source_label_spec(
                sources@[0],
            ));
        }
        push_str(&mut s, source_label(sources[i]));
        i = i + 1;
    }
    assert(sources@.take(sources@.len() as int) =~= sources@);
    s
}

/// The status line above the feed.
pub fn feed_status(feed: &ActivityFeed) -> (res: String)
    ensures
        res@ == feed_status_spec(feed.stale_sources@, feed.errors@.len()),
{
    let has_stale = feed.stale_sources.len() > 0;
    let error_count = feed.errors.len();
    let mut cached = to_owned("Showing cached data for ");
    let labels = join_labels(&feed.stale_sources);
    push_str(&mut cached, labels.as_str());
    push_str(&mut cached, ".");
    let mut failed = decimal_string(error_count as u64);
    push_str(&mut failed, " source error");
    if error_count == 1 {
        push_str(&mut failed, "");
    } else {
        push_str(&mut failed, "s");
    }
    push_str(&mut failed, ".");
    if has_stale && error_count > 0 {
        push_str(&mut cached, " ");
        push_str(&mut cached, failed.as_str());
        cached
    } else if has_stale {
        cached
    } else if error_count > 0 {
        failed
    } else {
        String::new()
    }
}

/// The time of an activity as shown: `YYYY-MM-DD HH:MM UTC`. `None` only
/// for an instant outside chrono's range.
pub fn format_timestamp(timestamp: UtcTime) -> (res: Option<String>)
    ensures
        match (res, strftime_text(
            timestamp.seconds as int,
            timestamp.nanos as int,
            "%Y-%m-%d %H:%M UTC"@,
        )) {
            (Some(s), Some(t)) => s@ == t,
            (None, None) => true,
            _ => false,
        },
{
    format_utc(timestamp, "%Y-%m-%d %H:%M UTC")
}

} // verus!

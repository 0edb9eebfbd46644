//! Serving the sources: the per-source cache decisions, the limits, and the
//! merged activity feed.
use vstd::prelude::*;

use crate::models::{
    copy_opt, instant_nanos, later, Activity, ActivityDetails, ActivityFeed, GoodreadsBookUpdate,
    LastfmTrack, LetterboxdWatch, Source, SourceFailure, UtcTime,
};
use crate::server::error::{is_public_message, BackendError};

verus! {

/// How long Last.fm results stay fresh, in seconds.
pub const LASTFM_TTL_SECONDS: u64 = 60;

/// How long RSS results stay fresh, in seconds.
pub const RSS_TTL_SECONDS: u64 = 3600;

/// The most items a single-source endpoint returns.
pub const SOURCE_LIMIT_MAX: usize = 50;

/// The most items the merged feed returns.
pub const ACTIVITY_LIMIT_MAX: usize = 100;

/// The number of sources in the merged feed.
pub const ACTIVITY_SOURCE_COUNT: usize = 3;

/// What a source's cache holds: the items of the last successful refresh.
#[derive(Clone, Debug, PartialEq)]
pub struct Cached<T> {
    pub fetched_at: UtcTime,
    pub items: Vec<T>,
}

/// What serving a source gives: the items, when they were fetched, whether
/// they are stale (a refresh failed) and the public text of that failure.
#[derive(Clone, Debug, PartialEq)]
pub struct CachedResult<T> {
    pub fetched_at: UtcTime,
    pub stale: bool,
    pub error: Option<String>,
    pub items: Vec<T>,
}

/// The body of a single-source endpoint.
#[derive(Clone, Debug, PartialEq)]
pub struct SourceResponse<T> {
    pub source: Source,
    pub fetched_at: UtcTime,
    pub stale: bool,
    pub items: Vec<T>,
}

// ---------------------------------------------------------------------
// Limits
// ---------------------------------------------------------------------
/// The item count a single-source endpoint serves: 10 by default, at most
/// [`SOURCE_LIMIT_MAX`].
pub open spec fn source_limit_spec(limit: Option<usize>) -> usize {
    let asked: usize = match limit {
        Some(n) => n,
        None => 10,
    };
    if asked < SOURCE_LIMIT_MAX {
        asked
    } else {
        SOURCE_LIMIT_MAX
    }
}

/// The item count a single-source endpoint serves for the query `limit`.
pub fn source_limit(limit: Option<usize>) -> (res: usize)
    ensures
        res == source_limit_spec(limit),
{
    let asked = match limit {
        Some(n) => n,
        None => 10,
    };
    if asked < SOURCE_LIMIT_MAX {
        asked
    } else {
        SOURCE_LIMIT_MAX
    }
}

/// How many items each source may contribute to a feed of `limit` items:
/// a third of it, rounded up, and at least one.
pub open spec fn activity_source_limit_spec(limit: usize) -> int {
    let share = (limit as int + 2) / 3;
    if share > 1 {
        share
    } else {
        1
    }
}

/// How many items each source may contribute to a feed of `limit` items.
pub fn activity_source_limit(limit: usize) -> (res: usize)
    ensures
        res == activity_source_limit_spec(limit),
{
    let share = limit / ACTIVITY_SOURCE_COUNT + if limit % ACTIVITY_SOURCE_COUNT == 0 {
        0
    } else {
        1
    };
    if share > 1 {
        share
    } else {
        1
    }
}

// ---------------------------------------------------------------------
// The cache
// ---------------------------------------------------------------------
/// How long results fetched with the time-to-live `ttl_seconds` stay fresh,
/// in nanoseconds: the time-to-live, or chrono's longest duration when it
/// is longer.
pub open spec fn max_age_nanos(ttl_seconds: u64) -> int {
    if ttl_seconds <= 9223372036854775 {
        ttl_seconds * 1_000_000_000
    } else {
        9223372036854775807int * 1_000_000
    }
}

/// Results fetched at `fetched_at` are still fresh at `now`.
pub open spec fn is_fresh_spec(fetched_at: UtcTime, now: UtcTime, ttl_seconds: u64) -> bool {
    instant_nanos(now) - instant_nanos(fetched_at) < max_age_nanos(ttl_seconds)
}

/// Whether results fetched at `fetched_at` are still fresh at `now`.
pub fn is_fresh(fetched_at: UtcTime, now: UtcTime, ttl_seconds: u64) -> (res: bool)
    ensures
        res == is_fresh_spec(fetched_at, now, ttl_seconds),
{
    let age: i128 = (now.seconds as i128 - fetched_at.seconds as i128) * 1_000_000_000
        + (now.nanos as i128 - fetched_at.nanos as i128);
    let max_age: i128 = if ttl_seconds <= 9223372036854775 {
        ttl_seconds as i128 * 1_000_000_000
    } else {
        9223372036854775807i128 * 1_000_000
    };
    age < max_age
}

/// `b` holds clones of the items of `a`, in order.
pub open spec fn cloned_items<T: Clone>(a: Seq<T>, b: Seq<T>) -> bool {
    &&& b.len() == a.len()
    &&& forall|i: int| 0 <= i < a.len() ==> cloned::<T>(a[i], #[trigger] b[i])
}

/// Every clone of a `T` equals the value it was made from, as with the
/// records of the three sources (see [`lemma_records_clone_exactly`]).
pub open spec fn clones_exactly<T: Clone>() -> bool {
    forall|a: T, b: T| #[trigger] cloned::<T>(a, b) ==> a == b
}

/// Cloned items of a type that clones exactly are the items themselves.
pub proof fn lemma_cloned_items_equal<T: Clone>(a: Seq<T>, b: Seq<T>)
    requires
        clones_exactly::<T>(),
        cloned_items(a, b),
    ensures
        a == b,
{
    assert forall|i: int| 0 <= i < a.len() implies a[i] == b[i] by {
        assert(cloned::<T>(a[i], b[i]));
    }
    assert(a =~= b);
}

/// The records of the three sources clone exactly.
pub proof fn lemma_records_clone_exactly()
    ensures
        clones_exactly::<LetterboxdWatch>(),
        clones_exactly::<GoodreadsBookUpdate>(),
        clones_exactly::<LastfmTrack>(),
{
}

fn clone_items<T: Clone>(items: &Vec<T>) -> (res: Vec<T>)
    ensures
        cloned_items(items@, res@),
        clones_exactly::<T>() ==> res@ == items@,
{
    let res = items.clone();
    proof {
        if clones_exactly::<T>() {
            lemma_cloned_items_equal(items@, res@);
        }
    }
    res
}

/// Serves a source from its cache when the cache is fresh at `now`: the
/// cached items (cloned), not stale, without an error. `None` means the
/// source must be refreshed.
pub fn serve_if_fresh<T: Clone>(slot: &Option<Cached<T>>, now: UtcTime, ttl_seconds: u64) -> (res:
    Option<CachedResult<T>>)
    ensures
        match slot {
            Some(cached) => if is_fresh_spec(cached.fetched_at, now, ttl_seconds) {
                res matches Some(r) && r.fetched_at == cached.fetched_at && !r.stale
                    && r.error is None && cloned_items(cached.items@, r.items@) && (
                clones_exactly::<T>() ==> r.items@ == cached.items@)
            } else {
                res is None
            },
            None => res is None,
        },
{
    match slot {
        Some(cached) => {
            if is_fresh(cached.fetched_at, now, ttl_seconds) {
                Some(
                    CachedResult {
                        fetched_at: cached.fetched_at,
                        stale: false,
                        error: None,
                        items: clone_items(&cached.items),
                    },
                )
            } else {
                None
            }
        },
        None => None,
    }
}

/// Settles a refresh of a source whose cache held `previous` before it:
/// gives what to serve and what, if anything, to store in the cache.
///
/// - The refresh gave items: they are served as fresh at `now`, and a copy
///   is stored with that time.
/// - It failed and there was a cache: the cached items are served, stale,
///   with the failure's public text; the cache is left as it is.
/// - It failed and there was no cache: the source has no data.
pub fn settle_refresh<T: Clone>(
    previous: Option<Cached<T>>,
    outcome: Result<Vec<T>, BackendError>,
    now: UtcTime,
) -> (res: (Result<CachedResult<T>, BackendError>, Option<Cached<T>>))
    ensures
        match outcome {
            Ok(items) => {
                &&& res.0 matches Ok(r) && r.fetched_at == now && !r.stale && r.error is None
                    && r.items@ == items@
                &&& res.1 matches Some(c) && c.fetched_at == now && cloned_items(items@, c.items@)
                    && (clones_exactly::<T>() ==> c.items@ == items@)
            },
            Err(err) => {
                &&& res.1 is None
                &&& match previous {
                    Some(cached) => {
                        &&& res.0 matches Ok(r)
                        &&& r.fetched_at == cached.fetched_at
                        &&& r.stale
                        &&& r.error matches Some(m)
                        &&& is_public_message(err, m@)
                        &&& r.items@ == cached.items@
                    },
                    None => res.0 matches Err(BackendError::NoCachedData),
                }
            },
        },
{
    match outcome {
        Ok(items) => {
            let stored = Cached { fetched_at: now, items: clone_items(&items) };
            (Ok(CachedResult { fetched_at: now, stale: false, error: None, items }), Some(stored))
        },
        Err(err) => match previous {
            Some(cached) => (
                Ok(
                    CachedResult {
                        fetched_at: cached.fetched_at,
                        stale: true,
                        error: Some(err.public_message()),
                        items: cached.items,
                    },
                ),
                None,
            ),
            None => (Err(BackendError::NoCachedData), None),
        },
    }
}

/// The first `n` items of `items` (all of them when there are fewer).
pub fn take_items<T>(items: Vec<T>, n: usize) -> (res: Vec<T>)
    ensures
        res@ == if n <= items@.len() {
            items@.take(n as int)
        } else {
            items@
        },
{
    let mut v = items;
    v.truncate(n);
    v
}

/// The body of a single-source endpoint for the query `limit`.
pub fn source_response<T>(source: Source, cached: CachedResult<T>, limit: Option<usize>) -> (res:
    SourceResponse<T>)
    ensures
        res.source == source,
        res.fetched_at == cached.fetched_at,
        res.stale == cached.stale,
        res.items@ == if source_limit_spec(limit) <= cached.items@.len() {
            cached.items@.take(source_limit_spec(limit) as int)
        } else {
            cached.items@
        },
{
    let n = source_limit(limit);
    SourceResponse {
        source,
        fetched_at: cached.fetched_at,
        stale: cached.stale,
        items: take_items(cached.items, n),
    }
}

// ---------------------------------------------------------------------
// Activities
// ---------------------------------------------------------------------
/// The activity for a film watch.
pub open spec fn letterboxd_activity_spec(item: LetterboxdWatch) -> Activity {
    Activity {
        id: item.id,
        source: Source::Letterboxd,
        occurred_at: item.published_at,
        external_url: item.url,
        title: item.title,
        image_url: item.poster_url,
        details: ActivityDetails::FilmWatch(item),
    }
}

/// The activity for a book update.
pub open spec fn goodreads_activity_spec(item: GoodreadsBookUpdate) -> Activity {
    Activity {
        id: item.id,
        source: Source::Goodreads,
        occurred_at: item.published_at,
        external_url: item.review_url,
        title: item.title,
        image_url: item.cover_url,
        details: ActivityDetails::BookUpdate(item),
    }
}

/// The activity for a track: a track playing now is dated by when the
/// source was fetched.
pub open spec fn lastfm_activity_spec(item: LastfmTrack, fetched_at: UtcTime) -> Activity {
    Activity {
        id: item.id,
        source: Source::Lastfm,
        occurred_at: match item.played_at {
            Some(t) => t,
            None => fetched_at,
        },
        external_url: item.url,
        title: item.title,
        image_url: item.album_art_url,
        details: ActivityDetails::TrackPlay(item),
    }
}

/// The activity for a film watch.
pub fn letterboxd_activity(item: LetterboxdWatch) -> (res: Activity)
    ensures
        res == letterboxd_activity_spec(item),
{
    Activity {
        id: item.id.clone(),
        source: Source::Letterboxd,
        occurred_at: item.published_at,
        external_url: item.url.clone(),
        title: item.title.clone(),
        image_url: copy_opt(&item.poster_url),
        details: ActivityDetails::FilmWatch(item),
    }
}

/// The activity for a book update.
pub fn goodreads_activity(item: GoodreadsBookUpdate) -> (res: Activity)
    ensures
        res == goodreads_activity_spec(item),
{
    Activity {
        id: item.id.clone(),
        source: Source::Goodreads,
        occurred_at: item.published_at,
        external_url: item.review_url.clone(),
        title: item.title.clone(),
        image_url: copy_opt(&item.cover_url),
        details: ActivityDetails::BookUpdate(item),
    }
}

/// The activity for a track fetched at `fetched_at`.
pub fn lastfm_activity(item: LastfmTrack, fetched_at: UtcTime) -> (res: Activity)
    ensures
        res == lastfm_activity_spec(item, fetched_at),
{
    let occurred_at = match item.played_at {
        Some(t) => t,
        None => fetched_at,
    };
    Activity {
        id: item.id.clone(),
        source: Source::Lastfm,
        occurred_at,
        external_url: item.url.clone(),
        title: item.title.clone(),
        image_url: copy_opt(&item.album_art_url),
        details: ActivityDetails::TrackPlay(item),
    }
}

// ---------------------------------------------------------------------
// Newest first
// ---------------------------------------------------------------------
/// Where an activity at `t` goes in a list sorted newest first: before the
/// first entry it is later than, so after every entry at the same time.
pub open spec fn insert_pos_from(sorted: Seq<Activity>, t: UtcTime, k: int) -> int
    decreases sorted.len() - k,
{
    if k < 0 || k >= sorted.len() {
        sorted.len() as int
    } else if later(t, sorted[k].occurred_at) {
        k
    } else {
        insert_pos_from(sorted, t, k + 1)
    }
}

/// `items` sorted newest first; items at the same time keep their order
/// (a stable sort, as `sort_by` is).
pub open spec fn newest_first(items: Seq<Activity>) -> Seq<Activity>
    decreases items.len(),
{
    if items.len() == 0 {
        Seq::empty()
    } else {
        let sorted = newest_first(items.drop_last());
        let a = items.last();
        sorted.insert(insert_pos_from(sorted, a.occurred_at, 0), a)
    }
}

/// The list is sorted newest first.
pub open spec fn is_newest_first(items: Seq<Activity>) -> bool {
    forall|i: int, j: int|
        0 <= i < j < items.len() ==> !later(items[j].occurred_at, items[i].occurred_at)
}

proof fn lemma_insert_pos(sorted: Seq<Activity>, t: UtcTime, k: int)
    requires
        0 <= k <= sorted.len(),
    ensures
        k <= insert_pos_from(sorted, t, k) <= sorted.len(),
        forall|m: int| k <= m < insert_pos_from(sorted, t, k) ==> !later(t, #[trigger] sorted[m].occurred_at),
        insert_pos_from(sorted, t, k) < sorted.len() ==> later(
            t,
            sorted[insert_pos_from(sorted, t, k)].occurred_at,
        ),
    decreases sorted.len() - k,
{
    if k < sorted.len() && !later(t, sorted[k].occurred_at) {
        lemma_insert_pos(sorted, t, k + 1);
    }
}

/// Sorting newest first gives a list sorted newest first, holding the same
/// activities.
pub proof fn lemma_newest_first(items: Seq<Activity>)
    ensures
        is_newest_first(newest_first(items)),
        newest_first(items).to_multiset() == items.to_multiset(),
        newest_first(items).len() == items.len(),
    decreases items.len(),
{
    broadcast use vstd::seq_lib::group_to_multiset_ensures;
    broadcast use vstd::seq_lib::to_multiset_insert;

    if items.len() > 0 {
        let rest = items.drop_last();
        lemma_newest_first(rest);
        let sorted = newest_first(rest);
        let a = items.last();
        let p = insert_pos_from(sorted, a.occurred_at, 0);
        lemma_insert_pos(sorted, a.occurred_at, 0);
        let res = sorted.insert(p, a);
        assert forall|i: int, j: int| 0 <= i < j < res.len() implies !later(
            res[j].occurred_at,
            res[i].occurred_at,
        ) by {
            if j < p {
                assert(res[i] == sorted[i] && res[j] == sorted[j]);
            } else if j == p {
                assert(res[i] == sorted[i]);
            } else if i < p {
                assert(res[i] == sorted[i] && res[j] == sorted[j - 1]);
            } else if i == p {
                assert(res[j] == sorted[j - 1]);
                assert(!later(sorted[j - 1].occurred_at, sorted[p].occurred_at));
            } else {
                assert(res[i] == sorted[i - 1] && res[j] == sorted[j - 1]);
            }
        }
        assert(items =~= rest.push(a));
    }
}

/// The first index of `sorted` at or after which `t` would be inserted.
fn insert_position(sorted: &Vec<Activity>, t: UtcTime) -> (res: usize)
    ensures
        res == insert_pos_from(sorted@, t, 0),
{
    let mut k: usize = 0;
    while k < sorted.len()
        invariant
            k <= sorted@.len(),
            insert_pos_from(sorted@, t, k as int) == insert_pos_from(sorted@, t, 0),
        decreases sorted.len() - k,
    {
        if t.is_later_than(&sorted[k].occurred_at) {
            return k;
        }
        k = k + 1;
    }
    k
}

/// Sorts activities newest first, keeping the order of activities at the
/// same time.
pub fn sort_newest_first(items: Vec<Activity>) -> (res: Vec<Activity>)
    ensures
        res@ == newest_first(items@),
{
    let ghost orig = items@;
    let mut input = items;
    let mut out: Vec<Activity> = Vec::new();
    let ghost mut done: int = 0;
    while input.len() > 0
        invariant
            0 <= done <= orig.len(),
            input@ == orig.skip(done),
            out@ == newest_first(orig.take(done)),
        decreases input.len(),
    {
        let a = input.remove(0);
        proof {
            assert(orig.take(done + 1).drop_last() =~= orig.take(done));
            assert(a == orig[done]);
        }
        let pos = insert_position(&out, a.occurred_at);
        proof {
            lemma_insert_pos(out@, a.occurred_at, 0);
        }
        out.insert(pos, a);
        proof {
            done = done + 1;
            assert(input@ =~= orig.skip(done));
        }
    }
    assert(orig.take(done) =~= orig);
    out
}

// ---------------------------------------------------------------------
// The merged feed
// ---------------------------------------------------------------------
/// The limit the feed applies: the one asked for, at most
/// [`ACTIVITY_LIMIT_MAX`].
pub open spec fn feed_limit(limit: usize) -> int {
    if limit < ACTIVITY_LIMIT_MAX {
        limit as int
    } else {
        ACTIVITY_LIMIT_MAX as int
    }
}

/// The first `n` of `s` (all of it when shorter).
pub open spec fn first_n<A>(s: Seq<A>, n: int) -> Seq<A> {
    if n <= s.len() {
        s.take(n)
    } else {
        s
    }
}

/// A failure the feed reports: either a source that could not be served
/// at all (its error's public text) or a stale one (the text it carries).
pub enum FailureReport {
    Unserved(Source, BackendError),
    Stale(Source, Seq<char>),
}

/// `f` reports `d`.
pub open spec fn reports(f: SourceFailure, d: FailureReport) -> bool {
    match d {
        FailureReport::Unserved(source, err) => f.source == source && is_public_message(
            err,
            f.message@,
        ),
        FailureReport::Stale(source, text) => f.source == source && f.message@ == text,
    }
}

/// What a source's result reports.
pub open spec fn failure_of<T>(source: Source, r: Result<CachedResult<T>, BackendError>) -> Seq<
    FailureReport,
> {
    match r {
        Err(err) => seq![FailureReport::Unserved(source, err)],
        Ok(c) => match c.error {
            Some(m) => seq![FailureReport::Stale(source, m@)],
            None => Seq::empty(),
        },
    }
}

/// The source, when its result was served stale.
pub open spec fn stale_of<T>(source: Source, r: Result<CachedResult<T>, BackendError>) -> Seq<
    Source,
> {
    match r {
        Ok(c) => if c.stale {
            seq![source]
        } else {
            Seq::empty()
        },
        Err(_) => Seq::empty(),
    }
}

/// The items a source's result offers, at most `n` of them.
pub open spec fn offered<T>(r: Result<CachedResult<T>, BackendError>, n: int) -> Seq<T> {
    match r {
        Ok(c) => first_n(c.items@, n),
        Err(_) => Seq::empty(),
    }
}

/// The activities the three sources offer a feed limited to `limit`, in
/// source order.
pub open spec fn feed_candidates(
    limit: usize,
    letterboxd: Result<CachedResult<LetterboxdWatch>, BackendError>,
    goodreads: Result<CachedResult<GoodreadsBookUpdate>, BackendError>,
    lastfm: Result<CachedResult<LastfmTrack>, BackendError>,
) -> Seq<Activity> {
    let n = activity_source_limit_spec(feed_limit(limit) as usize);
    let lastfm_time = match lastfm {
        Ok(c) => c.fetched_at,
        Err(_) => UtcTime { seconds: 0, nanos: 0 },
    };
    offered(letterboxd, n).map_values(|w: LetterboxdWatch| letterboxd_activity_spec(w)) + offered(
        goodreads,
        n,
    ).map_values(|u: GoodreadsBookUpdate| goodreads_activity_spec(u)) + offered(lastfm, n).map_values(
        |t: LastfmTrack| lastfm_activity_spec(t, lastfm_time),
    )
}

/// The activities of the feed: the candidates, newest first, at most the
/// feed's limit of them.
pub open spec fn feed_items(
    limit: usize,
    letterboxd: Result<CachedResult<LetterboxdWatch>, BackendError>,
    goodreads: Result<CachedResult<GoodreadsBookUpdate>, BackendError>,
    lastfm: Result<CachedResult<LastfmTrack>, BackendError>,
) -> Seq<Activity> {
    first_n(newest_first(feed_candidates(limit, letterboxd, goodreads, lastfm)), feed_limit(limit))
}

/// Records a source's status: stale sources are listed, and a failed
/// refresh is reported with its text.
pub fn collect_source_status(
    source: Source,
    stale: bool,
    error: Option<String>,
    stale_sources: &mut Vec<Source>,
    errors: &mut Vec<SourceFailure>,
)
    ensures
        final(stale_sources)@ == if stale {
            old(stale_sources)@.push(source)
        } else {
            old(stale_sources)@
        },
        final(errors)@ == match error {
            Some(message) => old(errors)@.push(SourceFailure { source, message }),
            None => old(errors)@,
        },
{
    if stale {
        stale_sources.push(source);
    }
    if let Some(message) = error {
        errors.push(SourceFailure { source, message });
    }
}

/// Records a source's result in the feed being built.
fn record_status<T>(
    source: Source,
    result: &Result<CachedResult<T>, BackendError>,
    stale_sources: &mut Vec<Source>,
    errors: &mut Vec<SourceFailure>,
)
    ensures
        final(stale_sources)@ == old(stale_sources)@ + stale_of(source, *result),
        final(errors)@.len() == old(errors)@.len() + failure_of(source, *result).len(),
        forall|k: int|
            0 <= k < old(errors)@.len() ==> #[trigger] final(errors)@[k] == old(errors)@[k],
        forall|k: int|
            0 <= k < failure_of(source, *result).len() ==> reports(
                #[trigger] final(errors)@[old(errors)@.len() + k],
                failure_of(source, *result)[k],
            ),
{
    match result {
        Ok(cached) => {
            let error = copy_opt(&cached.error);
            collect_source_status(source, cached.stale, error, stale_sources, errors);
            assert(final(stale_sources)@ =~= old(stale_sources)@ + stale_of(source, *result));
        },
        Err(err) => {
            errors.push(SourceFailure { source, message: err.public_message() });
            assert(final(stale_sources)@ =~= old(stale_sources)@ + stale_of(source, *result));
        },
    }
}

/// Appends the activities `f` makes of the first `n` items (all of them
/// when there are fewer); `g` says what `f` makes of an item.
fn push_activities<T, F: Fn(T) -> Activity>(
    out: &mut Vec<Activity>,
    items: Vec<T>,
    n: usize,
    f: F,
    Ghost(g): Ghost<spec_fn(T) -> Activity>,
)
    requires
        forall|x: T| #[trigger] f.requires((x,)),
        forall|x: T, y: Activity| #[trigger] f.ensures((x,), y) ==> y == g(x),
    ensures
        final(out)@ == old(out)@ + first_n(items@, n as int).map_values(g),
{
    let mut input = take_items(items, n);
    let ghost taken = input@;
    let ghost start = out@;
    let ghost mut done: int = 0;
    while input.len() > 0
        invariant
            0 <= done <= taken.len(),
            input@ == taken.skip(done),
            out@ == start + taken.take(done).map_values(g),
            forall|x: T| #[trigger] f.requires((x,)),
            forall|x: T, y: Activity| #[trigger] f.ensures((x,), y) ==> y == g(x),
        decreases input.len(),
    {
        let item = input.remove(0);
        let activity = f(item);
        out.push(activity);
        proof {
            assert(taken.take(done + 1).map_values(g) =~= taken.take(done).map_values(g).push(
                g(taken[done]),
            ));
            done = done + 1;
            assert(input@ =~= taken.skip(done));
        }
    }
    assert(taken.take(done) =~= taken);
}

/// The merged feed from what serving each source gave: stale sources and
/// failures in source order (Letterboxd, Goodreads, Last.fm), and up to
/// the limit (at most [`ACTIVITY_LIMIT_MAX`]) of the newest activities,
/// each source offering at most a third of the limit (rounded up).
pub fn assemble_activity_feed(
    limit: usize,
    fetched_at: UtcTime,
    letterboxd: Result<CachedResult<LetterboxdWatch>, BackendError>,
    goodreads: Result<CachedResult<GoodreadsBookUpdate>, BackendError>,
    lastfm: Result<CachedResult<LastfmTrack>, BackendError>,
) -> (res: ActivityFeed)
    ensures
        res.fetched_at == fetched_at,
        res.stale_sources@ == stale_of(Source::Letterboxd, letterboxd) + stale_of(
            Source::Goodreads,
            goodreads,
        ) + stale_of(Source::Lastfm, lastfm),
        ({
            let reported = failure_of(Source::Letterboxd, letterboxd) + failure_of(
                Source::Goodreads,
                goodreads,
            ) + failure_of(Source::Lastfm, lastfm);
            &&& res.errors@.len() == reported.len()
            &&& forall|k: int| 0 <= k < reported.len() ==> reports(#[trigger] res.errors@[k], reported[k])
        }),
        res.items@ == feed_items(limit, letterboxd, goodreads, lastfm),
{
    let limit = if limit < ACTIVITY_LIMIT_MAX {
        limit
    } else {
        ACTIVITY_LIMIT_MAX
    };
    let n = activity_source_limit(limit);
    let mut stale_sources: Vec<Source> = Vec::new();
    let mut errors: Vec<SourceFailure> = Vec::new();
    let mut items: Vec<Activity> = Vec::new();
    let ghost f1 = failure_of(Source::Letterboxd, letterboxd);
    let ghost f2 = failure_of(Source::Goodreads, goodreads);
    let ghost f3 = failure_of(Source::Lastfm, lastfm);
    let ghost lastfm_time = if lastfm is Ok {
        lastfm->Ok_0.fetched_at
    } else {
        UtcTime { seconds: 0, nanos: 0 }
    };
    let ghost c1 = offered(letterboxd, n as int).map_values(
        |w: LetterboxdWatch| letterboxd_activity_spec(w),
    );
    let ghost c2 = offered(goodreads, n as int).map_values(
        |u: GoodreadsBookUpdate| goodreads_activity_spec(u),
    );
    let ghost c3 = offered(lastfm, n as int).map_values(
        |t: LastfmTrack| lastfm_activity_spec(t, lastfm_time),
    );
    record_status(Source::Letterboxd, &letterboxd, &mut stale_sources, &mut errors);
    let ghost e1 = errors@;
    match letterboxd {
        Ok(cached) => push_activities(
            &mut items,
            cached.items,
            n,
            letterboxd_activity,
            Ghost(|w: LetterboxdWatch| letterboxd_activity_spec(w)),
        ),
        Err(_) => {},
    }
    assert(items@ =~= c1);
    record_status(Source::Goodreads, &goodreads, &mut stale_sources, &mut errors);
    let ghost e2 = errors@;
    match goodreads {
        Ok(cached) => push_activities(
            &mut items,
            cached.items,
            n,
            goodreads_activity,
            Ghost(|u: GoodreadsBookUpdate| goodreads_activity_spec(u)),
        ),
        Err(_) => {},
    }
    assert(items@ =~= c1 + c2);
    record_status(Source::Lastfm, &lastfm, &mut stale_sources, &mut errors);
    match lastfm {
        Ok(cached) => {
            let t = cached.fetched_at;
            push_activities(
                &mut items,
                cached.items,
                n,
                (move |track: LastfmTrack| -> (a: Activity)
                    ensures
                        a == lastfm_activity_spec(track, t),
                    { lastfm_activity(track, t) }),
                Ghost(|track: LastfmTrack| lastfm_activity_spec(track, t)),
            )
        },
        Err(_) => {},
    }
    assert(items@ =~= c1 + c2 + c3);
    assert(stale_sources@ =~= stale_of(Source::Letterboxd, letterboxd) + stale_of(
        Source::Goodreads,
        goodreads,
    ) + stale_of(Source::Lastfm, lastfm));
    assert forall|k: int| 0 <= k < (f1 + f2 + f3).len() implies reports(
        #[trigger] errors@[k],
        (f1 + f2 + f3)[k],
    ) by {
        if k < f1.len() {
            assert(errors@[k] == e2[k]);
            assert(e2[k] == e1[k]);
            assert(e1[0 + k] == e1[k]);
            assert(reports(e1[0 + k], f1[k]));
            assert((f1 + f2 + f3)[k] == f1[k]);
        } else if k < f1.len() + f2.len() {
            assert(errors@[k] == e2[k]);
            assert(e2[e1.len() + (k - f1.len())] == e2[k]);
            assert(reports(e2[e1.len() + (k - f1.len())], f2[k - f1.len()]));
            assert((f1 + f2 + f3)[k] == f2[k - f1.len()]);
        } else {
            assert(errors@[e2.len() + (k - f1.len() - f2.len())] == errors@[k]);
            assert(reports(errors@[e2.len() + (k - f1.len() - f2.len())], f3[k - f1.len() - f2.len()]));
            assert((f1 + f2 + f3)[k] == f3[k - f1.len() - f2.len()]);
        }
    }
    let mut sorted = sort_newest_first(items);
    sorted.truncate(limit);
    ActivityFeed { fetched_at, stale_sources, errors, items: sorted }
}

/// The feed lists its activities newest first, holds at most its limit of
/// them, and holds only activities that the sources offered.
pub proof fn lemma_feed_sorted_and_bounded(
    limit: usize,
    letterboxd: Result<CachedResult<LetterboxdWatch>, BackendError>,
    goodreads: Result<CachedResult<GoodreadsBookUpdate>, BackendError>,
    lastfm: Result<CachedResult<LastfmTrack>, BackendError>,
)
    ensures
        is_newest_first(feed_items(limit, letterboxd, goodreads, lastfm)),
        feed_items(limit, letterboxd, goodreads, lastfm).len() <= feed_limit(limit),
        forall|a: Activity|
            feed_items(limit, letterboxd, goodreads, lastfm).contains(a) ==> feed_candidates(
                limit,
                letterboxd,
                goodreads,
                lastfm,
            ).contains(a),
{
    broadcast use vstd::seq_lib::group_to_multiset_ensures;

    let c = feed_candidates(limit, letterboxd, goodreads, lastfm);
    let sorted = newest_first(c);
    lemma_newest_first(c);
    let items = feed_items(limit, letterboxd, goodreads, lastfm);
    assert forall|a: Activity| items.contains(a) implies c.contains(a) by {
        let k = choose|k: int| 0 <= k < items.len() && items[k] == a;
        assert(sorted[k] == a);
        assert(sorted.contains(a));
        assert(sorted.to_multiset().count(a) > 0);
    }
}

/// The activity carries its record: the source, id, title, link and image
/// of the film watch, book update or track in its details, and the time of the
/// watch or update (of a track, when it has been played).
pub open spec fn agrees_with_record(a: Activity) -> bool {
    match a.details {
        ActivityDetails::FilmWatch(w) => a.source == Source::Letterboxd && a.id == w.id && a.title
            == w.title && a.external_url == w.url && a.image_url == w.poster_url && a.occurred_at
            == w.published_at,
        ActivityDetails::BookUpdate(u) => a.source == Source::Goodreads && a.id == u.id && a.title
            == u.title && a.external_url == u.review_url && a.image_url == u.cover_url
            && a.occurred_at == u.published_at,
        ActivityDetails::TrackPlay(t) => a.source == Source::Lastfm && a.id == t.id && a.title
            == t.title && a.external_url == t.url && a.image_url == t.album_art_url && (
            t.played_at matches Some(p)
            ==> a.occurred_at == p),
    }
}

/// Every activity of the feed carries its record: a track is titled with
/// the track's name, a book with the book's title, a film with the film's.
pub proof fn lemma_feed_activities_carry_their_records(
    limit: usize,
    letterboxd: Result<CachedResult<LetterboxdWatch>, BackendError>,
    goodreads: Result<CachedResult<GoodreadsBookUpdate>, BackendError>,
    lastfm: Result<CachedResult<LastfmTrack>, BackendError>,
)
    ensures
        forall|a: Activity|
            #[trigger] feed_items(limit, letterboxd, goodreads, lastfm).contains(a)
                ==> agrees_with_record(a),
{
    let c = feed_candidates(limit, letterboxd, goodreads, lastfm);
    assert forall|k: int| 0 <= k < c.len() implies agrees_with_record(#[trigger] c[k]) by {}
    lemma_feed_sorted_and_bounded(limit, letterboxd, goodreads, lastfm);
    assert forall|a: Activity|
        #[trigger] feed_items(limit, letterboxd, goodreads, lastfm).contains(a) implies agrees_with_record(a) by {
        assert(c.contains(a));
        let k = choose|k: int| 0 <= k < c.len() && c[k] == a;
        assert(agrees_with_record(c[k]));
    }
}

/// Each source offers the feed at most a third of its limit (rounded up,
/// and at least one) of its items.
pub proof fn lemma_source_share_bounded<T>(r: Result<CachedResult<T>, BackendError>, limit: usize)
    ensures
        offered(r, activity_source_limit_spec(feed_limit(limit) as usize)).len()
            <= activity_source_limit_spec(feed_limit(limit) as usize),
{
}

/// The activity comes from `source`.
pub open spec fn source_is(source: Source) -> spec_fn(Activity) -> bool {
    |a: Activity| a.source == source
}

/// The activities of `items` that come from `source`, in order.
pub open spec fn from_source(items: Seq<Activity>, source: Source) -> Seq<Activity> {
    items.filter(source_is(source))
}

proof fn lemma_from_source_none(items: Seq<Activity>, source: Source)
    requires
        forall|i: int| 0 <= i < items.len() ==> #[trigger] items[i].source != source,
    ensures
        from_source(items, source).len() == 0,
    decreases items.len(),
{
    reveal(Seq::filter);
    if items.len() > 0 {
        lemma_from_source_none(items.drop_last(), source);
    }
}

proof fn lemma_from_source_one(a: Activity, source: Source)
    ensures
        from_source(seq![a], source).len() == if a.source == source {
            1int
        } else {
            0int
        },
{
    reveal_with_fuel(Seq::filter, 2);
    assert(seq![a].drop_last() =~= Seq::<Activity>::empty());
}

proof fn lemma_from_source_sorted(items: Seq<Activity>, source: Source)
    ensures
        from_source(newest_first(items), source).len() == from_source(items, source).len(),
    decreases items.len(),
{
    broadcast use Seq::filter_distributes_over_add;

    if items.len() > 0 {
        let rest = items.drop_last();
        let a = items.last();
        lemma_from_source_sorted(rest, source);
        let sorted = newest_first(rest);
        let p = insert_pos_from(sorted, a.occurred_at, 0);
        lemma_insert_pos(sorted, a.occurred_at, 0);
        assert(sorted.insert(p, a) =~= sorted.take(p) + seq![a] + sorted.skip(p));
        assert(sorted =~= sorted.take(p) + sorted.skip(p));
        assert(items =~= rest + seq![a]);
        lemma_from_source_one(a, source);
    }
}

/// No source fills more than its share of the feed: at most a third of the
/// limit (rounded up, and at least one) of the feed's activities come from
/// any one source, whatever the limit.
pub proof fn lemma_feed_source_share(
    limit: usize,
    letterboxd: Result<CachedResult<LetterboxdWatch>, BackendError>,
    goodreads: Result<CachedResult<GoodreadsBookUpdate>, BackendError>,
    lastfm: Result<CachedResult<LastfmTrack>, BackendError>,
    source: Source,
)
    ensures
        from_source(feed_items(limit, letterboxd, goodreads, lastfm), source).len()
            <= activity_source_limit_spec(feed_limit(limit) as usize),
{
    broadcast use Seq::filter_distributes_over_add;

    let n = activity_source_limit_spec(feed_limit(limit) as usize);
    let lastfm_time = match lastfm {
        Ok(c) => c.fetched_at,
        Err(_) => UtcTime { seconds: 0, nanos: 0 },
    };
    let c1 = offered(letterboxd, n).map_values(|w: LetterboxdWatch| letterboxd_activity_spec(w));
    let c2 = offered(goodreads, n).map_values(|u: GoodreadsBookUpdate| goodreads_activity_spec(u));
    let c3 = offered(lastfm, n).map_values(|t: LastfmTrack| lastfm_activity_spec(t, lastfm_time));
    let c = feed_candidates(limit, letterboxd, goodreads, lastfm);
    assert(c == c1 + c2 + c3);
    assert(c1.len() <= n && c2.len() <= n && c3.len() <= n);
    c1.lemma_filter_len(source_is(source));
    c2.lemma_filter_len(source_is(source));
    c3.lemma_filter_len(source_is(source));
    match source {
        Source::Letterboxd => {
            lemma_from_source_none(c2, source);
            lemma_from_source_none(c3, source);
        },
        Source::Goodreads => {
            lemma_from_source_none(c1, source);
            lemma_from_source_none(c3, source);
        },
        Source::Lastfm => {
            lemma_from_source_none(c1, source);
            lemma_from_source_none(c2, source);
        },
    }
    assert(from_source(c, source).len() <= n);
    let sorted = newest_first(c);
    lemma_from_source_sorted(c, source);
    lemma_newest_first(c);
    let items = feed_items(limit, letterboxd, goodreads, lastfm);
    if feed_limit(limit) <= sorted.len() {
        assert(sorted =~= items + sorted.skip(feed_limit(limit)));
    }
}

/// No source is crowded out of a feed whose limit is a positive multiple
/// of three within [`ACTIVITY_LIMIT_MAX`]: the feed holds every activity
/// the sources offered, each as often as offered.
pub proof fn lemma_feed_keeps_every_source(
    limit: usize,
    letterboxd: Result<CachedResult<LetterboxdWatch>, BackendError>,
    goodreads: Result<CachedResult<GoodreadsBookUpdate>, BackendError>,
    lastfm: Result<CachedResult<LastfmTrack>, BackendError>,
)
    requires
        3 <= limit <= ACTIVITY_LIMIT_MAX,
        limit % 3 == 0,
    ensures
        feed_items(limit, letterboxd, goodreads, lastfm).to_multiset() == feed_candidates(
            limit,
            letterboxd,
            goodreads,
            lastfm,
        ).to_multiset(),
{
    let c = feed_candidates(limit, letterboxd, goodreads, lastfm);
    lemma_newest_first(c);
    let n = activity_source_limit_spec(feed_limit(limit) as usize);
    assert(n * 3 == limit);
    assert(c.len() <= 3 * n);
    let sorted = newest_first(c);
    assert(first_n(sorted, feed_limit(limit)) =~= sorted);
}

} // verus!

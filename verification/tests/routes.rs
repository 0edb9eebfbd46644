use wyattwtf::models::{
    GoodreadsAction, GoodreadsBookUpdate, LastfmTrack, LetterboxdWatch, Source, UtcTime,
    DEFAULT_ACTIVITY_LIMIT,
};
use wyattwtf::server::error::BackendError;
use wyattwtf::server::routes::{
    activity_source_limit, assemble_activity_feed, is_fresh, serve_if_fresh, settle_refresh,
    source_limit, source_response, Cached, CachedResult, SOURCE_LIMIT_MAX,
};

const NOW: i64 = 1_777_762_923;

fn at(seconds: i64) -> UtcTime {
    UtcTime { seconds, nanos: 0 }
}

fn letterboxd_watch(id: &str, published_at: UtcTime) -> LetterboxdWatch {
    LetterboxdWatch {
        id: id.to_string(),
        title: "Movie".to_string(),
        year: Some(2026),
        rating: None,
        rating_stars: None,
        watched_date: None,
        rewatch: false,
        liked: false,
        poster_url: None,
        tmdb: None,
        url: format!("https://letterboxd.example/{id}"),
        published_at,
    }
}

fn goodreads_update(id: &str, published_at: UtcTime) -> GoodreadsBookUpdate {
    GoodreadsBookUpdate {
        id: id.to_string(),
        action: GoodreadsAction::Added,
        title: "Book".to_string(),
        author: None,
        rating: None,
        cover_url: None,
        book_url: None,
        author_url: None,
        review_url: format!("https://goodreads.example/{id}"),
        published_at,
    }
}

fn lastfm_track(id: &str, played_at: Option<UtcTime>) -> LastfmTrack {
    LastfmTrack {
        id: id.to_string(),
        title: "Track".to_string(),
        artist: "Artist".to_string(),
        album: None,
        album_art_url: None,
        url: format!("https://last.fm/{id}"),
        played_at,
        now_playing: played_at.is_none(),
        artist_mbid: None,
        album_mbid: None,
    }
}

fn fresh<T>(items: Vec<T>) -> Result<CachedResult<T>, BackendError> {
    Ok(CachedResult { fetched_at: at(NOW), stale: false, error: None, items })
}

#[test]
fn activity_feed_keeps_each_source_from_being_crowded_out() {
    let feed = assemble_activity_feed(
        3,
        at(NOW),
        fresh(vec![letterboxd_watch("movie", at(NOW - 3 * 3600))]),
        fresh(vec![goodreads_update("book", at(NOW - 2 * 3600))]),
        fresh((0..5).map(|index| lastfm_track(&format!("track-{index}"), Some(at(NOW - 60 * index)))).collect()),
    );

    assert_eq!(
        feed.items.iter().map(|activity| activity.source).collect::<Vec<_>>(),
        vec![Source::Lastfm, Source::Goodreads, Source::Letterboxd]
    );
}

#[test]
fn returns_fresh_cached_values_without_fetching() {
    let cache = Some(Cached { fetched_at: at(NOW), items: vec![1, 2, 3] });

    let result = serve_if_fresh(&cache, at(NOW), 60).unwrap();

    assert!(!result.stale);
    assert_eq!(result.items, vec![1, 2, 3]);
}

#[test]
fn returns_stale_cached_values_after_refresh_failure() {
    let cache = Some(Cached { fetched_at: at(NOW - 120), items: vec![1, 2, 3] });

    assert!(serve_if_fresh(&cache, at(NOW), 60).is_none());
    let (result, store) = settle_refresh(cache, Err(BackendError::MissingField("refresh")), at(NOW));
    let result = result.unwrap();

    assert!(result.stale);
    assert_eq!(result.items, vec![1, 2, 3]);
    assert_eq!(result.error.as_deref(), Some("upstream response could not be parsed"));
    assert!(store.is_none());
}

#[test]
fn refresh_without_cache_has_no_data() {
    let (result, store) =
        settle_refresh::<u8>(None, Err(BackendError::MissingField("refresh")), at(NOW));
    assert!(matches!(result, Err(BackendError::NoCachedData)));
    assert!(store.is_none());
}

#[test]
fn successful_refresh_is_stored_and_then_fresh() {
    let (result, store) = settle_refresh(None, Ok(vec![7, 8]), at(NOW));
    let result = result.unwrap();
    assert!(!result.stale);
    assert_eq!(result.fetched_at, at(NOW));
    assert_eq!(result.items, vec![7, 8]);
    let store = store.unwrap();
    assert_eq!(store.items, vec![7, 8]);
    let served = serve_if_fresh(&Some(store), at(NOW + 59), 60).unwrap();
    assert_eq!(served.items, vec![7, 8]);
    assert!(serve_if_fresh(&Some(Cached { fetched_at: at(NOW), items: vec![7] }), at(NOW + 60), 60).is_none());
}

#[test]
fn freshness_counts_nanoseconds() {
    let fetched = UtcTime { seconds: NOW, nanos: 500_000_000 };
    assert!(is_fresh(fetched, UtcTime { seconds: NOW + 60, nanos: 499_999_999 }, 60));
    assert!(!is_fresh(fetched, UtcTime { seconds: NOW + 60, nanos: 500_000_000 }, 60));
    assert!(!is_fresh(at(i64::MIN), at(i64::MAX), u64::MAX));
    assert!(is_fresh(at(NOW), at(NOW + 1_000_000_000), u64::MAX));
}

#[test]
fn clamps_source_limits() {
    assert_eq!(source_limit(None), 10);
    assert_eq!(source_limit(Some(2)), 2);
    assert_eq!(source_limit(Some(200)), SOURCE_LIMIT_MAX);
}

#[test]
fn derives_activity_source_limits_from_overall_limit() {
    assert_eq!(activity_source_limit(1), 1);
    assert_eq!(activity_source_limit(3), 1);
    assert_eq!(activity_source_limit(DEFAULT_ACTIVITY_LIMIT), 20);
}

#[test]
fn activity_source_limit_rounds_up_and_is_never_zero() {
    assert_eq!(activity_source_limit(0), 1);
    assert_eq!(activity_source_limit(4), 2);
    assert_eq!(activity_source_limit(100), 34);
    assert_eq!(activity_source_limit(usize::MAX - 1), (usize::MAX - 1) / 3 + 1);
}

#[test]
fn source_response_takes_the_limit() {
    let cached = CachedResult { fetched_at: at(NOW), stale: true, error: None, items: (0..80).collect::<Vec<u32>>() };
    let response = source_response(Source::Goodreads, cached, Some(200));
    assert_eq!(response.items.len(), 50);
    assert!(response.stale);
    assert_eq!(response.source, Source::Goodreads);
}

#[test]
fn feed_reports_stale_sources_and_failures_in_source_order() {
    let feed = assemble_activity_feed(
        DEFAULT_ACTIVITY_LIMIT,
        at(NOW),
        Err(BackendError::NoCachedData),
        Ok(CachedResult {
            fetched_at: at(NOW - 7200),
            stale: true,
            error: Some("upstream response could not be parsed".to_string()),
            items: vec![goodreads_update("b", at(NOW - 9000))],
        }),
        fresh(vec![lastfm_track("now", None), lastfm_track("t", Some(at(NOW - 30)))]),
    );
    assert_eq!(feed.fetched_at, at(NOW));
    assert_eq!(feed.stale_sources, vec![Source::Goodreads]);
    assert_eq!(feed.errors.len(), 2);
    assert_eq!(feed.errors[0].source, Source::Letterboxd);
    assert_eq!(feed.errors[0].message, "no cached data is available after refresh failed");
    assert_eq!(feed.errors[1].source, Source::Goodreads);
    assert_eq!(
        feed.items.iter().map(|a| a.id.as_str()).collect::<Vec<_>>(),
        vec!["now", "t", "b"]
    );
    // a track playing now is dated by when Last.fm was fetched
    assert_eq!(feed.items[0].occurred_at, at(NOW));
}

#[test]
fn feed_is_sorted_newest_first_stably_and_truncated() {
    let feed = assemble_activity_feed(
        2,
        at(NOW),
        fresh(vec![letterboxd_watch("m1", at(NOW - 10)), letterboxd_watch("m2", at(NOW - 5))]),
        fresh(vec![goodreads_update("g1", at(NOW - 10))]),
        fresh(vec![]),
    );
    assert_eq!(feed.items.iter().map(|a| a.id.as_str()).collect::<Vec<_>>(), vec!["m1", "g1"]);

    let feed = assemble_activity_feed(
        500,
        at(NOW),
        fresh((0..40).map(|i| letterboxd_watch(&format!("m{i}"), at(NOW - i))).collect()),
        fresh(vec![]),
        fresh(vec![]),
    );
    assert_eq!(feed.items.len(), 34);
}

#[test]
fn records_are_cached_and_served_unchanged() {
    let watches = vec![letterboxd_watch("a", at(NOW - 10)), letterboxd_watch("b", at(NOW - 20))];
    let (result, store) = settle_refresh(None, Ok(watches.clone()), at(NOW));
    let store = store.unwrap();
    assert_eq!(store.items, watches);
    assert_eq!(result.unwrap().items, watches);
    let served = serve_if_fresh(&Some(store), at(NOW + 30), 60).unwrap();
    assert_eq!(served.items, watches);
    assert_eq!(served.fetched_at, at(NOW));
}

#[test]
fn no_source_fills_more_than_its_share() {
    let feed = assemble_activity_feed(
        10,
        at(NOW),
        fresh((0..8).map(|i| letterboxd_watch(&format!("m{i}"), at(NOW - i))).collect()),
        fresh((0..8).map(|i| goodreads_update(&format!("b{i}"), at(NOW - 100 - i))).collect()),
        fresh((0..8).map(|i| lastfm_track(&format!("t{i}"), Some(at(NOW - 200 - i)))).collect()),
    );
    let count = |source| feed.items.iter().filter(|a| a.source == source).count();
    assert_eq!(feed.items.len(), 10);
    assert_eq!(count(Source::Letterboxd), 4);
    assert_eq!(count(Source::Goodreads), 4);
    assert_eq!(count(Source::Lastfm), 2);
}

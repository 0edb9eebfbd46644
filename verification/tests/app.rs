use wyattwtf::app::details::goodreads::detail_lines as goodreads_detail_lines;
use wyattwtf::app::details::lastfm::detail_lines as lastfm_detail_lines;
use wyattwtf::app::details::letterboxd::{detail_lines as letterboxd_detail_lines, normalized_rating_stars};
use wyattwtf::app::details::activity_detail_lines;
use wyattwtf::app::{activity_image_class, activity_title, feed_status, filtered_activities, format_timestamp, source_label, SourceFilters};
use wyattwtf::models::{
    Activity, ActivityDetails, ActivityFeed, CalendarDate, GoodreadsAction, GoodreadsBookUpdate,
    LastfmTrack, LetterboxdWatch, Source, SourceFailure, UtcTime,
};

// 2026-05-02 12:00:00 UTC
const NOON: UtcTime = UtcTime { seconds: 1_777_723_200, nanos: 0 };

fn letterboxd_watch(year: Option<u16>, rating_stars: Option<&str>, liked: bool, rewatch: bool) -> LetterboxdWatch {
    LetterboxdWatch {
        id: "film".to_string(),
        title: "Perfect Blue".to_string(),
        year,
        rating: None,
        rating_stars: rating_stars.map(str::to_string),
        watched_date: Some(CalendarDate { year: 2026, month: 5, day: 2 }),
        rewatch,
        liked,
        poster_url: None,
        tmdb: None,
        url: "https://letterboxd.example/watch".to_string(),
        published_at: NOON,
    }
}

fn letterboxd_activity(year: Option<u16>) -> Activity {
    let watch = letterboxd_watch(year, None, false, false);
    Activity {
        id: watch.id.clone(),
        source: Source::Letterboxd,
        occurred_at: watch.published_at,
        external_url: watch.url.clone(),
        title: watch.title.clone(),
        image_url: None,
        details: ActivityDetails::FilmWatch(watch),
    }
}

fn goodreads_update(action: GoodreadsAction, author: Option<&str>, rating: Option<u8>) -> GoodreadsBookUpdate {
    GoodreadsBookUpdate {
        id: "book".to_string(),
        action,
        title: "Book".to_string(),
        author: author.map(str::to_string),
        rating,
        cover_url: None,
        book_url: None,
        author_url: None,
        review_url: "https://goodreads.example/review".to_string(),
        published_at: NOON,
    }
}

fn lastfm_track(album: Option<&str>, now_playing: bool) -> LastfmTrack {
    LastfmTrack {
        id: "track".to_string(),
        title: "Track".to_string(),
        artist: "Artist".to_string(),
        album: album.map(str::to_string),
        album_art_url: None,
        url: "https://lastfm.example/track".to_string(),
        played_at: Some(NOON),
        now_playing,
        artist_mbid: None,
        album_mbid: None,
    }
}

#[test]
fn letterboxd_title_includes_year_when_available() {
    assert_eq!(activity_title(&letterboxd_activity(Some(1997))), "Perfect Blue (1997)");
    assert_eq!(activity_title(&letterboxd_activity(None)), "Perfect Blue");
}

#[test]
fn puts_author_and_action_on_separate_lines() {
    assert_eq!(
        goodreads_detail_lines(&goodreads_update(GoodreadsAction::StartedReading, Some("Brian Christian"), None)),
        vec!["by Brian Christian", "started reading"]
    );
    assert_eq!(
        goodreads_detail_lines(&goodreads_update(GoodreadsAction::Rated, Some("Amanda Askell"), Some(5))),
        vec!["by Amanda Askell", "rated 5/5"]
    );
    assert_eq!(
        goodreads_detail_lines(&goodreads_update(GoodreadsAction::WantsToRead, Some("Nag Hammadi"), None)),
        vec!["by Nag Hammadi", "wants to read"]
    );
}

#[test]
fn omits_missing_values() {
    assert_eq!(goodreads_detail_lines(&goodreads_update(GoodreadsAction::Rated, None, None)), vec!["rated"]);
    assert_eq!(
        goodreads_detail_lines(&goodreads_update(GoodreadsAction::Rated, Some("Amanda Askell"), None)),
        vec!["by Amanda Askell", "rated"]
    );
}

#[test]
fn puts_artist_and_action_on_separate_lines() {
    assert_eq!(lastfm_detail_lines(&lastfm_track(Some("Album"), false)), vec!["by Artist from Album", "played"]);
    assert_eq!(lastfm_detail_lines(&lastfm_track(None, true)), vec!["by Artist", "now playing"]);
}

#[test]
fn puts_available_metadata_and_action_on_separate_lines() {
    assert_eq!(
        letterboxd_detail_lines(&letterboxd_watch(Some(1997), Some("★★★★★"), false, true)),
        vec!["rated 5/5", "rewatched"]
    );
    assert_eq!(
        letterboxd_detail_lines(&letterboxd_watch(Some(1997), Some("★★★½"), true, false)),
        vec!["rated 3.5/5", "liked"]
    );
    assert_eq!(letterboxd_detail_lines(&letterboxd_watch(None, None, false, false)), vec!["watched"]);
}

#[test]
fn omits_unrecognized_rating_stars() {
    assert_eq!(
        letterboxd_detail_lines(&letterboxd_watch(Some(1997), Some("unrated"), false, false)),
        vec!["watched"]
    );
}

#[test]
fn normalizes_half_stars() {
    assert_eq!(normalized_rating_stars("½").as_deref(), Some("0.5"));
    assert_eq!(normalized_rating_stars("★★"), Some("2".to_string()));
    assert_eq!(normalized_rating_stars(""), None);
}

#[test]
fn detail_lines_follow_the_record() {
    let details = ActivityDetails::TrackPlay(lastfm_track(None, false));
    assert_eq!(activity_detail_lines(&details), vec!["by Artist", "played"]);
}

#[test]
fn filters_by_source() {
    let items = vec![letterboxd_activity(None), {
        let t = lastfm_track(None, false);
        Activity {
            id: t.id.clone(),
            source: Source::Lastfm,
            occurred_at: NOON,
            external_url: t.url.clone(),
            title: t.title.clone(),
            image_url: None,
            details: ActivityDetails::TrackPlay(t),
        }
    }];
    let mut filters = SourceFilters::all();
    assert_eq!(filtered_activities(&items, filters), items);
    filters.set_source(Source::Letterboxd, false);
    assert!(!filters.includes(Source::Letterboxd));
    assert!(filters.includes(Source::Lastfm));
    let shown = filtered_activities(&items, filters);
    assert_eq!(shown.len(), 1);
    assert_eq!(shown[0].source, Source::Lastfm);
}

#[test]
fn labels_and_classes() {
    assert_eq!(source_label(Source::Lastfm), "Last.fm");
    assert_eq!(activity_image_class(Source::Goodreads), "activity-image--goodreads");
}

#[test]
fn status_line() {
    let mut feed = ActivityFeed { fetched_at: NOON, stale_sources: vec![], errors: vec![], items: vec![] };
    assert_eq!(feed_status(&feed), "");
    feed.stale_sources = vec![Source::Goodreads, Source::Lastfm];
    assert_eq!(feed_status(&feed), "Showing cached data for Goodreads, Last.fm.");
    feed.errors = vec![SourceFailure { source: Source::Letterboxd, message: "x".to_string() }];
    assert_eq!(feed_status(&feed), "Showing cached data for Goodreads, Last.fm. 1 source error.");
    feed.stale_sources.clear();
    feed.errors.push(SourceFailure { source: Source::Lastfm, message: "y".to_string() });
    assert_eq!(feed_status(&feed), "2 source errors.");
}

#[test]
fn formats_timestamps() {
    assert_eq!(format_timestamp(NOON).as_deref(), Some("2026-05-02 12:00 UTC"));
    assert_eq!(format_timestamp(UtcTime { seconds: i64::MAX, nanos: 0 }), None);
}

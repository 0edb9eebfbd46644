use wyattwtf::models::{GoodreadsAction, TmdbKind, UtcTime};
use wyattwtf::server::error::BackendError;
use wyattwtf::server::sources::goodreads::{
    absolute_goodreads_url, goodreads_action, goodreads_rating, parse_goodreads, quoted_text,
};
use wyattwtf::server::sources::lastfm::{
    none_if_empty, tracks_from_api, LastfmApiTrack, LastfmAttrs, LastfmDate, LastfmImage,
    LastfmRecentTracks, LastfmRecentTracksResponse, LastfmText,
};
use wyattwtf::server::sources::letterboxd::parse_letterboxd;
use wyattwtf::server::sources::{clean_text, first_image_src};

#[test]
fn parses_letterboxd_watch() {
    let xml = r#"<?xml version="1.0"?><rss xmlns:letterboxd="https://letterboxd.com" xmlns:tmdb="https://themoviedb.org"><channel><item>
            <title>Perfect Blue, 1997 - ★★★★★</title>
            <link>https://letterboxd.com/wyattwtf/film/perfect-blue/1/</link>
            <guid isPermaLink="false">letterboxd-watch-1139305751</guid>
            <pubDate>Sun, 4 Jan 2026 20:01:04 +1300</pubDate>
            <letterboxd:watchedDate>2026-01-03</letterboxd:watchedDate>
            <letterboxd:rewatch>Yes</letterboxd:rewatch>
            <letterboxd:filmTitle>Perfect Blue</letterboxd:filmTitle>
            <letterboxd:filmYear>1997</letterboxd:filmYear>
            <letterboxd:memberRating>5.0</letterboxd:memberRating>
            <letterboxd:memberLike>No</letterboxd:memberLike>
            <tmdb:movieId>10494</tmdb:movieId>
            <description><![CDATA[<p><img src="https://example.com/poster.jpg"/></p>]]></description>
        </item></channel></rss>"#;

    let items = parse_letterboxd(xml).unwrap();

    assert_eq!(items.len(), 1);
    assert_eq!(items[0].title, "Perfect Blue");
    assert_eq!(items[0].year, Some(1997));
    assert_eq!(items[0].rating.as_deref().and_then(|r| r.parse::<f32>().ok()), Some(5.0));
    assert_eq!(items[0].rewatch, true);
    assert_eq!(items[0].poster_url.as_deref(), Some("https://example.com/poster.jpg"));
}

#[test]
fn letterboxd_watch_reads_every_field() {
    let xml = r#"<rss xmlns:letterboxd="https://letterboxd.com" xmlns:tmdb="https://themoviedb.org"><channel><item>
            <title>Perfect Blue, 1997 - ★★★½</title>
            <link>https://letterboxd.com/wyattwtf/film/perfect-blue/1/</link>
            <guid isPermaLink="false">letterboxd-watch-1</guid>
            <pubDate>Sun, 4 Jan 2026 20:01:04 +1300</pubDate>
            <letterboxd:watchedDate>2026-01-03</letterboxd:watchedDate>
            <letterboxd:memberLike>yES</letterboxd:memberLike>
            <tmdb:tvId>77</tmdb:tvId>
        </item></channel></rss>"#;
    let items = parse_letterboxd(xml).unwrap();
    let w = &items[0];
    assert_eq!(w.id, "letterboxd-watch-1");
    assert_eq!(w.title, "Perfect Blue");
    assert_eq!(w.year, None);
    assert_eq!(w.rating, None);
    assert_eq!(w.rating_stars.as_deref(), Some("★★★½"));
    assert_eq!(w.watched_date.map(|d| (d.year, d.month, d.day)), Some((2026, 1, 3)));
    assert!(!w.rewatch);
    assert!(w.liked);
    assert_eq!(w.tmdb.as_ref().map(|t| (t.kind, t.id.as_str())), Some((TmdbKind::Tv, "77")));
    assert_eq!(w.url, "https://letterboxd.com/wyattwtf/film/perfect-blue/1/");
    // 2026-01-04T20:01:04+13:00 is 2026-01-04T07:01:04Z
    assert_eq!(w.published_at, UtcTime { seconds: 1_767_510_064, nanos: 0 });
}

#[test]
fn letterboxd_errors_name_the_missing_field() {
    let no_link = "<rss><channel><item><pubDate>Sun, 4 Jan 2026 20:01:04 +1300</pubDate></item></channel></rss>";
    assert!(matches!(parse_letterboxd(no_link), Err(BackendError::MissingField("letterboxd link"))));
    let no_date = "<rss><channel><item><link>x</link></item></channel></rss>";
    assert!(matches!(parse_letterboxd(no_date), Err(BackendError::MissingField("pubDate"))));
    let bad_date = "<rss><channel><item><link>x</link><pubDate>yesterday</pubDate></item></channel></rss>";
    assert!(matches!(parse_letterboxd(bad_date), Err(BackendError::Date(_))));
    let no_title = "<rss><channel><item><link>x</link><pubDate>Sun, 4 Jan 2026 20:01:04 +1300</pubDate></item></channel></rss>";
    assert!(matches!(parse_letterboxd(no_title), Err(BackendError::MissingField("letterboxd film title"))));
    assert!(matches!(parse_letterboxd("<rss>"), Err(BackendError::Xml(_))));
    assert_eq!(parse_letterboxd("<rss><channel/></rss>").unwrap().len(), 0);
}

#[test]
fn letterboxd_title_falls_back_to_the_item_title() {
    let xml = "<rss><channel><item><title>  Heat,   1995 - ★★</title><link>u</link><pubDate>Sun, 4 Jan 2026 20:01:04 +1300</pubDate></item></channel></rss>";
    let items = parse_letterboxd(xml).unwrap();
    assert_eq!(items[0].title, "Heat");
    assert_eq!(items[0].id, "u");
    assert_eq!(items[0].rating_stars.as_deref(), Some("★★"));
}

#[test]
fn parses_and_filters_goodreads_book_updates() {
    let xml = r#"<?xml version="1.0"?><rss><channel>
        <item>
            <guid isPermaLink="false">Review1</guid>
            <pubDate>Thu, 19 Mar 2026 11:41:22 -0700</pubDate>
            <title><![CDATA[wyatt added 'Tom's Constitution']]></title>
            <link>https://www.goodreads.com/review/show/1</link>
            <description><![CDATA[
                <a href="/book/show/1"><img src="https://example.com/cover.jpg" /></a>
                wyatt gave 5 stars to <a class="bookTitle" href="https://www.goodreads.com/book/show/1">Tom's Constitution</a>
                <span class="by">by</span><a class="authorName" href="/author/show/1">Amanda Askell</a>
            ]]></description>
        </item>
        <item>
            <guid isPermaLink="false">Rating1</guid>
            <pubDate>Mon, 02 Mar 2026 20:38:23 -0800</pubDate>
            <title><![CDATA[wyatt liked a review]]></title>
            <link>https://www.goodreads.com/</link>
            <description><![CDATA[wyatt liked a review]]></description>
        </item>
        </channel></rss>"#;

    let items = parse_goodreads(xml).unwrap();

    assert_eq!(items.len(), 1);
    assert_eq!(items[0].action, GoodreadsAction::Rated);
    assert_eq!(items[0].title, "Tom's Constitution");
    assert_eq!(items[0].author.as_deref(), Some("Amanda Askell"));
    assert_eq!(items[0].rating, Some(5));
    assert_eq!(items[0].author_url.as_deref(), Some("https://www.goodreads.com/author/show/1"));
    assert_eq!(items[0].book_url.as_deref(), Some("https://www.goodreads.com/book/show/1"));
    assert_eq!(items[0].cover_url.as_deref(), Some("https://example.com/cover.jpg"));
    assert_eq!(items[0].id, "Review1");
}

#[test]
fn goodreads_title_falls_back_to_the_quoted_title() {
    let xml = r#"<rss><channel><item>
        <pubDate>Thu, 19 Mar 2026 11:41:22 -0700</pubDate>
        <title>wyatt wants to read 'Dune'</title>
        <link>https://www.goodreads.com/review/show/2</link>
        </item></channel></rss>"#;
    let items = parse_goodreads(xml).unwrap();
    assert_eq!(items[0].action, GoodreadsAction::WantsToRead);
    assert_eq!(items[0].title, "Dune");
    assert_eq!(items[0].id, "https://www.goodreads.com/review/show/2");
    assert_eq!(items[0].author, None);
    assert_eq!(items[0].cover_url, None);
}

#[test]
fn goodreads_errors_name_the_missing_field() {
    let xml = "<rss><channel><item><title>wyatt started reading</title><pubDate>Thu, 19 Mar 2026 11:41:22 -0700</pubDate><link>l</link></item></channel></rss>";
    assert!(matches!(parse_goodreads(xml), Err(BackendError::MissingField("goodreads book title"))));
    let xml = "<rss><channel><item><title>wyatt started reading 'X'</title></item></channel></rss>";
    assert!(matches!(parse_goodreads(xml), Err(BackendError::MissingField("goodreads link"))));
    let xml = "<rss><channel><item><title>other news</title></item></channel></rss>";
    assert_eq!(parse_goodreads(xml).unwrap().len(), 0);
}

#[test]
fn recognizes_goodreads_actions() {
    assert_eq!(goodreads_action("Wyatt WANTS TO READ x", ""), Some(GoodreadsAction::WantsToRead));
    assert_eq!(goodreads_action("wyatt started reading x", ""), Some(GoodreadsAction::StartedReading));
    assert_eq!(goodreads_action("wyatt finished reading x", ""), Some(GoodreadsAction::FinishedReading));
    assert_eq!(goodreads_action("wyatt", "Wyatt GAVE 3 Stars To x"), Some(GoodreadsAction::Rated));
    assert_eq!(goodreads_action("wyatt added 'x'", ""), Some(GoodreadsAction::Added));
    assert_eq!(goodreads_action("wyatt liked a review", "gave stars"), None);
}

#[test]
fn reads_goodreads_ratings() {
    assert_eq!(goodreads_rating("wyatt gave 4 stars to"), Some(4));
    assert_eq!(goodreads_rating("GAVE  +3  STARS"), Some(3));
    assert_eq!(goodreads_rating("gave 300 stars"), None);
    assert_eq!(goodreads_rating("gave five stars"), None);
    assert_eq!(goodreads_rating("no rating"), None);
}

#[test]
fn quotes_and_links() {
    assert_eq!(quoted_text("wyatt added 'Tom's Constitution'").as_deref(), Some("Tom's Constitution"));
    assert_eq!(quoted_text("a 'b").as_deref(), None);
    assert_eq!(quoted_text("plain"), None);
    assert_eq!(absolute_goodreads_url("/book/show/1").unwrap(), "https://www.goodreads.com/book/show/1");
    assert!(matches!(absolute_goodreads_url("http://[::1"), Err(BackendError::Url(_))));
}

#[test]
fn parses_lastfm_now_playing_and_scrobble() {
    let response = LastfmRecentTracksResponse {
        recenttracks: LastfmRecentTracks {
            track: vec![
                LastfmApiTrack {
                    name: "Track A".to_string(),
                    artist: LastfmText { mbid: Some(String::new()), text: "Artist A".to_string() },
                    album: LastfmText { mbid: Some(String::new()), text: "Album A".to_string() },
                    image: vec![
                        LastfmImage { text: String::new() },
                        LastfmImage { text: "https://example.com/a.jpg".to_string() },
                    ],
                    url: "https://last.fm/a".to_string(),
                    date: None,
                    attr: Some(LastfmAttrs { nowplaying: Some("true".to_string()) }),
                },
                LastfmApiTrack {
                    name: "Track B".to_string(),
                    artist: LastfmText { mbid: Some("artist-mbid".to_string()), text: "Artist B".to_string() },
                    album: LastfmText { mbid: Some("album-mbid".to_string()), text: String::new() },
                    image: vec![],
                    url: "https://last.fm/b".to_string(),
                    date: Some(LastfmDate { uts: "1777762923".to_string() }),
                    attr: None,
                },
            ],
        },
    };

    let items = tracks_from_api(response);

    assert_eq!(items.len(), 2);
    assert!(items[0].now_playing);
    assert_eq!(items[0].played_at, None);
    assert_eq!(items[0].album_art_url.as_deref(), Some("https://example.com/a.jpg"));
    assert_eq!(items[1].artist_mbid.as_deref(), Some("artist-mbid"));
    assert_eq!(items[1].album, None);
}

#[test]
fn lastfm_ids_and_times() {
    let track = |uts: &str| LastfmApiTrack {
        name: "Song".to_string(),
        artist: LastfmText { mbid: None, text: "Band".to_string() },
        album: LastfmText { mbid: None, text: "LP".to_string() },
        image: vec![LastfmImage { text: "s.jpg".to_string() }, LastfmImage { text: String::new() }],
        url: "u".to_string(),
        date: Some(LastfmDate { uts: uts.to_string() }),
        attr: Some(LastfmAttrs { nowplaying: Some("false".to_string()) }),
    };
    let items = tracks_from_api(LastfmRecentTracksResponse {
        recenttracks: LastfmRecentTracks { track: vec![track("1777762923"), track("-5"), track("soon"), track("99999999999999999")] },
    });
    assert_eq!(items[0].id, "lastfm:1777762923:Band:Song");
    assert_eq!(items[0].played_at, Some(UtcTime { seconds: 1_777_762_923, nanos: 0 }));
    assert_eq!(items[0].album.as_deref(), Some("LP"));
    assert_eq!(items[0].album_art_url.as_deref(), Some("s.jpg"));
    assert!(!items[0].now_playing);
    assert_eq!(items[1].id, "lastfm:-5:Band:Song");
    assert_eq!(items[2].id, "lastfm:now-playing:Band:Song");
    assert_eq!(items[2].played_at, None);
    // beyond chrono's range of dates
    assert_eq!(items[3].played_at, None);
    assert_eq!(none_if_empty(String::new()), None);
}

#[test]
fn lastfm_play_times_span_chronos_range_exactly() {
    let track = |uts: &str| LastfmApiTrack {
        name: "Song".to_string(),
        artist: LastfmText { mbid: None, text: "Band".to_string() },
        album: LastfmText { mbid: None, text: String::new() },
        image: vec![],
        url: "u".to_string(),
        date: Some(LastfmDate { uts: uts.to_string() }),
        attr: None,
    };
    let times = ["-8334601228800", "-8334601228801", "8210266876799", "8210266876800"];
    let items = tracks_from_api(LastfmRecentTracksResponse {
        recenttracks: LastfmRecentTracks { track: times.iter().map(|t| track(t)).collect() },
    });
    assert_eq!(items[0].played_at, Some(UtcTime { seconds: -8_334_601_228_800, nanos: 0 }));
    assert_eq!(items[1].played_at, None);
    assert_eq!(items[1].id, "lastfm:now-playing:Band:Song");
    assert_eq!(items[2].played_at, Some(UtcTime { seconds: 8_210_266_876_799, nanos: 0 }));
    assert_eq!(items[2].id, "lastfm:8210266876799:Band:Song");
    assert_eq!(items[3].played_at, None);
}

#[test]
fn letterboxd_dates_are_read_in_utc_and_bad_calendar_dates_dropped() {
    let xml = r#"<rss><channel><item>
            <title>Heat, 1995</title>
            <link>https://letterboxd.com/wyattwtf/film/heat/</link>
            <guid>letterboxd-watch-2</guid>
            <pubDate>Thu, 19 Mar 2026 11:41:22 -0700</pubDate>
            <watchedDate>2026-02-30</watchedDate>
        </item></channel></rss>"#;
    let items = parse_letterboxd(xml).unwrap();
    assert_eq!(items[0].published_at, UtcTime { seconds: 1_773_945_682, nanos: 0 });
    assert_eq!(items[0].watched_date, None);
    assert_eq!(items[0].title, "Heat");
    assert_eq!(items[0].year, None);
}

#[test]
fn cleans_text_and_finds_images() {
    assert_eq!(clean_text("  a \n\t b\u{a0}c  "), "a b c");
    assert_eq!(clean_text(" \n "), "");
    assert_eq!(first_image_src("<p>x <img src='one.png'><img src='two.png'></p>").as_deref(), Some("one.png"));
    assert_eq!(first_image_src("<p>no image</p>"), None);
}

//! The data the site shows: one record per upstream activity, and the
//! merged feed.
use vstd::prelude::*;

verus! {

/// How many activities the home page asks for.
pub const DEFAULT_ACTIVITY_LIMIT: usize = 60;

/// The upstream services that feed the activity stream.
#[derive(Clone, Copy, Debug, PartialEq, Eq, Structural)]
pub enum Source {
    Letterboxd,
    Goodreads,
    Lastfm,
}

/// An instant in UTC: whole seconds since the Unix epoch and the
/// nanoseconds past that second.
#[derive(Clone, Copy, Debug, PartialEq, Eq, Structural)]
pub struct UtcTime {
    pub seconds: i64,
    pub nanos: u32,
}

/// `a` is strictly later than `b` (the order of `DateTime<Utc>`).
pub open spec fn later(a: UtcTime, b: UtcTime) -> bool {
    a.seconds > b.seconds || (a.seconds == b.seconds && a.nanos > b.nanos)
}

/// The instant as a number of nanoseconds since the epoch.
pub open spec fn instant_nanos(t: UtcTime) -> int {
    t.seconds * 1_000_000_000 + t.nanos
}

impl UtcTime {
    /// Whether `self` is strictly later than `other`.
    pub fn is_later_than(&self, other: &UtcTime) -> (res: bool)
        ensures
            res == later(*self, *other),
    {
        self.seconds > other.seconds || (self.seconds == other.seconds && self.nanos
            > other.nanos)
    }
}

/// A calendar date without a time zone.
#[derive(Clone, Copy, Debug, PartialEq, Eq, Structural)]
pub struct CalendarDate {
    pub year: i32,
    pub month: u32,
    pub day: u32,
}

/// One entry of the merged feed.
#[derive(Debug, PartialEq)]
pub struct Activity {
    pub id: String,
    pub source: Source,
    pub occurred_at: UtcTime,
    pub external_url: String,
    pub title: String,
    pub image_url: Option<String>,
    pub details: ActivityDetails,
}

/// The merged feed, with the sources that were served from a stale cache
/// and the failures met while refreshing.
#[derive(Clone, Debug, PartialEq)]
pub struct ActivityFeed {
    pub fetched_at: UtcTime,
    pub stale_sources: Vec<Source>,
    pub errors: Vec<SourceFailure>,
    pub items: Vec<Activity>,
}

/// A source that could not be refreshed, with a message safe to show.
#[derive(Clone, Debug, PartialEq, Eq)]
pub struct SourceFailure {
    pub source: Source,
    pub message: String,
}

/// The source-specific record behind an activity.
#[derive(Clone, Debug, PartialEq)]
pub enum ActivityDetails {
    FilmWatch(LetterboxdWatch),
    BookUpdate(GoodreadsBookUpdate),
    TrackPlay(LastfmTrack),
}

/// A film logged on Letterboxd.
///
/// `rating` is the member rating exactly as the feed gives it (such as
/// `5.0`); turning it into a number is left to the presentation layer.
#[derive(Debug, PartialEq)]
pub struct LetterboxdWatch {
    pub id: String,
    pub title: String,
    pub year: Option<u16>,
    pub rating: Option<String>,
    pub rating_stars: Option<String>,
    pub watched_date: Option<CalendarDate>,
    pub rewatch: bool,
    pub liked: bool,
    pub poster_url: Option<String>,
    pub tmdb: Option<TmdbRef>,
    pub url: String,
    pub published_at: UtcTime,
}

/// A reference to a TMDB movie or show.
#[derive(Clone, Debug, PartialEq, Eq)]
pub struct TmdbRef {
    pub kind: TmdbKind,
    pub id: String,
}

/// Whether a TMDB id names a movie or a show.
#[derive(Clone, Copy, Debug, PartialEq, Eq, Structural)]
pub enum TmdbKind {
    Movie,
    Tv,
}

/// A shelf or rating update on Goodreads.
#[derive(Debug, PartialEq)]
pub struct GoodreadsBookUpdate {
    pub id: String,
    pub action: GoodreadsAction,
    pub title: String,
    pub author: Option<String>,
    pub rating: Option<u8>,
    pub cover_url: Option<String>,
    pub book_url: Option<String>,
    pub author_url: Option<String>,
    pub review_url: String,
    pub published_at: UtcTime,
}

/// What a Goodreads update records.
#[derive(Clone, Copy, Debug, PartialEq, Eq, Structural)]
pub enum GoodreadsAction {
    WantsToRead,
    StartedReading,
    FinishedReading,
    Rated,
    Added,
}

/// A track scrobbled (or playing now) on Last.fm.
#[derive(Debug, PartialEq)]
pub struct LastfmTrack {
    pub id: String,
    pub title: String,
    pub artist: String,
    pub album: Option<String>,
    pub album_art_url: Option<String>,
    pub url: String,
    pub played_at: Option<UtcTime>,
    pub now_playing: bool,
    pub artist_mbid: Option<String>,
    pub album_mbid: Option<String>,
}

// ---------------------------------------------------------------------
// Copies: the records clone exactly (a derived `Clone` would say nothing
// of its result to the verifier)
// ---------------------------------------------------------------------
/// A copy of an optional text.
pub(crate) fn copy_opt(o: &Option<String>) -> (res: Option<String>)
    ensures
        res == *o,
{
    match o {
        Some(s) => Some(s.clone()),
        None => None,
    }
}

impl Clone for LetterboxdWatch {
    /// An equal copy.
    fn clone(&self) -> (res: LetterboxdWatch)
        ensures
            res == *self,
    {
        LetterboxdWatch {
            id: self.id.clone(),
            title: self.title.clone(),
            year: self.year,
            rating: copy_opt(&self.rating),
            rating_stars: copy_opt(&self.rating_stars),
            watched_date: self.watched_date,
            rewatch: self.rewatch,
            liked: self.liked,
            poster_url: copy_opt(&self.poster_url),
            tmdb: match &self.tmdb {
                Some(t) => Some(TmdbRef { kind: t.kind, id: t.id.clone() }),
                None => None,
            },
            url: self.url.clone(),
            published_at: self.published_at,
        }
    }
}

impl Clone for GoodreadsBookUpdate {
    /// An equal copy.
    fn clone(&self) -> (res: GoodreadsBookUpdate)
        ensures
            res == *self,
    {
        GoodreadsBookUpdate {
            id: self.id.clone(),
            action: self.action,
            title: self.title.clone(),
            author: copy_opt(&self.author),
            rating: self.rating,
            cover_url: copy_opt(&self.cover_url),
            book_url: copy_opt(&self.book_url),
            author_url: copy_opt(&self.author_url),
            review_url: self.review_url.clone(),
            published_at: self.published_at,
        }
    }
}

impl Clone for LastfmTrack {
    /// An equal copy.
    fn clone(&self) -> (res: LastfmTrack)
        ensures
            res == *self,
    {
        LastfmTrack {
            id: self.id.clone(),
            title: self.title.clone(),
            artist: self.artist.clone(),
            album: copy_opt(&self.album),
            album_art_url: copy_opt(&self.album_art_url),
            url: self.url.clone(),
            played_at: self.played_at,
            now_playing: self.now_playing,
            artist_mbid: copy_opt(&self.artist_mbid),
            album_mbid: copy_opt(&self.album_mbid),
        }
    }
}

impl Clone for Activity {
    /// An equal copy.
    fn clone(&self) -> (res: Activity)
        ensures
            res == *self,
    {
        Activity {
            id: self.id.clone(),
            source: self.source,
            occurred_at: self.occurred_at,
            external_url: self.external_url.clone(),
            title: self.title.clone(),
            image_url: copy_opt(&self.image_url),
            details: match &self.details {
                ActivityDetails::FilmWatch(w) => ActivityDetails::FilmWatch(w.clone()),
                ActivityDetails::BookUpdate(u) => ActivityDetails::BookUpdate(u.clone()),
                ActivityDetails::TrackPlay(t) => ActivityDetails::TrackPlay(t.clone()),
            },
        }
    }
}

} // verus!

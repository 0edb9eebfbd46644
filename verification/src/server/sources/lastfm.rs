//! The Last.fm recent-tracks response, once decoded from JSON.
use vstd::prelude::*;

use crate::models::{LastfmTrack, UtcTime};
use crate::server::sources::opt_view;
use crate::text::{chars_of, decimal_signed, decimal_string_i64, parse_i64_chars, parse_i64_spec, push_str, to_owned};
use crate::time::{timestamp_in_range, utc_from_timestamp};

verus! {

/// `user.getrecenttracks`: the `recenttracks` object.
#[derive(Clone, Debug, PartialEq, Eq)]
pub struct LastfmRecentTracksResponse {
    pub recenttracks: LastfmRecentTracks,
}

/// The list of recent tracks, newest first.
#[derive(Clone, Debug, PartialEq, Eq)]
pub struct LastfmRecentTracks {
    pub track: Vec<LastfmApiTrack>,
}

/// One track as the API gives it.
#[derive(Clone, Debug, PartialEq, Eq)]
pub struct LastfmApiTrack {
    pub name: String,
    pub artist: LastfmText,
    pub album: LastfmText,
    pub image: Vec<LastfmImage>,
    pub url: String,
    pub date: Option<LastfmDate>,
    pub attr: Option<LastfmAttrs>,
}

/// A named entity: its MusicBrainz id and its text (`#text`).
#[derive(Clone, Debug, PartialEq, Eq)]
pub struct LastfmText {
    pub mbid: Option<String>,
    pub text: String,
}

/// An image URL (`#text`), possibly empty.
#[derive(Clone, Debug, PartialEq, Eq)]
pub struct LastfmImage {
    pub text: String,
}

/// When a track was scrobbled, as a Unix timestamp in text.
#[derive(Clone, Debug, PartialEq, Eq)]
pub struct LastfmDate {
    pub uts: String,
}

/// The `@attr` object: `nowplaying` is `"true"` for the track playing now.
#[derive(Clone, Debug, PartialEq, Eq)]
pub struct LastfmAttrs {
    pub nowplaying: Option<String>,
}

/// `None` for an empty string.
pub open spec fn none_if_empty_spec(value: Seq<char>) -> Option<Seq<char>> {
    if value.len() == 0 {
        None
    } else {
        Some(value)
    }
}

/// `value`, or `None` when it is empty.
pub fn none_if_empty(value: String) -> (res: Option<String>)
    ensures
        opt_view(res) == none_if_empty_spec(value@),
{
    if value.as_str().is_empty() {
        None
    } else {
        Some(value)
    }
}

/// An optional MusicBrainz id, `None` when absent or empty.
pub open spec fn mbid_spec(mbid: Option<String>) -> Option<Seq<char>> {
    match mbid {
        Some(m) => none_if_empty_spec(m@),
        None => None,
    }
}

/// The track is the one playing now.
pub open spec fn now_playing_spec(attr: Option<LastfmAttrs>) -> bool {
    match attr {
        Some(a) => match a.nowplaying {
            Some(v) => v@ == "true"@,
            None => false,
        },
        None => false,
    }
}

/// When the track was played: its timestamp, read as an `i64`, when chrono
/// can represent it.
pub open spec fn played_at_spec(date: Option<LastfmDate>) -> Option<UtcTime> {
    match date {
        Some(d) => match parse_i64_spec(d.uts@) {
            Some(ts) => if timestamp_in_range(ts) {
                Some(UtcTime { seconds: ts as i64, nanos: 0 })
            } else {
                None
            },
            None => None,
        },
        None => None,
    }
}

/// The last non-empty image URL among `images[..n]`.
pub open spec fn last_image_upto(images: Seq<LastfmImage>, n: int) -> Option<Seq<char>>
    decreases n,
{
    if n <= 0 || n > images.len() {
        None
    } else if images[n - 1].text@.len() > 0 {
        Some(images[n - 1].text@)
    } else {
        last_image_upto(images, n - 1)
    }
}

/// The largest image: the last one with a URL.
pub open spec fn album_art_spec(images: Seq<LastfmImage>) -> Option<Seq<char>> {
    last_image_upto(images, images.len() as int)
}

/// The id of a track: `lastfm:<time>:<artist>:<title>`, where the time is
/// the Unix timestamp it was played at, or `now-playing`.
pub open spec fn track_id_spec(played_at: Option<UtcTime>, artist: Seq<char>, name: Seq<char>) -> Seq<
    char,
> {
    let time = match played_at {
        Some(t) => decimal_signed(t.seconds as int),
        None => "now-playing"@,
    };
    "lastfm:"@ + time + ":"@ + artist + ":"@ + name
}

/// `t` is what the API track `track` becomes.
pub open spec fn track_from_api(track: LastfmApiTrack, t: LastfmTrack) -> bool {
    &&& t.played_at == played_at_spec(track.date)
    &&& t.now_playing == now_playing_spec(track.attr)
    &&& t.id@ == track_id_spec(t.played_at, track.artist.text@, track.name@)
    &&& t.title@ == track.name@
    &&& t.artist@ == track.artist.text@
    &&& opt_view(t.album) == none_if_empty_spec(track.album.text@)
    &&& opt_view(t.album_art_url) == album_art_spec(track.image@)
    &&& t.url@ == track.url@
    &&& opt_view(t.artist_mbid) == mbid_spec(track.artist.mbid)
    &&& opt_view(t.album_mbid) == mbid_spec(track.album.mbid)
}

fn is_now_playing(attr: &Option<LastfmAttrs>) -> (res: bool)
    ensures
        res == now_playing_spec(*attr),
{
    match attr {
        Some(a) => match &a.nowplaying {
            Some(v) => crate::server::sources::same_text(v.as_str(), "true"),
            None => false,
        },
        None => false,
    }
}

fn played_at_of(date: &Option<LastfmDate>) -> (res: Option<UtcTime>)
    ensures
        res == played_at_spec(*date),
{
    match date {
        Some(d) => {
            let cs = chars_of(d.uts.as_str());
            match parse_i64_chars(cs.as_slice()) {
                Some(ts) => utc_from_timestamp(ts),
                None => None,
            }
        },
        None => None,
    }
}

fn album_art_of(images: &Vec<LastfmImage>) -> (res: Option<String>)
    ensures
        opt_view(res) == album_art_spec(images@),
{
    let mut n: usize = images.len();
    while n > 0
        invariant
            n <= images@.len(),
            last_image_upto(images@, n as int) == album_art_spec(images@),
        decreases n,
    {
        let text = &images[n - 1].text;
        if !text.as_str().is_empty() {
            return Some(text.clone());
        }
        n = n - 1;
    }
    None
}

fn mbid_of(mbid: Option<String>) -> (res: Option<String>)
    ensures
        opt_view(res) == mbid_spec(mbid),
{
    match mbid {
        Some(m) => none_if_empty(m),
        None => None,
    }
}

proof fn lemma_last_image_upto(images: Seq<LastfmImage>, n: int)
    requires
        0 <= n <= images.len(),
    ensures
        last_image_upto(images, n) matches Some(u) ==> exists|k: int|
            0 <= k < n && #[trigger] images[k].text@ == u && u.len() > 0 && forall|j: int|
                k < j < n ==> (#[trigger] images[j].text@).len() == 0,
        last_image_upto(images, n) is None <==> forall|j: int|
            0 <= j < n ==> (#[trigger] images[j].text@).len() == 0,
    decreases n,
{
    if n > 0 {
        lemma_last_image_upto(images, n - 1);
        if images[n - 1].text@.len() == 0 {
            if let Some(u) = last_image_upto(images, n - 1) {
                let k = choose|k: int|
                    0 <= k < n - 1 && #[trigger] images[k].text@ == u && u.len() > 0 && forall|j: int|
                        k < j < n - 1 ==> (#[trigger] images[j].text@).len() == 0;
                assert(images[k].text@ == u);
            }
        } else {
            assert(images[n - 1].text@ == images[n - 1].text@);
        }
    }
}

/// A track's album art is the last of its images with a URL (Last.fm lists
/// them from small to extra large), and there is none only when no image
/// has a URL.
pub proof fn lemma_album_art_is_last_image_with_url(track: LastfmApiTrack, t: LastfmTrack)
    requires
        track_from_api(track, t),
    ensures
        t.album_art_url matches Some(u) ==> exists|k: int|
            0 <= k < track.image@.len() && #[trigger] track.image@[k].text@ == u@ && u@.len() > 0
                && forall|j: int|
                k < j < track.image@.len() ==> (#[trigger] track.image@[j].text@).len() == 0,
        t.album_art_url is None <==> forall|j: int|
            0 <= j < track.image@.len() ==> (#[trigger] track.image@[j].text@).len() == 0,
{
    lemma_last_image_upto(track.image@, track.image@.len() as int);
}

impl LastfmTrack {
    /// The track as the site shows it.
    pub fn from_api(track: LastfmApiTrack) -> (res: LastfmTrack)
        ensures
            track_from_api(track, res),
    {
        let now_playing = is_now_playing(&track.attr);
        let played_at = played_at_of(&track.date);
        let album_art_url = album_art_of(&track.image);
        let mut id = to_owned("lastfm:");
        match played_at {
            Some(t) => {
                let stamp = decimal_string_i64(t.seconds);
                push_str(&mut id, stamp.as_str());
            },
            None => push_str(&mut id, "now-playing"),
        }
        push_str(&mut id, ":");
        push_str(&mut id, track.artist.text.as_str());
        push_str(&mut id, ":");
        push_str(&mut id, track.name.as_str());
        let album = none_if_empty(track.album.text);
        let album_mbid = mbid_of(track.album.mbid);
        let artist_mbid = mbid_of(track.artist.mbid);
        LastfmTrack {
            id,
            title: track.name,
            artist: track.artist.text,
            album,
            album_art_url,
            url: track.url,
            played_at,
            now_playing,
            artist_mbid,
            album_mbid,
        }
    }
}

/// The tracks of a decoded response, in order.
pub fn tracks_from_api(response: LastfmRecentTracksResponse) -> (res: Vec<LastfmTrack>)
    ensures
        res@.len() == response.recenttracks.track@.len(),
        forall|k: int|
            0 <= k < res@.len() ==> track_from_api(
                response.recenttracks.track@[k],
                #[trigger] res@[k],
            ),
{
    let ghost tracks = response.recenttracks.track@;
    let mut input = response.recenttracks.track;
    let mut out: Vec<LastfmTrack> = Vec::new();
    // take the tracks from the back, then restore the order
    let mut rev: Vec<LastfmTrack> = Vec::new();
    assert(input@ =~= tracks.take(input@.len() as int));
    while input.len() > 0
        invariant
            input@ == tracks.take(input@.len() as int),
            input@.len() + rev@.len() == tracks.len(),
            forall|k: int|
                0 <= k < rev@.len() ==> track_from_api(
                    tracks[tracks.len() - 1 - k],
                    #[trigger] rev@[k],
                ),
        decreases input.len(),
    {
        let ghost before = input@;
        let last = input.pop().unwrap();
        assert(last == tracks[before.len() - 1]);
        assert(input@ =~= tracks.take(input@.len() as int));
        rev.push(LastfmTrack::from_api(last));
    }
    while rev.len() > 0
        invariant
            rev@.len() + out@.len() == tracks.len(),
            forall|k: int|
                0 <= k < rev@.len() ==> track_from_api(
                    tracks[tracks.len() - 1 - k],
                    #[trigger] rev@[k],
                ),
            forall|k: int| 0 <= k < out@.len() ==> track_from_api(tracks[k], #[trigger] out@[k]),
        decreases rev.len(),
    {
        let t = rev.pop().unwrap();
        out.push(t);
    }
    out
}

} // verus!

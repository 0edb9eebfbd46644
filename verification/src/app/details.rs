//! The detail lines under each activity.
use vstd::prelude::*;

use crate::models::ActivityDetails;

pub mod goodreads;
pub mod lastfm;
pub mod letterboxd;

verus! {

/// The detail lines for an activity's record.
pub open spec fn detail_lines_spec(details: ActivityDetails) -> Seq<Seq<char>> {
    match details {
        ActivityDetails::FilmWatch(watch) => letterboxd::detail_lines_spec(watch),
        ActivityDetails::BookUpdate(update) => goodreads::detail_lines_spec(update),
        ActivityDetails::TrackPlay(track) => lastfm::detail_lines_spec(track),
    }
}

/// The views of a list of strings.
pub open spec fn lines_view(lines: Seq<String>) -> Seq<Seq<char>> {
    lines.map_values(|l: String| l@)
}

/// The detail lines for an activity's record.
pub fn activity_detail_lines(details: &ActivityDetails) -> (res: Vec<String>)
    ensures
        lines_view(res@) == detail_lines_spec(*details),
{
    match details {
        ActivityDetails::FilmWatch(watch) => letterboxd::detail_lines(watch),
        ActivityDetails::BookUpdate(update) => goodreads::detail_lines(update),
        ActivityDetails::TrackPlay(track) => lastfm::detail_lines(track),
    }
}

} // verus!

//! Detail lines for a Last.fm track.
use vstd::prelude::*;

use crate::app::details::lines_view;
use crate::models::LastfmTrack;
use crate::text::{concat, push_str, to_owned};

verus! {

/// The lines: the credit (`by <artist>`, with `from <album>` when known),
/// then whether the track is playing now or was played.
pub open spec fn detail_lines_spec(track: LastfmTrack) -> Seq<Seq<char>> {
    let credit = match track.album {
        Some(album) => "by "@ + track.artist@ + " from "@ + album@,
        None => "by "@ + track.artist@,
    };
    let action = if track.now_playing {
        "now playing"@
    } else {
        "played"@
    };
    seq![credit, action]
}

/// The detail lines for a Last.fm track.
pub fn detail_lines(track: &LastfmTrack) -> (res: Vec<String>)
    ensures
        lines_view(res@) == detail_lines_spec(*track),
{
    let mut credit = concat("by ", track.artist.as_str());
    if let Some(album) = &track.album {
        push_str(&mut credit, " from ");
        push_str(&mut credit, album.as_str());
    }
    let action = if track.now_playing {
        "now playing"
    } else {
        "played"
    };
    let mut lines: Vec<String> = Vec::new();
    lines.push(credit);
    lines.push(to_owned(action));
    assert(lines_view(lines@) =~= detail_lines_spec(*track));
    lines
}

} // verus!

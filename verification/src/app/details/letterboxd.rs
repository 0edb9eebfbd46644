//! Detail lines for a Letterboxd watch.
use vstd::prelude::*;

use crate::app::details::lines_view;
use crate::models::LetterboxdWatch;
use crate::text::{chars_of, concat, count_char, count_chars, decimal, decimal_string, has_char, push_str, to_owned};

verus! {

/// What a watch was: a rewatch, else a liked watch, else a plain one.
pub open spec fn action_line_spec(watch: LetterboxdWatch) -> Seq<char> {
    if watch.rewatch {
        "rewatched"@
    } else if watch.liked {
        "liked"@
    } else {
        "watched"@
    }
}

/// What a watch was.
pub fn action_line(watch: &LetterboxdWatch) -> (res: &'static str)
    ensures
        res@ == action_line_spec(*watch),
{
    if watch.rewatch {
        "rewatched"
    } else if watch.liked {
        "liked"
    } else {
        "watched"
    }
}

/// A star rating as a number: the count of `★`, plus `.5` when there is a
/// `½`; `None` when there is neither.
pub open spec fn normalized_stars_spec(rating: Seq<char>) -> Option<Seq<char>> {
    let whole = count_char(rating, '★');
    let half = rating.contains('½');
    if whole == 0 && !half {
        None
    } else if half {
        Some(decimal(whole) + ".5"@)
    } else {
        Some(decimal(whole))
    }
}

/// A star rating as a number.
pub fn normalized_rating_stars(rating: &str) -> (res: Option<String>)
    ensures
        match (res, normalized_stars_spec(rating@)) {
            (Some(s), Some(v)) => s@ == v,
            (None, None) => true,
            _ => false,
        },
{
    let cs = chars_of(rating);
    let whole = count_chars(cs.as_slice(), '★');
    let half = has_char(cs.as_slice(), '½');
    if whole == 0 && !half {
        return None;
    }
    let mut s = decimal_string(whole as u64);
    if half {
        push_str(&mut s, ".5");
    }
    Some(s)
}

/// The lines: the rating out of five when the stars read as one, then
/// what the watch was.
pub open spec fn detail_lines_spec(watch: LetterboxdWatch) -> Seq<Seq<char>> {
    let rating = match watch.rating_stars {
        Some(stars) => normalized_stars_spec(stars@),
        None => None,
    };
    match rating {
        Some(r) => seq!["rated "@ + r + "/5"@, action_line_spec(watch)],
        None => seq![action_line_spec(watch)],
    }
}

/// The detail lines for a Letterboxd watch.
pub fn detail_lines(watch: &LetterboxdWatch) -> (res: Vec<String>)
    ensures
        lines_view(res@) == detail_lines_spec(*watch),
{
    let mut lines: Vec<String> = Vec::new();
    let rating = match &watch.rating_stars {
        Some(stars) => normalized_rating_stars(stars.as_str()),
        None => None,
    };
    if let Some(r) = rating {
        let mut line = concat("rated ", r.as_str());
        push_str(&mut line, "/5");
        lines.push(line);
    }
    lines.push(to_owned(action_line(watch)));
    assert(lines_view(lines@) =~= detail_lines_spec(*watch));
    lines
}

} // verus!

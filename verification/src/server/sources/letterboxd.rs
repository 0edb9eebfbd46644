//! The Letterboxd diary feed (RSS).
use vstd::prelude::*;

use crate::models::{CalendarDate, LetterboxdWatch, TmdbKind, TmdbRef, UtcTime};
use crate::server::error::BackendError;
use crate::server::sources::{
    error_is, child_text, child_text_spec, first_image_spec, first_image_src, is_item, item_indices,
    items_from, lemma_items_from_bounds, node_is_item, opt_view, parse_rfc2822_child, parse_xml,
    rfc2822_child_spec, XmlNode,
};
use crate::text::{
    after_last, before_char, chars_of, eq_ignore_ascii_case, equals_ignore_ascii_case, has_char,
    parse_unsigned, parse_unsigned_chars, split_after_last, split_before_char, trim,
    trim_string,
};
use crate::time::{naive_date_parsed, parse_naive_date, rfc2822_instant};

verus! {

/// The film title: the `filmTitle` element, else the `title` element up to
/// its first comma.
pub open spec fn film_title_spec(nodes: Seq<XmlNode>, i: int) -> Option<Seq<char>> {
    match child_text_spec(nodes, i, "filmTitle"@) {
        Some(t) => Some(t),
        None => match child_text_spec(nodes, i, "title"@) {
            Some(t) => Some(before_char(t, ',')),
            None => None,
        },
    }
}

/// The star rating: what follows the last ` - ` of the `title` element,
/// trimmed, when it holds a star.
pub open spec fn rating_stars_spec(nodes: Seq<XmlNode>, i: int) -> Option<Seq<char>> {
    match child_text_spec(nodes, i, "title"@) {
        Some(t) => {
            let r = trim(after_last(t, " - "@));
            if r.contains('★') {
                Some(r)
            } else {
                None
            }
        },
        None => None,
    }
}

/// The release year from `filmYear`, when it reads as a `u16`.
pub open spec fn film_year_spec(nodes: Seq<XmlNode>, i: int) -> Option<u16> {
    match child_text_spec(nodes, i, "filmYear"@) {
        Some(y) => match parse_unsigned(y, 65535) {
            Some(v) => Some(v as u16),
            None => None,
        },
        None => None,
    }
}

/// The date from `watchedDate`, read as `%Y-%m-%d`.
pub open spec fn watched_date_spec(nodes: Seq<XmlNode>, i: int) -> Option<CalendarDate> {
    match child_text_spec(nodes, i, "watchedDate"@) {
        Some(d) => naive_date_parsed(d, "%Y-%m-%d"@),
        None => None,
    }
}

/// The element `name` says `yes`, in any case.
pub open spec fn yes_flag_spec(nodes: Seq<XmlNode>, i: int, name: Seq<char>) -> bool {
    match child_text_spec(nodes, i, name) {
        Some(v) => eq_ignore_ascii_case(v, "yes"@),
        None => false,
    }
}

/// The poster: the first image in the `description` element.
pub open spec fn poster_spec(nodes: Seq<XmlNode>, i: int) -> Option<Seq<char>> {
    match child_text_spec(nodes, i, "description"@) {
        Some(d) => first_image_spec(d),
        None => None,
    }
}

/// The TMDB reference: a movie id, else a show id.
pub open spec fn tmdb_spec(nodes: Seq<XmlNode>, i: int) -> Option<(TmdbKind, Seq<char>)> {
    match child_text_spec(nodes, i, "movieId"@) {
        Some(id) => Some((TmdbKind::Movie, id)),
        None => match child_text_spec(nodes, i, "tvId"@) {
            Some(id) => Some((TmdbKind::Tv, id)),
            None => None,
        },
    }
}

/// The view of an optional TMDB reference.
pub open spec fn tmdb_view(t: Option<TmdbRef>) -> Option<(TmdbKind, Seq<char>)> {
    match t {
        Some(r) => Some((r.kind, r.id@)),
        None => None,
    }
}

/// Why item `i` cannot be read: `Some(Some(field))` for a missing field,
/// `Some(None)` for an unreadable publication date, `None` when it reads.
pub open spec fn letterboxd_item_error(nodes: Seq<XmlNode>, i: int) -> Option<
    Option<&'static str>,
> {
    if child_text_spec(nodes, i, "link"@) is None {
        Some(Some("letterboxd link"))
    } else {
        match rfc2822_child_spec(nodes, i, "pubDate"@) {
            None => Some(Some("pubDate")),
            Some(None) => Some(None),
            Some(Some(_)) => if film_title_spec(nodes, i) is None {
                Some(Some("letterboxd film title"))
            } else {
                None
            },
        }
    }
}

/// `w` is what item `i` reads as.
pub open spec fn watch_from_item(nodes: Seq<XmlNode>, i: int, w: LetterboxdWatch) -> bool {
    let url = child_text_spec(nodes, i, "link"@)->0;
    &&& w.url@ == url
    &&& Some(w.published_at) == rfc2822_instant(child_text_spec(nodes, i, "pubDate"@)->0)
    &&& w.id@ == match child_text_spec(nodes, i, "guid"@) {
        Some(g) => g,
        None => url,
    }
    &&& Some(w.title@) == film_title_spec(nodes, i)
    &&& w.year == film_year_spec(nodes, i)
    &&& opt_view(w.rating) == child_text_spec(nodes, i, "memberRating"@)
    &&& opt_view(w.rating_stars) == rating_stars_spec(nodes, i)
    &&& w.watched_date == watched_date_spec(nodes, i)
    &&& w.rewatch == yes_flag_spec(nodes, i, "rewatch"@)
    &&& w.liked == yes_flag_spec(nodes, i, "memberLike"@)
    &&& opt_view(w.poster_url) == poster_spec(nodes, i)
    &&& tmdb_view(w.tmdb) == tmdb_spec(nodes, i)
}

/// A watch points to TMDB as a movie exactly when its item has a
/// `movieId`, with that id; it points to a show only when there is no
/// `movieId` and there is a `tvId`, with that id; and it has no reference
/// when there is neither.
pub proof fn lemma_tmdb_movie_before_show(nodes: Seq<XmlNode>, i: int, w: LetterboxdWatch)
    requires
        watch_from_item(nodes, i, w),
    ensures
        child_text_spec(nodes, i, "movieId"@) matches Some(id) ==> w.tmdb matches Some(r) && r.kind
            == TmdbKind::Movie && r.id@ == id,
        (w.tmdb is Some && w.tmdb->0.kind == TmdbKind::Tv) ==> child_text_spec(
            nodes,
            i,
            "movieId"@,
        ) is None && child_text_spec(nodes, i, "tvId"@) == Some(w.tmdb->0.id@),
        w.tmdb is None <==> child_text_spec(nodes, i, "movieId"@) is None && child_text_spec(
            nodes,
            i,
            "tvId"@,
        ) is None,
{
}

/// Whether the element `name` of item `i` says `yes`.
fn yes_flag(nodes: &Vec<XmlNode>, i: usize, name: &str) -> (res: bool)
    requires
        i < nodes@.len(),
    ensures
        res == yes_flag_spec(nodes@, i as int, name@),
{
    match child_text(nodes, i, name) {
        Some(v) => {
            let cs = chars_of(v.as_str());
            let yes = chars_of("yes");
            equals_ignore_ascii_case(cs.as_slice(), yes.as_slice())
        },
        None => false,
    }
}

/// Reads the item element `i` of a Letterboxd feed as a film watch.
pub fn parse_letterboxd_item(nodes: &Vec<XmlNode>, i: usize) -> (res: Result<
    Option<LetterboxdWatch>,
    BackendError,
>)
    requires
        i < nodes@.len(),
    ensures
        match letterboxd_item_error(nodes@, i as int) {
            None => res matches Ok(Some(w)) && watch_from_item(nodes@, i as int, w),
            Some(why) => res matches Err(e) && error_is(e, why),
        },
{
    let url = match child_text(nodes, i, "link") {
        Some(u) => u,
        None => return Err(BackendError::MissingField("letterboxd link")),
    };
    let published_at = match parse_rfc2822_child(nodes, i, "pubDate") {
        Ok(t) => t,
        Err(e) => return Err(e),
    };
    let id = match child_text(nodes, i, "guid") {
        Some(g) => g,
        None => url.clone(),
    };
    let title = match child_text(nodes, i, "filmTitle") {
        Some(t) => t,
        None => match child_text(nodes, i, "title") {
            Some(t) => split_before_char(t.as_str(), ','),
            None => return Err(BackendError::MissingField("letterboxd film title")),
        },
    };
    let year = match child_text(nodes, i, "filmYear") {
        Some(y) => {
            let cs = chars_of(y.as_str());
            match parse_unsigned_chars(cs.as_slice(), 65535) {
                Some(v) => Some(v as u16),
                None => None,
            }
        },
        None => None,
    };
    let rating = child_text(nodes, i, "memberRating");
    let rating_stars = match child_text(nodes, i, "title") {
        Some(t) => {
            let tail = split_after_last(t.as_str(), " - ");
            let r = trim_string(tail.as_str());
            let rc = chars_of(r.as_str());
            if has_char(rc.as_slice(), '★') {
                Some(r)
            } else {
                None
            }
        },
        None => None,
    };
    let watched_date = match child_text(nodes, i, "watchedDate") {
        Some(d) => parse_naive_date(d.as_str(), "%Y-%m-%d"),
        None => None,
    };
    let rewatch = yes_flag(nodes, i, "rewatch");
    let liked = yes_flag(nodes, i, "memberLike");
    let poster_url = match child_text(nodes, i, "description") {
        Some(d) => first_image_src(d.as_str()),
        None => None,
    };
    let tmdb = match child_text(nodes, i, "movieId") {
        Some(id) => Some(TmdbRef { kind: TmdbKind::Movie, id }),
        None => match child_text(nodes, i, "tvId") {
            Some(id) => Some(TmdbRef { kind: TmdbKind::Tv, id }),
            None => None,
        },
    };
    Ok(
        Some(
            LetterboxdWatch {
                id,
                title,
                year,
                rating,
                rating_stars,
                watched_date,
                rewatch,
                liked,
                poster_url,
                tmdb,
                url,
                published_at,
            },
        ),
    )
}

/// The items of a document all read (`ws` holds them in order).
pub open spec fn letterboxd_items_read(nodes: Seq<XmlNode>, ws: Seq<LetterboxdWatch>) -> bool {
    let idx = item_indices(nodes);
    &&& ws.len() == idx.len()
    &&& forall|k: int| 0 <= k < idx.len() ==> watch_from_item(nodes, idx[k], #[trigger] ws[k])
}

/// Every item of the document reads.
pub open spec fn all_letterboxd_items_read(nodes: Seq<XmlNode>) -> bool {
    forall|k: int|
        0 <= k < item_indices(nodes).len() ==> letterboxd_item_error(
            nodes,
            #[trigger] item_indices(nodes)[k],
        ) is None
}

/// `e` is the error of the first item that does not read.
pub open spec fn first_letterboxd_error(nodes: Seq<XmlNode>, e: BackendError) -> bool {
    exists|k: int|
        #![trigger item_indices(nodes)[k]]
        {
            &&& 0 <= k < item_indices(nodes).len()
            &&& forall|m: int|
                0 <= m < k ==> letterboxd_item_error(nodes, #[trigger] item_indices(nodes)[m])
                    is None
            &&& letterboxd_item_error(nodes, item_indices(nodes)[k]) matches Some(why)
            &&& error_is(e, why)
        }
}

/// The film watches of a parsed document: one per `item` element, in
/// document order; the first item that does not read makes the whole
/// document fail with its error.
pub fn letterboxd_from_nodes(nodes: &Vec<XmlNode>) -> (res: Result<
    Vec<LetterboxdWatch>,
    BackendError,
>)
    ensures
        res is Ok <==> all_letterboxd_items_read(nodes@),
        res matches Ok(ws) ==> letterboxd_items_read(nodes@, ws@),
        res matches Err(e) ==> first_letterboxd_error(nodes@, e),
{
    let mut out: Vec<LetterboxdWatch> = Vec::new();
    let ghost mut done: Seq<int> = Seq::empty();
    let mut j: usize = 0;
    proof {
        lemma_items_from_bounds(nodes@, 0);
    }
    while j < nodes.len()
        invariant
            j <= nodes@.len(),
            item_indices(nodes@) == done + items_from(nodes@, j as int),
            out@.len() == done.len(),
            forall|k: int| 0 <= k < done.len() ==> watch_from_item(nodes@, done[k], #[trigger] out@[k]),
            forall|k: int| 0 <= k < done.len() ==> letterboxd_item_error(nodes@, #[trigger] done[k]) is None,
        decreases nodes.len() - j,
    {
        if node_is_item(nodes, j) {
            assert(items_from(nodes@, j as int) =~= seq![j as int].add(items_from(nodes@, j + 1)));
            match parse_letterboxd_item(nodes, j) {
                Err(e) => {
                    assert(item_indices(nodes@)[done.len() as int] == j);
                    assert(forall|m: int| 0 <= m < done.len() ==> item_indices(nodes@)[m] == done[m]);
                    return Err(e);
                },
                Ok(item) => {
                    if let Some(w) = item {
                        out.push(w);
                    }
                    proof {
                        assert(done + items_from(nodes@, j as int) =~= done.push(j as int)
                            + items_from(nodes@, j + 1));
                        done = done.push(j as int);
                    }
                },
            }
        }
        j = j + 1;
    }
    proof {
        assert(items_from(nodes@, j as int) =~= Seq::<int>::empty());
        assert(item_indices(nodes@) =~= done);
    }
    Ok(out)
}

/// The film watches in a Letterboxd RSS feed. A body that is not XML is an
/// XML error; otherwise see [`letterboxd_from_nodes`].
pub fn parse_letterboxd(body: &str) -> (res: Result<Vec<LetterboxdWatch>, BackendError>)
    ensures
        match crate::server::sources::xml_document(body@) {
            None => res matches Err(BackendError::Xml(_)),
            Some(nodes) => {
                &&& res is Ok <==> all_letterboxd_items_read(nodes)
                &&& res matches Ok(ws) ==> letterboxd_items_read(nodes, ws@)
                &&& res matches Err(e) ==> first_letterboxd_error(nodes, e)
            },
        },
{
    match parse_xml(body) {
        Err(e) => Err(BackendError::Xml(e)),
        Ok(nodes) => letterboxd_from_nodes(&nodes),
    }
}

} // verus!

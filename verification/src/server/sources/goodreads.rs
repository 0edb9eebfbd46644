//! The Goodreads updates feed (RSS with HTML descriptions).
use vstd::prelude::*;

use crate::models::{GoodreadsAction, GoodreadsBookUpdate};
use crate::server::error::BackendError;
use crate::server::sources::{
    error_is, child_text, child_text_spec, html_first_match, is_item, join_url, node_is_item, opt_view,
    parse_rfc2822_child, parse_xml, rfc2822_child_spec, select_first, url_joined, XmlNode,
};
use crate::text::{
    ascii_lower, chars_of, collapse_whitespace, collapse_ws, contains_chars, contains_seq,
    copy_range, find_chars, find_first, find_last, lemma_found_occurs, parse_unsigned,
    parse_unsigned_chars, rfind_chars, string_of_range, to_ascii_lower, trim, trim_bounds,
};
use crate::time::rfc2822_instant;

verus! {

/// The base that relative Goodreads links are resolved against.
pub const GOODREADS_BASE_URL: &'static str = "https://www.goodreads.com/";

/// The kind of update an item reports, from its title and description
/// (compared without regard to ASCII case), or `None` for other updates.
pub open spec fn action_spec(title: Seq<char>, description: Seq<char>) -> Option<GoodreadsAction> {
    let t = ascii_lower(title);
    let d = ascii_lower(description);
    if contains_seq(t, "wants to read"@) {
        Some(GoodreadsAction::WantsToRead)
    } else if contains_seq(t, "started reading"@) {
        Some(GoodreadsAction::StartedReading)
    } else if contains_seq(t, "finished reading"@) {
        Some(GoodreadsAction::FinishedReading)
    } else if contains_seq(d, "gave "@) && contains_seq(d, " stars to "@) {
        Some(GoodreadsAction::Rated)
    } else if contains_seq(t, " added "@) || contains_seq(t, " added '"@) {
        Some(GoodreadsAction::Added)
    } else {
        None
    }
}

/// The kind of update an item reports.
pub fn goodreads_action(title: &str, description: &str) -> (res: Option<GoodreadsAction>)
    ensures
        res == action_spec(title@, description@),
{
    let tc = chars_of(title);
    let dc = chars_of(description);
    let t = to_ascii_lower(tc.as_slice());
    let d = to_ascii_lower(dc.as_slice());
    if contains_chars(t.as_slice(), chars_of("wants to read").as_slice()) {
        Some(GoodreadsAction::WantsToRead)
    } else if contains_chars(t.as_slice(), chars_of("started reading").as_slice()) {
        Some(GoodreadsAction::StartedReading)
    } else if contains_chars(t.as_slice(), chars_of("finished reading").as_slice()) {
        Some(GoodreadsAction::FinishedReading)
    } else if contains_chars(d.as_slice(), chars_of("gave ").as_slice()) && contains_chars(
        d.as_slice(),
        chars_of(" stars to ").as_slice(),
    ) {
        Some(GoodreadsAction::Rated)
    } else if contains_chars(t.as_slice(), chars_of(" added ").as_slice()) || contains_chars(
        t.as_slice(),
        chars_of(" added '").as_slice(),
    ) {
        Some(GoodreadsAction::Added)
    } else {
        None
    }
}

/// The rating in a description such as `... gave 4 stars to ...`: the text
/// between the first `gave ` and the next ` stars` (case aside), trimmed,
/// read as a `u8`.
pub open spec fn rating_spec(description: Seq<char>) -> Option<u8> {
    let l = ascii_lower(description);
    match find_first(l, "gave "@) {
        Some(k) => {
            let after = l.skip(k + 5);
            match find_first(after, " stars"@) {
                Some(m) => match parse_unsigned(trim(after.take(m)), 255) {
                    Some(v) => Some(v as u8),
                    None => None,
                },
                None => None,
            }
        },
        None => None,
    }
}

/// The rating in a Goodreads description.
pub fn goodreads_rating(description: &str) -> (res: Option<u8>)
    ensures
        res == rating_spec(description@),
{
    let dc = chars_of(description);
    let l = to_ascii_lower(dc.as_slice());
    let gave = chars_of("gave ");
    let k = match find_chars(l.as_slice(), gave.as_slice()) {
        Some(k) => k,
        None => return None,
    };
    proof {
        lemma_found_occurs(l@, gave@);
        reveal_strlit("gave ");
    }
    let total = l.len();
    let after = copy_range(l.as_slice(), k + 5, total);
    assert(after@ =~= l@.skip(k + 5));
    let stars = chars_of(" stars");
    let m = match find_chars(after.as_slice(), stars.as_slice()) {
        Some(m) => m,
        None => return None,
    };
    proof {
        lemma_found_occurs(after@, stars@);
    }
    let digits = copy_range(after.as_slice(), 0, m);
    assert(digits@ =~= after@.take(m as int));
    let (a, b) = trim_bounds(digits.as_slice());
    let trimmed = copy_range(digits.as_slice(), a, b);
    match parse_unsigned_chars(trimmed.as_slice(), 255) {
        Some(v) => Some(v as u8),
        None => None,
    }
}

/// The text between the first `'` and the last `'` after it.
pub open spec fn quoted_spec(input: Seq<char>) -> Option<Seq<char>> {
    match find_first(input, seq!['\'']) {
        Some(k) => {
            let rest = input.skip(k + 1);
            match find_last(rest, seq!['\'']) {
                Some(m) => Some(rest.take(m)),
                None => None,
            }
        },
        None => None,
    }
}

/// The text between the first `'` of `input` and the last `'` after it.
pub fn quoted_text(input: &str) -> (res: Option<String>)
    ensures
        opt_view(res) == quoted_spec(input@),
{
    let cs = chars_of(input);
    let quote: Vec<char> = vec!['\''];
    assert(quote@ =~= seq!['\'']);
    let k = match find_chars(cs.as_slice(), quote.as_slice()) {
        Some(k) => k,
        None => return None,
    };
    proof {
        lemma_found_occurs(cs@, quote@);
    }
    let total = cs.len();
    let rest = copy_range(cs.as_slice(), k + 1, total);
    assert(rest@ =~= input@.skip(k + 1));
    match rfind_chars(rest.as_slice(), quote.as_slice()) {
        Some(m) => {
            proof {
                lemma_found_occurs(rest@, quote@);
            }
            assert(rest@.take(m as int) =~= rest@.subrange(0, m as int));
            Some(string_of_range(rest.as_slice(), 0, m))
        },
        None => None,
    }
}

/// A Goodreads link made absolute.
pub open spec fn absolute_spec(href: Seq<char>) -> Option<Seq<char>> {
    url_joined(GOODREADS_BASE_URL@, href)
}

/// `href` resolved against the Goodreads site; a link that cannot be
/// resolved is a URL error.
pub fn absolute_goodreads_url(href: &str) -> (res: Result<String, BackendError>)
    ensures
        match absolute_spec(href@) {
            Some(u) => res matches Ok(r) && r@ == u,
            None => res matches Err(BackendError::Url(_)),
        },
{
    match join_url(GOODREADS_BASE_URL, href) {
        Ok(u) => Ok(u),
        Err(e) => Err(BackendError::Url(e)),
    }
}

/// A link made absolute, when there is one and it resolves.
pub open spec fn resolved_link(href: Option<Seq<char>>) -> Option<Seq<char>> {
    match href {
        Some(h) => absolute_spec(h),
        None => None,
    }
}

/// The text of a link, with whitespace collapsed, when not blank.
pub open spec fn link_text(m: Option<(Seq<char>, Option<Seq<char>>)>) -> Option<Seq<char>> {
    match m {
        Some((text, _)) => if collapse_ws(text).len() > 0 {
            Some(collapse_ws(text))
        } else {
            None
        },
        None => None,
    }
}

/// The attribute of a match.
pub open spec fn link_attr(m: Option<(Seq<char>, Option<Seq<char>>)>) -> Option<Seq<char>> {
    match m {
        Some((_, attr)) => attr,
        None => None,
    }
}

/// The item's title text, empty when missing.
pub open spec fn title_text_spec(nodes: Seq<XmlNode>, i: int) -> Seq<char> {
    match child_text_spec(nodes, i, "title"@) {
        Some(t) => t,
        None => Seq::empty(),
    }
}

/// The item's description, empty when missing.
pub open spec fn description_spec(nodes: Seq<XmlNode>, i: int) -> Seq<char> {
    match child_text_spec(nodes, i, "description"@) {
        Some(t) => t,
        None => Seq::empty(),
    }
}

/// The update item `i` reports, if it is one this site shows.
pub open spec fn item_action(nodes: Seq<XmlNode>, i: int) -> Option<GoodreadsAction> {
    action_spec(title_text_spec(nodes, i), description_spec(nodes, i))
}

/// The book link in the description.
pub open spec fn book_link(nodes: Seq<XmlNode>, i: int) -> Option<(Seq<char>, Option<Seq<char>>)> {
    html_first_match(description_spec(nodes, i), "a.bookTitle"@, "href"@)
}

/// The author link in the description.
pub open spec fn author_link(nodes: Seq<XmlNode>, i: int) -> Option<(Seq<char>, Option<Seq<char>>)> {
    html_first_match(description_spec(nodes, i), "a.authorName"@, "href"@)
}

/// The book title: the text of the book link, else the quoted part of the
/// item title.
pub open spec fn book_title_spec(nodes: Seq<XmlNode>, i: int) -> Option<Seq<char>> {
    match link_text(book_link(nodes, i)) {
        Some(t) => Some(t),
        None => quoted_spec(title_text_spec(nodes, i)),
    }
}

/// The cover: the first image of the description, made absolute.
pub open spec fn cover_spec(nodes: Seq<XmlNode>, i: int) -> Option<Seq<char>> {
    resolved_link(link_attr(html_first_match(description_spec(nodes, i), "img"@, "src"@)))
}

/// Why a shown item `i` cannot be read: `Some(Some(field))` for a missing
/// field, `Some(None)` for an unreadable date, `None` when it reads.
pub open spec fn goodreads_item_error(nodes: Seq<XmlNode>, i: int) -> Option<Option<&'static str>> {
    if child_text_spec(nodes, i, "link"@) is None {
        Some(Some("goodreads link"))
    } else {
        match rfc2822_child_spec(nodes, i, "pubDate"@) {
            None => Some(Some("pubDate")),
            Some(None) => Some(None),
            Some(Some(_)) => if book_title_spec(nodes, i) is None {
                Some(Some("goodreads book title"))
            } else {
                None
            },
        }
    }
}

/// `u` is what the shown item `i` reads as.
pub open spec fn update_from_item(nodes: Seq<XmlNode>, i: int, u: GoodreadsBookUpdate) -> bool {
    let review_url = child_text_spec(nodes, i, "link"@)->0;
    &&& Some(u.action) == item_action(nodes, i)
    &&& u.review_url@ == review_url
    &&& Some(u.published_at) == rfc2822_instant(child_text_spec(nodes, i, "pubDate"@)->0)
    &&& u.id@ == match child_text_spec(nodes, i, "guid"@) {
        Some(g) => g,
        None => review_url,
    }
    &&& Some(u.title@) == book_title_spec(nodes, i)
    &&& opt_view(u.book_url) == resolved_link(link_attr(book_link(nodes, i)))
    &&& opt_view(u.author) == link_text(author_link(nodes, i))
    &&& opt_view(u.author_url) == resolved_link(link_attr(author_link(nodes, i)))
    &&& opt_view(u.cover_url) == cover_spec(nodes, i)
    &&& u.rating == rating_spec(description_spec(nodes, i))
}

/// The text of a matched link, collapsed, when not blank.
fn matched_text(m: &Option<(String, Option<String>)>) -> (res: Option<String>)
    ensures
        opt_view(res) == link_text(match m {
            Some((t, a)) => Some((t@, opt_view(*a))),
            None => None,
        }),
{
    match m {
        Some((text, _)) => {
            let c = collapse_whitespace(text.as_str());
            if !c.as_str().is_empty() {
                Some(c)
            } else {
                None
            }
        },
        None => None,
    }
}

/// The attribute of a matched link, made absolute.
fn matched_link(m: &Option<(String, Option<String>)>) -> (res: Option<String>)
    ensures
        opt_view(res) == resolved_link(link_attr(match m {
            Some((t, a)) => Some((t@, opt_view(*a))),
            None => None,
        })),
{
    match m {
        Some((_, Some(href))) => match absolute_goodreads_url(href.as_str()) {
            Ok(u) => Some(u),
            Err(_) => None,
        },
        _ => None,
    }
}

/// Reads the item element `i` of a Goodreads feed: `Ok(None)` for updates
/// this site does not show.
pub fn parse_goodreads_item(nodes: &Vec<XmlNode>, i: usize) -> (res: Result<
    Option<GoodreadsBookUpdate>,
    BackendError,
>)
    requires
        i < nodes@.len(),
    ensures
        item_action(nodes@, i as int) is None ==> res matches Ok(None),
        item_action(nodes@, i as int) is Some ==> match goodreads_item_error(nodes@, i as int) {
            None => res matches Ok(Some(u)) && update_from_item(nodes@, i as int, u),
            Some(why) => res matches Err(e) && error_is(e, why),
        },
{
    let title_text = match child_text(nodes, i, "title") {
        Some(t) => t,
        None => String::new(),
    };
    let description = match child_text(nodes, i, "description") {
        Some(d) => d,
        None => String::new(),
    };
    let action = match goodreads_action(title_text.as_str(), description.as_str()) {
        Some(a) => a,
        None => return Ok(None),
    };
    let review_url = match child_text(nodes, i, "link") {
        Some(u) => u,
        None => return Err(BackendError::MissingField("goodreads link")),
    };
    let published_at = match parse_rfc2822_child(nodes, i, "pubDate") {
        Ok(t) => t,
        Err(e) => return Err(e),
    };
    let id = match child_text(nodes, i, "guid") {
        Some(g) => g,
        None => review_url.clone(),
    };
    let book = select_first(description.as_str(), "a.bookTitle", "href");
    let title = match matched_text(&book) {
        Some(t) => t,
        None => match quoted_text(title_text.as_str()) {
            Some(t) => t,
            None => return Err(BackendError::MissingField("goodreads book title")),
        },
    };
    let book_url = matched_link(&book);
    let author_match = select_first(description.as_str(), "a.authorName", "href");
    let author = matched_text(&author_match);
    let author_url = matched_link(&author_match);
    let image = select_first(description.as_str(), "img", "src");
    let cover_url = matched_link(&image);
    let rating = goodreads_rating(description.as_str());
    Ok(
        Some(
            GoodreadsBookUpdate {
                id,
                action,
                title,
                author,
                rating,
                cover_url,
                book_url,
                author_url,
                review_url,
                published_at,
            },
        ),
    )
}

/// Node `i` is an item this site shows.
pub open spec fn is_shown(nodes: Seq<XmlNode>, i: int) -> bool {
    is_item(nodes, i) && item_action(nodes, i) is Some
}

/// The indices, at or after `j`, of the items this site shows.
pub open spec fn shown_from(nodes: Seq<XmlNode>, j: int) -> Seq<int>
    decreases nodes.len() - j,
{
    if j < 0 || j >= nodes.len() {
        Seq::empty()
    } else if is_shown(nodes, j) {
        seq![j].add(shown_from(nodes, j + 1))
    } else {
        shown_from(nodes, j + 1)
    }
}

/// The indices of the items this site shows, in document order.
pub open spec fn shown_items(nodes: Seq<XmlNode>) -> Seq<int> {
    shown_from(nodes, 0)
}

/// The shown items all read (`us` holds them in order).
pub open spec fn goodreads_items_read(nodes: Seq<XmlNode>, us: Seq<GoodreadsBookUpdate>) -> bool {
    &&& us.len() == shown_items(nodes).len()
    &&& forall|k: int|
        0 <= k < shown_items(nodes).len() ==> update_from_item(
            nodes,
            shown_items(nodes)[k],
            #[trigger] us[k],
        )
}

/// Every shown item reads.
pub open spec fn all_goodreads_items_read(nodes: Seq<XmlNode>) -> bool {
    forall|k: int|
        0 <= k < shown_items(nodes).len() ==> goodreads_item_error(
            nodes,
            #[trigger] shown_items(nodes)[k],
        ) is None
}

/// `e` is the error of the first shown item that does not read.
pub open spec fn first_goodreads_error(nodes: Seq<XmlNode>, e: BackendError) -> bool {
    exists|k: int|
        #![trigger shown_items(nodes)[k]]
        {
            &&& 0 <= k < shown_items(nodes).len()
            &&& forall|m: int|
                0 <= m < k ==> goodreads_item_error(nodes, #[trigger] shown_items(nodes)[m])
                    is None
            &&& goodreads_item_error(nodes, shown_items(nodes)[k]) matches Some(why)
            &&& error_is(e, why)
        }
}

/// The book updates of a parsed document that this site shows, in
/// document order; the first shown item that does not read makes the
/// whole document fail with its error.
pub fn goodreads_from_nodes(nodes: &Vec<XmlNode>) -> (res: Result<
    Vec<GoodreadsBookUpdate>,
    BackendError,
>)
    ensures
        res is Ok <==> all_goodreads_items_read(nodes@),
        res matches Ok(us) ==> goodreads_items_read(nodes@, us@),
        res matches Err(e) ==> first_goodreads_error(nodes@, e),
{
    let mut out: Vec<GoodreadsBookUpdate> = Vec::new();
    let ghost mut done: Seq<int> = Seq::empty();
    let mut j: usize = 0;
    while j < nodes.len()
        invariant
            j <= nodes@.len(),
            shown_items(nodes@) == done + shown_from(nodes@, j as int),
            out@.len() == done.len(),
            forall|k: int|
                0 <= k < done.len() ==> update_from_item(nodes@, done[k], #[trigger] out@[k]),
            forall|k: int|
                0 <= k < done.len() ==> goodreads_item_error(nodes@, #[trigger] done[k]) is None,
        decreases nodes.len() - j,
    {
        if node_is_item(nodes, j) {
            match parse_goodreads_item(nodes, j) {
                Err(e) => {
                    assert(shown_from(nodes@, j as int) =~= seq![j as int].add(
                        shown_from(nodes@, j + 1),
                    ));
                    assert(shown_items(nodes@)[done.len() as int] == j);
                    assert(forall|m: int|
                        0 <= m < done.len() ==> shown_items(nodes@)[m] == done[m]);
                    return Err(e);
                },
                Ok(None) => {
                    assert(shown_from(nodes@, j as int) == shown_from(nodes@, j + 1));
                },
                Ok(Some(u)) => {
                    out.push(u);
                    proof {
                        assert(shown_from(nodes@, j as int) =~= seq![j as int].add(
                            shown_from(nodes@, j + 1),
                        ));
                        assert(done + shown_from(nodes@, j as int) =~= done.push(j as int)
                            + shown_from(nodes@, j + 1));
                        done = done.push(j as int);
                    }
                },
            }
        }
        j = j + 1;
    }
    proof {
        assert(shown_from(nodes@, j as int) =~= Seq::<int>::empty());
        assert(shown_items(nodes@) =~= done);
    }
    Ok(out)
}

/// The book updates in a Goodreads RSS feed. A body that is not XML is an
/// XML error; otherwise see [`goodreads_from_nodes`].
pub fn parse_goodreads(body: &str) -> (res: Result<Vec<GoodreadsBookUpdate>, BackendError>)
    ensures
        match crate::server::sources::xml_document(body@) {
            None => res matches Err(BackendError::Xml(_)),
            Some(nodes) => {
                &&& res is Ok <==> all_goodreads_items_read(nodes)
                &&& res matches Ok(us) ==> goodreads_items_read(nodes, us@)
                &&& res matches Err(e) ==> first_goodreads_error(nodes, e)
            },
        },
{
    match parse_xml(body) {
        Err(e) => Err(BackendError::Xml(e)),
        Ok(nodes) => goodreads_from_nodes(&nodes),
    }
}

} // verus!

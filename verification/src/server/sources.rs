//! What the source parsers share: the XML document model, the text of a
//! named child element, HTML fragments and URLs.
use vstd::prelude::*;

use crate::models::UtcTime;
use crate::server::error::BackendError;
use crate::text::{collapse_whitespace, collapse_ws};
use crate::time::{parse_rfc2822, rfc2822_instant};

pub mod goodreads;
pub mod lastfm;
pub mod letterboxd;


verus! {

/// One node of a parsed XML document, in document order: whether it is an
/// element, its local tag name (empty for other nodes), its text (for an
/// element, that of its first child when that child is a text node), its
/// own id and its parent's id.
#[derive(Clone, Debug, PartialEq, Eq)]
pub struct XmlNode {
    pub id: usize,
    pub element: bool,
    pub name: String,
    pub text: Option<String>,
    pub parent: Option<usize>,
}

/// The nodes of the document `roxmltree::Document::parse` reads from
/// `body`, in document order, or `None` where it reports an error.
pub uninterp spec fn xml_document(body: Seq<char>) -> Option<Seq<XmlNode>>;

/// The first element that matches the CSS selector `selector` in the HTML
/// fragment `fragment` (as `scraper` parses and selects): its text (the
/// concatenated text of its descendants) and the value of its attribute
/// `attr`. `None` where nothing matches or the selector does not parse.
pub uninterp spec fn html_first_match(
    fragment: Seq<char>,
    selector: Seq<char>,
    attr: Seq<char>,
) -> Option<(Seq<char>, Option<Seq<char>>)>;

/// The serialization of `href` resolved against `base` by the `url` crate
/// (`Url::parse(base)` then `Url::join(href)`), or `None` where either
/// step reports an error.
pub uninterp spec fn url_joined(base: Seq<char>, href: Seq<char>) -> Option<Seq<char>>;

/// Calls `roxmltree::Document::parse` and converts every node that
/// `Document::descendants` yields into an [`XmlNode`], in that order. The
/// nodes are named by [`xml_document`]; the call fails exactly where that
/// name is `None`.
#[verifier::external_body]
pub(crate) fn parse_xml(body: &str) -> (res: Result<Vec<XmlNode>, roxmltree::Error>)
    ensures
        res is Ok <==> xml_document(body@) is Some,
        res matches Ok(nodes) ==> xml_document(body@) == Some(nodes@),
{
    let doc = roxmltree::Document::parse(body)?;
    Ok(doc.descendants().map(|node| XmlNode {
        id: node.id().get_usize(),
        element: node.is_element(),
        name: node.tag_name().name().to_string(),
        text: node.text().map(str::to_string),
        parent: node.parent().map(|parent| parent.id().get_usize()),
    }).collect())
}

/// Parses the HTML fragment `fragment` with `scraper::Html::parse_fragment`,
/// selects with `scraper::Selector::parse(selector)` and takes the first
/// match: its text (`ElementRef::text` concatenated) and its attribute
/// `attr`. The result is named by [`html_first_match`].
#[verifier::external_body]
pub(crate) fn select_first(fragment: &str, selector: &str, attr: &str) -> (res: Option<(String, Option<String>)>)
    ensures
        match (res, html_first_match(fragment@, selector@, attr@)) {
            (Some((t, a)), Some((st, sa))) => t@ == st && opt_view(a) == sa,
            (None, None) => true,
            _ => false,
        },
{
    let selector = scraper::Selector::parse(selector).ok()?;
    let html = scraper::Html::parse_fragment(fragment);
    let element = html.select(&selector).next()?;
    Some((element.text().collect::<String>(), element.attr(attr).map(str::to_string)))
}

/// Resolves `href` against `base` with `url::Url::parse` and
/// `url::Url::join`, and serializes the result. The text is named by
/// [`url_joined`]; the call fails exactly where that name is `None`.
#[verifier::external_body]
pub(crate) fn join_url(base: &str, href: &str) -> (res: Result<String, url::ParseError>)
    ensures
        res is Ok <==> url_joined(base@, href@) is Some,
        res matches Ok(u) ==> url_joined(base@, href@) == Some(u@),
{
    Ok(url::Url::parse(base)?.join(href)?.to_string())
}

/// The view of an optional string.
pub open spec fn opt_view(o: Option<String>) -> Option<Seq<char>> {
    match o {
        Some(s) => Some(s@),
        None => None,
    }
}

/// `e` is the error that makes an item unreadable, as `why` describes it:
/// `Some(field)` for a missing field, `None` for an unreadable date.
pub open spec fn error_is(e: BackendError, why: Option<&'static str>) -> bool {
    match why {
        Some(field) => e == BackendError::MissingField(field),
        None => e is Date,
    }
}

/// Node `j` is an element named `name` whose parent has the id `parent`.
pub open spec fn is_named_child(nodes: Seq<XmlNode>, parent: usize, name: Seq<char>, j: int) -> bool {
    nodes[j].parent == Some(parent) && nodes[j].element && nodes[j].name@ == name
}

/// The first node at or after `j` that is an element child named `name`
/// of the node with id `parent`.
pub open spec fn named_child_from(nodes: Seq<XmlNode>, parent: usize, name: Seq<char>, j: int) -> Option<
    int,
>
    decreases nodes.len() - j,
{
    if j < 0 || j >= nodes.len() {
        None
    } else if is_named_child(nodes, parent, name, j) {
        Some(j)
    } else {
        named_child_from(nodes, parent, name, j + 1)
    }
}

/// The text of the first child element named `name` of node `item`, with
/// its whitespace collapsed; `None` when there is no such child, it has no
/// text, or the text is blank.
pub open spec fn child_text_spec(nodes: Seq<XmlNode>, item: int, name: Seq<char>) -> Option<
    Seq<char>,
> {
    match named_child_from(nodes, nodes[item].id, name, 0) {
        Some(j) => match nodes[j].text {
            Some(t) => if collapse_ws(t@).len() > 0 {
                Some(collapse_ws(t@))
            } else {
                None
            },
            None => None,
        },
        None => None,
    }
}

proof fn lemma_named_child_from(nodes: Seq<XmlNode>, parent: usize, name: Seq<char>, j: int)
    requires
        0 <= j,
    ensures
        named_child_from(nodes, parent, name, j) matches Some(k) ==> j <= k < nodes.len()
            && is_named_child(nodes, parent, name, k),
    decreases nodes.len() - j,
{
    if j < nodes.len() && !is_named_child(nodes, parent, name, j) {
        lemma_named_child_from(nodes, parent, name, j + 1);
    }
}

/// Whether `a` and `b` hold the same characters.
pub fn same_text(a: &str, b: &str) -> (res: bool)
    ensures
        res == (a@ == b@),
{
    let x = crate::text::chars_of(a);
    let y = crate::text::chars_of(b);
    if x.len() != y.len() {
        assert(x@.len() != y@.len());
        return false;
    }
    let mut i: usize = 0;
    while i < x.len()
        invariant
            x@ == a@,
            y@ == b@,
            x.len() == y.len(),
            i <= x.len(),
            forall|k: int| 0 <= k < i ==> x@[k] == y@[k],
        decreases x.len() - i,
    {
        if x[i] != y[i] {
            assert(x@[i as int] != y@[i as int]);
            return false;
        }
        i = i + 1;
    }
    assert(x@ =~= y@);
    true
}

/// The text of the first child element named `name` of node `item`.
pub fn child_text(nodes: &Vec<XmlNode>, item: usize, name: &str) -> (res: Option<String>)
    requires
        item < nodes@.len(),
    ensures
        opt_view(res) == child_text_spec(nodes@, item as int, name@),
{
    let parent = nodes[item].id;
    let mut j: usize = 0;
    while j < nodes.len()
        invariant
            j <= nodes@.len(),
            parent == nodes@[item as int].id,
            named_child_from(nodes@, parent, name@, j as int) == named_child_from(
                nodes@,
                parent,
                name@,
                0,
            ),
        decreases nodes.len() - j,
    {
        let node = &nodes[j];
        if node.parent == Some(parent) && node.element && same_text(node.name.as_str(), name) {
            assert(is_named_child(nodes@, parent, name@, j as int));
            return match &node.text {
                Some(t) => {
                    let c = collapse_whitespace(t.as_str());
                    if !c.as_str().is_empty() {
                        Some(c)
                    } else {
                        None
                    }
                },
                None => None,
            };
        }
        j = j + 1;
    }
    None
}

/// The instant in the child element `name` of node `item`, read as an
/// RFC 2822 date: `None` when the child text is missing, `Some(None)` when
/// it does not parse, `Some(Some(t))` otherwise.
pub open spec fn rfc2822_child_spec(nodes: Seq<XmlNode>, item: int, name: Seq<char>) -> Option<
    Option<UtcTime>,
> {
    match child_text_spec(nodes, item, name) {
        Some(t) => Some(rfc2822_instant(t)),
        None => None,
    }
}

/// The instant in the child element `name` of node `item`. A missing
/// child is a missing field named `name`; an unreadable date is a date
/// error.
pub fn parse_rfc2822_child(nodes: &Vec<XmlNode>, item: usize, name: &'static str) -> (res: Result<
    UtcTime,
    BackendError,
>)
    requires
        item < nodes@.len(),
    ensures
        match rfc2822_child_spec(nodes@, item as int, name@) {
            None => res == Err::<UtcTime, BackendError>(BackendError::MissingField(name)),
            Some(None) => res matches Err(BackendError::Date(_)),
            Some(Some(t)) => res == Ok::<UtcTime, BackendError>(t),
        },
{
    match child_text(nodes, item, name) {
        None => Err(BackendError::MissingField(name)),
        Some(text) => match parse_rfc2822(text.as_str()) {
            Ok(t) => Ok(t),
            Err(e) => Err(BackendError::Date(e)),
        },
    }
}

/// `text` with its whitespace collapsed (the words joined by single
/// spaces).
pub fn clean_text(input: &str) -> (res: String)
    ensures
        res@ == collapse_ws(input@),
{
    collapse_whitespace(input)
}

/// Node `i` is an `item` element.
pub open spec fn is_item(nodes: Seq<XmlNode>, i: int) -> bool {
    nodes[i].element && nodes[i].name@ == "item"@
}

/// The indices, at or after `j`, of the `item` elements, in document order.
pub open spec fn items_from(nodes: Seq<XmlNode>, j: int) -> Seq<int>
    decreases nodes.len() - j,
{
    if j < 0 || j >= nodes.len() {
        Seq::empty()
    } else if is_item(nodes, j) {
        seq![j].add(items_from(nodes, j + 1))
    } else {
        items_from(nodes, j + 1)
    }
}

/// The indices of the `item` elements of a document, in document order.
pub open spec fn item_indices(nodes: Seq<XmlNode>) -> Seq<int> {
    items_from(nodes, 0)
}

/// The item indices at or after `j` lie in `j..nodes.len()` and name
/// `item` elements.
pub proof fn lemma_items_from_bounds(nodes: Seq<XmlNode>, j: int)
    requires
        0 <= j,
    ensures
        forall|k: int|
            0 <= k < items_from(nodes, j).len() ==> j <= #[trigger] items_from(nodes, j)[k]
                < nodes.len() && is_item(nodes, items_from(nodes, j)[k]),
    decreases nodes.len() - j,
{
    if j < nodes.len() {
        lemma_items_from_bounds(nodes, j + 1);
        let rest = items_from(nodes, j + 1);
        if is_item(nodes, j) {
            assert forall|k: int| 0 <= k < items_from(nodes, j).len() implies j
                <= #[trigger] items_from(nodes, j)[k] < nodes.len() && is_item(
                nodes,
                items_from(nodes, j)[k],
            ) by {
                if k > 0 {
                    assert(items_from(nodes, j)[k] == rest[k - 1]);
                }
            }
        }
    }
}

/// Whether node `i` is an `item` element.
pub fn node_is_item(nodes: &Vec<XmlNode>, i: usize) -> (res: bool)
    requires
        i < nodes@.len(),
    ensures
        res == is_item(nodes@, i as int),
{
    nodes[i].element && same_text(nodes[i].name.as_str(), "item")
}

/// The `src` of the first image in an HTML fragment.
pub open spec fn first_image_spec(html: Seq<char>) -> Option<Seq<char>> {
    match html_first_match(html, "img"@, "src"@) {
        Some((_, attr)) => attr,
        None => None,
    }
}

/// The `src` of the first image in the HTML fragment `html`.
pub fn first_image_src(html: &str) -> (res: Option<String>)
    ensures
        opt_view(res) == first_image_spec(html@),
{
    match select_first(html, "img", "src") {
        Some((_, attr)) => attr,
        None => None,
    }
}

} // verus!

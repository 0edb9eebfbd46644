//! Detail lines for a Goodreads update.
use vstd::prelude::*;

use crate::app::details::lines_view;
use crate::models::{GoodreadsAction, GoodreadsBookUpdate};
use crate::server::sources::goodreads::action_spec;
use crate::text::{
    ascii_lower, concat, contains_seq, decimal, decimal_string, lemma_contains_itself,
    lemma_lower_without_capitals, lemma_missing_char_not_contained, push_str, to_owned,
};

verus! {

/// How an update's action reads.
pub open spec fn action_label_spec(action: GoodreadsAction) -> Seq<char> {
    match action {
        GoodreadsAction::WantsToRead => "wants to read"@,
        GoodreadsAction::StartedReading => "started reading"@,
        GoodreadsAction::FinishedReading => "finished reading"@,
        GoodreadsAction::Rated => "rated"@,
        GoodreadsAction::Added => "added"@,
    }
}

/// How an update's action reads.
pub fn action_label(action: GoodreadsAction) -> (res: &'static str)
    ensures
        res@ == action_label_spec(action),
{
    match action {
        GoodreadsAction::WantsToRead => "wants to read",
        GoodreadsAction::StartedReading => "started reading",
        GoodreadsAction::FinishedReading => "finished reading",
        GoodreadsAction::Rated => "rated",
        GoodreadsAction::Added => "added",
    }
}

/// Different actions read differently.
pub proof fn lemma_action_labels_differ(a: GoodreadsAction, b: GoodreadsAction)
    ensures
        action_label_spec(a) == action_label_spec(b) ==> a == b,
{
    reveal_strlit("wants to read");
    reveal_strlit("started reading");
    reveal_strlit("finished reading");
    reveal_strlit("rated");
    reveal_strlit("added");
    if action_label_spec(a) == action_label_spec(b) && a != b {
        let la = action_label_spec(a);
        let lb = action_label_spec(b);
        assert(la.len() == lb.len());
        assert(la[0] == lb[0]);
    }
}

/// The label of a reading action is the phrase the feed parser reads
/// that action from: an update titled with it, whatever its description,
/// is read as that action.
pub proof fn lemma_reading_labels_read_back(action: GoodreadsAction, description: Seq<char>)
    requires
        action is WantsToRead || action is StartedReading || action is FinishedReading,
    ensures
        action_spec(action_label_spec(action), description) == Some(action),
{
    reveal_strlit("wants to read");
    reveal_strlit("started reading");
    reveal_strlit("finished reading");
    let label = action_label_spec(action);
    lemma_lower_without_capitals(label);
    lemma_contains_itself(label);
    match action {
        GoodreadsAction::StartedReading => {
            lemma_missing_char_not_contained(label, "wants to read"@, 0);
        },
        GoodreadsAction::FinishedReading => {
            lemma_missing_char_not_contained(label, "wants to read"@, 0);
            lemma_missing_char_not_contained(label, "started reading"@, 1);
        },
        _ => {},
    }
}

/// The label of an added book is the word the feed parser reads an
/// addition from: an update titled with it between spaces (as in
/// `wyatt added 'Dune'`), with a description that gives no rating, is read
/// as an addition.
pub proof fn lemma_added_label_reads_back(description: Seq<char>)
    requires
        !contains_seq(ascii_lower(description), "gave "@),
    ensures
        action_spec(" "@ + action_label_spec(GoodreadsAction::Added) + " "@, description) == Some(
            GoodreadsAction::Added,
        ),
{
    reveal_strlit("added");
    reveal_strlit(" ");
    reveal_strlit(" added ");
    reveal_strlit("wants to read");
    reveal_strlit("started reading");
    reveal_strlit("finished reading");
    let title = " "@ + action_label_spec(GoodreadsAction::Added) + " "@;
    assert(title =~= " added "@);
    lemma_lower_without_capitals(title);
    lemma_contains_itself(title);
    lemma_missing_char_not_contained(title, "wants to read"@, 0);
    lemma_missing_char_not_contained(title, "started reading"@, 1);
    lemma_missing_char_not_contained(title, "finished reading"@, 0);
}

/// The lines: `by <author>` when the author is known, then the action,
/// with the rating out of five when there is one.
pub open spec fn detail_lines_spec(update: GoodreadsBookUpdate) -> Seq<Seq<char>> {
    let action = action_label_spec(update.action);
    let action_line = match update.rating {
        Some(r) => action + " "@ + decimal(r as nat) + "/5"@,
        None => action,
    };
    match update.author {
        Some(author) => seq!["by "@ + author@, action_line],
        None => seq![action_line],
    }
}

/// The detail lines for a Goodreads update.
pub fn detail_lines(update: &GoodreadsBookUpdate) -> (res: Vec<String>)
    ensures
        lines_view(res@) == detail_lines_spec(*update),
{
    let mut lines: Vec<String> = Vec::new();
    if let Some(author) = &update.author {
        lines.push(concat("by ", author.as_str()));
    }
    let action = action_label(update.action);
    let line = match update.rating {
        Some(rating) => {
            let mut s = concat(action, " ");
            let digits = decimal_string(rating as u64);
            push_str(&mut s, digits.as_str());
            push_str(&mut s, "/5");
            s
        },
        None => to_owned(action),
    };
    lines.push(line);
    assert(lines_view(lines@) =~= detail_lines_spec(*update));
    lines
}

} // verus!

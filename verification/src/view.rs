//! Labels and decisions for the window's lists.

use vstd::prelude::*;

use crate::store::matches_query;
use crate::text::{chars_of, contains_seq, lowercase, push_signed_decimal, range_equals_str, signed_decimal};

verus! {

/// Short human-typeable label for an entry, e.g. `"#5"`.
pub fn id_label(id: i64) -> (s: String)
    ensures
        s@ == seq!['#'] + signed_decimal(id as int),
{
    let mut s = String::new();
    proof {
        reveal_strlit("#");
    }
    s.append("#");
    push_signed_decimal(&mut s, id);
    assert(s@ =~= seq!['#'] + signed_decimal(id as int));
    s
}

/// Whether a newly saved entry shows in the live list: always when no
/// search filter is active, otherwise only when its text matches the query.
pub fn shown_in_list(text: &str, search_active: bool, query: &str) -> (shown: bool)
    ensures
        shown == (!search_active || contains_seq(lowercase(text@), lowercase(query@))),
{
    !search_active || matches_query(text, query)
}

/// The label `id_label` gives an id.
pub open spec fn id_label_spec(id: i64) -> Seq<char> {
    seq!['#'] + signed_decimal(id as int)
}

/// What became of a submitted line, as far as the window is concerned.
#[derive(Debug, Clone, Copy, PartialEq, Eq)]
pub enum SubmitOutcome {
    /// A new entry was saved.
    Saved,
    /// Saving the entry failed.
    SaveFailed,
    /// Developer mode was switched on or off.
    DevModeSet,
    /// The entry with this id was deleted.
    Deleted(i64),
    /// No live entry has this id.
    NotFound(i64),
    /// Deleting failed.
    DeleteFailed,
    /// `/del` came without an argument.
    DelUsage,
    /// `/del` came with an argument that is not a number.
    DelBadId,
    /// A search was run; the input stays so that the query can be refined.
    Searched,
    /// The search filter was cleared.
    SearchCleared,
}

/// How the window reacts to a submitted line.
#[derive(Debug)]
pub struct Reaction {
    /// Empty the input field.
    pub clear_input: bool,
    /// A transient message for the status line, if any.
    pub status: Option<String>,
    /// Empty the `過去から` panel: the entry it shows was just deleted.
    pub clear_resurface: bool,
}

/// The input is emptied after every success but a search; what the user
/// typed stays after a failure so that it can be corrected.
pub open spec fn clears_input(outcome: SubmitOutcome) -> bool {
    match outcome {
        SubmitOutcome::Saved | SubmitOutcome::DevModeSet | SubmitOutcome::Deleted(_)
        | SubmitOutcome::SearchCleared => true,
        _ => false,
    }
}

/// The status message for an outcome; `detail` describes the error of a
/// failed save or delete.
pub open spec fn status_text(outcome: SubmitOutcome, detail: Seq<char>) -> Option<Seq<char>> {
    match outcome {
        SubmitOutcome::SaveFailed => Some("保存失敗: "@ + detail),
        SubmitOutcome::NotFound(id) => Some(id_label_spec(id) + " が見つかりません"@),
        SubmitOutcome::DeleteFailed => Some("削除失敗: "@ + detail),
        SubmitOutcome::DelUsage => Some("/del <ID> で削除"@),
        SubmitOutcome::DelBadId => Some("ID は数字"@),
        _ => None,
    }
}

/// The `過去から` panel is emptied when the entry it shows (by its label
/// `shown`) was deleted.
pub open spec fn clears_resurface(outcome: SubmitOutcome, shown: Seq<char>) -> bool {
    outcome matches SubmitOutcome::Deleted(id) && shown == id_label_spec(id)
}

/// How the window reacts to a submitted line: whether the input is emptied,
/// the status message, and whether the `過去から` panel, which shows the
/// entry labelled `shown_resurface`, is emptied.
pub fn react(outcome: SubmitOutcome, detail: &str, shown_resurface: &str) -> (r: Reaction)
    ensures
        r.clear_input == clears_input(outcome),
        r.status matches Some(s) ==> status_text(outcome, detail@) == Some(s@),
        r.status is None ==> status_text(outcome, detail@) is None,
        r.clear_resurface == clears_resurface(outcome, shown_resurface@),
{
    let clear_input = match outcome {
        SubmitOutcome::Saved | SubmitOutcome::DevModeSet | SubmitOutcome::Deleted(_)
        | SubmitOutcome::SearchCleared => true,
        _ => false,
    };
    let status = match outcome {
        SubmitOutcome::SaveFailed => {
            let mut s = String::new();
            s.append("保存失敗: ");
            s.append(detail);
            Some(s)
        },
        SubmitOutcome::NotFound(id) => {
            let mut s = id_label(id);
            s.append(" が見つかりません");
            Some(s)
        },
        SubmitOutcome::DeleteFailed => {
            let mut s = String::new();
            s.append("削除失敗: ");
            s.append(detail);
            Some(s)
        },
        SubmitOutcome::DelUsage => Some(String::from_str("/del <ID> で削除")),
        SubmitOutcome::DelBadId => Some(String::from_str("ID は数字")),
        _ => None,
    };
    let clear_resurface = match outcome {
        SubmitOutcome::Deleted(id) => {
            let label = id_label(id);
            let v = chars_of(label.as_str());
            assert(v@.subrange(0, v@.len() as int) =~= v@);
            range_equals_str(&v, 0, v.len(), shown_resurface)
        },
        _ => false,
    };
    Reaction { clear_input, status, clear_resurface }
}

} // verus!

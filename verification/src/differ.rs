//! Comparing two follower lists.
//!
//! The direction of the change is read off the number of rows on each side,
//! before any row is dropped as a duplicate. What is reported as different is
//! found by identity key: a follower whose name changed is still the same
//! follower.

use crate::record::{Record, RecordView};
use crate::record_set::{dedup, has_id, lemma_dedup_keeps_ids, lemma_without_members, without, RecordSet};
use crate::text::{decimal, decimal_string};
use vstd::prelude::*;

verus! {

/// The mathematical value of a [`DiffResult`].
pub enum DiffView {
    /// The right list has `count` rows more than the left one.
    Increase { count: nat, gained: Seq<RecordView> },
    /// The right list has `count` rows fewer than the left one.
    Decrease { count: nat, lost: Seq<RecordView> },
    /// Both lists have the same number of rows.
    Neutral { only_left: Seq<RecordView>, only_right: Seq<RecordView> },
}

/// The outcome of comparing a left list with a right list.
pub enum DiffResult {
    /// The right list is longer by `count` rows; `gained` holds the followers
    /// of the right list that the left list does not have.
    Increase { count: usize, gained: RecordSet },
    /// The right list is shorter by `count` rows; `lost` holds the followers
    /// of the left list that the right list does not have.
    Decrease { count: usize, lost: RecordSet },
    /// The lists are equally long; `only_left` and `only_right` hold the
    /// followers that one list has and the other has not.
    Neutral { only_left: RecordSet, only_right: RecordSet },
}

impl View for DiffResult {
    type V = DiffView;

    open spec fn view(&self) -> DiffView {
        match *self {
            DiffResult::Increase { count, gained } => DiffView::Increase {
                count: count as nat,
                gained: gained@,
            },
            DiffResult::Decrease { count, lost } => DiffView::Decrease {
                count: count as nat,
                lost: lost@,
            },
            DiffResult::Neutral { only_left, only_right } => DiffView::Neutral {
                only_left: only_left@,
                only_right: only_right@,
            },
        }
    }
}

/// The followers of `a` that `b` does not have: both lists are taken as sets
/// first, and keys alone are compared.
pub open spec fn set_difference(a: Seq<RecordView>, b: Seq<RecordView>) -> Seq<RecordView> {
    without(dedup(a), dedup(b))
}

/// What comparing `left` with `right` gives.
pub open spec fn diff_of(left: Seq<RecordView>, right: Seq<RecordView>) -> DiffView {
    if left.len() < right.len() {
        DiffView::Increase {
            count: (right.len() - left.len()) as nat,
            gained: set_difference(right, left),
        }
    } else if left.len() > right.len() {
        DiffView::Decrease {
            count: (left.len() - right.len()) as nat,
            lost: set_difference(left, right),
        }
    } else {
        DiffView::Neutral {
            only_left: set_difference(left, right),
            only_right: set_difference(right, left),
        }
    }
}

/// The status label of a comparison.
pub open spec fn label_of(d: DiffView) -> Seq<char> {
    match d {
        DiffView::Increase { count, .. } => "increase "@ + decimal(count) + " following"@,
        DiffView::Decrease { count, .. } => "decrease "@ + decimal(count) + " following"@,
        DiffView::Neutral { .. } => "neutral"@,
    }
}

/// The status label that goes with a left list of `left_rows` rows and a
/// right list of `right_rows` rows.
pub open spec fn label_for(left_rows: nat, right_rows: nat) -> Seq<char> {
    if left_rows < right_rows {
        "increase "@ + decimal((right_rows - left_rows) as nat) + " following"@
    } else if left_rows > right_rows {
        "decrease "@ + decimal((left_rows - right_rows) as nat) + " following"@
    } else {
        "neutral"@
    }
}

/// The differences that a comparison reports, in the order in which they are
/// shown: one where the lists differ in length, two where they do not.
pub open spec fn differences_of(d: DiffView) -> Seq<Seq<RecordView>> {
    match d {
        DiffView::Increase { gained, .. } => seq![gained],
        DiffView::Decrease { lost, .. } => seq![lost],
        DiffView::Neutral { only_left, only_right } => seq![only_left, only_right],
    }
}

/// Compares the follower list `left` with the follower list `right`.
pub fn diff(left: &Vec<Record>, right: &Vec<Record>) -> (result: DiffResult)
    ensures
        result@ == diff_of(left.deep_view(), right.deep_view()),
{
    let left_len = left.len();
    let right_len = right.len();
    let left_set = RecordSet::from_records(left);
    let right_set = RecordSet::from_records(right);
    if left_len < right_len {
        DiffResult::Increase {
            count: right_len - left_len,
            gained: right_set.difference(&left_set),
        }
    } else if left_len > right_len {
        DiffResult::Decrease { count: left_len - right_len, lost: left_set.difference(&right_set) }
    } else {
        DiffResult::Neutral {
            only_left: left_set.difference(&right_set),
            only_right: right_set.difference(&left_set),
        }
    }
}

/// Writes the status label of a comparison.
pub fn status_label(result: &DiffResult) -> (label: String)
    ensures
        label@ == label_of(result@),
{
    match result {
        DiffResult::Increase { count, .. } => {
            let mut label = "increase ".to_owned();
            label.append(decimal_string(*count).as_str());
            label.append(" following");
            label
        },
        DiffResult::Decrease { count, .. } => {
            let mut label = "decrease ".to_owned();
            label.append(decimal_string(*count).as_str());
            label.append(" following");
            label
        },
        DiffResult::Neutral { .. } => "neutral".to_owned(),
    }
}

/// The status label is settled by the two row counts: whatever the rows are,
/// lists of the same lengths get the label that [`label_for`] gives.
pub proof fn lemma_status_from_lengths(left: Seq<RecordView>, right: Seq<RecordView>)
    ensures
        label_of(diff_of(left, right)) == label_for(left.len(), right.len()),
{
}

/// The status label does not depend on the order of the rows: two pairs of
/// lists that hold the same rows, each as often, get the same label.
pub proof fn lemma_status_ignores_row_order(
    left: Seq<RecordView>,
    right: Seq<RecordView>,
    left_shuffled: Seq<RecordView>,
    right_shuffled: Seq<RecordView>,
)
    requires
        left.to_multiset() == left_shuffled.to_multiset(),
        right.to_multiset() == right_shuffled.to_multiset(),
    ensures
        label_of(diff_of(left, right)) == label_of(diff_of(left_shuffled, right_shuffled)),
{
    vstd::seq_lib::to_multiset_len(left);
    vstd::seq_lib::to_multiset_len(left_shuffled);
    vstd::seq_lib::to_multiset_len(right);
    vstd::seq_lib::to_multiset_len(right_shuffled);
}

/// Comparing the same two lists again gives the same answer: whatever two
/// runs return, their labels agree and each reported difference holds the same
/// records.
pub proof fn lemma_diff_repeats(
    left: Seq<RecordView>,
    right: Seq<RecordView>,
    first: DiffView,
    second: DiffView,
)
    requires
        first == diff_of(left, right),
        second == diff_of(left, right),
    ensures
        label_of(first) == label_of(second),
        differences_of(first).len() == differences_of(second).len(),
        forall|i: int|
            0 <= i < differences_of(first).len() ==> (#[trigger] differences_of(first)[i]).to_set()
                == differences_of(second)[i].to_set(),
{
}

/// What a difference holds: the records of the set of `a` whose key occurs
/// nowhere in `b`. The names play no part: a follower of `a` whose key is in
/// `b` is left out, whatever the two names are.
pub proof fn lemma_difference_by_key(a: Seq<RecordView>, b: Seq<RecordView>)
    ensures
        forall|r: RecordView| #[trigger]
            set_difference(a, b).contains(r) <==> dedup(a).contains(r) && !has_id(b, r.user_id),
        set_difference(a, b).len() <= a.len(),
{
    lemma_dedup_keeps_ids(a);
    lemma_dedup_keeps_ids(b);
    lemma_without_members(dedup(a), dedup(b));
}

} // verus!

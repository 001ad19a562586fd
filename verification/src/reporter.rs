//! The text of the report: a status line, and under it the followers that
//! differ, if there are any.

use crate::differ::{label_of, status_label, DiffResult, DiffView};
use crate::record::{Record, RecordView};
use crate::record_set::RecordSet;
use crate::text::{debug_text, decimal, decimal_string, quoted};
use vstd::prelude::*;

verus! {

/// The line that shows a status label.
pub open spec fn status_line_of(label: Seq<char>) -> Seq<char> {
    "Status: "@ + label
}

/// The line that shows a record whose two fields are written as `id_text` and
/// `name_text`.
pub open spec fn record_line_with(id_text: Seq<char>, name_text: Seq<char>) -> Seq<char> {
    "       Record { user_id: "@ + id_text + ", user_name: "@ + name_text + " }"@
}

/// The line that shows one record: each field stands there as formatting
/// with `{:?}` writes it.
pub open spec fn record_line_of(r: RecordView) -> Seq<char> {
    record_line_with(debug_text(r.user_id), debug_text(r.user_name))
}

/// The lines that show a set of records: none for the empty set, else a
/// heading and one line for each record.
pub open spec fn block_of(s: Seq<RecordView>) -> Seq<Seq<char>> {
    if s.len() == 0 {
        Seq::empty()
    } else {
        seq!["Records:"@] + Seq::new(s.len(), |i: int| record_line_of(s[i]))
    }
}

/// The lines of the whole report.
pub open spec fn report_of(d: DiffView) -> Seq<Seq<char>> {
    let head = seq![status_line_of(label_of(d))];
    match d {
        DiffView::Increase { gained, .. } => head + block_of(gained),
        DiffView::Decrease { lost, .. } => head + block_of(lost),
        DiffView::Neutral { only_left, only_right } => head + block_of(only_left) + block_of(
            only_right,
        ),
    }
}

/// The line that tells how many records a file gave.
pub open spec fn count_line_of(name: Seq<char>, count: nat) -> Seq<char> {
    name + ": "@ + decimal(count) + " records"@
}

/// Writes the line that shows a status label.
pub fn status_line(label: &str) -> (line: String)
    ensures
        line@ == status_line_of(label@),
{
    let mut line = "Status: ".to_owned();
    line.append(label);
    line
}

/// Writes the line that shows a record, given the texts of its two fields.
pub fn record_line_from(id_text: &str, name_text: &str) -> (line: String)
    ensures
        line@ == record_line_with(id_text@, name_text@),
{
    let mut line = "       Record { user_id: ".to_owned();
    line.append(id_text);
    line.append(", user_name: ");
    line.append(name_text);
    line.append(" }");
    line
}

/// Writes the line that shows one record.
pub fn record_line(record: &Record) -> (line: String)
    ensures
        line@ == record_line_of(record@),
{
    let id_text = quoted(record.user_id());
    let name_text = quoted(record.user_name());
    record_line_from(id_text.as_str(), name_text.as_str())
}

/// Writes the lines that show a set of records.
pub fn diff_lines(set: &RecordSet) -> (lines: Vec<String>)
    ensures
        lines.deep_view() == block_of(set@),
{
    let mut lines: Vec<String> = Vec::new();
    let records = set.records();
    if records.len() == 0 {
        assert(lines.deep_view() =~= block_of(set@));
        return lines;
    }
    lines.push("Records:".to_owned());
    let mut i: usize = 0;
    while i < records.len()
        invariant
            i <= records.len(),
            records.deep_view() == set@,
            lines.len() == i + 1,
            lines[0]@ == "Records:"@,
            forall|j: int| 0 <= j < i ==> (#[trigger] lines[j + 1])@ == record_line_of(set@[j]),
        decreases records.len() - i,
    {
        assert(records.deep_view()[i as int] == records[i as int]@);
        lines.push(record_line(&records[i]));
        i += 1;
    }
    assert(lines.deep_view() =~= block_of(set@)) by {
        assert forall|k: int| 0 <= k < lines.len() implies lines.deep_view()[k] == block_of(
            set@,
        )[k] by {
            if k > 0 {
                assert(lines[(k - 1) + 1]@ == record_line_of(set@[k - 1]));
            }
        }
    }
    lines
}

/// Writes the report of a comparison, line by line: the status line first,
/// then the followers of each difference that is not empty.
pub fn report(result: &DiffResult) -> (lines: Vec<String>)
    ensures
        lines.deep_view() == report_of(result@),
{
    let mut lines: Vec<String> = Vec::new();
    lines.push(status_line(status_label(result).as_str()));
    assert(lines.deep_view() =~= seq![status_line_of(label_of(result@))]);
    match result {
        DiffResult::Increase { gained, .. } => {
            let mut block = diff_lines(gained);
            let ghost head = lines.deep_view();
            let ghost tail = block.deep_view();
            lines.append(&mut block);
            assert(lines.deep_view() =~= head + tail);
        },
        DiffResult::Decrease { lost, .. } => {
            let mut block = diff_lines(lost);
            let ghost head = lines.deep_view();
            let ghost tail = block.deep_view();
            lines.append(&mut block);
            assert(lines.deep_view() =~= head + tail);
        },
        DiffResult::Neutral { only_left, only_right } => {
            let mut first = diff_lines(only_left);
            let mut second = diff_lines(only_right);
            let ghost head = lines.deep_view();
            let ghost middle = first.deep_view();
            let ghost tail = second.deep_view();
            lines.append(&mut first);
            lines.append(&mut second);
            assert(lines.deep_view() =~= head + middle + tail);
        },
    }
    lines
}

/// Writes the line that tells how many records the file called `name` gave.
pub fn count_line(name: &str, count: usize) -> (line: String)
    ensures
        line@ == count_line_of(name@, count as nat),
{
    let mut line = name.to_owned();
    line.append(": ");
    line.append(decimal_string(count).as_str());
    line.append(" records");
    line
}

} // verus!

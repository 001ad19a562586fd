use follower_diff::record::Record;
use follower_diff::record_set::RecordSet;

fn record(id: &str, name: &str) -> Record {
    Record::new(id.to_string(), name.to_string())
}

fn names(set: &RecordSet) -> Vec<String> {
    let mut out = Vec::new();
    for r in set.records().iter() {
        out.push(format!("{}={}", r.user_id(), r.user_name()));
    }
    out
}

#[test]
fn records_are_equal_by_id_alone() {
    assert!(record("1", "A") == record("1", "Z"));
    assert!(record("1", "A") != record("2", "A"));
    assert!(record("1", "A").same_id(&record("1", "Z")));
    assert!(!record("1", "A").same_id(&record("2", "A")));
}

#[test]
fn clone_keeps_both_fields() {
    let copy = record("u1", "Alice").clone();
    assert_eq!(copy.user_id(), "u1");
    assert_eq!(copy.user_name(), "Alice");
}

#[test]
fn new_set_is_empty() {
    let set = RecordSet::new();
    assert!(set.is_empty());
    assert_eq!(set.len(), 0);
    assert!(!set.contains(&record("1", "A")));
}

#[test]
fn insert_takes_a_new_key() {
    let mut set = RecordSet::new();
    assert!(set.insert(record("1", "A")));
    assert!(set.insert(record("2", "B")));
    assert_eq!(set.len(), 2);
    assert!(!set.is_empty());
    assert!(set.contains(&record("1", "other name")));
    assert!(!set.contains(&record("3", "A")));
    assert_eq!(names(&set), vec!["1=A", "2=B"]);
}

#[test]
fn insert_turns_down_a_key_that_is_there() {
    let mut set = RecordSet::new();
    assert!(set.insert(record("1", "A")));
    assert!(!set.insert(record("1", "Z")));
    assert_eq!(set.len(), 1);
    assert_eq!(names(&set), vec!["1=A"]);
}

#[test]
fn rows_with_the_same_id_collapse_to_one_record() {
    let rows = vec![record("1", "A"), record("1", "Z")];
    let set = RecordSet::from_records(&rows);
    assert_eq!(set.len(), 1);
    assert_eq!(names(&set), vec!["1=A"]);
}

#[test]
fn first_row_of_a_key_stays_at_its_place() {
    let rows = vec![
        record("2", "B"),
        record("1", "A"),
        record("2", "B again"),
        record("3", "C"),
        record("1", "A again"),
    ];
    let set = RecordSet::from_records(&rows);
    assert_eq!(names(&set), vec!["2=B", "1=A", "3=C"]);
    assert!(set.len() <= rows.len());
}

#[test]
fn set_of_no_rows_is_empty() {
    let rows: Vec<Record> = Vec::new();
    assert!(RecordSet::from_records(&rows).is_empty());
}

#[test]
fn difference_goes_by_key() {
    let a = RecordSet::from_records(&vec![record("1", "A"), record("2", "B"), record("3", "C")]);
    let b = RecordSet::from_records(&vec![record("2", "renamed"), record("4", "D")]);
    assert_eq!(names(&a.difference(&b)), vec!["1=A", "3=C"]);
    assert_eq!(names(&b.difference(&a)), vec!["4=D"]);
}

#[test]
fn difference_with_itself_is_empty() {
    let a = RecordSet::from_records(&vec![record("1", "A"), record("2", "B")]);
    assert!(a.difference(&a).is_empty());
}

#[test]
fn difference_with_the_empty_set_is_the_set() {
    let a = RecordSet::from_records(&vec![record("1", "A"), record("2", "B")]);
    let none = RecordSet::new();
    assert_eq!(names(&a.difference(&none)), vec!["1=A", "2=B"]);
    assert!(none.difference(&a).is_empty());
}

use follower_diff::loader::{load, record_from_fields, ErrorClass, LoadError};

fn pairs(text: &str) -> Vec<(String, String)> {
    let records = load(text.as_bytes()).expect("the table loads");
    let mut out = Vec::new();
    for record in records.iter() {
        out.push((record.user_id().to_string(), record.user_name().to_string()));
    }
    out
}

fn pair(id: &str, name: &str) -> (String, String) {
    (id.to_string(), name.to_string())
}

#[test]
fn row_gives_its_id_and_name() {
    let records = load(b"user_id,user_name\nu1,Alice\n").unwrap();
    assert_eq!(records.len(), 1);
    assert_eq!(records[0].user_id(), "u1");
    assert_eq!(records[0].user_name(), "Alice");
}

#[test]
fn header_row_is_skipped() {
    assert_eq!(pairs("1,A\n2,B\n"), vec![pair("2", "B")]);
}

#[test]
fn rows_keep_the_order_of_the_text() {
    assert_eq!(
        pairs("id,name\n3,C\n1,A\n2,B\n"),
        vec![pair("3", "C"), pair("1", "A"), pair("2", "B")]
    );
}

#[test]
fn duplicate_rows_are_all_loaded() {
    assert_eq!(pairs("id,name\n1,A\n1,Z\n").len(), 2);
}

#[test]
fn columns_after_the_second_are_ignored() {
    assert_eq!(
        pairs("id,name,since\n1,A,2020\n2,B,2021\n"),
        vec![pair("1", "A"), pair("2", "B")]
    );
}

#[test]
fn quoted_field_may_hold_a_comma() {
    assert_eq!(pairs("id,name\n7,\"Doe, Jane\"\n"), vec![pair("7", "Doe, Jane")]);
}

#[test]
fn id_need_not_be_a_number() {
    assert_eq!(pairs("id,name\nx-9,Zed\n"), vec![pair("x-9", "Zed")]);
}

#[test]
fn empty_text_gives_no_record() {
    assert_eq!(pairs("").len(), 0);
}

#[test]
fn header_alone_gives_no_record() {
    assert_eq!(pairs("id,name\n").len(), 0);
}

#[test]
fn last_row_needs_no_line_end() {
    assert_eq!(pairs("id,name\n1,A"), vec![pair("1", "A")]);
}

#[test]
fn row_of_one_column_is_malformed() {
    let result = load(b"id,name\nonlyonecolumn\n");
    assert_eq!(result.err(), Some(LoadError::MalformedRow));
}

#[test]
fn row_of_one_column_is_a_format_error() {
    let error = load(b"id,name\n1,A\nonlyonecolumn\n").unwrap_err();
    assert_eq!(error.class(), ErrorClass::Format);
    assert!(error.is_format_error());
}

#[test]
fn table_of_one_column_is_malformed() {
    let result = load(b"id\nonlyonecolumn\n");
    assert_eq!(result.err(), Some(LoadError::MalformedRow));
}

#[test]
fn row_may_have_more_columns_than_the_header() {
    assert_eq!(pairs("id,name\nu1,Alice,extra\n"), vec![pair("u1", "Alice")]);
    assert_eq!(
        pairs("id,name\n1,A\n2,B,extra\n3,C\n"),
        vec![pair("1", "A"), pair("2", "B"), pair("3", "C")]
    );
}

#[test]
fn row_may_have_fewer_columns_than_the_header() {
    assert_eq!(pairs("id,name,since\n1,A\n"), vec![pair("1", "A")]);
    assert_eq!(
        pairs("id,name,since\n1,A,2020\n2,B\n"),
        vec![pair("1", "A"), pair("2", "B")]
    );
}

#[test]
fn header_of_one_column_does_not_bind_the_rows() {
    assert_eq!(pairs("id\nu1,Alice\n"), vec![pair("u1", "Alice")]);
}

#[test]
fn header_content_is_ignored() {
    assert_eq!(pairs("\u{e9},\"x y\",,\n1,A\n"), vec![pair("1", "A")]);
    let records = load(b"\xff,\xfe\n1,A\n").unwrap();
    assert_eq!(records.len(), 1);
    assert_eq!(records[0].user_id(), "1");
    assert_eq!(records[0].user_name(), "A");
}

#[test]
fn row_of_one_column_is_malformed_whatever_the_header() {
    assert_eq!(load(b"id,name,since\nonlyonecolumn\n").err(), Some(LoadError::MalformedRow));
    assert_eq!(load(b"id,name\n1,A,x\nonlyonecolumn\n").err(), Some(LoadError::MalformedRow));
}

#[test]
fn unbalanced_quote_is_read_to_the_end_of_the_text() {
    assert_eq!(pairs("id,name\n1,\"A\n"), vec![pair("1", "A\n")]);
}

#[test]
fn text_that_is_not_utf8_is_a_parse_error() {
    let result = load(b"id,name\n1,\xff\xfe\n");
    assert_eq!(result.err(), Some(LoadError::ParseError));
}

#[test]
fn loading_stops_at_the_first_bad_row() {
    let result = load(b"id,name\n1,A\n2,\xff\nonlyonecolumn\n");
    assert_eq!(result.err(), Some(LoadError::ParseError));
    let result = load(b"id,name\n1,A\nonlyonecolumn\n2,\xff\n");
    assert_eq!(result.err(), Some(LoadError::MalformedRow));
}

#[test]
fn record_from_two_fields() {
    let fields = vec!["u1".to_string(), "Alice".to_string()];
    let record = record_from_fields(&fields).unwrap();
    assert_eq!(record.user_id(), "u1");
    assert_eq!(record.user_name(), "Alice");
}

#[test]
fn record_from_three_fields_takes_the_first_two() {
    let fields = vec!["u1".to_string(), "Alice".to_string(), "x".to_string()];
    let record = record_from_fields(&fields).unwrap();
    assert_eq!(record.user_id(), "u1");
    assert_eq!(record.user_name(), "Alice");
}

#[test]
fn record_from_too_few_fields() {
    let one = vec!["onlyonecolumn".to_string()];
    assert_eq!(record_from_fields(&one).err(), Some(LoadError::MalformedRow));
    let none: Vec<String> = Vec::new();
    assert_eq!(record_from_fields(&none).err(), Some(LoadError::MalformedRow));
}

#[test]
fn every_error_has_its_class() {
    assert_eq!(LoadError::FileNotFound.class(), ErrorClass::Io);
    assert_eq!(LoadError::IoError.class(), ErrorClass::Io);
    assert_eq!(LoadError::MalformedRow.class(), ErrorClass::Format);
    assert_eq!(LoadError::ParseError.class(), ErrorClass::Format);
    assert!(!LoadError::FileNotFound.is_format_error());
    assert!(!LoadError::IoError.is_format_error());
    assert!(LoadError::MalformedRow.is_format_error());
    assert!(LoadError::ParseError.is_format_error());
}

#[test]
fn every_error_has_its_message() {
    assert_eq!(LoadError::FileNotFound.message(), "file not found");
    assert_eq!(LoadError::IoError.message(), "the file could not be read");
    assert_eq!(LoadError::MalformedRow.message(), "a data row has fewer than two columns");
    assert_eq!(LoadError::ParseError.message(), "the text is not a well-formed table");
}

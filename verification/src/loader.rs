//! Reading a follower table: a comma-separated text whose first row is a header
//! and whose data rows start with the user id and the user name.
//!
//! The text is cut into rows and fields by the `csv` crate; everything after
//! that is checked here.

use crate::record::{Record, RecordView};
use vstd::prelude::*;

verus! {

/// Why a follower table could not be loaded.
#[derive(Clone, Copy, Debug, PartialEq, Eq, Structural)]
pub enum LoadError {
    /// There is no file at the given path.
    FileNotFound,
    /// The file is there but could not be opened or read.
    IoError,
    /// A data row has fewer than two columns.
    MalformedRow,
    /// The text breaks the tabular format in some other way.
    ParseError,
}

/// The two kinds of failure that a caller has to tell apart.
#[derive(Clone, Copy, Debug, PartialEq, Eq, Structural)]
pub enum ErrorClass {
    /// The file is missing or cannot be read.
    Io,
    /// The text of the file is not a follower table.
    Format,
}

impl LoadError {
    /// The class of an error: the first two variants are about the file, the
    /// other two about its text.
    pub open spec fn class_of(self) -> ErrorClass {
        match self {
            LoadError::FileNotFound | LoadError::IoError => ErrorClass::Io,
            LoadError::MalformedRow | LoadError::ParseError => ErrorClass::Format,
        }
    }

    /// The message that goes with an error.
    pub open spec fn message_of(self) -> Seq<char> {
        match self {
            LoadError::FileNotFound => "file not found"@,
            LoadError::IoError => "the file could not be read"@,
            LoadError::MalformedRow => "a data row has fewer than two columns"@,
            LoadError::ParseError => "the text is not a well-formed table"@,
        }
    }

    /// Tells whether the error is about the file or about its text.
    pub fn class(&self) -> (class: ErrorClass)
        ensures
            class == self.class_of(),
    {
        match self {
            LoadError::FileNotFound => ErrorClass::Io,
            LoadError::IoError => ErrorClass::Io,
            LoadError::MalformedRow => ErrorClass::Format,
            LoadError::ParseError => ErrorClass::Format,
        }
    }

    /// Whether the text of the file is at fault.
    pub fn is_format_error(&self) -> (b: bool)
        ensures
            b == (self.class_of() == ErrorClass::Format),
    {
        match self {
            LoadError::MalformedRow => true,
            LoadError::ParseError => true,
            _ => false,
        }
    }

    /// A short description of the error, fit for an error stream.
    pub fn message(&self) -> (text: &'static str)
        ensures
            text@ == self.message_of(),
    {
        match self {
            LoadError::FileNotFound => "file not found",
            LoadError::IoError => "the file could not be read",
            LoadError::MalformedRow => "a data row has fewer than two columns",
            LoadError::ParseError => "the text is not a well-formed table",
        }
    }
}

/// What one attempt to read a data row gives: `Some` of the fields of the
/// row, or `None` where the read failed.
pub type RowResult = Option<Seq<Seq<char>>>;

/// `csv::Reader`, the reader that cuts a text into rows. Nothing of its
/// inside is known here; [`pending`] names what it will yield.
#[verifier::external_type_specification]
#[verifier::external_body]
#[verifier::reject_recursive_types(R)]
pub struct ExReader<R>(csv::Reader<R>);

/// `csv::Error`, the error with which a read fails. Nothing of its inside is
/// known here, and nothing is asked of it.
#[verifier::external_type_specification]
#[verifier::external_body]
pub struct ExError(csv::Error);

/// The results that `reader` has yet to hand out, in the order in which
/// `csv::Reader::records` will yield them.
pub uninterp spec fn pending(reader: csv::Reader<&[u8]>) -> Seq<RowResult>;

/// The results that a `csv::Reader` yields when it is built over `bytes`.
/// `has_headers` tells whether the first row is a header to be skipped, and
/// `flexible` whether rows may differ in their number of fields: a reader that
/// is not flexible fails on a row that has another number of fields than the
/// first row, a flexible one yields it.
pub uninterp spec fn parsed(bytes: Seq<u8>, has_headers: bool, flexible: bool) -> Seq<RowResult>;

/// Calls `csv::ReaderBuilder::from_reader` on an in-memory text, with every
/// setting but `has_headers` and `flexible` left at its default.
///
/// Believed, not proved: the results that the reader will yield depend on the
/// bytes and on the two settings alone.
#[verifier::external_body]
fn open_reader<'a>(bytes: &'a [u8], has_headers: bool, flexible: bool) -> (reader: csv::Reader<
    &'a [u8],
>)
    ensures
        pending(reader) == parsed(bytes@, has_headers, flexible),
{
    csv::ReaderBuilder::new().has_headers(has_headers).flexible(flexible).from_reader(bytes)
}

/// Calls `next` on `csv::Reader::records`, and copies the fields of a row
/// into owned strings.
///
/// Believed, not proved: the reader yields its pending results one by one, in
/// order, and `None` once none is left; a yielded row has exactly the fields
/// of the pending result, and an error is yielded where the pending result is
/// a failed read.
#[verifier::external_body]
fn next_row(reader: &mut csv::Reader<&[u8]>) -> (row: Option<Result<Vec<String>, csv::Error>>)
    ensures
        row is None ==> pending(*old(reader)).len() == 0 && pending(*final(reader)).len() == 0,
        row is Some ==> pending(*old(reader)).len() > 0 && pending(*final(reader)) == pending(
            *old(reader),
        ).drop_first(),
        row matches Some(Ok(fields)) ==> (pending(*old(reader)).first() matches Some(cells)
            && cells == fields.deep_view()),
        row matches Some(Err(_)) ==> pending(*old(reader)).first() is None,
{
    reader.records().next().map(
        |row| row.map(|fields| fields.iter().map(|field| field.to_string()).collect()),
    )
}

/// Whether a read gave a row from which a record can be made: it succeeded and
/// the row has at least the two columns that a record needs.
pub open spec fn usable(row: RowResult) -> bool {
    row matches Some(fields) && fields.len() >= 2
}

/// The record of a row: the first column is the user id, the second the user
/// name, and further columns are ignored.
pub open spec fn record_of(fields: Seq<Seq<char>>) -> RecordView
    recommends
        fields.len() >= 2,
{
    RecordView { user_id: fields[0], user_name: fields[1] }
}

/// The error with which loading stops at a result that is not [`usable`]: a
/// row of fewer than two columns is malformed, a read that failed is a parse
/// error.
pub open spec fn rejection(row: RowResult) -> LoadError {
    match row {
        Some(_) => LoadError::MalformedRow,
        None => LoadError::ParseError,
    }
}

/// Whether `k` is the first place in `rows` whose result is not [`usable`].
pub open spec fn first_failure(rows: Seq<RowResult>, k: int) -> bool {
    &&& 0 <= k < rows.len()
    &&& !usable(rows[k])
    &&& forall|i: int| 0 <= i < k ==> usable(#[trigger] rows[i])
}

/// Makes the record of one data row.
///
/// Succeeds exactly when the row has two columns or more.
pub fn record_from_fields(fields: &Vec<String>) -> (r: Result<Record, LoadError>)
    ensures
        r matches Ok(record) ==> fields.len() >= 2 && record@ == record_of(fields.deep_view()),
        r matches Err(error) ==> fields.len() < 2 && error == LoadError::MalformedRow,
{
    if fields.len() < 2 {
        return Err(LoadError::MalformedRow);
    }
    Ok(Record::new(fields[0].clone(), fields[1].clone()))
}

/// Loads the records of a follower table from the bytes of its text.
///
/// The header row is skipped, whatever it holds, and the data rows are kept in
/// the order of the text. A row may have any number of columns from two on,
/// whatever the header or the other rows have; the columns after the second
/// are ignored. Loading succeeds exactly when every read succeeds and every
/// row has two columns or more. Otherwise it stops at the first result for
/// which that fails: a row of fewer than two columns gives `MalformedRow`, a
/// read that failed gives `ParseError`.
pub fn load(bytes: &[u8]) -> (r: Result<Vec<Record>, LoadError>)
    ensures
        r matches Ok(records) ==> {
            &&& records.len() == parsed(bytes@, true, true).len()
            &&& forall|i: int|
                0 <= i < records.len() ==> usable(#[trigger] parsed(bytes@, true, true)[i])
                    && records[i]@ == record_of(parsed(bytes@, true, true)[i]->Some_0)
        },
        r matches Err(error) ==> error.class_of() == ErrorClass::Format && exists|k: int|
            first_failure(parsed(bytes@, true, true), k) && error == rejection(
                #[trigger] parsed(bytes@, true, true)[k],
            ),
{
    let ghost rows = parsed(bytes@, true, true);
    let mut reader = open_reader(bytes, true, true);
    let mut records: Vec<Record> = Vec::new();
    loop
        invariant
            records.len() <= rows.len(),
            pending(reader) == rows.skip(records.len() as int),
            forall|i: int|
                0 <= i < records.len() ==> usable(#[trigger] rows[i]) && records[i]@ == record_of(
                    rows[i]->Some_0,
                ),
            rows == parsed(bytes@, true, true),
        decreases pending(reader).len(),
    {
        let ghost k = records.len() as int;
        match next_row(&mut reader) {
            None => {
                return Ok(records);
            },
            Some(Err(_)) => {
                assert(first_failure(rows, k));
                return Err(LoadError::ParseError);
            },
            Some(Ok(fields)) => {
                match record_from_fields(&fields) {
                    Ok(record) => {
                        records.push(record);
                    },
                    Err(error) => {
                        assert(first_failure(rows, k));
                        return Err(error);
                    },
                }
            },
        }
    }
}

} // verus!

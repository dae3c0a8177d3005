//! The dataset as delimited text: reading its records with the `csv` crate,
//! counting them, and telling rows from records of another width.

use vstd::prelude::*;
use crate::relation::{is_row, Row};
use crate::schema::FIELD_COUNT;
use crate::text::{decimal, decimal_text, texts};

verus! {

/// `csv::Error`, carried as an opaque value.
#[verifier::external_type_specification]
#[verifier::external_body]
pub struct ExCsvError(csv::Error);

/// What a `csv` reader with the given settings yields for `bytes`, record by
/// record until the input is used up: the fields of each record it could
/// read, and `None` for each record it reported an error for.
pub uninterp spec fn csv_records(
    bytes: Seq<u8>,
    has_headers: bool,
    flexible: bool,
) -> Seq<Option<Seq<Seq<char>>>>;

/// Whether `cause` is the text in which `csv` describes one of its errors.
pub open spec fn is_reader_error_text(cause: String) -> bool {
    exists|error: csv::Error| #[trigger]
        vstd::string::to_string_from_display_ensures(&error, cause)
}

/// One record as the reader hands it over: its fields, or the reader's
/// error.
pub open spec fn record_view(record: Result<Vec<String>, csv::Error>) -> Option<Row> {
    match record {
        Ok(fields) => Some(texts(fields)),
        Err(_) => None,
    }
}

/// The records as mathematics, in the order in which they were read.
pub open spec fn records_view(records: Vec<Result<Vec<String>, csv::Error>>) -> Seq<Option<Row>> {
    records@.map_values(|record: Result<Vec<String>, csv::Error>| record_view(record))
}

/// The records of a dataset file. The header line is the first of them, and
/// a record may have any number of fields.
pub open spec fn file_records(bytes: Seq<u8>) -> Seq<Option<Row>> {
    csv_records(bytes, false, true)
}

/// A reader built by `csv::ReaderBuilder` (`new`, `has_headers`, `flexible`,
/// `from_reader`) over `bytes`, drained through `csv::Reader::records`. Each
/// record is copied field by field into strings; an error is kept as it is.
///
/// Claimed of it: the outcome depends on the bytes and the two settings
/// alone, and is what `csv_records` names.
#[verifier::external_body]
fn read_records(
    bytes: &[u8],
    has_headers: bool,
    flexible: bool,
) -> (records: Vec<Result<Vec<String>, csv::Error>>)
    ensures
        records_view(records) == csv_records(bytes@, has_headers, flexible),
{
    let mut reader = csv::ReaderBuilder::new()
        .has_headers(has_headers)
        .flexible(flexible)
        .from_reader(bytes);
    reader
        .records()
        .map(|item| item.map(|record| record.iter().map(String::from).collect()))
        .collect()
}

/// Reads every record of a dataset file, the header line included.
pub fn parse_csv(bytes: &[u8]) -> (records: Vec<Result<Vec<String>, csv::Error>>)
    ensures
        records_view(records) == file_records(bytes@),
{
    read_records(bytes, false, true)
}

/// Counts the records of a dataset file in one full pass. No record is left
/// out: the header line counts, and so does a record that cannot be read.
pub fn count_csv_rows(bytes: &[u8]) -> (count: usize)
    ensures
        count == file_records(bytes@).len(),
{
    let records = read_records(bytes, false, true);
    assert(records_view(records).len() == records.len());
    records.len()
}

/// A record that was skipped because it does not have the width of a row.
#[derive(Debug, Clone, Copy, PartialEq, Eq, Structural)]
pub struct RowWarning {
    /// Number of the record among the data records, counted from 1.
    pub row: usize,
    /// Number of fields that the record has.
    pub columns: usize,
}

impl RowWarning {
    /// The text of the warning.
    pub open spec fn message_text(self) -> Seq<char> {
        "Warning: Row "@ + decimal_text(self.row as nat) + " has "@ + decimal_text(
            self.columns as nat,
        ) + " columns, expected "@ + decimal_text(FIELD_COUNT as nat)
    }

    /// Writes the warning out for a reader.
    pub fn message(&self) -> (text: String)
        ensures
            text@ == self.message_text(),
    {
        let mut text = String::from_str("Warning: Row ");
        text.append(decimal(self.row).as_str());
        text.append(" has ");
        text.append(decimal(self.columns).as_str());
        text.append(" columns, expected ");
        text.append(decimal(FIELD_COUNT).as_str());
        text
    }
}

/// The warning that a record calls for, if any: none for a row, and for any
/// other record one that carries its number and its width.
pub open spec fn warning_for(row: usize, fields: Row) -> Option<RowWarning> {
    if is_row(fields) {
        None
    } else {
        Some(RowWarning { row, columns: fields.len() as usize })
    }
}

/// Decides whether record number `row` is written or skipped.
pub fn check_record(row: usize, fields: &Vec<String>) -> (warning: Option<RowWarning>)
    ensures
        warning == warning_for(row, texts(*fields)),
{
    if fields.len() == FIELD_COUNT {
        None
    } else {
        Some(RowWarning { row, columns: fields.len() })
    }
}

} // verus!

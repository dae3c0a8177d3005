//! The loader: moves the records of a dataset file into the destination
//! table, one upsert per row, and reports what it did.
//!
//! The header line is read and set aside. Of the records after it, a row is
//! upserted and a record of any other width is skipped with a warning. The
//! load stops at the first record that cannot be read and at the first
//! write that the database refuses; what was written until then stays.

use vstd::prelude::*;
use crate::progress::{
    advance, bar_finished, bar_length, bar_message, bar_position, bar_tick_millis,
    create_progress_bar, finish,
};
use crate::records::{
    check_record, count_csv_rows, file_records, is_reader_error_text, parse_csv, record_view,
    records_view, warning_for, RowWarning,
};
use crate::relation::{
    is_row, key_of, keys_distinct, lemma_fresh_rows_all_stored, lemma_later_batch_wins,
    lemma_only_rows_count, lemma_upsert_all_idempotent, upsert_all, Relation, Row,
};
use crate::store::{create_entry, is_refusal_text, upsert_entry, Store};
use crate::text::texts;

verus! {

/// What the bar shows while the load runs.
pub const LOADING_MESSAGE: &'static str = "Creating sqlite file";

/// What the bar shows once the load has run to its end.
pub const LOADED_MESSAGE: &'static str = "Created sqlite file";

/// Why a load stopped before the end of the file.
#[derive(Debug, PartialEq, Eq)]
pub enum LoadError {
    /// The database refused to create the table or to accept the upsert
    /// statement. No record was looked at.
    Schema { cause: String },
    /// A record could not be read. `record` counts from 0, the header line.
    Unreadable { record: usize, cause: String },
    /// The database refused the write of a row. `row` counts the data
    /// records from 1.
    Storage { row: usize, cause: String },
}

/// What a load did.
#[derive(Debug)]
pub struct LoadReport {
    /// Size of the progress bar: the number of records counted in the file,
    /// the header line among them.
    pub total: usize,
    /// Data records dealt with, stored or skipped.
    pub processed: usize,
    /// Rows written to the table.
    pub stored: usize,
    /// One warning for each record skipped, in the order of the file.
    pub warnings: Vec<RowWarning>,
    /// Why the load stopped early, if it did.
    pub fault: Option<LoadError>,
    /// The progress bar as the load left it, if the load came as far as the
    /// first data record.
    pub bar: Option<indicatif::ProgressBar>,
}

/// Whether the cause of a fault is in the words of the crate that reported
/// it: of `rusqlite` where the database refused, of `csv` where a record
/// cannot be read.
pub open spec fn cause_in_reporters_words(fault: Option<LoadError>) -> bool {
    match fault {
        None => true,
        Some(LoadError::Schema { cause }) => is_refusal_text(cause),
        Some(LoadError::Unreadable { cause, .. }) => is_reader_error_text(cause),
        Some(LoadError::Storage { cause, .. }) => is_refusal_text(cause),
    }
}

/// How many header lines a file has: one, unless it has no record at all.
pub open spec fn header_lines(records: Seq<Option<Row>>) -> nat {
    if records.len() == 0 {
        0
    } else {
        1
    }
}

/// The data records of a file: every record after the header line.
pub open spec fn data_records(records: Seq<Option<Row>>) -> Seq<Option<Row>> {
    if records.len() == 0 {
        records
    } else {
        records.skip(1)
    }
}

/// Whether every one of the records could be read.
pub open spec fn all_readable(records: Seq<Option<Row>>) -> bool {
    forall|i: int| 0 <= i < records.len() ==> (#[trigger] records[i]) is Some
}

/// The fields of records that could all be read.
pub open spec fn fields_of(records: Seq<Option<Row>>) -> Seq<Row> {
    records.map_values(|record: Option<Row>| record.unwrap())
}

/// The warnings that a run over `records` gives, in order: one for each
/// record that is not a row, numbered by its place, counted from 1.
pub open spec fn warnings_for(records: Seq<Row>) -> Seq<RowWarning>
    decreases records.len(),
{
    if records.len() == 0 {
        Seq::empty()
    } else {
        match warning_for(records.len() as usize, records.last()) {
            Some(warning) => warnings_for(records.drop_last()).push(warning),
            None => warnings_for(records.drop_last()),
        }
    }
}

/// The statements that a run over `records` puts to the database: one
/// upsert for each row, in order, and nothing for any other record.
pub open spec fn writes_for(records: Seq<Row>) -> Seq<(Seq<char>, Row)>
    decreases records.len(),
{
    if records.len() == 0 {
        Seq::empty()
    } else if is_row(records.last()) {
        writes_for(records.drop_last()).push(upsert_entry(records.last()))
    } else {
        writes_for(records.drop_last())
    }
}

/// Whether the database took the upsert statement once the create statement
/// had run: the store, as it stood right after the create statement, was
/// asked and accepted it.
pub open spec fn upsert_checked(before: Seq<(Seq<char>, Row)>) -> bool {
    exists|checked: Store| #[trigger]
        checked.takes_upsert() && checked.journal() == before.push(create_entry())
}

/// What a load of `records` puts to the database, as the journal shows it:
/// the create statement, then the upserts of the rows among the data
/// records dealt with, and no other statement. A statement that the
/// database refused is in the journal or not. Unless the load stopped at
/// the schema, the database was asked, between the create statement and the
/// first upsert, whether it takes the upsert statement, and it did.
pub open spec fn load_journal(
    records: Seq<Option<Row>>,
    before: Seq<(Seq<char>, Row)>,
    after: Seq<(Seq<char>, Row)>,
    report: LoadReport,
) -> bool {
    let data = data_records(records);
    let done = fields_of(data.take(report.processed as int));
    let written = before.push(create_entry()) + writes_for(done);
    match report.fault {
        None => after == written && upsert_checked(before),
        Some(LoadError::Schema { .. }) => after == before || after == before.push(create_entry()),
        Some(LoadError::Unreadable { .. }) => after == written && upsert_checked(before),
        Some(LoadError::Storage { .. }) => upsert_checked(before) && (after == written || after
            == written.push(upsert_entry(data[report.processed as int].unwrap()))),
    }
}

/// What a load leaves of its progress bar.
///
/// The bar is made once the header line has been read, so a load that
/// stopped at the schema or at the header line has none. The bar has the
/// size of the count and no steady tick. It moves on by one for each data
/// record dealt with, stored or skipped. A load that ran to its end has
/// finished it with the closing message, which sets it to its full length;
/// a load that stopped at a record hands it back unfinished, where it
/// stood.
pub open spec fn load_progress(report: LoadReport) -> bool {
    match report.bar {
        None => match report.fault {
            Some(LoadError::Schema { .. }) => true,
            Some(LoadError::Unreadable { record, .. }) => record == 0,
            _ => false,
        },
        Some(bar) => {
            &&& bar_length(bar) == Some(report.total as u64)
            &&& bar_tick_millis(bar) is None
            &&& match report.fault {
                None => {
                    &&& bar_finished(bar)
                    &&& bar_message(bar) == LOADED_MESSAGE@
                    &&& bar_position(bar) == report.total as u64
                },
                Some(LoadError::Schema { .. }) => false,
                Some(LoadError::Unreadable { record, .. }) => {
                    &&& record > 0
                    &&& !bar_finished(bar)
                    &&& bar_message(bar) == LOADING_MESSAGE@
                    &&& bar_position(bar) == report.processed as u64
                },
                Some(LoadError::Storage { .. }) => {
                    &&& !bar_finished(bar)
                    &&& bar_message(bar) == LOADING_MESSAGE@
                    &&& bar_position(bar) == report.processed as u64
                },
            }
        },
    }
}

/// What a load of `records` into a table that held `before` leaves behind:
/// the table `after` and the report.
///
/// The first `processed` data records were dealt with, in order: all of them
/// could be read, the rows among them were upserted and the others gave the
/// warnings. Without a fault these are all the data records. With a fault
/// the report says where the load stopped: before any record, at the first
/// record that cannot be read, or at a row whose write the database refused,
/// which then is or is not in the table.
pub open spec fn load_outcome(
    records: Seq<Option<Row>>,
    before: Relation,
    after: Relation,
    report: LoadReport,
) -> bool {
    let data = data_records(records);
    let done = fields_of(data.take(report.processed as int));
    &&& report.processed <= data.len()
    &&& all_readable(data.take(report.processed as int))
    &&& report.warnings@ == warnings_for(done)
    &&& report.stored + report.warnings.len() == report.processed
    &&& match report.fault {
        None => {
            &&& after == upsert_all(before, done)
            &&& report.processed == data.len()
            &&& all_readable(records)
        },
        Some(LoadError::Schema { .. }) => {
            &&& after == before
            &&& report.processed == 0
        },
        Some(LoadError::Unreadable { record, .. }) => {
            &&& after == upsert_all(before, done)
            &&& record < records.len()
            &&& records[record as int] is None
            &&& all_readable(records.take(record as int))
            &&& report.processed == if record == 0 {
                0
            } else {
                record - 1
            }
        },
        Some(LoadError::Storage { row, .. }) => {
            &&& row == report.processed + 1
            &&& report.processed < data.len()
            &&& data[report.processed as int] is Some
            &&& is_row(data[report.processed as int].unwrap())
            &&& (after == upsert_all(before, done) || after == upsert_all(
                before,
                done.push(data[report.processed as int].unwrap()),
            ))
        },
    }
}

/// Loads records that have been read already. `total` sizes the progress
/// bar, which moves on by one for each data record dealt with, stored or
/// skipped, and is finished when the load runs to its end. The bar comes
/// back in the report.
///
/// The table is created if it is missing, and the upsert statement is put
/// to the database, before any record is looked at.
pub fn load_records(
    records: &Vec<Result<Vec<String>, csv::Error>>,
    total: usize,
    store: &mut Store,
) -> (report: LoadReport)
    ensures
        report.total == total,
        load_outcome(records_view(*records), old(store)@, final(store)@, report),
        load_journal(
            records_view(*records),
            old(store).journal(),
            final(store).journal(),
            report,
        ),
        load_progress(report),
        cause_in_reporters_words(report.fault),
        (report.fault matches Some(LoadError::Unreadable { record, cause })
            ==> vstd::string::to_string_from_display_ensures(
            &records[record as int]->Err_0,
            cause,
        )),
{
    let ghost before = store@;
    let ghost journal = store.journal();
    let ghost file = records_view(*records);
    let ghost data = data_records(file);
    let mut report = LoadReport {
        total,
        processed: 0,
        stored: 0,
        warnings: Vec::new(),
        fault: None,
        bar: None,
    };
    assert(data.take(0) =~= Seq::empty());
    assert(fields_of(data.take(0)) =~= Seq::empty());
    assert(journal.push(create_entry()) + writes_for(Seq::empty()) =~= journal.push(create_entry()));
    if let Err(error) = store.ensure_schema() {
        report.fault = Some(LoadError::Schema { cause: error.cause });
        return report;
    }
    if let Err(error) = store.check_upsert() {
        report.fault = Some(LoadError::Schema { cause: error.cause });
        return report;
    }
    assert(upsert_checked(journal)) by {
        assert(store.takes_upsert() && store.journal() == journal.push(create_entry()));
    }
    if records.len() > 0 {
        if let Err(error) = &records[0] {
            report.fault = Some(LoadError::Unreadable { record: 0, cause: error.to_string() });
            return report;
        }
    }
    let mut bar = create_progress_bar(total as u64, String::from_str(LOADING_MESSAGE));
    let mut index: usize = 1;
    while index < records.len()
        invariant
            1 <= index,
            records.len() > 0 ==> index <= records.len(),
            before == old(store)@,
            journal == old(store).journal(),
            file == records_view(*records),
            data == data_records(file),
            records.len() > 0 ==> file[0] is Some,
            report.total == total,
            report.fault is None,
            report.bar is None,
            upsert_checked(journal),
            bar_length(bar) == Some(total as u64),
            bar_tick_millis(bar) is None,
            !bar_finished(bar),
            bar_message(bar) == LOADING_MESSAGE@,
            bar_position(bar) == report.processed as u64,
            report.processed == index - 1,
            report.processed <= data.len(),
            all_readable(data.take(report.processed as int)),
            report.warnings@ == warnings_for(fields_of(data.take(report.processed as int))),
            report.stored + report.warnings.len() == report.processed,
            store@ == upsert_all(before, fields_of(data.take(report.processed as int))),
            store.journal() == journal.push(create_entry()) + writes_for(
                fields_of(data.take(report.processed as int)),
            ),
        decreases records.len() - index,
    {
        let ghost done = fields_of(data.take(report.processed as int));
        assert(data[index - 1] == file[index as int]);
        assert(file[index as int] == record_view(records[index as int]));
        match &records[index] {
            Err(error) => {
                report.fault = Some(
                    LoadError::Unreadable { record: index, cause: error.to_string() },
                );
                report.bar = Some(bar);
                proof {
                    assert forall|i: int| 0 <= i < index implies (#[trigger] file.take(
                        index as int,
                    )[i]) is Some by {
                        if i > 0 {
                            assert(data.take(report.processed as int)[i - 1] == file[i]);
                        }
                    }
                }
                return report;
            },
            Ok(fields) => {
                let ghost row = texts(*fields);
                proof {
                    assert(data.take(report.processed + 1) =~= data.take(
                        report.processed as int,
                    ).push(data[report.processed as int]));
                    assert(fields_of(data.take(report.processed + 1)) =~= done.push(row));
                    assert(done.push(row).drop_last() =~= done);
                    let written = journal.push(create_entry()) + writes_for(done);
                    assert(written.push(upsert_entry(row)) =~= journal.push(create_entry())
                        + writes_for(done).push(upsert_entry(row)));
                }
                match check_record(index, fields) {
                    Some(warning) => {
                        report.warnings.push(warning);
                    },
                    None => {
                        if let Err(error) = store.upsert(fields) {
                            report.fault = Some(
                                LoadError::Storage { row: index, cause: error.cause },
                            );
                            report.bar = Some(bar);
                            return report;
                        }
                        report.stored = report.stored + 1;
                    },
                }
                report.processed = report.processed + 1;
                advance(&mut bar, 1);
            },
        }
        index = index + 1;
    }
    finish(&mut bar, String::from_str(LOADED_MESSAGE));
    report.bar = Some(bar);
    proof {
        assert(data.take(report.processed as int) =~= data);
        assert forall|i: int| 0 <= i < file.len() implies (#[trigger] file[i]) is Some by {
            if i > 0 {
                assert(data[i - 1] == file[i]);
            }
        }
    }
    report
}

/// Loads a dataset file into the table: counts its records to size the
/// progress bar, reads them, and upserts every row after the header line.
///
/// The bar is sized by the full count, header line included, and moves on
/// once for each data record, so a load that runs to its end leaves it one
/// unit short of full until it is finished. It comes back in the report.
pub fn convert_to_sql(bytes: &[u8], store: &mut Store) -> (report: LoadReport)
    ensures
        report.total == file_records(bytes@).len(),
        load_outcome(file_records(bytes@), old(store)@, final(store)@, report),
        load_journal(file_records(bytes@), old(store).journal(), final(store).journal(), report),
        load_progress(report),
        cause_in_reporters_words(report.fault),
        report.fault is None ==> report.total == header_lines(file_records(bytes@))
            + report.processed,
{
    let total = count_csv_rows(bytes);
    let records = parse_csv(bytes);
    load_records(&records, total, store)
}

/// The count of the records of a file is the number of records that a load
/// of the file goes through: the header line, which it reads and sets aside,
/// and every data record.
pub proof fn lemma_count_matches_iterations(records: Seq<Option<Row>>)
    ensures
        records.len() == header_lines(records) + data_records(records).len(),
{
}

/// A load that runs to its end stores the rows of the file and nothing
/// else: the table is the one that the rows alone would give, and there is
/// one warning for each data record that is not a row.
pub proof fn lemma_skipped_records_leave_no_trace(
    records: Seq<Option<Row>>,
    before: Relation,
    after: Relation,
    report: LoadReport,
)
    requires
        load_outcome(records, before, after, report),
        report.fault is None,
    ensures
        after == upsert_all(
            before,
            fields_of(data_records(records)).filter(|fields: Row| is_row(fields)),
        ),
        report.stored == fields_of(data_records(records)).filter(
            |fields: Row| is_row(fields),
        ).len(),
        report.warnings.len() == fields_of(data_records(records)).filter(
            |fields: Row| !is_row(fields),
        ).len(),
{
    let data = data_records(records);
    assert(data.take(report.processed as int) =~= data);
    lemma_only_rows_count(before, fields_of(data));
    lemma_warnings_count(fields_of(data));
}

/// A file whose data records are all rows, with keys that differ from one
/// another and from every key in the table, adds one row for each data
/// record when it is loaded to its end, and each row is found again under
/// its `DATETIME`. Loaded into an empty table, a file of N such rows leaves
/// exactly N rows.
pub proof fn lemma_load_stores_every_row(
    records: Seq<Option<Row>>,
    before: Relation,
    after: Relation,
    report: LoadReport,
)
    requires
        load_outcome(records, before, after, report),
        report.fault is None,
        before.dom().finite(),
        forall|i: int|
            0 <= i < data_records(records).len() ==> is_row(
                #[trigger] fields_of(data_records(records))[i],
            ),
        keys_distinct(fields_of(data_records(records))),
        forall|i: int|
            0 <= i < data_records(records).len() ==> !before.dom().contains(
                key_of(#[trigger] fields_of(data_records(records))[i]),
            ),
    ensures
        after.dom().finite(),
        after.len() == before.len() + data_records(records).len(),
        report.stored == data_records(records).len(),
        report.warnings.len() == 0,
        forall|i: int|
            0 <= i < data_records(records).len() ==> after.dom().contains(
                key_of(#[trigger] fields_of(data_records(records))[i]),
            ) && after[key_of(fields_of(data_records(records))[i])] == fields_of(
                data_records(records),
            )[i],
{
    let data = data_records(records);
    let rows = fields_of(data);
    assert(data.take(report.processed as int) =~= data);
    lemma_fresh_rows_all_stored(before, rows);
    lemma_warnings_count(rows);
    assert(rows.filter(|fields: Row| is_row(fields)) =~= rows) by {
        lemma_filter_keeps_all(rows);
    }
}

/// Where every record is a row, the rows among the records are the records.
proof fn lemma_filter_keeps_all(records: Seq<Row>)
    requires
        forall|i: int| 0 <= i < records.len() ==> is_row(#[trigger] records[i]),
    ensures
        records.filter(|fields: Row| is_row(fields)) == records,
    decreases records.len(),
{
    reveal(Seq::filter);
    if records.len() > 0 {
        let front = records.drop_last();
        assert forall|i: int| 0 <= i < front.len() implies is_row(#[trigger] front[i]) by {
            assert(front[i] == records[i]);
        }
        lemma_filter_keeps_all(front);
        assert(front.push(records.last()) =~= records);
    }
}

/// Loading a file a second time leaves the table as the first load left it,
/// and gives the same warnings.
pub proof fn lemma_load_is_idempotent(
    records: Seq<Option<Row>>,
    before: Relation,
    once: Relation,
    twice: Relation,
    first: LoadReport,
    second: LoadReport,
)
    requires
        load_outcome(records, before, once, first),
        first.fault is None,
        load_outcome(records, once, twice, second),
        second.fault is None,
    ensures
        twice == once,
        second.warnings@ == first.warnings@,
        second.stored == first.stored,
{
    let data = data_records(records);
    assert(data.take(first.processed as int) =~= data);
    assert(data.take(second.processed as int) =~= data);
    lemma_upsert_all_idempotent(before, fields_of(data));
}

/// Of two files loaded one after the other, the later wins: a `DATETIME`
/// that the later file has a row for holds the last such row of that file
/// once the file is loaded to its end, whatever the table held for it
/// before.
pub proof fn lemma_later_file_wins(
    earlier: Seq<Option<Row>>,
    later: Seq<Option<Row>>,
    before: Relation,
    between: Relation,
    after: Relation,
    first: LoadReport,
    second: LoadReport,
    at: int,
)
    requires
        load_outcome(earlier, before, between, first),
        load_outcome(later, between, after, second),
        second.fault is None,
        0 <= at < data_records(later).len(),
        is_row(fields_of(data_records(later))[at]),
        forall|j: int|
            at < j < data_records(later).len() && is_row(
                #[trigger] fields_of(data_records(later))[j],
            ) ==> key_of(fields_of(data_records(later))[j]) != key_of(
                fields_of(data_records(later))[at],
            ),
    ensures
        after.dom().contains(key_of(fields_of(data_records(later))[at])),
        after[key_of(fields_of(data_records(later))[at])] == fields_of(data_records(later))[at],
{
    let data = data_records(later);
    assert(data.take(second.processed as int) =~= data);
    lemma_later_batch_wins(between, Seq::empty(), fields_of(data), at);
}

/// There is one warning for each record that is not a row, and the rows are
/// the rest.
pub proof fn lemma_warnings_count(records: Seq<Row>)
    ensures
        warnings_for(records).len() == records.filter(|fields: Row| !is_row(fields)).len(),
        warnings_for(records).len() + records.filter(|fields: Row| is_row(fields)).len()
            == records.len(),
    decreases records.len(),
{
    reveal(Seq::filter);
    if records.len() > 0 {
        lemma_warnings_count(records.drop_last());
    }
}

} // verus!

//! The destination table in an SQLite database, reached through `rusqlite`.
//!
//! What the database has been told is kept as a journal of the statements
//! that ran to completion. The relation is what that journal amounts to:
//! for each `DATETIME`, the row of the last upsert that named it.
//!
//! Two things are taken on trust here. Of `rusqlite`, that `execute` runs
//! the statement it is given, with the values bound in the order given; the
//! two functions that call it say so. Of SQLite, that on the table of the
//! create statement an upsert does what [`replay`] says of it: it replaces
//! the row of the same `DATETIME`, or adds a row. A field bound to a column
//! of real numbers is stored as a number where it reads as one; the relation
//! keeps the text that was bound.

use vstd::prelude::*;
use crate::relation::{upsert, well_formed, Relation, Row};
use crate::schema::{
    create_table_sql, create_table_text, lemma_statements_differ, upsert_sql, upsert_text,
};
use crate::text::texts;

verus! {

/// `rusqlite::Connection`, carried as an opaque value.
#[verifier::external_type_specification]
#[verifier::external_body]
pub struct ExConnection(rusqlite::Connection);

/// `rusqlite::Error`, carried as an opaque value.
#[verifier::external_type_specification]
#[verifier::external_body]
pub struct ExSqliteError(rusqlite::Error);

/// The statements that have run to completion on the database behind a
/// connection, oldest first: the text of each and the values bound to its
/// placeholders, in the order of the placeholders.
///
/// The connection is taken to be the only writer of its database.
pub uninterp spec fn completed(conn: rusqlite::Connection) -> Seq<(Seq<char>, Seq<Seq<char>>)>;

/// `rusqlite::Connection::execute` on values handed over by
/// `rusqlite::params_from_iter`: prepares `sql`, binds each value as text to
/// the placeholder of its position, and runs the statement once.
///
/// The wrapper is for the two statements of the table. Where a text holds
/// more than one statement, `rusqlite` goes one call deeper for each of
/// them before it refuses the text, and a text of very many can use up the
/// stack; so it is handed no other text.
///
/// Claimed of it: a call that returns `Ok` has run the statement to
/// completion, so the journal has grown by it; a call that returns `Err` has
/// either left the journal as it was or grown it by this one statement.
#[verifier::external_body]
fn execute(
    conn: &mut rusqlite::Connection,
    sql: &str,
    values: &Vec<String>,
) -> (outcome: Result<usize, rusqlite::Error>)
    requires
        sql@ == create_table_text() || sql@ == upsert_text(),
    ensures
        outcome is Ok ==> completed(*final(conn)) == completed(*old(conn)).push(
            (sql@, texts(*values)),
        ),
        outcome is Err ==> (completed(*final(conn)) == completed(*old(conn))
            || completed(*final(conn)) == completed(*old(conn)).push((sql@, texts(*values)))),
{
    conn.execute(sql, rusqlite::params_from_iter(values.iter()))
}

/// Whether the database behind a connection, as it stands, takes `sql` as a
/// statement that it can run: what `rusqlite::Connection::prepare` finds
/// when it compiles the text.
pub uninterp spec fn accepted(conn: rusqlite::Connection, sql: Seq<char>) -> bool;

/// `rusqlite::Connection::prepare`, for its verdict alone: the statement it
/// compiles is dropped at once. The wrapper is for the upsert statement, for
/// the reason given at `execute`.
///
/// Claimed of it: a call that returns `Ok` has compiled the statement, so
/// the database takes it. A call that returns `Err` shows nothing: the
/// database may refuse for reasons that are not the statement's.
#[verifier::external_body]
fn prepare(conn: &rusqlite::Connection, sql: &str) -> (outcome: Result<(), rusqlite::Error>)
    requires
        sql@ == upsert_text(),
    ensures
        outcome is Ok ==> accepted(*conn, sql@),
{
    conn.prepare(sql).map(|_| ())
}

/// Why the database refused a statement, in the database's own words.
#[derive(Debug, PartialEq, Eq)]
pub struct StorageError {
    pub cause: String,
}

/// Whether `cause` is the text in which `rusqlite` describes one of its
/// errors.
pub open spec fn is_refusal_text(cause: String) -> bool {
    exists|refusal: rusqlite::Error| #[trigger]
        vstd::string::to_string_from_display_ensures(&refusal, cause)
}

/// What the store makes of the database's answer to a statement: success
/// stays success, and a refusal is kept with the words that the database
/// gives for it.
pub fn settle<T>(answer: Result<T, rusqlite::Error>) -> (outcome: Result<(), StorageError>)
    ensures
        outcome is Ok <==> answer is Ok,
        outcome matches Err(error) ==> vstd::string::to_string_from_display_ensures(
            &answer->Err_0,
            error.cause,
        ),
{
    match answer {
        Ok(_) => Ok(()),
        Err(error) => Err(StorageError { cause: error.to_string() }),
    }
}

/// The journal entry of the statement that creates the table.
pub open spec fn create_entry() -> (Seq<char>, Row) {
    (create_table_text(), Seq::empty())
}

/// The journal entry of an upsert of `fields`.
pub open spec fn upsert_entry(fields: Row) -> (Seq<char>, Row) {
    (upsert_text(), fields)
}

/// The relation that a journal amounts to. Only upserts of rows count: a
/// key holds the row of the last upsert that named it.
pub open spec fn replay(journal: Seq<(Seq<char>, Row)>) -> Relation
    decreases journal.len(),
{
    if journal.len() == 0 {
        Map::empty()
    } else if journal.last().0 == upsert_text() {
        upsert(replay(journal.drop_last()), journal.last().1)
    } else {
        replay(journal.drop_last())
    }
}

/// One more statement in the journal: an upsert offers its values to the
/// relation, any other statement leaves the relation as it was.
pub proof fn lemma_replay_push(journal: Seq<(Seq<char>, Row)>, statement: Seq<char>, values: Row)
    ensures
        replay(journal.push((statement, values))) == if statement == upsert_text() {
            upsert(replay(journal), values)
        } else {
            replay(journal)
        },
{
    assert(journal.push((statement, values)).drop_last() =~= journal);
}

/// The relation of any journal is sound: finitely many rows, each of full
/// width and under its own `DATETIME`.
pub proof fn lemma_replay_well_formed(journal: Seq<(Seq<char>, Row)>)
    ensures
        well_formed(replay(journal)),
    decreases journal.len(),
{
    if journal.len() > 0 {
        lemma_replay_well_formed(journal.drop_last());
    }
}

/// The texts of the two statements, built once for a store.
struct Statements {
    create: String,
    upsert: String,
}

impl Statements {
    #[verifier::type_invariant]
    spec fn built(self) -> bool {
        self.create@ == create_table_text() && self.upsert@ == upsert_text()
    }

    fn new() -> (statements: Statements)
        ensures
            statements.create@ == create_table_text(),
            statements.upsert@ == upsert_text(),
    {
        Statements { create: create_table_sql(), upsert: upsert_sql() }
    }

    fn create(&self) -> (sql: &str)
        ensures
            sql@ == create_table_text(),
    {
        proof {
            use_type_invariant(self);
        }
        self.create.as_str()
    }

    fn upsert(&self) -> (sql: &str)
        ensures
            sql@ == upsert_text(),
    {
        proof {
            use_type_invariant(self);
        }
        self.upsert.as_str()
    }
}

/// The destination table behind one connection.
pub struct Store {
    conn: rusqlite::Connection,
    statements: Statements,
}

impl View for Store {
    type V = Relation;

    /// The relation that the table holds.
    open spec fn view(&self) -> Relation {
        replay(self.journal())
    }
}

impl Store {
    /// The statements that the database has run to completion.
    pub closed spec fn journal(self) -> Seq<(Seq<char>, Row)> {
        completed(self.conn)
    }

    /// Whether the database, as it stands, takes the upsert statement.
    pub closed spec fn takes_upsert(self) -> bool {
        accepted(self.conn, upsert_text())
    }

    /// Whatever the table has been through, its relation is sound.
    pub proof fn lemma_view_well_formed(self)
        ensures
            well_formed(self@),
    {
        lemma_replay_well_formed(self.journal());
    }

    /// Takes charge of the table behind `conn`.
    pub fn new(conn: rusqlite::Connection) -> (store: Store)
        ensures
            store.journal() == completed(conn),
    {
        Store { conn, statements: Statements::new() }
    }

    /// The connection, for reading what the table holds. It is lent for
    /// queries: a statement that is run through it and changes the database
    /// is not in the journal of this store, and what the store states of its
    /// table no longer holds of the table.
    pub fn connection(&self) -> (conn: &rusqlite::Connection)
        ensures
            completed(*conn) == self.journal(),
    {
        &self.conn
    }

    /// Gives the connection back.
    pub fn into_connection(self) -> (conn: rusqlite::Connection)
        ensures
            completed(conn) == self.journal(),
    {
        self.conn
    }

    /// Creates the table unless it is there already. The create statement is
    /// the one statement put to the database, and whether or not the database
    /// accepts it, no row is added, changed or dropped.
    pub fn ensure_schema(&mut self) -> (outcome: Result<(), StorageError>)
        ensures
            final(self)@ == old(self)@,
            outcome is Ok ==> final(self).journal() == old(self).journal().push(create_entry()),
            outcome is Err ==> (final(self).journal() == old(self).journal()
                || final(self).journal() == old(self).journal().push(create_entry())),
            outcome matches Err(error) ==> is_refusal_text(error.cause),
    {
        proof {
            lemma_statements_differ();
            lemma_replay_push(self.journal(), create_table_text(), Seq::empty());
        }
        let none: Vec<String> = Vec::new();
        assert(texts(none) =~= Seq::empty());
        settle(execute(&mut self.conn, self.statements.create(), &none))
    }

    /// Asks the database whether it accepts the upsert statement, without
    /// running it. No statement is run, so the table is left as it is. A
    /// refusal comes back in the words of the database.
    pub fn check_upsert(&self) -> (outcome: Result<(), StorageError>)
        ensures
            outcome is Ok ==> self.takes_upsert(),
            outcome matches Err(error) ==> is_refusal_text(error.cause),
    {
        settle(prepare(&self.conn, self.statements.upsert()))
    }

    /// Offers one record to the table: its fields are bound, in order, to the
    /// columns of the upsert statement, which is the one statement put to the
    /// database.
    ///
    /// On `Ok` the relation is the old one with the record upserted. On `Err`
    /// the database refused; the relation is then either the old one or,
    /// where the failure was reported after the write, the old one with the
    /// record upserted.
    pub fn upsert(&mut self, fields: &Vec<String>) -> (outcome: Result<(), StorageError>)
        ensures
            outcome is Ok ==> final(self).journal() == old(self).journal().push(
                upsert_entry(texts(*fields)),
            ),
            outcome is Err ==> (final(self).journal() == old(self).journal()
                || final(self).journal() == old(self).journal().push(
                upsert_entry(texts(*fields)),
            )),
            outcome is Ok ==> final(self)@ == upsert(old(self)@, texts(*fields)),
            outcome is Err ==> (final(self)@ == old(self)@
                || final(self)@ == upsert(old(self)@, texts(*fields))),
            outcome matches Err(error) ==> is_refusal_text(error.cause),
    {
        proof {
            lemma_replay_push(self.journal(), upsert_text(), texts(*fields));
        }
        settle(execute(&mut self.conn, self.statements.upsert(), fields))
    }
}

} // verus!

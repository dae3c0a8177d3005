//! The destination table: its columns, in order, and the two statements
//! that are built from them.
//!
//! Both statements come from the one list of columns, so the order in which
//! a row's fields are bound cannot drift from the order of the table.

use vstd::prelude::*;
use crate::text::{join, joined, texts};

verus! {

/// Number of fields in a dataset row, and of columns in the table.
pub const FIELD_COUNT: usize = 32;

/// The columns, in the order of the dataset's fields. The first is the
/// primary key and holds text; every other column holds a real number.
pub const COLUMNS: [&'static str; 32] = [
    "DATETIME",
    "GAS",
    "COAL",
    "NUCLEAR",
    "WIND",
    "HYDRO",
    "IMPORTS",
    "BIOMASS",
    "OTHER",
    "SOLAR",
    "STORAGE",
    "GENERATION",
    "CARBON_INTENSITY",
    "LOW_CARBON",
    "ZERO_CARBON",
    "RENEWABLE",
    "FOSSIL",
    "GAS_perc",
    "COAL_perc",
    "NUCLEAR_perc",
    "WIND_perc",
    "HYDRO_perc",
    "IMPORTS_perc",
    "BIOMASS_perc",
    "OTHER_perc",
    "SOLAR_perc",
    "STORAGE_perc",
    "GENERATION_perc",
    "LOW_CARBON_perc",
    "ZERO_CARBON_perc",
    "RENEWABLE_perc",
    "FOSSIL_perc",
];

/// The column names as text, in order.
pub open spec fn column_names() -> Seq<Seq<char>> {
    COLUMNS@.map_values(|name: &'static str| name@)
}

/// What the table declares for column `index`: its name and its type.
pub open spec fn column_definition(index: int) -> Seq<char> {
    column_names()[index] + if index == 0 {
        " TEXT PRIMARY KEY"@
    } else {
        " REAL"@
    }
}

/// The declarations of all columns, in order.
pub open spec fn column_definitions() -> Seq<Seq<char>> {
    Seq::new(FIELD_COUNT as nat, |index: int| column_definition(index))
}

/// One `?` for each column.
pub open spec fn placeholders() -> Seq<Seq<char>> {
    Seq::new(FIELD_COUNT as nat, |index: int| "?"@)
}

/// The statement that creates the table unless it is there already.
pub open spec fn create_table_text() -> Seq<char> {
    "CREATE TABLE IF NOT EXISTS energy_data ("@ + joined(column_definitions(), ", "@) + ")"@
}

/// The statement that inserts a row, or replaces the row that has the same
/// `DATETIME`: it names every column in order and binds one value to each.
pub open spec fn upsert_text() -> Seq<char> {
    "INSERT OR REPLACE INTO energy_data ("@ + joined(column_names(), ", "@) + ") VALUES ("@
        + joined(placeholders(), ", "@) + ")"@
}

/// The name of column `index`, if the table has such a column.
pub fn column_name(index: usize) -> (name: Option<&'static str>)
    ensures
        index < FIELD_COUNT ==> name is Some && name.unwrap()@ == column_names()[index as int],
        index >= FIELD_COUNT ==> name is None,
{
    if index < FIELD_COUNT {
        Some(COLUMNS[index])
    } else {
        None
    }
}

/// Builds the text of [`create_table_text`].
pub fn create_table_sql() -> (sql: String)
    ensures
        sql@ == create_table_text(),
{
    let mut definitions: Vec<String> = Vec::new();
    let mut index: usize = 0;
    while index < FIELD_COUNT
        invariant
            index <= FIELD_COUNT,
            definitions.len() == index,
            forall|i: int| 0 <= i < index ==> (#[trigger] definitions[i])@ == column_definition(i),
        decreases FIELD_COUNT - index,
    {
        let mut definition = String::from_str(COLUMNS[index]);
        if index == 0 {
            definition.append(" TEXT PRIMARY KEY");
        } else {
            definition.append(" REAL");
        }
        definitions.push(definition);
        index += 1;
    }
    assert(texts(definitions) =~= column_definitions());
    let mut sql = String::from_str("CREATE TABLE IF NOT EXISTS energy_data (");
    sql.append(join(&definitions, ", ").as_str());
    sql.append(")");
    sql
}

/// Builds the text of [`upsert_text`].
pub fn upsert_sql() -> (sql: String)
    ensures
        sql@ == upsert_text(),
{
    let mut names: Vec<String> = Vec::new();
    let mut marks: Vec<String> = Vec::new();
    let mut index: usize = 0;
    while index < FIELD_COUNT
        invariant
            index <= FIELD_COUNT,
            names.len() == index,
            marks.len() == index,
            forall|i: int| 0 <= i < index ==> (#[trigger] names[i])@ == column_names()[i],
            forall|i: int| 0 <= i < index ==> (#[trigger] marks[i])@ == "?"@,
        decreases FIELD_COUNT - index,
    {
        names.push(String::from_str(COLUMNS[index]));
        marks.push(String::from_str("?"));
        index += 1;
    }
    assert(texts(names) =~= column_names());
    assert(texts(marks) =~= placeholders());
    let mut sql = String::from_str("INSERT OR REPLACE INTO energy_data (");
    sql.append(join(&names, ", ").as_str());
    sql.append(") VALUES (");
    sql.append(join(&marks, ", ").as_str());
    sql.append(")");
    sql
}

/// The two statements differ, so neither can be taken for the other.
pub proof fn lemma_statements_differ()
    ensures
        create_table_text() != upsert_text(),
{
    reveal_strlit("CREATE TABLE IF NOT EXISTS energy_data (");
    reveal_strlit("INSERT OR REPLACE INTO energy_data (");
    assert(create_table_text()[0] == 'C');
    assert(upsert_text()[0] == 'I');
}

} // verus!

//! Loads the GB electricity generation mix, published as one CSV file, into
//! an SQLite table keyed by `DATETIME`.
//!
//! The work has two stages. The fetch asks the publisher for the file and
//! saves it; [`fetch`] holds where the file is found and kept, and the
//! decision on the server's answer. The load reads the saved file and
//! upserts its rows; [`loader`] holds it, over [`records`] for the reading,
//! [`store`] for the table and [`progress`] for the bar.
//!
//! What a load leaves in the table is stated over [`relation`], a map from
//! `DATETIME` to row. Three outside crates do what this library does not do
//! itself: `csv` splits the file into records, `rusqlite` runs the
//! statements of [`schema`], and `indicatif` draws. What is taken on trust
//! of each stands in the comments of the functions that call them.

pub mod fetch;
pub mod loader;
pub mod progress;
pub mod records;
pub mod relation;
pub mod schema;
pub mod store;
pub mod text;

pub use loader::{convert_to_sql, load_records, LoadError, LoadReport};
pub use progress::{create_progress_bar, create_spinner};
pub use records::{count_csv_rows, parse_csv, RowWarning};
pub use store::{StorageError, Store};

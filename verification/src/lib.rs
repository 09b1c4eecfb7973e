//! Conversion of CSV tables into JSON or YAML documents.
//!
//! The first record of a CSV input names the columns. Every later record
//! becomes one object whose keys are the column names, in column order, and
//! whose values are the cells of that record as strings. The objects are
//! collected, in record order, into one array, which is rendered as pretty
//! JSON or as block YAML.
//!
//! Reading and writing files and parsing the command line are left to the
//! caller: every function here takes and returns plain values.
//!
//! - [`command`]: the commands, their arguments, and what a run computes.
//! - [`reader`]: splitting CSV bytes into records, by the `csv` crate.
//! - [`table`]: a header row with its data rows, and the document of a table.
//! - [`document`] and [`object`]: the document tree, and objects as ordered
//!   mappings.
//! - [`render`]: writing a document out, by `serde_json` and `serde_yaml`.
//! - [`player`] and [`number`]: reading a roster of players from CSV records
//!   and writing it out as JSON.
//! - [`format`], [`error`], [`text`]: format tokens, errors, and comparison
//!   of strings.
//! - [`laws`]: what holds of every successful run.

pub mod command;
pub mod document;
pub mod error;
pub mod format;
pub mod laws;
pub mod number;
pub mod object;
pub mod player;
pub mod reader;
pub mod render;
pub mod table;
pub mod text;

pub use command::{convert, parse_document, process_csv, run, verify_file, Commands, CsvArgs, MyCli};
pub use document::{Entry, Node, Tree};
pub use error::{CliError, CsvFault};
pub use format::Format;
pub use player::{read_csv, write_json, Player};
pub use render::render;
pub use table::Table;

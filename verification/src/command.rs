//! The commands of the tool and what a run of each computes.

use vstd::prelude::*;
use crate::document::{Node, Tree};
use crate::error::{CliError, CsvFault};
use crate::format::Format;
use crate::reader::{csv_records, read_records, read_view};
use crate::render::{render_mappings, rendering, text_of};
use crate::table::{document_of, table_of, Table};

verus! {

/// The configuration of one conversion: where the CSV input is read from,
/// where the document is written to, and in which format.
#[derive(Debug, PartialEq, Eq)]
pub struct CsvArgs {
    pub input: String,
    pub output: String,
    pub format: Format,
}

/// The output path of a conversion that names none.
pub const DEFAULT_OUTPUT: &'static str = "./assets/juventus.json";

/// The format of a conversion that names none.
pub const DEFAULT_FORMAT: Format = Format::Json;

impl CsvArgs {
    /// The configuration of a conversion that names only its input: the
    /// output path and the format are the default ones.
    pub fn with_defaults(input: String) -> (args: CsvArgs)
        ensures
            args.input == input,
            args.output@ == DEFAULT_OUTPUT@,
            args.format == DEFAULT_FORMAT,
    {
        CsvArgs { input, output: DEFAULT_OUTPUT.to_owned(), format: DEFAULT_FORMAT }
    }
}

/// The commands that the tool knows.
#[derive(Debug)]
pub enum Commands {
    Csv(CsvArgs),
}

/// A parsed command line.
#[derive(Debug)]
pub struct MyCli {
    subcmd: Commands,
}

impl MyCli {
    /// The command that the command line names.
    pub closed spec fn command(&self) -> Commands {
        self.subcmd
    }

    /// A command line that names the given command.
    pub fn new(subcmd: Commands) -> (cli: MyCli)
        ensures
            cli.command() == subcmd,
    {
        MyCli { subcmd }
    }

    /// The command that the command line names.
    pub fn subcmd(&self) -> (subcmd: &Commands)
        ensures
            *subcmd == self.command(),
    {
        &self.subcmd
    }
}

/// Accepts an input path that exists, and rejects one that does not.
/// `exists` says whether a file is there under `path`.
pub fn verify_file(path: &str, exists: bool) -> (out: Result<String, CliError>)
    ensures
        match out {
            Ok(accepted) => exists && accepted@ == path@,
            Err(e) => !exists && e == CliError::InputMissing,
        },
{
    if exists {
        Ok(path.to_owned())
    } else {
        Err(CliError::InputMissing)
    }
}

/// The document that a run builds from what it read. The input must have
/// split into records, there must be a header row, and every data row must
/// be as wide as the header row.
pub open spec fn records_document(read: Option<Seq<Seq<Seq<char>>>>) -> Result<Tree, CliError> {
    match read {
        None => Err(CliError::CsvRead(CsvFault::Malformed)),
        Some(records) => match table_of(records) {
            Err(e) => Err(e),
            Ok(table) => Ok(document_of(table)),
        },
    }
}

/// The document that a run builds from the bytes of its input.
pub open spec fn input_document(input: Seq<u8>) -> Result<Tree, CliError> {
    records_document(csv_records(input))
}

/// The text that a run writes for the bytes of its input.
pub open spec fn conversion(input: Seq<u8>, format: Format) -> Result<Seq<char>, CliError> {
    match input_document(input) {
        Err(e) => Err(e),
        Ok(tree) => rendering(tree, format),
    }
}

/// Builds the document of what a reader returned: one object for each
/// record after the first, which is the header row. A reader's error, of
/// whatever kind, counts as malformed input.
pub fn document_from<E>(read: Result<Vec<Vec<String>>, E>) -> (out: Result<Node, CliError>)
    ensures
        match out {
            Ok(doc) => records_document(read_view(read)) == Ok::<Tree, CliError>(doc@) && doc.wf(),
            Err(e) => records_document(read_view(read)) == Err::<Tree, CliError>(e),
        },
{
    let records = match read {
        Ok(records) => records,
        Err(_) => {
            return Err(CliError::CsvRead(CsvFault::Malformed));
        },
    };
    match Table::from_records(records) {
        Ok(table) => Ok(table.to_document()),
        Err(e) => Err(e),
    }
}

/// Reads CSV input and builds its document: one object for each data row.
pub fn parse_document(input: &[u8]) -> (out: Result<Node, CliError>)
    ensures
        match out {
            Ok(doc) => input_document(input@) == Ok::<Tree, CliError>(doc@) && doc.wf(),
            Err(e) => input_document(input@) == Err::<Tree, CliError>(e),
        },
{
    document_from(read_records(input))
}

/// Converts CSV input into the text of its document in the given format.
pub fn convert(input: &[u8], format: Format) -> (out: Result<String, CliError>)
    ensures
        text_of(out) == conversion(input@, format),
{
    match parse_document(input) {
        Ok(doc) => render_mappings(&doc, format),
        Err(e) => Err(e),
    }
}

/// Runs the `csv` command on the bytes read from `arg.input`, and returns
/// the text to write to `arg.output`.
pub fn process_csv(arg: &CsvArgs, input: &[u8]) -> (out: Result<String, CliError>)
    ensures
        text_of(out) == conversion(input@, arg.format),
{
    convert(input, arg.format)
}

/// What a run of a command line computes from the bytes of its input file.
pub open spec fn outcome(command: Commands, input: Seq<u8>) -> Result<Seq<char>, CliError> {
    match command {
        Commands::Csv(args) => conversion(input, args.format),
    }
}

/// Runs the command that the command line names on the bytes of its input
/// file, and returns the text for its output file.
pub fn run(cli: &MyCli, input: &[u8]) -> (out: Result<String, CliError>)
    ensures
        text_of(out) == outcome(cli.command(), input@),
{
    match cli.subcmd() {
        Commands::Csv(args) => process_csv(args, input),
    }
}

} // verus!

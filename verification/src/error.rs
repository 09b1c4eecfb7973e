//! The errors that a conversion can end with.

use vstd::prelude::*;

verus! {

/// Why CSV input could not be turned into records.
#[derive(Debug, Clone, Copy, PartialEq, Eq, Structural)]
pub enum CsvFault {
    /// The input file could not be opened or read. This fault is for the
    /// caller that reads the file: no function of the library returns it.
    Open,
    /// The reader rejected the input: so it does with a record of another
    /// width than the first, and with bytes that are not UTF-8.
    Malformed,
    /// The input holds no record at all, so there is no header row.
    NoHeaders,
    /// A record has another number of cells than the header row.
    RowWidth,
    /// A record cannot be read as a player: a column is missing or occurs
    /// twice, or the kit number is not a number that fits in eight bits.
    Deserialize,
}

/// Every way in which a run of the tool can fail.
#[derive(Debug, Clone, Copy, PartialEq, Eq, Structural)]
pub enum CliError {
    /// The command line has an invalid shape. This error is for the caller
    /// that parses the command line: no function of the library returns it.
    ArgParse,
    /// The input path does not exist.
    InputMissing,
    /// The format token is neither `json` nor `yaml`.
    InvalidFormat,
    /// The CSV input could not be read.
    CsvRead(CsvFault),
    /// The document could not be serialized.
    Serialize,
    /// The output file could not be written. This error is for the caller
    /// that writes the file: no function of the library returns it.
    Write,
}

impl CliError {
    /// The one-line diagnostic of this error.
    pub open spec fn spec_message(self) -> Seq<char> {
        match self {
            CliError::ArgParse => "Invalid arguments"@,
            CliError::InputMissing => "File not found"@,
            CliError::InvalidFormat => "Invalid format"@,
            CliError::CsvRead(CsvFault::Open) => "Cannot open input"@,
            CliError::CsvRead(CsvFault::Malformed) => "Malformed CSV input"@,
            CliError::CsvRead(CsvFault::NoHeaders) => "Cannot read headers"@,
            CliError::CsvRead(CsvFault::RowWidth) => "Row width differs from header width"@,
            CliError::CsvRead(CsvFault::Deserialize) => "Cannot deserialize record"@,
            CliError::Serialize => "Cannot serialize document"@,
            CliError::Write => "Cannot write output"@,
        }
    }

    /// Returns the one-line diagnostic of this error.
    pub fn message(&self) -> (text: &'static str)
        ensures
            text@ == self.spec_message(),
    {
        match self {
            CliError::ArgParse => "Invalid arguments",
            CliError::InputMissing => "File not found",
            CliError::InvalidFormat => "Invalid format",
            CliError::CsvRead(CsvFault::Open) => "Cannot open input",
            CliError::CsvRead(CsvFault::Malformed) => "Malformed CSV input",
            CliError::CsvRead(CsvFault::NoHeaders) => "Cannot read headers",
            CliError::CsvRead(CsvFault::RowWidth) => "Row width differs from header width",
            CliError::CsvRead(CsvFault::Deserialize) => "Cannot deserialize record",
            CliError::Serialize => "Cannot serialize document",
            CliError::Write => "Cannot write output",
        }
    }
}

} // verus!

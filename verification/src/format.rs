//! The output formats and their tokens.

use vstd::prelude::*;
use vstd::std_specs::convert::FromSpecImpl;
use crate::error::CliError;
use crate::text::str_eq;

verus! {

/// The format in which a document is written out.
#[derive(Debug, Clone, Copy, PartialEq, Eq, Structural)]
pub enum Format {
    Json,
    Yaml,
}

impl Format {
    /// The canonical lower-case token of this format.
    pub open spec fn spec_name(self) -> Seq<char> {
        match self {
            Format::Json => "json"@,
            Format::Yaml => "yaml"@,
        }
    }

    /// What `parse` makes of a token: the format whose canonical token it
    /// is, and `InvalidFormat` for every other string.
    pub open spec fn spec_parse(token: Seq<char>) -> Result<Format, CliError> {
        if token == "json"@ {
            Ok(Format::Json)
        } else if token == "yaml"@ {
            Ok(Format::Yaml)
        } else {
            Err(CliError::InvalidFormat)
        }
    }

    /// Returns the canonical lower-case token of this format.
    pub fn name(self) -> (token: &'static str)
        ensures
            token@ == self.spec_name(),
    {
        match self {
            Format::Json => "json",
            Format::Yaml => "yaml",
        }
    }

    /// Reads a format token. Only the exact strings `json` and `yaml` are
    /// tokens; there is no trimming and no folding of case.
    pub fn parse(token: &str) -> (parsed: Result<Format, CliError>)
        ensures
            parsed == Format::spec_parse(token@),
    {
        if str_eq(token, "json") {
            Ok(Format::Json)
        } else if str_eq(token, "yaml") {
            Ok(Format::Yaml)
        } else {
            Err(CliError::InvalidFormat)
        }
    }

    /// The two canonical tokens differ, so each names one format.
    pub proof fn lemma_names_differ()
        ensures
            Format::Json.spec_name() != Format::Yaml.spec_name(),
    {
        reveal_strlit("json");
        reveal_strlit("yaml");
        assert("yaml"@[0] == 'y');
    }

    /// Parsing the canonical token of a format gives that format back.
    pub proof fn lemma_parse_name(format: Format)
        ensures
            Format::spec_parse(format.spec_name()) == Ok::<Format, CliError>(format),
    {
        Format::lemma_names_differ();
    }

    /// A token that parses is the canonical token of the format it gives.
    pub proof fn lemma_name_parse(token: Seq<char>)
        ensures
            Format::spec_parse(token) matches Ok(format) ==> format.spec_name() == token,
    {
    }
}

impl From<Format> for &'static str {
    fn from(format: Format) -> (token: &'static str) {
        match format {
            Format::Json => "json",
            Format::Yaml => "yaml",
        }
    }
}

impl FromSpecImpl<Format> for &'static str {
    open spec fn obeys_from_spec() -> bool {
        true
    }

    open spec fn from_spec(format: Format) -> &'static str {
        match format {
            Format::Json => "json",
            Format::Yaml => "yaml",
        }
    }
}

impl std::str::FromStr for Format {
    type Err = CliError;

    fn from_str(s: &str) -> (parsed: Result<Format, CliError>)
        ensures
            parsed == Format::spec_parse(s@),
    {
        Format::parse(s)
    }
}

} // verus!

//! The error taxonomy: format-level parse errors with positions, and the
//! higher-level discovery error that wraps them.

use vstd::prelude::*;

verus! {

/// The mathematical form of a parse error: text as character sequences,
/// positions as unbounded naturals.
pub enum SpecEnvError {
    UnexpectedToken { expected: Seq<char>, found: Seq<char>, line: nat, character: nat },
    MissingAssignmentOperator { key: Seq<char>, line: nat, character: nat },
    ExpectedValueButFoundAssignment { line: nat, character: nat },
    MissingKey { line: nat },
    MissingValue { line: nat },
    FoundOnlyKey { line: nat },
    UnclosedValue { line: nat },
}

/// A malformed construct in the input, with the position of the offending
/// token. Every error is fatal: the parser stops at the first one.
///
/// `line` is 1-based; `character` follows the parser's column convention
/// (see the state machine's `step`).
#[derive(Debug, PartialEq)]
pub enum EnvError {
    UnexpectedToken { expected: String, found: String, line: u64, character: u64 },
    /// Reserved: no rule of the current grammar produces it.
    MissingAssignmentOperator { key: String, line: u64, character: u64 },
    ExpectedValueButFoundAssignment { line: u64, character: u64 },
    MissingKey { line: u64 },
    MissingValue { line: u64 },
    FoundOnlyKey { line: u64 },
    UnclosedValue { line: u64 },
}

impl View for EnvError {
    type V = SpecEnvError;

    open spec fn view(&self) -> SpecEnvError {
        match self {
            EnvError::UnexpectedToken { expected, found, line, character } => {
                SpecEnvError::UnexpectedToken {
                    expected: expected@,
                    found: found@,
                    line: *line as nat,
                    character: *character as nat,
                }
            },
            EnvError::MissingAssignmentOperator { key, line, character } => {
                SpecEnvError::MissingAssignmentOperator {
                    key: key@,
                    line: *line as nat,
                    character: *character as nat,
                }
            },
            EnvError::ExpectedValueButFoundAssignment { line, character } => {
                SpecEnvError::ExpectedValueButFoundAssignment {
                    line: *line as nat,
                    character: *character as nat,
                }
            },
            EnvError::MissingKey { line } => SpecEnvError::MissingKey { line: *line as nat },
            EnvError::MissingValue { line } => SpecEnvError::MissingValue { line: *line as nat },
            EnvError::FoundOnlyKey { line } => SpecEnvError::FoundOnlyKey { line: *line as nat },
            EnvError::UnclosedValue { line } => SpecEnvError::UnclosedValue { line: *line as nat },
        }
    }
}

#[verifier::external_type_specification]
#[verifier::external_body]
pub struct ExIoError(std::io::Error);

/// What can go wrong while locating, reading and parsing the nearest `.env`
/// file: an I/O failure, a parse failure, or no file found at all.
#[derive(Debug)]
pub enum FindEnvError {
    Io(std::io::Error),
    Env(EnvError),
    NotFound(String),
}

impl From<std::io::Error> for FindEnvError {
    fn from(value: std::io::Error) -> (r: Self) {
        FindEnvError::Io(value)
    }
}

impl vstd::std_specs::convert::FromSpecImpl<std::io::Error> for FindEnvError {
    open spec fn obeys_from_spec() -> bool {
        true
    }

    open spec fn from_spec(value: std::io::Error) -> Self {
        FindEnvError::Io(value)
    }
}

impl From<EnvError> for FindEnvError {
    fn from(value: EnvError) -> (r: Self) {
        FindEnvError::Env(value)
    }
}

impl vstd::std_specs::convert::FromSpecImpl<EnvError> for FindEnvError {
    open spec fn obeys_from_spec() -> bool {
        true
    }

    open spec fn from_spec(value: EnvError) -> Self {
        FindEnvError::Env(value)
    }
}

} // verus!

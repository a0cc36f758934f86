//! Human-readable error messages, rendered by verified code.
//!
//! Each parse error formats to one line naming the error kind and its
//! position; the exact text is pinned by `spec_env_error_message`.

use vstd::prelude::*;

use crate::error::{EnvError, FindEnvError, SpecEnvError};
use crate::text::{dec_str, u64_to_string};

verus! {

/// The message text of a parse error.
pub open spec fn spec_env_error_message(e: SpecEnvError) -> Seq<char> {
    match e {
        SpecEnvError::UnexpectedToken { expected, found, line, character } => {
            "Unexpected token: expected "@ + expected + " but found '"@ + found + "' at line "@
                + dec_str(line) + ", character "@ + dec_str(character)
        },
        SpecEnvError::MissingAssignmentOperator { key, line, character } => {
            "Missing assignment operator for key '"@ + key + "' on line "@ + dec_str(line)
                + ", character "@ + dec_str(character)
        },
        SpecEnvError::ExpectedValueButFoundAssignment { line, character } => {
            "Expected value but found assignment operator at line "@ + dec_str(line)
                + ", character "@ + dec_str(character)
        },
        SpecEnvError::MissingKey { line } => "Key missing on line "@ + dec_str(line),
        SpecEnvError::MissingValue { line } => "Value missing on line "@ + dec_str(line),
        SpecEnvError::FoundOnlyKey { line } => {
            "Only found key on line "@ + dec_str(line) + ", expected assignment operator and value"@
        },
        SpecEnvError::UnclosedValue { line } => {
            "Key or value was not closed from line "@ + dec_str(line)
        },
    }
}

impl EnvError {
    /// Renders the error as one descriptive line.
    pub fn message(&self) -> (r: String)
        ensures
            r@ == spec_env_error_message(self@),
    {
        match self {
            EnvError::UnexpectedToken { expected, found, line, character } => {
                let mut r = "Unexpected token: expected ".to_owned();
                r.append(expected.as_str());
                r.append(" but found '");
                r.append(found.as_str());
                r.append("' at line ");
                let line_text = u64_to_string(*line);
                r.append(line_text.as_str());
                r.append(", character ");
                let character_text = u64_to_string(*character);
                r.append(character_text.as_str());
                r
            },
            EnvError::MissingAssignmentOperator { key, line, character } => {
                let mut r = "Missing assignment operator for key '".to_owned();
                r.append(key.as_str());
                r.append("' on line ");
                let line_text = u64_to_string(*line);
                r.append(line_text.as_str());
                r.append(", character ");
                let character_text = u64_to_string(*character);
                r.append(character_text.as_str());
                r
            },
            EnvError::ExpectedValueButFoundAssignment { line, character } => {
                let mut r = "Expected value but found assignment operator at line ".to_owned();
                let line_text = u64_to_string(*line);
                r.append(line_text.as_str());
                r.append(", character ");
                let character_text = u64_to_string(*character);
                r.append(character_text.as_str());
                r
            },
            EnvError::MissingKey { line } => {
                let mut r = "Key missing on line ".to_owned();
                let line_text = u64_to_string(*line);
                r.append(line_text.as_str());
                r
            },
            EnvError::MissingValue { line } => {
                let mut r = "Value missing on line ".to_owned();
                let line_text = u64_to_string(*line);
                r.append(line_text.as_str());
                r
            },
            EnvError::FoundOnlyKey { line } => {
                let mut r = "Only found key on line ".to_owned();
                let line_text = u64_to_string(*line);
                r.append(line_text.as_str());
                r.append(", expected assignment operator and value");
                r
            },
            EnvError::UnclosedValue { line } => {
                let mut r = "Key or value was not closed from line ".to_owned();
                let line_text = u64_to_string(*line);
                r.append(line_text.as_str());
                r
            },
        }
    }
}

/// Relies on the Display implementation of std::io::Error for the text of an
/// I/O failure; nothing is assumed about that text.
#[verifier::external_body]
fn io_error_text(e: &std::io::Error) -> String {
    format!("{}", e)
}

impl FindEnvError {
    /// Renders the discovery error as one descriptive line naming its kind.
    /// For an I/O failure only the prefix of the text is pinned; the rest
    /// comes from the operating system's error message.
    pub fn message(&self) -> (r: String)
        ensures
            match self {
                FindEnvError::Env(err) => r@ == "Env parsing error: "@ + spec_env_error_message(
                    err@,
                ),
                FindEnvError::NotFound(msg) => r@ == "FindEnv error: "@ + msg@,
                FindEnvError::Io(_) => r@.len() >= "I/O Error: "@.len() && r@.subrange(
                    0,
                    "I/O Error: "@.len() as int,
                ) == "I/O Error: "@,
            },
    {
        match self {
            FindEnvError::Env(err) => {
                let mut r = "Env parsing error: ".to_owned();
                let detail = err.message();
                r.append(detail.as_str());
                r
            },
            FindEnvError::Io(err) => {
                let mut r = "I/O Error: ".to_owned();
                let detail = io_error_text(err);
                r.append(detail.as_str());
                proof {
                    assert(r@.subrange(0, "I/O Error: "@.len() as int) =~= "I/O Error: "@);
                }
                r
            },
            FindEnvError::NotFound(msg) => {
                let mut r = "FindEnv error: ".to_owned();
                r.append(msg.as_str());
                r
            },
        }
    }
}

} // verus!

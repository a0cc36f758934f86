//! The parser's state machine, in its mathematical form.
//!
//! One explicit mode replaces any combination of quote/comment/expectation
//! flags; `step` is the transition function on (state, token) pairs, and
//! `parse_from` folds it over a token sequence. The executable parser is
//! proved to follow these functions step by step.

use vstd::prelude::*;

use crate::error::SpecEnvError;
use crate::token::{tokens_of, EnvToken};

verus! {

/// Which construct the parser is inside, between two tokens.
#[derive(Debug, Clone, Copy, PartialEq, Eq)]
pub enum ParseMode {
    /// At the start of a line or inside a key: accumulating key characters.
    AwaitingKey,
    /// After an assignment operator: accumulating value characters.
    AwaitingValue,
    /// After a value was terminated by whitespace or a closing quote:
    /// only a comment or the end of the line may follow.
    AfterValue,
    /// Inside a single-quoted value: every character is literal but `'`.
    InSingleQuote,
    /// Inside a double-quoted value: every character is literal but `"`.
    InDoubleQuote,
    /// Inside a comment: everything to the end of the line is discarded.
    InComment,
}

/// The whole parser state between two tokens.
///
/// `line` is 1-based and advances on each newline taken outside a quoted
/// value; a newline inside a quoted value is part of the value and does not
/// advance it, so an error about an unclosed quote reports the line the
/// quote was opened on. `col` starts at 1 on the first line and at 0 after
/// each newline, and advances over characters, whitespace and assignment
/// operators, not over quotes or comment marks.
pub struct ParserState {
    pub mode: ParseMode,
    pub key: Seq<char>,
    pub val: Seq<char>,
    pub seen_assignment: bool,
    pub line: nat,
    pub col: nat,
    pub entries: Map<Seq<char>, Seq<char>>,
}

/// What one step yields: a next state, the finished mapping, or an error.
pub enum StepResult {
    Next(ParserState),
    Done(Map<Seq<char>, Seq<char>>),
    Fail(SpecEnvError),
}

/// The state at the very start of the input.
pub open spec fn init_state() -> ParserState {
    ParserState {
        mode: ParseMode::AwaitingKey,
        key: Seq::empty(),
        val: Seq::empty(),
        seen_assignment: false,
        line: 1,
        col: 1,
        entries: Map::empty(),
    }
}

/// The state at the start of a fresh line: buffers and flags cleared.
pub open spec fn line_start(entries: Map<Seq<char>, Seq<char>>, line: nat, col: nat) -> ParserState {
    ParserState {
        mode: ParseMode::AwaitingKey,
        key: Seq::empty(),
        val: Seq::empty(),
        seen_assignment: false,
        line: line,
        col: col,
        entries: entries,
    }
}

/// Finalizes the current line on a newline taken outside a quoted value.
///
/// A line with nothing on it passes; an assignment without a key or without
/// a value, or a key alone, is an error; a complete pair is committed to the
/// mapping, a later occurrence of a key overwriting an earlier one.
pub open spec fn end_line(s: ParserState) -> StepResult {
    if s.key.len() == 0 && s.val.len() == 0 && !s.seen_assignment {
        StepResult::Next(line_start(s.entries, s.line + 1, 0))
    } else if s.seen_assignment && s.key.len() == 0 {
        StepResult::Fail(SpecEnvError::MissingKey { line: s.line })
    } else if s.seen_assignment && s.val.len() == 0 {
        StepResult::Fail(SpecEnvError::MissingValue { line: s.line })
    } else if s.key.len() > 0 && s.val.len() == 0 && !s.seen_assignment {
        StepResult::Fail(SpecEnvError::FoundOnlyKey { line: s.line })
    } else if s.key.len() == 0 {
        StepResult::Fail(SpecEnvError::MissingKey { line: s.line })
    } else if s.val.len() == 0 {
        StepResult::Fail(SpecEnvError::MissingValue { line: s.line })
    } else {
        StepResult::Next(line_start(s.entries.insert(s.key, s.val), s.line + 1, 0))
    }
}

/// The transition function: one token against one state.
pub open spec fn step(s: ParserState, t: EnvToken) -> StepResult {
    match t {
        EnvToken::Character(c) => match s.mode {
            ParseMode::InComment => StepResult::Next(s),
            ParseMode::AwaitingKey => StepResult::Next(
                ParserState { key: s.key.push(c), col: s.col + 1, ..s },
            ),
            ParseMode::AwaitingValue | ParseMode::InSingleQuote | ParseMode::InDoubleQuote => {
                StepResult::Next(ParserState { val: s.val.push(c), col: s.col + 1, ..s })
            },
            ParseMode::AfterValue => StepResult::Fail(
                SpecEnvError::UnexpectedToken {
                    expected: "comment or new line"@,
                    found: seq![c],
                    line: s.line,
                    character: s.col + 1,
                },
            ),
        },
        EnvToken::AssignmentOperator => match s.mode {
            ParseMode::InComment => StepResult::Next(s),
            ParseMode::InSingleQuote | ParseMode::InDoubleQuote => StepResult::Next(
                ParserState { val: s.val.push('='), ..s },
            ),
            ParseMode::AwaitingKey => StepResult::Next(
                ParserState {
                    mode: ParseMode::AwaitingValue,
                    seen_assignment: true,
                    col: s.col + 1,
                    ..s
                },
            ),
            ParseMode::AwaitingValue | ParseMode::AfterValue => {
                if s.val.len() == 0 {
                    StepResult::Fail(
                        SpecEnvError::ExpectedValueButFoundAssignment {
                            line: s.line,
                            character: s.col,
                        },
                    )
                } else if s.key.len() > 0 && s.seen_assignment {
                    StepResult::Fail(
                        SpecEnvError::ExpectedValueButFoundAssignment {
                            line: s.line,
                            character: s.col,
                        },
                    )
                } else {
                    StepResult::Next(
                        ParserState {
                            mode: ParseMode::AwaitingValue,
                            seen_assignment: true,
                            col: s.col + 1,
                            ..s
                        },
                    )
                }
            },
        },
        EnvToken::Whitespace => match s.mode {
            ParseMode::InComment => StepResult::Next(s),
            ParseMode::InSingleQuote | ParseMode::InDoubleQuote => StepResult::Next(
                ParserState { val: s.val.push(' '), ..s },
            ),
            ParseMode::AwaitingKey => StepResult::Fail(
                SpecEnvError::UnexpectedToken {
                    expected: "key or comment symbol"@,
                    found: " "@,
                    line: s.line,
                    character: s.col + 1,
                },
            ),
            ParseMode::AwaitingValue => StepResult::Next(
                ParserState { mode: ParseMode::AfterValue, col: s.col + 1, ..s },
            ),
            ParseMode::AfterValue => StepResult::Next(ParserState { col: s.col + 1, ..s }),
        },
        EnvToken::Comment => match s.mode {
            ParseMode::InSingleQuote | ParseMode::InDoubleQuote => StepResult::Next(
                ParserState { val: s.val.push('#'), ..s },
            ),
            _ => StepResult::Next(ParserState { mode: ParseMode::InComment, ..s }),
        },
        EnvToken::NewLine => match s.mode {
            ParseMode::InSingleQuote | ParseMode::InDoubleQuote => StepResult::Next(
                ParserState { val: s.val.push('\n'), ..s },
            ),
            _ => end_line(s),
        },
        EnvToken::Eof => match s.mode {
            ParseMode::InSingleQuote | ParseMode::InDoubleQuote => StepResult::Fail(
                SpecEnvError::UnclosedValue { line: s.line },
            ),
            _ => {
                if s.key.len() > 0 && s.val.len() > 0 {
                    StepResult::Done(s.entries.insert(s.key, s.val))
                } else if s.key.len() == 0 && s.val.len() > 0 {
                    StepResult::Fail(SpecEnvError::MissingKey { line: s.line })
                } else if s.key.len() > 0 && s.val.len() == 0 {
                    StepResult::Fail(SpecEnvError::MissingValue { line: s.line })
                } else {
                    StepResult::Done(s.entries)
                }
            },
        },
        EnvToken::SingleQuoteMark => match s.mode {
            ParseMode::InComment => StepResult::Next(s),
            ParseMode::InDoubleQuote => StepResult::Next(
                ParserState { val: s.val.push('\''), ..s },
            ),
            ParseMode::InSingleQuote => StepResult::Next(
                ParserState { mode: ParseMode::AfterValue, ..s },
            ),
            ParseMode::AwaitingKey => StepResult::Fail(
                SpecEnvError::UnexpectedToken {
                    expected: "key or assignment operator"@,
                    found: "single quote mark"@,
                    line: s.line,
                    character: s.col,
                },
            ),
            ParseMode::AwaitingValue | ParseMode::AfterValue => {
                if s.val.len() > 0 {
                    StepResult::Fail(
                        SpecEnvError::UnexpectedToken {
                            expected: "value, whitespace, newline, or comment"@,
                            found: "single quotation mark"@,
                            line: s.line,
                            character: s.col,
                        },
                    )
                } else {
                    StepResult::Next(ParserState { mode: ParseMode::InSingleQuote, ..s })
                }
            },
        },
        EnvToken::DoubleQuoteMark => match s.mode {
            ParseMode::InComment => StepResult::Next(s),
            ParseMode::InSingleQuote => StepResult::Next(
                ParserState { val: s.val.push('"'), ..s },
            ),
            ParseMode::InDoubleQuote => StepResult::Next(
                ParserState { mode: ParseMode::AfterValue, ..s },
            ),
            ParseMode::AwaitingKey => StepResult::Fail(
                SpecEnvError::UnexpectedToken {
                    expected: "key or assignment operator"@,
                    found: "double quote mark"@,
                    line: s.line,
                    character: s.col,
                },
            ),
            ParseMode::AwaitingValue | ParseMode::AfterValue => {
                if s.val.len() > 0 {
                    StepResult::Fail(
                        SpecEnvError::UnexpectedToken {
                            expected: "value, whitespace, newline, or comment"@,
                            found: "double quotation mark"@,
                            line: s.line,
                            character: s.col,
                        },
                    )
                } else {
                    StepResult::Next(ParserState { mode: ParseMode::InDoubleQuote, ..s })
                }
            },
        },
    }
}

/// Folds `step` over a token sequence from a given state. A sequence that
/// ends without an `Eof` token yields the entries committed so far.
pub open spec fn parse_from(s: ParserState, toks: Seq<EnvToken>) -> Result<
    Map<Seq<char>, Seq<char>>,
    SpecEnvError,
>
    decreases toks.len(),
{
    if toks.len() == 0 {
        Ok(s.entries)
    } else {
        match step(s, toks.first()) {
            StepResult::Next(s2) => parse_from(s2, toks.drop_first()),
            StepResult::Done(m) => Ok(m),
            StepResult::Fail(e) => Err(e),
        }
    }
}

/// What parsing a token sequence returns.
pub open spec fn parse_spec(toks: Seq<EnvToken>) -> Result<
    Map<Seq<char>, Seq<char>>,
    SpecEnvError,
> {
    parse_from(init_state(), toks)
}

/// What lexing and then parsing a text returns.
pub open spec fn process_spec(text: Seq<char>) -> Result<
    Map<Seq<char>, Seq<char>>,
    SpecEnvError,
> {
    parse_spec(tokens_of(text))
}

} // verus!

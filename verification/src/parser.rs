//! The executable parser: an explicit state machine over the token sequence,
//! proved to follow the mathematical `step`/`parse_from` functions of the
//! `machine` module token by token.

use vstd::prelude::*;

use crate::env_map::EnvMap;
use crate::error::{EnvError, SpecEnvError};
use crate::machine::{init_state, parse_from, parse_spec, process_spec, ParseMode, ParserState,
    StepResult};
use crate::text::push_char;
use crate::token::{lex_dot_env, EnvToken};

verus! {

/// The parser's whole state between two tokens, in executable form.
struct ParseRun {
    mode: ParseMode,
    key: String,
    val: String,
    seen_assignment: bool,
    line: u64,
    col: u64,
    map: EnvMap,
}

impl View for ParseRun {
    type V = ParserState;

    closed spec fn view(&self) -> ParserState {
        ParserState {
            mode: self.mode,
            key: self.key@,
            val: self.val@,
            seen_assignment: self.seen_assignment,
            line: self.line as nat,
            col: self.col as nat,
            entries: self.map@,
        }
    }
}

/// What one executable step yields.
enum StepOutcome {
    Continue,
    Finished,
    Failed(EnvError),
}

/// Runs one token against the state, following the machine's `step`.
fn step_token(st: &mut ParseRun, t: EnvToken) -> (r: StepOutcome)
    requires
        old(st).map.wf(),
        old(st).line < u64::MAX,
        old(st).col < u64::MAX,
    ensures
        match r {
            StepOutcome::Continue => {
                &&& crate::machine::step(old(st)@, t) == StepResult::Next(final(st)@)
                &&& final(st).map.wf()
                &&& final(st).line <= old(st).line + 1
                &&& final(st).col <= old(st).col + 1
            },
            StepOutcome::Finished => {
                &&& crate::machine::step(old(st)@, t) == StepResult::Done(final(st).map@)
                &&& final(st).map.wf()
            },
            StepOutcome::Failed(e) => crate::machine::step(old(st)@, t) == StepResult::Fail(e@),
        },
{
    match t {
        EnvToken::Character(c) => {
            match st.mode {
                ParseMode::InComment => StepOutcome::Continue,
                ParseMode::AwaitingKey => {
                    push_char(&mut st.key, c);
                    st.col = st.col + 1;
                    StepOutcome::Continue
                },
                ParseMode::AwaitingValue | ParseMode::InSingleQuote | ParseMode::InDoubleQuote => {
                    push_char(&mut st.val, c);
                    st.col = st.col + 1;
                    StepOutcome::Continue
                },
                ParseMode::AfterValue => {
                    let mut found = String::new();
                    push_char(&mut found, c);
                    proof {
                        assert(found@ =~= seq![c]);
                    }
                    StepOutcome::Failed(
                        EnvError::UnexpectedToken {
                            expected: "comment or new line".to_owned(),
                            found,
                            line: st.line,
                            character: st.col + 1,
                        },
                    )
                },
            }
        },
        EnvToken::AssignmentOperator => {
            match st.mode {
                ParseMode::InComment => StepOutcome::Continue,
                ParseMode::InSingleQuote | ParseMode::InDoubleQuote => {
                    push_char(&mut st.val, '=');
                    StepOutcome::Continue
                },
                ParseMode::AwaitingKey => {
                    st.mode = ParseMode::AwaitingValue;
                    st.seen_assignment = true;
                    st.col = st.col + 1;
                    StepOutcome::Continue
                },
                ParseMode::AwaitingValue | ParseMode::AfterValue => {
                    if st.val.as_str().is_empty() {
                        StepOutcome::Failed(
                            EnvError::ExpectedValueButFoundAssignment {
                                line: st.line,
                                character: st.col,
                            },
                        )
                    } else if !st.key.as_str().is_empty() && st.seen_assignment {
                        StepOutcome::Failed(
                            EnvError::ExpectedValueButFoundAssignment {
                                line: st.line,
                                character: st.col,
                            },
                        )
                    } else {
                        st.mode = ParseMode::AwaitingValue;
                        st.seen_assignment = true;
                        st.col = st.col + 1;
                        StepOutcome::Continue
                    }
                },
            }
        },
        EnvToken::Whitespace => {
            match st.mode {
                ParseMode::InComment => StepOutcome::Continue,
                ParseMode::InSingleQuote | ParseMode::InDoubleQuote => {
                    push_char(&mut st.val, ' ');
                    StepOutcome::Continue
                },
                ParseMode::AwaitingKey => StepOutcome::Failed(
                    EnvError::UnexpectedToken {
                        expected: "key or comment symbol".to_owned(),
                        found: " ".to_owned(),
                        line: st.line,
                        character: st.col + 1,
                    },
                ),
                ParseMode::AwaitingValue => {
                    st.mode = ParseMode::AfterValue;
                    st.col = st.col + 1;
                    StepOutcome::Continue
                },
                ParseMode::AfterValue => {
                    st.col = st.col + 1;
                    StepOutcome::Continue
                },
            }
        },
        EnvToken::Comment => {
            match st.mode {
                ParseMode::InSingleQuote | ParseMode::InDoubleQuote => {
                    push_char(&mut st.val, '#');
                    StepOutcome::Continue
                },
                _ => {
                    st.mode = ParseMode::InComment;
                    StepOutcome::Continue
                },
            }
        },
        EnvToken::NewLine => {
            match st.mode {
                ParseMode::InSingleQuote | ParseMode::InDoubleQuote => {
                    push_char(&mut st.val, '\n');
                    StepOutcome::Continue
                },
                _ => end_line_exec(st),
            }
        },
        EnvToken::Eof => {
            match st.mode {
                ParseMode::InSingleQuote | ParseMode::InDoubleQuote => StepOutcome::Failed(
                    EnvError::UnclosedValue { line: st.line },
                ),
                _ => {
                    let key_empty = st.key.as_str().is_empty();
                    let val_empty = st.val.as_str().is_empty();
                    if !key_empty && !val_empty {
                        let k = st.key.clone();
                        let v = st.val.clone();
                        st.map.insert(k, v);
                        StepOutcome::Finished
                    } else if key_empty && !val_empty {
                        StepOutcome::Failed(EnvError::MissingKey { line: st.line })
                    } else if !key_empty && val_empty {
                        StepOutcome::Failed(EnvError::MissingValue { line: st.line })
                    } else {
                        StepOutcome::Finished
                    }
                },
            }
        },
        EnvToken::SingleQuoteMark => {
            match st.mode {
                ParseMode::InComment => StepOutcome::Continue,
                ParseMode::InDoubleQuote => {
                    push_char(&mut st.val, '\'');
                    StepOutcome::Continue
                },
                ParseMode::InSingleQuote => {
                    st.mode = ParseMode::AfterValue;
                    StepOutcome::Continue
                },
                ParseMode::AwaitingKey => StepOutcome::Failed(
                    EnvError::UnexpectedToken {
                        expected: "key or assignment operator".to_owned(),
                        found: "single quote mark".to_owned(),
                        line: st.line,
                        character: st.col,
                    },
                ),
                ParseMode::AwaitingValue | ParseMode::AfterValue => {
                    if !st.val.as_str().is_empty() {
                        StepOutcome::Failed(
                            EnvError::UnexpectedToken {
                                expected: "value, whitespace, newline, or comment".to_owned(),
                                found: "single quotation mark".to_owned(),
                                line: st.line,
                                character: st.col,
                            },
                        )
                    } else {
                        st.mode = ParseMode::InSingleQuote;
                        StepOutcome::Continue
                    }
                },
            }
        },
        EnvToken::DoubleQuoteMark => {
            match st.mode {
                ParseMode::InComment => StepOutcome::Continue,
                ParseMode::InSingleQuote => {
                    push_char(&mut st.val, '"');
                    StepOutcome::Continue
                },
                ParseMode::InDoubleQuote => {
                    st.mode = ParseMode::AfterValue;
                    StepOutcome::Continue
                },
                ParseMode::AwaitingKey => StepOutcome::Failed(
                    EnvError::UnexpectedToken {
                        expected: "key or assignment operator".to_owned(),
                        found: "double quote mark".to_owned(),
                        line: st.line,
                        character: st.col,
                    },
                ),
                ParseMode::AwaitingValue | ParseMode::AfterValue => {
                    if !st.val.as_str().is_empty() {
                        StepOutcome::Failed(
                            EnvError::UnexpectedToken {
                                expected: "value, whitespace, newline, or comment".to_owned(),
                                found: "double quotation mark".to_owned(),
                                line: st.line,
                                character: st.col,
                            },
                        )
                    } else {
                        st.mode = ParseMode::InDoubleQuote;
                        StepOutcome::Continue
                    }
                },
            }
        },
    }
}

/// Finalizes the current line on a newline taken outside a quoted value,
/// following the machine's `end_line`.
fn end_line_exec(st: &mut ParseRun) -> (r: StepOutcome)
    requires
        old(st).map.wf(),
        old(st).line < u64::MAX,
        old(st).mode != ParseMode::InSingleQuote,
        old(st).mode != ParseMode::InDoubleQuote,
    ensures
        match r {
            StepOutcome::Continue => {
                &&& crate::machine::end_line(old(st)@) == StepResult::Next(final(st)@)
                &&& final(st).map.wf()
                &&& final(st).line <= old(st).line + 1
                &&& final(st).col == 0
            },
            StepOutcome::Finished => false,
            StepOutcome::Failed(e) => crate::machine::end_line(old(st)@) == StepResult::Fail(e@),
        },
{
    let key_empty = st.key.as_str().is_empty();
    let val_empty = st.val.as_str().is_empty();
    if key_empty && val_empty && !st.seen_assignment {
        st.mode = ParseMode::AwaitingKey;
        st.line = st.line + 1;
        st.col = 0;
        proof {
            assert(st.key@ =~= Seq::<char>::empty());
            assert(st.val@ =~= Seq::<char>::empty());
        }
        StepOutcome::Continue
    } else if st.seen_assignment && key_empty {
        StepOutcome::Failed(EnvError::MissingKey { line: st.line })
    } else if st.seen_assignment && val_empty {
        StepOutcome::Failed(EnvError::MissingValue { line: st.line })
    } else if !key_empty && val_empty && !st.seen_assignment {
        StepOutcome::Failed(EnvError::FoundOnlyKey { line: st.line })
    } else if key_empty {
        StepOutcome::Failed(EnvError::MissingKey { line: st.line })
    } else if val_empty {
        StepOutcome::Failed(EnvError::MissingValue { line: st.line })
    } else {
        let k = st.key.clone();
        let v = st.val.clone();
        st.map.insert(k, v);
        st.mode = ParseMode::AwaitingKey;
        st.key = String::new();
        st.val = String::new();
        st.seen_assignment = false;
        st.line = st.line + 1;
        st.col = 0;
        StepOutcome::Continue
    }
}

/// Reads the token sequence into a mapping, or reports the first malformed
/// construct. Fail-fast: one bad line aborts the whole parse.
///
/// The result is exactly what the machine's `parse_spec` assigns to the
/// token sequence: the committed mapping on success, the first error with
/// its position on failure.
pub fn parse_dot_env(tokens: Vec<EnvToken>) -> (r: Result<EnvMap, EnvError>)
    requires
        tokens@.len() < u64::MAX,
    ensures
        match r {
            Ok(m) => m.wf() && parse_spec(tokens@) == Ok::<_, SpecEnvError>(m@),
            Err(e) => parse_spec(tokens@) == Err::<Map<Seq<char>, Seq<char>>, _>(e@),
        },
{
    let mut st = ParseRun {
        mode: ParseMode::AwaitingKey,
        key: String::new(),
        val: String::new(),
        seen_assignment: false,
        line: 1,
        col: 1,
        map: EnvMap::new(),
    };
    proof {
        assert(st@ == init_state());
        assert(tokens@.skip(0) =~= tokens@);
    }
    let n = tokens.len();
    let mut i: usize = 0;
    while i < n
        invariant
            n == tokens@.len(),
            n < u64::MAX,
            i <= n,
            st.map.wf(),
            st.line <= 1 + i,
            st.col <= 1 + i,
            parse_from(init_state(), tokens@) == parse_from(st@, tokens@.skip(i as int)),
        decreases n - i,
    {
        let t = tokens[i];
        proof {
            assert(tokens@.skip(i as int).first() == tokens@[i as int]);
            assert(tokens@.skip(i as int).drop_first() =~= tokens@.skip(i as int + 1));
        }
        match step_token(&mut st, t) {
            StepOutcome::Continue => {
                i = i + 1;
            },
            StepOutcome::Finished => {
                return Ok(st.map);
            },
            StepOutcome::Failed(e) => {
                return Err(e);
            },
        }
    }
    proof {
        assert(tokens@.skip(n as int) =~= Seq::<EnvToken>::empty());
    }
    Ok(st.map)
}

/// Lexes and parses the given `.env` file contents in one call.
///
/// The result is exactly what the machine's `process_spec` assigns to the
/// text.
pub fn process_dot_env(file_contents: String) -> (r: Result<EnvMap, EnvError>)
    requires
        file_contents@.len() + 1 < u64::MAX,
    ensures
        match r {
            Ok(m) => m.wf() && process_spec(file_contents@) == Ok::<_, SpecEnvError>(m@),
            Err(e) => process_spec(file_contents@) == Err::<Map<Seq<char>, Seq<char>>, _>(e@),
        },
{
    let tokens = lex_dot_env(file_contents);
    parse_dot_env(tokens)
}

} // verus!

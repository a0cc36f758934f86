//! The tokenizer: classifies each input character into a token.
//!
//! Classification is a pure per-character lookup with no error conditions;
//! the token sequence holds one token per input character followed by exactly
//! one end-of-input marker.

use vstd::prelude::*;

verus! {

/// One classified input character, or the trailing end-of-input marker.
#[derive(Debug, Clone, Copy, PartialEq, Eq)]
pub enum EnvToken {
    Character(char),
    AssignmentOperator,
    NewLine,
    Eof,
    Comment,
    DoubleQuoteMark,
    SingleQuoteMark,
    Whitespace,
}

/// The classification of a single character.
pub open spec fn classify_char(c: char) -> EnvToken {
    if c == '=' {
        EnvToken::AssignmentOperator
    } else if c == ' ' {
        EnvToken::Whitespace
    } else if c == '#' {
        EnvToken::Comment
    } else if c == '\n' {
        EnvToken::NewLine
    } else if c == '"' {
        EnvToken::DoubleQuoteMark
    } else if c == '\'' {
        EnvToken::SingleQuoteMark
    } else {
        EnvToken::Character(c)
    }
}

/// The tokens of a text, without the end-of-input marker.
pub open spec fn char_tokens(text: Seq<char>) -> Seq<EnvToken> {
    text.map_values(|c: char| classify_char(c))
}

/// The full token sequence of a text: one token per character, then `Eof`.
pub open spec fn tokens_of(text: Seq<char>) -> Seq<EnvToken> {
    char_tokens(text).push(EnvToken::Eof)
}

/// Classifies one character.
pub fn classify(c: char) -> (t: EnvToken)
    ensures
        t == classify_char(c),
{
    match c {
        '=' => EnvToken::AssignmentOperator,
        ' ' => EnvToken::Whitespace,
        '#' => EnvToken::Comment,
        '\n' => EnvToken::NewLine,
        '"' => EnvToken::DoubleQuoteMark,
        '\'' => EnvToken::SingleQuoteMark,
        _ => EnvToken::Character(c),
    }
}

/// Tokenizes the given `.env` file contents into a vector of tokens.
///
/// Total: classification never fails, every character is representable.
pub fn lex_dot_env(file_contents: String) -> (tokens: Vec<EnvToken>)
    ensures
        tokens@ == tokens_of(file_contents@),
{
    let text = file_contents.as_str();
    let n = text.unicode_len();
    let mut tokens: Vec<EnvToken> = Vec::new();
    let mut i: usize = 0;
    while i < n
        invariant
            n == text@.len(),
            text@ == file_contents@,
            i <= n,
            tokens@ =~= char_tokens(text@.subrange(0, i as int)),
        decreases n - i,
    {
        let c = text.get_char(i);
        tokens.push(classify(c));
        i = i + 1;
        proof {
            assert(text@.subrange(0, i as int) =~= text@.subrange(0, i - 1).push(text@[i - 1]));
            assert(char_tokens(text@.subrange(0, i as int)) =~= char_tokens(
                text@.subrange(0, i - 1),
            ).push(classify_char(text@[i - 1])));
        }
    }
    tokens.push(EnvToken::Eof);
    proof {
        assert(text@.subrange(0, n as int) =~= text@);
    }
    tokens
}

} // verus!

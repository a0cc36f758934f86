//! What parsing provably returns on well-formed input, and how errors
//! arise: the general properties of the lexer/parser pair, proved against
//! the state machine.

use vstd::prelude::*;

use crate::env_map::{lemma_pairs_in_map, map_from};
use crate::error::SpecEnvError;
use crate::machine::{end_line, init_state, line_start, parse_from, step, ParseMode, ParserState,
    StepResult};
use crate::serialize::{line_entry_map, lines_map, lines_of_pairs, pair_key, pair_val, plain_char,
    plain_text, render_line, render_lines, wf_line, QuoteStyle, SpecLine};
use crate::token::{char_tokens, classify_char, tokens_of, EnvToken};

verus! {

/// Consuming one token that steps to a next state.
proof fn lemma_step_next(s: ParserState, t: EnvToken, s2: ParserState, rest: Seq<EnvToken>)
    requires
        step(s, t) == StepResult::Next(s2),
    ensures
        parse_from(s, seq![t] + rest) == parse_from(s2, rest),
{
    assert((seq![t] + rest).first() == t);
    assert((seq![t] + rest).drop_first() =~= rest);
}

/// Plain characters read while a key is expected accumulate into the key.
proof fn lemma_consume_key(s: ParserState, w: Seq<char>, rest: Seq<EnvToken>)
    requires
        s.mode == ParseMode::AwaitingKey,
        plain_text(w),
    ensures
        parse_from(s, char_tokens(w) + rest) == parse_from(
            ParserState { key: s.key + w, col: (s.col + w.len()) as nat, ..s },
            rest,
        ),
    decreases w.len(),
{
    if w.len() == 0 {
        assert(char_tokens(w) + rest =~= rest);
        assert(s.key + w =~= s.key);
        assert(ParserState { key: s.key + w, col: (s.col + w.len()) as nat, ..s } == s);
    } else {
        let c = w.first();
        assert(plain_char(c));
        let t = classify_char(c);
        assert(t == EnvToken::Character(c));
        let toks = char_tokens(w) + rest;
        assert(toks.first() == t);
        let s1 = ParserState { key: s.key.push(c), col: s.col + 1, ..s };
        assert(step(s, t) == StepResult::Next(s1));
        assert(toks.drop_first() =~= char_tokens(w.drop_first()) + rest);
        assert(plain_text(w.drop_first())) by {
            assert forall|i: int| 0 <= i < w.drop_first().len() implies plain_char(
                #[trigger] w.drop_first()[i],
            ) by {
                assert(w.drop_first()[i] == w[i + 1]);
            }
        }
        lemma_consume_key(s1, w.drop_first(), rest);
        assert(s1.key + w.drop_first() =~= s.key + w);
        assert(ParserState {
            key: s1.key + w.drop_first(),
            col: (s1.col + w.drop_first().len()) as nat,
            ..s1
        } == ParserState { key: s.key + w, col: (s.col + w.len()) as nat, ..s });
    }
}

/// Plain characters read while a value is expected accumulate into the
/// value.
proof fn lemma_consume_val(s: ParserState, w: Seq<char>, rest: Seq<EnvToken>)
    requires
        s.mode == ParseMode::AwaitingValue,
        plain_text(w),
    ensures
        parse_from(s, char_tokens(w) + rest) == parse_from(
            ParserState { val: s.val + w, col: (s.col + w.len()) as nat, ..s },
            rest,
        ),
    decreases w.len(),
{
    if w.len() == 0 {
        assert(char_tokens(w) + rest =~= rest);
        assert(s.val + w =~= s.val);
        assert(ParserState { val: s.val + w, col: (s.col + w.len()) as nat, ..s } == s);
    } else {
        let c = w.first();
        assert(plain_char(c));
        let t = classify_char(c);
        assert(t == EnvToken::Character(c));
        let toks = char_tokens(w) + rest;
        assert(toks.first() == t);
        let s1 = ParserState { val: s.val.push(c), col: s.col + 1, ..s };
        assert(step(s, t) == StepResult::Next(s1));
        assert(toks.drop_first() =~= char_tokens(w.drop_first()) + rest);
        assert(plain_text(w.drop_first())) by {
            assert forall|i: int| 0 <= i < w.drop_first().len() implies plain_char(
                #[trigger] w.drop_first()[i],
            ) by {
                assert(w.drop_first()[i] == w[i + 1]);
            }
        }
        lemma_consume_val(s1, w.drop_first(), rest);
        assert(s1.val + w.drop_first() =~= s.val + w);
        assert(ParserState {
            val: s1.val + w.drop_first(),
            col: (s1.col + w.drop_first().len()) as nat,
            ..s1
        } == ParserState { val: s.val + w, col: (s.col + w.len()) as nat, ..s });
    }
}

/// How many characters of a text advance the column counter inside a quoted
/// value: the plain ones.
spec fn plain_count(w: Seq<char>) -> nat
    decreases w.len(),
{
    if w.len() == 0 {
        0
    } else {
        (if plain_char(w.first()) {
            1nat
        } else {
            0nat
        }) + plain_count(w.drop_first())
    }
}

/// Inside a quoted value every character but the matching quote is taken
/// literally: `=`, `#`, whitespace, newlines and the other quote included.
proof fn lemma_consume_quoted(s: ParserState, w: Seq<char>, rest: Seq<EnvToken>)
    requires
        s.mode == ParseMode::InSingleQuote || s.mode == ParseMode::InDoubleQuote,
        s.mode == ParseMode::InSingleQuote ==> forall|i: int|
            0 <= i < w.len() ==> (#[trigger] w[i]) != '\'',
        s.mode == ParseMode::InDoubleQuote ==> forall|i: int|
            0 <= i < w.len() ==> (#[trigger] w[i]) != '"',
    ensures
        parse_from(s, char_tokens(w) + rest) == parse_from(
            ParserState { val: s.val + w, col: (s.col + plain_count(w)) as nat, ..s },
            rest,
        ),
    decreases w.len(),
{
    if w.len() == 0 {
        assert(char_tokens(w) + rest =~= rest);
        assert(s.val + w =~= s.val);
        assert(ParserState { val: s.val + w, col: (s.col + plain_count(w)) as nat, ..s } == s);
    } else {
        let c = w.first();
        assert(c != '\'' || s.mode == ParseMode::InDoubleQuote) by {
            assert(w[0] == c);
        }
        assert(c != '"' || s.mode == ParseMode::InSingleQuote) by {
            assert(w[0] == c);
        }
        let t = classify_char(c);
        let toks = char_tokens(w) + rest;
        assert(toks.first() == t);
        let cost: nat = if plain_char(c) {
            1nat
        } else {
            0nat
        };
        let s1 = ParserState { val: s.val.push(c), col: (s.col + cost) as nat, ..s };
        assert(step(s, t) == StepResult::Next(s1));
        assert(toks.drop_first() =~= char_tokens(w.drop_first()) + rest);
        assert forall|i: int| 0 <= i < w.drop_first().len() implies #[trigger] w.drop_first()[i]
            == w[i + 1] by {}
        lemma_consume_quoted(s1, w.drop_first(), rest);
        assert(s1.val + w.drop_first() =~= s.val + w);
        assert(s1.col + plain_count(w.drop_first()) == s.col + plain_count(w));
        assert(ParserState {
            val: s1.val + w.drop_first(),
            col: (s1.col + plain_count(w.drop_first())) as nat,
            ..s1
        } == ParserState { val: s.val + w, col: (s.col + plain_count(w)) as nat, ..s });
    }
}

/// Inside a comment every character but a newline is discarded outright.
proof fn lemma_consume_comment(s: ParserState, w: Seq<char>, rest: Seq<EnvToken>)
    requires
        s.mode == ParseMode::InComment,
        forall|i: int| 0 <= i < w.len() ==> (#[trigger] w[i]) != '\n',
    ensures
        parse_from(s, char_tokens(w) + rest) == parse_from(s, rest),
    decreases w.len(),
{
    if w.len() == 0 {
        assert(char_tokens(w) + rest =~= rest);
    } else {
        let c = w.first();
        assert(c != '\n') by {
            assert(w[0] == c);
        }
        let t = classify_char(c);
        let toks = char_tokens(w) + rest;
        assert(toks.first() == t);
        assert(step(s, t) == StepResult::Next(s)) by {
            assert(ParserState { mode: ParseMode::InComment, ..s } == s);
        }
        assert(toks.drop_first() =~= char_tokens(w.drop_first()) + rest);
        assert forall|i: int| 0 <= i < w.drop_first().len() implies #[trigger] w.drop_first()[i]
            == w[i + 1] by {}
        lemma_consume_comment(s, w.drop_first(), rest);
    }
}

/// The entries a line leaves behind.
spec fn line_entries(
    entries: Map<Seq<char>, Seq<char>>,
    l: SpecLine,
) -> Map<Seq<char>, Seq<char>> {
    match l {
        SpecLine::Pair(k, v, _) => entries.insert(k, v),
        _ => entries,
    }
}

/// Parsing one well-formed line from a line start commits its pair, if any,
/// and arrives at the start of the next line.
proof fn lemma_parse_line(
    entries: Map<Seq<char>, Seq<char>>,
    line: nat,
    col: nat,
    l: SpecLine,
    rest: Seq<EnvToken>,
)
    requires
        wf_line(l),
    ensures
        parse_from(line_start(entries, line, col), char_tokens(render_line(l)) + rest)
            == parse_from(line_start(line_entries(entries, l), line + 1, 0), rest),
{
    let s0 = line_start(entries, line, col);
    match l {
        SpecLine::Blank => {
            let toks = char_tokens(render_line(l)) + rest;
            assert(toks.first() == EnvToken::NewLine) by {
                assert(render_line(l)[0] == '\n');
            }
            assert(step(s0, EnvToken::NewLine) == StepResult::Next(
                line_start(entries, line + 1, 0),
            ));
            assert(toks.drop_first() =~= rest);
        },
        SpecLine::CommentLine(text) => {
            let toks = char_tokens(render_line(l)) + rest;
            assert(render_line(l) == seq!['#'] + text + seq!['\n']);
            assert(toks =~= seq![EnvToken::Comment] + (char_tokens(text) + (seq![EnvToken::NewLine]
                + rest))) by {
                assert forall|i: int| 0 <= i < text.len() implies char_tokens(text)[i]
                    == classify_char(text[i]) by {}
            }
            let s1 = ParserState { mode: ParseMode::InComment, ..s0 };
            assert(step(s0, EnvToken::Comment) == StepResult::Next(s1));
            lemma_step_next(s0, EnvToken::Comment, s1, char_tokens(text) + (seq![EnvToken::NewLine]
                + rest));
            lemma_consume_comment(s1, text, seq![EnvToken::NewLine] + rest);
            assert(step(s1, EnvToken::NewLine) == StepResult::Next(
                line_start(entries, line + 1, 0),
            ));
            lemma_step_next(s1, EnvToken::NewLine, line_start(entries, line + 1, 0), rest);
        },
        SpecLine::Pair(k, v, q) => {
            match q {
                QuoteStyle::Unquoted => {
                    lemma_parse_line_unquoted(entries, line, col, k, v, rest);
                },
                QuoteStyle::SingleQuoted => {
                    lemma_parse_line_quoted(entries, line, col, k, v, true, rest);
                },
                QuoteStyle::DoubleQuoted => {
                    lemma_parse_line_quoted(entries, line, col, k, v, false, rest);
                },
            }
        },
    }
}

/// The unquoted-pair case of `lemma_parse_line`.
proof fn lemma_parse_line_unquoted(
    entries: Map<Seq<char>, Seq<char>>,
    line: nat,
    col: nat,
    k: Seq<char>,
    v: Seq<char>,
    rest: Seq<EnvToken>,
)
    requires
        k.len() > 0,
        plain_text(k),
        v.len() > 0,
        plain_text(v),
    ensures
        parse_from(
            line_start(entries, line, col),
            char_tokens(render_line(SpecLine::Pair(k, v, QuoteStyle::Unquoted))) + rest,
        ) == parse_from(line_start(entries.insert(k, v), line + 1, 0), rest),
{
    let s0 = line_start(entries, line, col);
    let toks = char_tokens(render_line(SpecLine::Pair(k, v, QuoteStyle::Unquoted))) + rest;
    let tail3 = seq![EnvToken::NewLine] + rest;
    let tail2 = char_tokens(v) + tail3;
    let tail1 = seq![EnvToken::AssignmentOperator] + tail2;
    assert(toks =~= char_tokens(k) + tail1);
    lemma_consume_key(s0, k, tail1);
    let s1 = ParserState { key: s0.key + k, col: (s0.col + k.len()) as nat, ..s0 };
    assert(s1.key =~= k);
    let s2 = ParserState {
        mode: ParseMode::AwaitingValue,
        seen_assignment: true,
        col: s1.col + 1,
        ..s1
    };
    assert(step(s1, EnvToken::AssignmentOperator) == StepResult::Next(s2));
    lemma_step_next(s1, EnvToken::AssignmentOperator, s2, tail2);
    lemma_consume_val(s2, v, tail3);
    let s3 = ParserState { val: s2.val + v, col: (s2.col + v.len()) as nat, ..s2 };
    assert(s3.val =~= v);
    assert(end_line(s3) == StepResult::Next(line_start(entries.insert(k, v), line + 1, 0))) by {
        assert(s3.key.len() > 0 && s3.val.len() > 0);
        assert(entries.insert(s3.key, s3.val) == entries.insert(k, v));
    }
    assert(step(s3, EnvToken::NewLine) == StepResult::Next(
        line_start(entries.insert(k, v), line + 1, 0),
    ));
    lemma_step_next(s3, EnvToken::NewLine, line_start(entries.insert(k, v), line + 1, 0), rest);
}

/// The quoted-pair cases of `lemma_parse_line`.
proof fn lemma_parse_line_quoted(
    entries: Map<Seq<char>, Seq<char>>,
    line: nat,
    col: nat,
    k: Seq<char>,
    v: Seq<char>,
    single: bool,
    rest: Seq<EnvToken>,
)
    requires
        k.len() > 0,
        plain_text(k),
        v.len() > 0,
        single ==> forall|i: int| 0 <= i < v.len() ==> (#[trigger] v[i]) != '\'',
        !single ==> forall|i: int| 0 <= i < v.len() ==> (#[trigger] v[i]) != '"',
    ensures
        parse_from(
            line_start(entries, line, col),
            char_tokens(
                render_line(
                    SpecLine::Pair(
                        k,
                        v,
                        if single {
                            QuoteStyle::SingleQuoted
                        } else {
                            QuoteStyle::DoubleQuoted
                        },
                    ),
                ),
            ) + rest,
        ) == parse_from(line_start(entries.insert(k, v), line + 1, 0), rest),
{
    let s0 = line_start(entries, line, col);
    let style = if single {
        QuoteStyle::SingleQuoted
    } else {
        QuoteStyle::DoubleQuoted
    };
    let quote_tok = if single {
        EnvToken::SingleQuoteMark
    } else {
        EnvToken::DoubleQuoteMark
    };
    let toks = char_tokens(render_line(SpecLine::Pair(k, v, style))) + rest;
    let tail5 = seq![EnvToken::NewLine] + rest;
    let tail4 = seq![quote_tok] + tail5;
    let tail3 = char_tokens(v) + tail4;
    let tail2 = seq![quote_tok] + tail3;
    let tail1 = seq![EnvToken::AssignmentOperator] + tail2;
    assert(toks =~= char_tokens(k) + tail1);
    lemma_consume_key(s0, k, tail1);
    let s1 = ParserState { key: s0.key + k, col: (s0.col + k.len()) as nat, ..s0 };
    assert(s1.key =~= k);
    let s2 = ParserState {
        mode: ParseMode::AwaitingValue,
        seen_assignment: true,
        col: s1.col + 1,
        ..s1
    };
    assert(step(s1, EnvToken::AssignmentOperator) == StepResult::Next(s2));
    lemma_step_next(s1, EnvToken::AssignmentOperator, s2, tail2);
    let s3 = ParserState {
        mode: if single {
            ParseMode::InSingleQuote
        } else {
            ParseMode::InDoubleQuote
        },
        ..s2
    };
    assert(step(s2, quote_tok) == StepResult::Next(s3));
    lemma_step_next(s2, quote_tok, s3, tail3);
    lemma_consume_quoted(s3, v, tail4);
    let s4 = ParserState { val: s3.val + v, col: (s3.col + plain_count(v)) as nat, ..s3 };
    assert(s4.val =~= v);
    let s5 = ParserState { mode: ParseMode::AfterValue, ..s4 };
    assert(step(s4, quote_tok) == StepResult::Next(s5));
    lemma_step_next(s4, quote_tok, s5, tail5);
    assert(end_line(s5) == StepResult::Next(line_start(entries.insert(k, v), line + 1, 0))) by {
        assert(s5.key.len() > 0 && s5.val.len() > 0);
        assert(entries.insert(s5.key, s5.val) == entries.insert(k, v));
    }
    assert(step(s5, EnvToken::NewLine) == StepResult::Next(
        line_start(entries.insert(k, v), line + 1, 0),
    ));
    lemma_step_next(s5, EnvToken::NewLine, line_start(entries.insert(k, v), line + 1, 0), rest);
}

/// Parsing well-formed lines followed by the end of input succeeds and
/// commits the pairs in order over the entries already present.
proof fn lemma_parse_all_lines(
    entries: Map<Seq<char>, Seq<char>>,
    line: nat,
    col: nat,
    ls: Seq<SpecLine>,
)
    requires
        forall|i: int| 0 <= i < ls.len() ==> wf_line(#[trigger] ls[i]),
    ensures
        parse_from(
            line_start(entries, line, col),
            char_tokens(render_lines(ls)).push(EnvToken::Eof),
        ) == Ok::<_, SpecEnvError>(line_entry_map(entries, ls)),
    decreases ls.len(),
{
    let s0 = line_start(entries, line, col);
    if ls.len() == 0 {
        let toks = char_tokens(render_lines(ls)).push(EnvToken::Eof);
        assert(toks =~= seq![EnvToken::Eof]);
        assert(toks.first() == EnvToken::Eof);
        assert(step(s0, EnvToken::Eof) == StepResult::Done(entries));
    } else {
        let l = ls.first();
        assert(wf_line(l)) by {
            assert(ls[0] == l);
        }
        let rest_text = render_lines(ls.drop_first());
        let rest_toks = char_tokens(rest_text).push(EnvToken::Eof);
        assert(char_tokens(render_lines(ls)).push(EnvToken::Eof) =~= char_tokens(render_line(l))
            + rest_toks);
        lemma_parse_line(entries, line, col, l, rest_toks);
        assert forall|i: int| 0 <= i < ls.drop_first().len() implies wf_line(
            #[trigger] ls.drop_first()[i],
        ) by {
            assert(ls.drop_first()[i] == ls[i + 1]);
        }
        lemma_parse_all_lines(line_entries(entries, l), line + 1, 0, ls.drop_first());
    }
}

/// A key no pair writes keeps its entry through the lines.
proof fn lemma_line_entry_map_preserves(
    acc: Map<Seq<char>, Seq<char>>,
    ls: Seq<SpecLine>,
    k: Seq<char>,
)
    requires
        forall|i: int| 0 <= i < ls.len() ==> pair_key(#[trigger] ls[i]) != Some(k),
    ensures
        line_entry_map(acc, ls).contains_key(k) == acc.contains_key(k),
        acc.contains_key(k) ==> line_entry_map(acc, ls)[k] == acc[k],
    decreases ls.len(),
{
    if ls.len() > 0 {
        assert(pair_key(ls[0]) != Some(k));
        assert forall|i: int| 0 <= i < ls.drop_first().len() implies pair_key(
            #[trigger] ls.drop_first()[i],
        ) != Some(k) by {
            assert(ls.drop_first()[i] == ls[i + 1]);
        }
        lemma_line_entry_map_preserves(line_entries(acc, ls.first()), ls.drop_first(), k);
    }
}

/// A key is in the lines' mapping iff some pair writes it or the entries
/// already held it.
proof fn lemma_line_entry_map_covers(
    acc: Map<Seq<char>, Seq<char>>,
    ls: Seq<SpecLine>,
    k: Seq<char>,
)
    ensures
        line_entry_map(acc, ls).contains_key(k) <==> acc.contains_key(k) || exists|i: int|
            0 <= i < ls.len() && pair_key(#[trigger] ls[i]) == Some(k),
    decreases ls.len(),
{
    if ls.len() > 0 {
        lemma_line_entry_map_covers(line_entries(acc, ls.first()), ls.drop_first(), k);
        if exists|i: int| 0 <= i < ls.len() && pair_key(#[trigger] ls[i]) == Some(k) {
            let i = choose|i: int| 0 <= i < ls.len() && pair_key(#[trigger] ls[i]) == Some(k);
            if i > 0 {
                assert(pair_key(ls.drop_first()[i - 1]) == Some(k));
            }
        }
        assert forall|i: int|
            0 <= i < ls.drop_first().len() && pair_key(#[trigger] ls.drop_first()[i]) == Some(
                k,
            ) implies exists|j: int| 0 <= j < ls.len() && pair_key(#[trigger] ls[j]) == Some(k) by {
            assert(pair_key(ls[i + 1]) == Some(k));
        }
    }
}

/// Whether position `i` holds the last pair line for key `k`, with value
/// `v`.
pub open spec fn last_pair_is(ls: Seq<SpecLine>, i: int, k: Seq<char>, v: Seq<char>) -> bool {
    &&& 0 <= i < ls.len()
    &&& pair_key(ls[i]) == Some(k)
    &&& pair_val(ls[i]) == Some(v)
    &&& forall|j: int| i < j < ls.len() ==> pair_key(#[trigger] ls[j]) != Some(k)
}

/// Whether some line holds a pair for key `k`.
pub open spec fn has_pair_for(ls: Seq<SpecLine>, k: Seq<char>) -> bool {
    exists|i: int| 0 <= i < ls.len() && pair_key(#[trigger] ls[i]) == Some(k)
}

/// The last pair for a key decides its entry.
proof fn lemma_line_entry_map_last(
    acc: Map<Seq<char>, Seq<char>>,
    ls: Seq<SpecLine>,
    i: int,
    k: Seq<char>,
    v: Seq<char>,
)
    requires
        last_pair_is(ls, i, k, v),
    ensures
        line_entry_map(acc, ls).contains_key(k),
        line_entry_map(acc, ls)[k] == v,
    decreases ls.len(),
{
    if i == 0 {
        let acc2 = line_entries(acc, ls.first());
        assert(acc2.contains_key(k) && acc2[k] == v);
        assert forall|j: int| 0 <= j < ls.drop_first().len() implies pair_key(
            #[trigger] ls.drop_first()[j],
        ) != Some(k) by {
            assert(ls.drop_first()[j] == ls[j + 1]);
        }
        lemma_line_entry_map_preserves(acc2, ls.drop_first(), k);
    } else {
        assert(last_pair_is(ls.drop_first(), i - 1, k, v)) by {
            assert(ls.drop_first()[i - 1] == ls[i]);
            assert forall|j: int| i - 1 < j < ls.drop_first().len() implies pair_key(
                #[trigger] ls.drop_first()[j],
            ) != Some(k) by {
                assert(ls.drop_first()[j] == ls[j + 1]);
            }
        }
        lemma_line_entry_map_last(line_entries(acc, ls.first()), ls.drop_first(), i - 1, k, v);
    }
}

/// Well-formed input parses to exactly one entry per distinct key.
///
/// For input whose every line is blank, a pure comment, or a `KEY=VALUE`
/// pair with the value unquoted, single-quoted or double-quoted: parsing
/// succeeds; the mapping holds exactly the keys that some pair line writes;
/// and each key holds the value of its last pair line. A quoted value
/// reaches the mapping verbatim, embedded `=`, `#`, whitespace, newlines
/// and the opposite quote character included, since `wf_line` admits them
/// all.
pub proof fn lemma_parse_well_formed_lines(ls: Seq<SpecLine>)
    requires
        forall|i: int| 0 <= i < ls.len() ==> wf_line(#[trigger] ls[i]),
    ensures
        crate::machine::process_spec(render_lines(ls)) == Ok::<_, SpecEnvError>(lines_map(ls)),
        forall|k: Seq<char>| #[trigger] lines_map(ls).contains_key(k) <==> has_pair_for(ls, k),
        forall|i: int, k: Seq<char>, v: Seq<char>|
            #[trigger] last_pair_is(ls, i, k, v) ==> lines_map(ls).contains_key(k) && lines_map(
                ls,
            )[k] == v,
{
    lemma_parse_all_lines(Map::empty(), 1, 1, ls);
    assert(init_state() == line_start(Map::empty(), 1, 1));
    assert(tokens_of(render_lines(ls)) == char_tokens(render_lines(ls)).push(EnvToken::Eof));
    assert forall|k: Seq<char>| #[trigger] lines_map(ls).contains_key(k) <==> has_pair_for(
        ls,
        k,
    ) by {
        lemma_line_entry_map_covers(Map::empty(), ls, k);
    }
    assert forall|i: int, k: Seq<char>, v: Seq<char>|
        #[trigger] last_pair_is(ls, i, k, v) implies lines_map(ls).contains_key(k) && lines_map(
        ls,
    )[k] == v by {
        lemma_line_entry_map_last(Map::empty(), ls, i, k, v);
    }
}

/// Blank lines and pure-comment lines never produce entries and never
/// error: input made only of them parses to the empty mapping.
pub proof fn lemma_blank_and_comment_lines(ls: Seq<SpecLine>)
    requires
        forall|i: int|
            0 <= i < ls.len() ==> (#[trigger] ls[i] is Blank || ls[i] is CommentLine),
        forall|i: int| 0 <= i < ls.len() ==> wf_line(#[trigger] ls[i]),
    ensures
        crate::machine::process_spec(render_lines(ls)) == Ok::<_, SpecEnvError>(
            Map::<Seq<char>, Seq<char>>::empty(),
        ),
{
    lemma_parse_well_formed_lines(ls);
    assert(lines_map(ls) =~= Map::<Seq<char>, Seq<char>>::empty()) by {
        assert forall|k: Seq<char>| !(#[trigger] lines_map(ls).contains_key(k)) by {
            lemma_line_entry_map_covers(Map::empty(), ls, k);
        }
    }
}

/// An unterminated quote at end of input yields `UnclosedValue` with the
/// line the quote context believes it is on: inside a quoted value no token
/// before the matching quote changes the mode or the line counter — an
/// embedded newline included — so the line reported at the end of input is
/// the line the quote was opened on.
pub proof fn lemma_unclosed_quote(s: ParserState, toks: Seq<EnvToken>)
    requires
        s.mode == ParseMode::InSingleQuote || s.mode == ParseMode::InDoubleQuote,
        toks.len() > 0,
        toks.last() == EnvToken::Eof,
        forall|i: int| 0 <= i < toks.len() - 1 ==> (#[trigger] toks[i]) != EnvToken::Eof,
        s.mode == ParseMode::InSingleQuote ==> forall|i: int|
            0 <= i < toks.len() - 1 ==> (#[trigger] toks[i]) != EnvToken::SingleQuoteMark,
        s.mode == ParseMode::InDoubleQuote ==> forall|i: int|
            0 <= i < toks.len() - 1 ==> (#[trigger] toks[i]) != EnvToken::DoubleQuoteMark,
    ensures
        parse_from(s, toks) == Err::<Map<Seq<char>, Seq<char>>, _>(
            SpecEnvError::UnclosedValue { line: s.line },
        ),
    decreases toks.len(),
{
    if toks.len() == 1 {
        assert(toks.first() == EnvToken::Eof);
        assert(step(s, EnvToken::Eof) == StepResult::Fail(
            SpecEnvError::UnclosedValue { line: s.line },
        ));
    } else {
        let t = toks.first();
        assert(t != EnvToken::Eof) by {
            assert(toks[0] == t);
        }
        assert(s.mode == ParseMode::InSingleQuote ==> t != EnvToken::SingleQuoteMark) by {
            assert(toks[0] == t);
        }
        assert(s.mode == ParseMode::InDoubleQuote ==> t != EnvToken::DoubleQuoteMark) by {
            assert(toks[0] == t);
        }
        let r = step(s, t);
        assert(r is Next);
        let s2 = r->Next_0;
        assert(s2.mode == s.mode && s2.line == s.line);
        assert forall|i: int| 0 <= i < toks.drop_first().len() - 1 implies (
        #[trigger] toks.drop_first()[i]) == toks[i + 1] by {}
        assert(toks.drop_first().last() == toks.last());
        lemma_unclosed_quote(s2, toks.drop_first());
    }
}

/// A line holding a key, an assignment operator and nothing else yields
/// `MissingValue` with that line, whatever follows.
pub proof fn lemma_line_missing_value(
    entries: Map<Seq<char>, Seq<char>>,
    line: nat,
    col: nat,
    k: Seq<char>,
    rest: Seq<EnvToken>,
)
    requires
        k.len() > 0,
        plain_text(k),
    ensures
        parse_from(line_start(entries, line, col), char_tokens(k + seq!['=', '\n']) + rest)
            == Err::<Map<Seq<char>, Seq<char>>, _>(SpecEnvError::MissingValue { line: line }),
{
    let s0 = line_start(entries, line, col);
    let tail2 = seq![EnvToken::NewLine] + rest;
    let tail1 = seq![EnvToken::AssignmentOperator] + tail2;
    assert(char_tokens(k + seq!['=', '\n']) + rest =~= char_tokens(k) + tail1);
    lemma_consume_key(s0, k, tail1);
    let s1 = ParserState { key: s0.key + k, col: (s0.col + k.len()) as nat, ..s0 };
    assert(s1.key =~= k);
    let s2 = ParserState {
        mode: ParseMode::AwaitingValue,
        seen_assignment: true,
        col: s1.col + 1,
        ..s1
    };
    assert(step(s1, EnvToken::AssignmentOperator) == StepResult::Next(s2));
    lemma_step_next(s1, EnvToken::AssignmentOperator, s2, tail2);
    assert(tail2.first() == EnvToken::NewLine);
    assert(step(s2, EnvToken::NewLine) == StepResult::Fail(
        SpecEnvError::MissingValue { line: line },
    ));
}

/// A line starting with an assignment operator yields `MissingKey` with
/// that line, whatever follows.
pub proof fn lemma_line_missing_key(
    entries: Map<Seq<char>, Seq<char>>,
    line: nat,
    col: nat,
    v: Seq<char>,
    rest: Seq<EnvToken>,
)
    requires
        plain_text(v),
    ensures
        parse_from(
            line_start(entries, line, col),
            char_tokens(seq!['='] + v + seq!['\n']) + rest,
        ) == Err::<Map<Seq<char>, Seq<char>>, _>(SpecEnvError::MissingKey { line: line }),
{
    let s0 = line_start(entries, line, col);
    let tail2 = seq![EnvToken::NewLine] + rest;
    let tail1 = char_tokens(v) + tail2;
    assert(char_tokens(seq!['='] + v + seq!['\n']) + rest =~= seq![EnvToken::AssignmentOperator]
        + tail1);
    let s1 = ParserState {
        mode: ParseMode::AwaitingValue,
        seen_assignment: true,
        col: s0.col + 1,
        ..s0
    };
    assert(step(s0, EnvToken::AssignmentOperator) == StepResult::Next(s1));
    lemma_step_next(s0, EnvToken::AssignmentOperator, s1, tail1);
    lemma_consume_val(s1, v, tail2);
    let s2 = ParserState { val: s1.val + v, col: (s1.col + v.len()) as nat, ..s1 };
    assert(s2.key.len() == 0 && s2.seen_assignment);
    assert(tail2.first() == EnvToken::NewLine);
    assert(step(s2, EnvToken::NewLine) == StepResult::Fail(
        SpecEnvError::MissingKey { line: line },
    ));
}

/// A line holding a bare key and no assignment yields `FoundOnlyKey` with
/// that line, whatever follows.
pub proof fn lemma_line_found_only_key(
    entries: Map<Seq<char>, Seq<char>>,
    line: nat,
    col: nat,
    k: Seq<char>,
    rest: Seq<EnvToken>,
)
    requires
        k.len() > 0,
        plain_text(k),
    ensures
        parse_from(line_start(entries, line, col), char_tokens(k + seq!['\n']) + rest)
            == Err::<Map<Seq<char>, Seq<char>>, _>(SpecEnvError::FoundOnlyKey { line: line }),
{
    let s0 = line_start(entries, line, col);
    let tail1 = seq![EnvToken::NewLine] + rest;
    assert(char_tokens(k + seq!['\n']) + rest =~= char_tokens(k) + tail1);
    lemma_consume_key(s0, k, tail1);
    let s1 = ParserState { key: s0.key + k, col: (s0.col + k.len()) as nat, ..s0 };
    assert(s1.key =~= k);
    assert(s1.key.len() > 0 && s1.val.len() == 0 && !s1.seen_assignment);
    assert(tail1.first() == EnvToken::NewLine);
    assert(step(s1, EnvToken::NewLine) == StepResult::Fail(
        SpecEnvError::FoundOnlyKey { line: line },
    ));
}

/// One step commits at most one pair, and only when its key is nonempty.
proof fn lemma_step_entries(s: ParserState, t: EnvToken)
    ensures
        match step(s, t) {
            StepResult::Next(s2) => s2.entries == s.entries || (s2.entries == s.entries.insert(
                s.key,
                s.val,
            ) && s.key.len() > 0),
            StepResult::Done(m) => m == s.entries || (m == s.entries.insert(s.key, s.val)
                && s.key.len() > 0),
            StepResult::Fail(_) => true,
        },
{
}

/// Every key of a mapping the parser returns is nonempty: a pair is
/// committed only when at least one character accumulated into its key.
pub proof fn lemma_parsed_keys_nonempty(s: ParserState, toks: Seq<EnvToken>)
    requires
        forall|k: Seq<char>| #[trigger] s.entries.contains_key(k) ==> k.len() > 0,
    ensures
        parse_from(s, toks) matches Ok(m) ==> forall|k: Seq<char>|
            #[trigger] m.contains_key(k) ==> k.len() > 0,
    decreases toks.len(),
{
    if toks.len() > 0 {
        lemma_step_entries(s, toks.first());
        match step(s, toks.first()) {
            StepResult::Next(s2) => {
                lemma_parsed_keys_nonempty(s2, toks.drop_first());
            },
            StepResult::Done(m) => {},
            StepResult::Fail(_) => {},
        }
    }
}

/// Folding pair lines writes the same entries as folding the pairs.
proof fn lemma_lines_map_of_pairs(
    acc: Map<Seq<char>, Seq<char>>,
    ps: Seq<(Seq<char>, Seq<char>)>,
)
    ensures
        line_entry_map(acc, lines_of_pairs(ps)) == map_from(acc, ps),
    decreases ps.len(),
{
    if ps.len() > 0 {
        assert(lines_of_pairs(ps).first() == SpecLine::Pair(
            ps.first().0,
            ps.first().1,
            QuoteStyle::Unquoted,
        ));
        assert(lines_of_pairs(ps).drop_first() =~= lines_of_pairs(ps.drop_first()));
        lemma_lines_map_of_pairs(acc.insert(ps.first().0, ps.first().1), ps.drop_first());
    } else {
        assert(lines_of_pairs(ps).len() == 0);
    }
}

/// Serialization round trip: a mapping whose keys and values are nonempty
/// and hold no `=`, `#`, quote, whitespace or newline characters is
/// reconstructed exactly by parsing its serialized text. (Values with such
/// characters are not guaranteed to round-trip: the serializer writes them
/// raw, with no quoting.)
pub proof fn lemma_serialize_round_trip(m: crate::env_map::EnvMap)
    requires
        m.wf(),
        forall|k: Seq<char>| #[trigger] m@.contains_key(k) ==> k.len() > 0 && plain_text(k)
            && m@[k].len() > 0 && plain_text(m@[k]),
    ensures
        crate::machine::process_spec(render_lines(lines_of_pairs(m.pair_seq())))
            == Ok::<_, SpecEnvError>(m@),
{
    let ps = m.pair_seq();
    let ls = lines_of_pairs(ps);
    assert forall|i: int| 0 <= i < ls.len() implies wf_line(#[trigger] ls[i]) by {
        lemma_pairs_in_map(ps, i);
        assert(ls[i] == SpecLine::Pair(ps[i].0, ps[i].1, QuoteStyle::Unquoted));
        assert(m@.contains_key(ps[i].0));
    }
    lemma_parse_well_formed_lines(ls);
    lemma_lines_map_of_pairs(Map::empty(), ps);
}

} // verus!

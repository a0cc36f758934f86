//! Serialization, and the model of a well-formed file as a sequence of
//! lines.
//!
//! A `SpecLine` is one line of input: blank, a comment, or a `KEY=VALUE`
//! pair with one of three quoting styles. `render_lines` turns a line
//! sequence into text; the laws module proves what parsing that text
//! returns. The serializer writes one unquoted `KEY=VALUE` line per entry,
//! with no quoting or escaping on output.

use vstd::prelude::*;

use crate::env_map::EnvMap;

verus! {

/// How a pair's value is written.
pub enum QuoteStyle {
    Unquoted,
    SingleQuoted,
    DoubleQuoted,
}

/// One line of a well-formed file.
pub enum SpecLine {
    /// An empty line.
    Blank,
    /// A line holding only a comment: `#` followed by the text.
    CommentLine(Seq<char>),
    /// A `KEY=VALUE` line, the value quoted as the style says.
    Pair(Seq<char>, Seq<char>, QuoteStyle),
}

/// A character with no special meaning to the tokenizer.
pub open spec fn plain_char(c: char) -> bool {
    c != '=' && c != ' ' && c != '#' && c != '\n' && c != '"' && c != '\''
}

/// Text of plain characters only.
pub open spec fn plain_text(s: Seq<char>) -> bool {
    forall|i: int| 0 <= i < s.len() ==> plain_char(#[trigger] s[i])
}

/// What makes one line well formed: a nonempty plain key, a nonempty value,
/// and a value that cannot end its own quoting early. An unquoted value is
/// plain; a quoted value may hold anything but its own quote character,
/// embedded newlines included.
pub open spec fn wf_line(l: SpecLine) -> bool {
    match l {
        SpecLine::Blank => true,
        SpecLine::CommentLine(text) => forall|i: int| 0 <= i < text.len() ==> (#[trigger] text[i])
            != '\n',
        SpecLine::Pair(k, v, q) => k.len() > 0 && plain_text(k) && v.len() > 0 && match q {
            QuoteStyle::Unquoted => plain_text(v),
            QuoteStyle::SingleQuoted => forall|i: int|
                0 <= i < v.len() ==> (#[trigger] v[i]) != '\'',
            QuoteStyle::DoubleQuoted => forall|i: int|
                0 <= i < v.len() ==> (#[trigger] v[i]) != '"',
        },
    }
}

/// The text of one line, terminating newline included.
pub open spec fn render_line(l: SpecLine) -> Seq<char> {
    match l {
        SpecLine::Blank => seq!['\n'],
        SpecLine::CommentLine(text) => seq!['#'] + text + seq!['\n'],
        SpecLine::Pair(k, v, QuoteStyle::Unquoted) => k + seq!['='] + v + seq!['\n'],
        SpecLine::Pair(k, v, QuoteStyle::SingleQuoted) => k + seq!['='] + seq!['\''] + v
            + seq!['\''] + seq!['\n'],
        SpecLine::Pair(k, v, QuoteStyle::DoubleQuoted) => k + seq!['='] + seq!['"'] + v + seq!['"']
            + seq!['\n'],
    }
}

/// The text of a line sequence.
pub open spec fn render_lines(ls: Seq<SpecLine>) -> Seq<char>
    decreases ls.len(),
{
    if ls.len() == 0 {
        Seq::empty()
    } else {
        render_line(ls.first()) + render_lines(ls.drop_first())
    }
}

/// The entries the lines write over `acc`, first line first.
pub open spec fn line_entry_map(
    acc: Map<Seq<char>, Seq<char>>,
    ls: Seq<SpecLine>,
) -> Map<Seq<char>, Seq<char>>
    decreases ls.len(),
{
    if ls.len() == 0 {
        acc
    } else {
        line_entry_map(
            match ls.first() {
                SpecLine::Pair(k, v, _) => acc.insert(k, v),
                _ => acc,
            },
            ls.drop_first(),
        )
    }
}

/// The mapping a line sequence denotes: the last pair for a key wins.
pub open spec fn lines_map(ls: Seq<SpecLine>) -> Map<Seq<char>, Seq<char>> {
    line_entry_map(Map::empty(), ls)
}

/// The key of a pair line.
pub open spec fn pair_key(l: SpecLine) -> Option<Seq<char>> {
    match l {
        SpecLine::Pair(k, _, _) => Some(k),
        _ => None,
    }
}

/// The value of a pair line.
pub open spec fn pair_val(l: SpecLine) -> Option<Seq<char>> {
    match l {
        SpecLine::Pair(_, v, _) => Some(v),
        _ => None,
    }
}

/// One unquoted pair line per entry, in the mapping's storage order.
pub open spec fn lines_of_pairs(ps: Seq<(Seq<char>, Seq<char>)>) -> Seq<SpecLine> {
    ps.map_values(|p: (Seq<char>, Seq<char>)| SpecLine::Pair(p.0, p.1, QuoteStyle::Unquoted))
}

/// Appending one line renders as appending its text.
pub proof fn lemma_render_lines_push(ls: Seq<SpecLine>, l: SpecLine)
    ensures
        render_lines(ls.push(l)) == render_lines(ls) + render_line(l),
    decreases ls.len(),
{
    if ls.len() == 0 {
        assert(ls.push(l).first() == l);
        assert(ls.push(l).drop_first() =~= Seq::<SpecLine>::empty());
        assert(render_lines(ls.push(l).drop_first()) == Seq::<char>::empty());
        assert(render_lines(ls.push(l)) =~= render_lines(ls) + render_line(l));
    } else {
        assert(ls.push(l).first() == ls.first());
        assert(ls.push(l).drop_first() =~= ls.drop_first().push(l));
        lemma_render_lines_push(ls.drop_first(), l);
        assert(render_lines(ls.push(l)) == render_line(ls.first()) + (render_lines(ls.drop_first())
            + render_line(l)));
        assert(render_line(ls.first()) + (render_lines(ls.drop_first()) + render_line(l)) =~= (
        render_line(ls.first()) + render_lines(ls.drop_first())) + render_line(l));
    }
}

/// Writes the mapping as text: one `KEY=VALUE` line per entry, in storage
/// order, values written raw with no quoting or escaping.
pub fn serialize_env(map: &EnvMap) -> (r: String)
    requires
        map.wf(),
    ensures
        r@ == render_lines(lines_of_pairs(map.pair_seq())),
{
    let mut r = String::new();
    let n = map.len();
    let mut i: usize = 0;
    while i < n
        invariant
            map.wf(),
            n == map.pair_seq().len(),
            i <= n,
            r@ == render_lines(lines_of_pairs(map.pair_seq().take(i as int))),
        decreases n - i,
    {
        let ghost prefix = map.pair_seq().take(i as int);
        r.append(map.key_at(i).as_str());
        r.append("=");
        r.append(map.val_at(i).as_str());
        r.append("\n");
        i = i + 1;
        proof {
            let ps = map.pair_seq();
            let l = SpecLine::Pair(ps[i - 1].0, ps[i - 1].1, QuoteStyle::Unquoted);
            assert(ps.take(i as int) =~= prefix.push(ps[i - 1]));
            assert(lines_of_pairs(ps.take(i as int)) =~= lines_of_pairs(prefix).push(l));
            lemma_render_lines_push(lines_of_pairs(prefix), l);
            assert(render_line(l) =~= ps[i - 1].0 + "="@ + ps[i - 1].1 + "\n"@) by {
                reveal_strlit("=");
                reveal_strlit("\n");
                assert(seq!['='] =~= "="@);
                assert(seq!['\n'] =~= "\n"@);
            }
            assert(r@ =~= render_lines(lines_of_pairs(prefix)) + render_line(l));
        }
    }
    proof {
        assert(map.pair_seq().take(n as int) =~= map.pair_seq());
    }
    r
}

} // verus!

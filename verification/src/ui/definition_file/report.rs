//! The human-readable text of a [`ParseError`](super::ParseError).

use vstd::prelude::*;

use super::grammar::{Context, Label};
use crate::text::{
    decimal, lemma_utf8_len_single, lemma_utf8_len_split, push_char, push_decimal, push_spaces,
    push_str, spaces, utf8_len, utf8_len_between, utf8_width,
};

verus! {

pub open spec fn label_text(l: Label) -> Seq<char> {
    match l {
        Label::FieldType => "field type"@,
        Label::FieldName => "field name"@,
        Label::FieldAddress => "field address"@,
        Label::Line => "line"@,
        Label::Header => "header"@,
    }
}

pub fn label_str(l: Label) -> (r: &'static str)
    ensures
        r@ == label_text(l),
{
    match l {
        Label::FieldType => "field type",
        Label::FieldName => "field name",
        Label::FieldAddress => "field address",
        Label::Line => "line",
        Label::Header => "header",
    }
}

/// How an expected character is named: a line feed as `newline`, a backtick
/// as `` '`' ``, anything else between backticks.
pub open spec fn expected_text(c: char) -> Seq<char> {
    if c == '\n' {
        "newline"@
    } else if c == '`' {
        "'`'"@
    } else {
        seq!['`', c, '`']
    }
}

/// The innermost label in the context.
pub open spec fn first_label(ctx: Seq<Context>) -> Option<Label>
    decreases ctx.len(),
{
    if ctx.len() == 0 {
        None
    } else {
        match ctx[0] {
            Context::Label(l) => Some(l),
            Context::Expected(_) => first_label(ctx.drop_first()),
        }
    }
}

/// The expected characters in the context, in order.
pub open spec fn expected_chars(ctx: Seq<Context>) -> Seq<char>
    decreases ctx.len(),
{
    if ctx.len() == 0 {
        seq![]
    } else {
        match ctx.last() {
            Context::Label(_) => expected_chars(ctx.drop_last()),
            Context::Expected(c) => expected_chars(ctx.drop_last()).push(c),
        }
    }
}

/// The expected characters, named and separated by `, `.
pub open spec fn expected_list(cs: Seq<char>) -> Seq<char>
    decreases cs.len(),
{
    if cs.len() == 0 {
        seq![]
    } else if cs.len() == 1 {
        expected_text(cs[0])
    } else {
        expected_list(cs.drop_last()) + ", "@ + expected_text(cs.last())
    }
}

/// `invalid <label>` for the innermost label, then, on a line of its own,
/// `expected <chars>` when characters were expected.
pub open spec fn context_text(ctx: Seq<Context>) -> Seq<char> {
    let lab = match first_label(ctx) {
        Some(l) => "invalid "@ + label_text(l),
        None => seq![],
    };
    let ex = expected_chars(ctx);
    if ex.len() == 0 {
        lab
    } else if first_label(ctx) is Some {
        lab + "\n"@ + "expected "@ + expected_list(ex)
    } else {
        "expected "@ + expected_list(ex)
    }
}

/// Number of line feeds in `s`.
pub open spec fn newlines(s: Seq<char>) -> nat
    decreases s.len(),
{
    if s.len() == 0 {
        0
    } else {
        newlines(s.drop_last()) + if s.last() == '\n' {
            1nat
        } else {
            0nat
        }
    }
}

/// Start of the line holding position `p`: just after the last line feed before it.
pub open spec fn line_start(s: Seq<char>, p: int) -> int
    decreases p,
{
    if p <= 0 {
        0
    } else if s[p - 1] == '\n' {
        p
    } else {
        line_start(s, p - 1)
    }
}

/// End of the line starting at `i`: the next line feed, or the end of `s`.
pub open spec fn line_end(s: Seq<char>, i: int) -> int
    decreases s.len() - i,
{
    if 0 <= i < s.len() && s[i] != '\n' {
        line_end(s, i + 1)
    } else {
        i
    }
}

/// The character whose line and column an error at position `p` is shown
/// at: the one at `p`, or the last one when `p` is the end of the input.
pub open spec fn caret_index(s: Seq<char>, p: int) -> int {
    if p == s.len() {
        p - 1
    } else {
        p
    }
}

/// The column (from 0) an error at position `p` is shown at, counted from
/// the start of its line: in characters, except that when the character at
/// `p` takes more than one byte the count is in bytes; at the end of the
/// input it is one past the last character.
pub open spec fn error_column(s: Seq<char>, p: int) -> nat {
    let ls = line_start(s, caret_index(s, p));
    if p < s.len() && utf8_len(seq![s[p]]) != 1 {
        utf8_len(s.subrange(ls, p))
    } else {
        (p - ls) as nat
    }
}

/// The error text for stopping at position `p` of `s` with context `ctx`.
///
/// When `s` has several lines: `parse error at line L, column C` for the
/// line and column of [`caret_index`] and [`error_column`], then that line
/// under a gutter as wide as `L`'s numeral, a caret under the column, and the
/// context text. A single line is shown whole, with the caret after as many
/// spaces as the bytes before position `p`.
pub open spec fn message_text(s: Seq<char>, p: int, ctx: Seq<Context>) -> Seq<char> {
    if s.contains('\n') {
        let ls = line_start(s, caret_index(s, p));
        let line_no = decimal(newlines(s.take(ls)) + 1);
        let col = error_column(s, p);
        let gutter = spaces(line_no.len());
        "parse error at line "@ + line_no + ", column "@ + decimal(col + 1) + "\n"@ + gutter
            + " |\n"@ + line_no + " | "@ + s.subrange(ls, line_end(s, ls)) + "\n"@ + gutter
            + " | "@ + spaces(col) + "^\n"@ + context_text(ctx)
    } else {
        s + "\n"@ + spaces(utf8_len(s.take(p))) + "^\n"@ + context_text(ctx)
    }
}

fn push_expected(out: &mut String, c: char)
    ensures
        final(out)@ == old(out)@ + expected_text(c),
{
    if c == '\n' {
        push_str(out, "newline");
    } else if c == '`' {
        push_str(out, "'`'");
    } else {
        let ghost start = out@;
        push_char(out, '`');
        push_char(out, c);
        push_char(out, '`');
        assert(out@ =~= start + seq!['`', c, '`']);
    }
}

fn find_label(ctx: &[Context]) -> (r: Option<Label>)
    ensures
        r == first_label(ctx@),
{
    let mut k: usize = 0;
    assert(ctx@.skip(0) =~= ctx@);
    while k < ctx.len()
        invariant
            k <= ctx@.len(),
            first_label(ctx@) == first_label(ctx@.skip(k as int)),
        decreases ctx@.len() - k,
    {
        assert(ctx@.skip(k as int).drop_first() =~= ctx@.skip(k + 1));
        match ctx[k] {
            Context::Label(l) => {
                return Some(l);
            },
            Context::Expected(_) => {},
        }
        k = k + 1;
    }
    assert(ctx@.skip(k as int) =~= seq![]);
    None
}

fn push_context_text(out: &mut String, ctx: &[Context])
    ensures
        final(out)@ == old(out)@ + context_text(ctx@),
{
    let ghost start = out@;
    let label = find_label(ctx);
    let mut ex: Vec<char> = Vec::new();
    let mut m: usize = 0;
    while m < ctx.len()
        invariant
            m <= ctx@.len(),
            ex@ == expected_chars(ctx@.take(m as int)),
        decreases ctx@.len() - m,
    {
        assert(ctx@.take(m + 1).drop_last() =~= ctx@.take(m as int));
        match ctx[m] {
            Context::Label(_) => {},
            Context::Expected(c) => {
                ex.push(c);
            },
        }
        m = m + 1;
    }
    assert(ctx@.take(ctx@.len() as int) =~= ctx@);
    match label {
        Some(l) => {
            push_str(out, "invalid ");
            push_str(out, label_str(l));
        },
        None => {},
    }
    let ghost after_label = out@;
    if ex.len() > 0 {
        if label.is_some() {
            push_str(out, "\n");
        }
        push_str(out, "expected ");
        let ghost before_list = out@;
        let mut n: usize = 0;
        while n < ex.len()
            invariant
                n <= ex@.len(),
                out@ == before_list + expected_list(ex@.take(n as int)),
            decreases ex@.len() - n,
        {
            let ghost prev = out@;
            assert(ex@.take(n + 1).drop_last() =~= ex@.take(n as int));
            if n > 0 {
                push_str(out, ", ");
            }
            push_expected(out, ex[n]);
            if n == 0 {
                assert(ex@.take(1) =~= seq![ex@[0]]);
                assert(expected_list(ex@.take(1)) == expected_text(ex@[0]));
            }
            assert(out@ =~= before_list + expected_list(ex@.take(n + 1)));
            n = n + 1;
        }
        assert(ex@.take(ex@.len() as int) =~= ex@);
    }
    assert(out@ =~= start + context_text(ctx@));
}

fn contains_newline(s: &Vec<char>) -> (r: bool)
    ensures
        r == s@.contains('\n'),
{
    let mut k: usize = 0;
    while k < s.len()
        invariant
            k <= s@.len(),
            forall|m: int| 0 <= m < k ==> s@[m] != '\n',
        decreases s@.len() - k,
    {
        if s[k] == '\n' {
            assert(s@[k as int] == '\n');
            return true;
        }
        k = k + 1;
    }
    false
}

fn count_newlines(s: &Vec<char>, p: usize) -> (r: usize)
    requires
        p <= s@.len(),
    ensures
        r == newlines(s@.take(p as int)),
        r <= p,
{
    let mut k: usize = 0;
    let mut r: usize = 0;
    assert(s@.take(0) =~= seq![]);
    while k < p
        invariant
            k <= p <= s@.len(),
            r == newlines(s@.take(k as int)),
            r <= k,
        decreases p - k,
    {
        assert(s@.take(k + 1).drop_last() =~= s@.take(k as int));
        if s[k] == '\n' {
            r = r + 1;
        }
        k = k + 1;
    }
    r
}

fn find_line_start(s: &Vec<char>, p: usize) -> (r: usize)
    requires
        p <= s@.len(),
    ensures
        r == line_start(s@, p as int),
        r <= p,
{
    let mut k = p;
    while k > 0 && s[k - 1] != '\n'
        invariant
            k <= p <= s@.len(),
            line_start(s@, k as int) == line_start(s@, p as int),
        decreases k,
    {
        k = k - 1;
    }
    k
}

fn find_line_end(s: &Vec<char>, i: usize) -> (r: usize)
    requires
        i <= s@.len(),
    ensures
        r == line_end(s@, i as int),
        i <= r <= s@.len(),
{
    let mut k = i;
    while k < s.len() && s[k] != '\n'
        invariant
            i <= k <= s@.len(),
            line_end(s@, k as int) == line_end(s@, i as int),
        decreases s@.len() - k,
    {
        k = k + 1;
    }
    k
}

fn push_range(out: &mut String, s: &Vec<char>, i: usize, j: usize)
    requires
        i <= j <= s@.len(),
    ensures
        final(out)@ == old(out)@ + s@.subrange(i as int, j as int),
{
    let ghost start = out@;
    let mut k = i;
    while k < j
        invariant
            i <= k <= j <= s@.len(),
            out@ == start + s@.subrange(i as int, k as int),
        decreases j - k,
    {
        push_char(out, s[k]);
        k = k + 1;
        assert(out@ =~= start + s@.subrange(i as int, k as int));
    }
}

/// The error text for stopping at position `p` of `s` (see [`message_text`]).
pub fn message(s: &Vec<char>, p: usize, ctx: &[Context]) -> (r: String)
    requires
        p <= s@.len(),
        utf8_len(s@.take(p as int)) <= usize::MAX,
    ensures
        r@ == message_text(s@, p as int, ctx@),
{
    let mut out = String::new();
    if contains_newline(s) {
        let k = if p == s.len() {
            p - 1
        } else {
            p
        };
        let ls = find_line_start(s, k);
        let line_no = count_newlines(s, ls) as u128 + 1;
        let col: usize = if p < s.len() && utf8_width(s[p]) != 1 {
            let w = utf8_len_between(s, ls, p);
            proof {
                lemma_utf8_len_split(s@, 0, ls as int, p as int);
                assert(s@.subrange(0, p as int) =~= s@.take(p as int));
                lemma_utf8_len_single(s@[p as int]);
            }
            w as usize
        } else {
            proof {
                if p < s@.len() {
                    lemma_utf8_len_single(s@[p as int]);
                }
            }
            p - ls
        };
        let mut numeral = String::new();
        push_decimal(&mut numeral, line_no);
        let width = numeral.as_str().unicode_len();
        push_str(&mut out, "parse error at line ");
        push_str(&mut out, numeral.as_str());
        push_str(&mut out, ", column ");
        push_decimal(&mut out, col as u128 + 1);
        push_str(&mut out, "\n");
        push_spaces(&mut out, width);
        push_str(&mut out, " |\n");
        push_str(&mut out, numeral.as_str());
        push_str(&mut out, " | ");
        let le = find_line_end(s, ls);
        push_range(&mut out, s, ls, le);
        push_str(&mut out, "\n");
        push_spaces(&mut out, width);
        push_str(&mut out, " | ");
        push_spaces(&mut out, col);
        push_str(&mut out, "^\n");
        push_context_text(&mut out, ctx);
        assert(numeral@ == decimal((newlines(s@.take(ls as int)) + 1) as nat));
        assert(col == error_column(s@, p as int));
        assert(out@ =~= message_text(s@, p as int, ctx@));
    } else {
        let o = utf8_len_between(s, 0, p);
        assert(s@.subrange(0, p as int) =~= s@.take(p as int));
        push_range(&mut out, s, 0, s.len());
        push_str(&mut out, "\n");
        push_spaces(&mut out, o as usize);
        push_str(&mut out, "^\n");
        push_context_text(&mut out, ctx);
        assert(s@.subrange(0, s@.len() as int) =~= s@);
        assert(out@ =~= message_text(s@, p as int, ctx@));
    }
    out
}

} // verus!

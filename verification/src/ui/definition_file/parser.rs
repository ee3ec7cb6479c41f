//! The executable parser, proved to follow [`super::grammar`] rule by rule.

use vstd::prelude::*;

use super::grammar as g;
use super::grammar::{
    backtrack, char_at, dec_value, hex_digit_value, hex_value, in_class, literal_at, no_progress,
    scan, CharClass, Context, FailureV, Label,
};
use crate::text::push_char;
use super::{fields_view, name_view, DefinitionFile, Field, FieldPos, FieldType};

verus! {

/// A failure of a grammar rule (see [`FailureV`]).
pub struct Failure {
    pub cut: bool,
    pub context: Vec<Context>,
    pub pos: usize,
}

impl View for Failure {
    type V = FailureV;

    open spec fn view(&self) -> FailureV {
        FailureV { cut: self.cut, context: self.context@, pos: self.pos as int }
    }
}

pub open spec fn agrees_pos(r: Result<usize, Failure>, sr: Result<int, FailureV>) -> bool {
    match r {
        Ok(j) => sr == Ok::<int, FailureV>(j as int),
        Err(e) => sr == Err::<int, FailureV>(e@),
    }
}

pub open spec fn pos_within(r: Result<usize, Failure>, n: nat) -> bool {
    match r {
        Ok(j) => j <= n,
        Err(e) => e.pos <= n,
    }
}

pub open spec fn agrees<T: View>(r: Result<(T, usize), Failure>, sr: Result<(T::V, int), FailureV>) -> bool {
    match r {
        Ok((v, j)) => sr == Ok::<(T::V, int), FailureV>((v@, j as int)),
        Err(e) => sr == Err::<(T::V, int), FailureV>(e@),
    }
}

pub open spec fn within<T>(r: Result<(T, usize), Failure>, n: nat) -> bool {
    match r {
        Ok((_, j)) => j <= n,
        Err(e) => e.pos <= n,
    }
}

fn backtrack_at(pos: usize) -> (e: Failure)
    ensures
        e@ == backtrack(pos as int),
{
    Failure { cut: false, context: Vec::new(), pos }
}

fn no_progress_at(pos: usize) -> (e: Failure)
    ensures
        e@ == no_progress(pos as int),
{
    Failure { cut: true, context: Vec::new(), pos }
}

fn push_context(e: Failure, c: Context) -> (r: Failure)
    ensures
        r@ == (FailureV { cut: e@.cut, context: e@.context.push(c), pos: e@.pos }),
{
    let mut e = e;
    e.context.push(c);
    e
}

fn char_is(s: &Vec<char>, i: usize, c: char) -> (r: bool)
    ensures
        r == char_at(s@, i as int, c),
        r ==> i < s.len(),
{
    i < s.len() && s[i] == c
}

fn literal_is(s: &Vec<char>, i: usize, t: &[char]) -> (r: bool)
    ensures
        r == literal_at(s@, i as int, t@),
        r ==> i + t@.len() <= s.len(),
{
    if i > s.len() || t.len() > s.len() - i {
        return false;
    }
    let mut k: usize = 0;
    while k < t.len()
        invariant
            i + t@.len() <= s.len(),
            k <= t@.len(),
            forall|m: int| 0 <= m < k ==> s@[i + m] == t@[m],
        decreases t@.len() - k,
    {
        if s[i + k] != t[k] {
            assert(s@.subrange(i as int, i + t@.len())[k as int] != t@[k as int]);
            return false;
        }
        k = k + 1;
    }
    assert(s@.subrange(i as int, i + t@.len()) =~= t@);
    true
}

fn in_class_exec(c: char, cls: CharClass) -> (r: bool)
    ensures
        r == in_class(c, cls),
{
    match cls {
        CharClass::Space => c == ' ' || c == '\t',
        CharClass::Multispace => c == ' ' || c == '\t' || c == '\r' || c == '\n',
        CharClass::HexDigit => ('0' <= c && c <= '9') || ('a' <= c && c <= 'f') || ('A' <= c
            && c <= 'F'),
        CharClass::DecDigit => '0' <= c && c <= '9',
        CharClass::NotLineEnd => c != '\r' && c != '\n',
        CharClass::NameChar => c != ';' && c != ' ' && c != '\r' && c != '\n',
        CharClass::NotCloseBracket => c != ']',
    }
}

fn scan_exec(s: &Vec<char>, i: usize, cls: CharClass) -> (j: usize)
    requires
        i <= s@.len(),
    ensures
        j == scan(s@, i as int, cls),
        i <= j <= s@.len(),
{
    let mut k = i;
    while k < s.len() && in_class_exec(s[k], cls)
        invariant
            i <= k <= s@.len(),
            scan(s@, k as int, cls) == scan(s@, i as int, cls),
        decreases s@.len() - k,
    {
        k = k + 1;
    }
    k
}

fn space0(s: &Vec<char>, i: usize) -> (j: usize)
    requires
        i <= s@.len(),
    ensures
        j == g::space0(s@, i as int),
        i <= j <= s@.len(),
{
    scan_exec(s, i, CharClass::Space)
}

fn space1(s: &Vec<char>, i: usize) -> (r: Result<usize, Failure>)
    requires
        i <= s@.len(),
    ensures
        agrees_pos(r, g::space1(s@, i as int)),
        pos_within(r, s@.len()),
{
    let j = scan_exec(s, i, CharClass::Space);
    if j == i {
        Err(backtrack_at(i))
    } else {
        Ok(j)
    }
}

fn line_ending(s: &Vec<char>, i: usize) -> (r: Result<usize, Failure>)
    requires
        i <= s@.len(),
    ensures
        agrees_pos(r, g::line_ending(s@, i as int)),
        pos_within(r, s@.len()),
{
    if char_is(s, i, '\n') {
        Ok(i + 1)
    } else if char_is(s, i, '\r') && char_is(s, i + 1, '\n') {
        Ok(i + 2)
    } else {
        Err(backtrack_at(i))
    }
}

fn line_end_or_eof(s: &Vec<char>, i: usize) -> (r: Result<usize, Failure>)
    requires
        i <= s@.len(),
    ensures
        agrees_pos(r, g::line_end_or_eof(s@, i as int)),
        pos_within(r, s@.len()),
{
    match line_ending(s, i) {
        Ok(j) => Ok(j),
        Err(_) => if i == s.len() {
            Ok(i)
        } else {
            Err(backtrack_at(i))
        },
    }
}

fn till_line_ending(s: &Vec<char>, i: usize) -> (r: Result<usize, Failure>)
    requires
        i <= s@.len(),
    ensures
        agrees_pos(r, g::till_line_ending(s@, i as int)),
        pos_within(r, s@.len()),
{
    let j = scan_exec(s, i, CharClass::NotLineEnd);
    if char_is(s, j, '\r') && !char_is(s, j + 1, '\n') {
        Err(backtrack_at(j))
    } else {
        Ok(j)
    }
}

fn comment(s: &Vec<char>, i: usize) -> (r: Result<usize, Failure>)
    requires
        i <= s@.len(),
    ensures
        agrees_pos(r, g::comment(s@, i as int)),
        pos_within(r, s@.len()),
{
    if char_is(s, i, ';') {
        till_line_ending(s, i + 1)
    } else {
        Err(backtrack_at(i))
    }
}

fn blank_line(s: &Vec<char>, i: usize) -> (r: Result<usize, Failure>)
    requires
        i <= s@.len(),
    ensures
        agrees_pos(r, g::blank_line(s@, i as int)),
        pos_within(r, s@.len()),
{
    let j = space0(s, i);
    let first = match comment(s, j) {
        Ok(k) => line_end_or_eof(s, k),
        Err(e) => Err(e),
    };
    match first {
        Ok(k) => Ok(k),
        Err(e1) => if e1.cut {
            Err(e1)
        } else {
            match line_ending(s, j) {
                Ok(k) => Ok(k),
                Err(e2) => if e2.cut {
                    Err(e2)
                } else {
                    space1(s, i)
                },
            }
        },
    }
}

fn junk(s: &Vec<char>, i: usize) -> (r: Result<usize, Failure>)
    requires
        i <= s@.len(),
    ensures
        agrees_pos(r, g::junk(s@, i as int)),
        pos_within(r, s@.len()),
{
    let mut k = i;
    loop
        invariant
            i <= k <= s@.len(),
            g::junk(s@, k as int) == g::junk(s@, i as int),
        decreases s@.len() - k,
    {
        match blank_line(s, k) {
            Ok(j) => {
                if k < j && j <= s.len() {
                    k = j;
                } else {
                    return Err(no_progress_at(j));
                }
            },
            Err(e) => {
                if e.cut {
                    return Err(e);
                } else {
                    return Ok(k);
                }
            },
        }
    }
}

spec fn pow16(n: nat) -> nat
    decreases n,
{
    if n == 0 {
        1
    } else {
        16 * pow16((n - 1) as nat)
    }
}

proof fn lemma_pow16_monotone(a: nat, b: nat)
    requires
        a <= b,
    ensures
        pow16(a) <= pow16(b),
    decreases b,
{
    if a < b {
        lemma_pow16_monotone(a, (b - 1) as nat);
    }
}

fn hex_digit_exec(c: char) -> (v: u64)
    requires
        in_class(c, CharClass::HexDigit),
    ensures
        v == hex_digit_value(c),
        v < 16,
{
    if '0' <= c && c <= '9' {
        (c as u64) - ('0' as u64)
    } else if 'a' <= c && c <= 'f' {
        (c as u64) - ('a' as u64) + 10
    } else {
        (c as u64) - ('A' as u64) + 10
    }
}

fn hex_uint(s: &Vec<char>, i: usize) -> (r: Result<(u64, usize), Failure>)
    requires
        i <= s@.len(),
    ensures
        agrees(r, g::hex_uint(s@, i as int)),
        within(r, s@.len()),
{
    let j = scan_exec(s, i, CharClass::HexDigit);
    if j == i || j - i > 16 {
        return Err(backtrack_at(i));
    }
    proof {
        lemma_scan_class(s@, i as int, CharClass::HexDigit);
        reveal_with_fuel(pow16, 17);
        assert(pow16(15) == 1152921504606846976nat);
    }
    let mut acc: u64 = 0;
    let mut k = i;
    while k < j
        invariant
            i <= k <= j <= s@.len(),
            j - i <= 16,
            j == scan(s@, i as int, CharClass::HexDigit),
            forall|m: int| i <= m < j ==> in_class(#[trigger] s@[m], CharClass::HexDigit),
            acc == hex_value(s@, i as int, k as int),
            acc < pow16((k - i) as nat),
            pow16(15) == 1152921504606846976nat,
        decreases j - k,
    {
        let d = hex_digit_exec(s[k]);
        proof {
            lemma_pow16_monotone((k - i) as nat, 15);
        }
        acc = acc * 16 + d;
        k = k + 1;
    }
    Ok((acc, j))
}

proof fn lemma_scan_class(s: Seq<char>, i: int, cls: CharClass)
    requires
        0 <= i <= s.len(),
    ensures
        i <= scan(s, i, cls) <= s.len(),
        forall|m: int| i <= m < scan(s, i, cls) ==> in_class(#[trigger] s[m], cls),
        scan(s, i, cls) < s.len() ==> !in_class(s[scan(s, i, cls)], cls),
    decreases s.len() - i,
{
    if i < s.len() && in_class(s[i], cls) {
        lemma_scan_class(s, i + 1, cls);
    }
}

proof fn lemma_dec_value_monotone(s: Seq<char>, i: int, k: int, j: int)
    requires
        i <= k <= j,
        forall|m: int| i <= m < j ==> in_class(#[trigger] s[m], CharClass::DecDigit),
    ensures
        dec_value(s, i, k) <= dec_value(s, i, j),
    decreases j - k,
{
    if k < j {
        lemma_dec_value_monotone(s, i, k, j - 1);
    }
}

fn dec_uint(s: &Vec<char>, i: usize) -> (r: Result<(usize, usize), Failure>)
    requires
        i <= s@.len(),
    ensures
        agrees(r, g::dec_uint(s@, i as int)),
        within(r, s@.len()),
{
    if i < s.len() && '1' <= s[i] && s[i] <= '9' {
        let j = scan_exec(s, i + 1, CharClass::DecDigit);
        proof {
            lemma_scan_class(s@, i + 1, CharClass::DecDigit);
        }
        let mut acc: usize = 0;
        let mut k = i;
        while k < j
            invariant
                i < j <= s@.len(),
                i <= k <= j,
                '1' <= s@[i as int] && s@[i as int] <= '9',
                j == scan(s@, i + 1, CharClass::DecDigit),
                forall|m: int| i <= m < j ==> in_class(#[trigger] s@[m], CharClass::DecDigit),
                acc == dec_value(s@, i as int, k as int),
            decreases j - k,
        {
            let d = (s[k] as usize) - ('0' as usize);
            assert(dec_value(s@, i as int, k + 1) == acc * 10 + d);
            match acc.checked_mul(10) {
                Some(m) => match m.checked_add(d) {
                    Some(a) => {
                        acc = a;
                    },
                    None => {
                        proof {
                            lemma_dec_value_monotone(s@, i as int, k + 1, j as int);
                        }
                        return Err(backtrack_at(i));
                    },
                },
                None => {
                    proof {
                        lemma_dec_value_monotone(s@, i as int, k + 1, j as int);
                    }
                    return Err(backtrack_at(i));
                },
            }
            k = k + 1;
        }
        Ok((acc, j))
    } else if char_is(s, i, '0') {
        Ok((0, i + 1))
    } else {
        Err(backtrack_at(i))
    }
}

fn field_pos(s: &Vec<char>, i: usize) -> (r: Result<(FieldPos, usize), Failure>)
    requires
        i <= s@.len(),
    ensures
        agrees(r, g::field_pos(s@, i as int)),
        within(r, s@.len()),
{
    if !char_is(s, i, 'x') {
        return Err(backtrack_at(i));
    }
    match hex_uint(s, i + 1) {
        Err(e) => Err(e),
        Ok((b, j)) => {
            let offset: Result<(Option<isize>, usize), Failure> = if char_is(s, j, '+') {
                match hex_uint(s, j + 1) {
                    Ok((o, k)) => Ok((Some(o as isize), k)),
                    Err(e) => if e.cut {
                        Err(e)
                    } else {
                        Ok((None, j))
                    },
                }
            } else {
                Ok((None, j))
            };
            match offset {
                Err(e) => Err(e),
                Ok((o, k)) => Ok((FieldPos { base: b as isize, offset: o }, k)),
            }
        },
    }
}

fn literal_type(s: &Vec<char>, j: usize, t: &[char], v: FieldType) -> (r: Result<(FieldType, usize), Failure>)
    requires
        j <= s@.len(),
    ensures
        agrees(r, g::literal_value(s@, j as int, t@, v)),
        within(r, s@.len()),
{
    if literal_is(s, j, t) {
        Ok((v, j + t.len()))
    } else {
        Err(backtrack_at(j))
    }
}

fn integer_type(s: &Vec<char>, j: usize, signed: bool) -> (r: Result<(FieldType, usize), Failure>)
    requires
        j <= s@.len(),
    ensures
        agrees(r, g::integer_type(s@, j as int, signed)),
        within(r, s@.len()),
{
    let t8: [char; 1] = ['8'];
    let t16: [char; 2] = ['1', '6'];
    let t32: [char; 2] = ['3', '2'];
    let t64: [char; 2] = ['6', '4'];
    assert(t8@ == seq!['8']);
    assert(t16@ == seq!['1', '6']);
    assert(t32@ == seq!['3', '2']);
    assert(t64@ == seq!['6', '4']);
    if literal_is(s, j, &t8) {
        Ok((FieldType::Int8 { signed }, j + 1))
    } else if literal_is(s, j, &t16) {
        Ok((FieldType::Int16 { signed }, j + 2))
    } else if literal_is(s, j, &t32) {
        Ok((FieldType::Int32 { signed }, j + 2))
    } else if literal_is(s, j, &t64) {
        Ok((FieldType::Int64 { signed }, j + 2))
    } else {
        Err(backtrack_at(j))
    }
}

fn field_type(s: &Vec<char>, i: usize) -> (r: Result<(FieldType, usize), Failure>)
    requires
        i <= s@.len(),
    ensures
        agrees(r, g::field_type(s@, i as int)),
        within(r, s@.len()),
    decreases s@.len() - i,
{
    let r: Result<(FieldType, usize), Failure> = if i >= s.len() {
        Err(backtrack_at(i))
    } else {
        let c = s[i];
        let j = i + 1;
        if c == 'f' {
            let t: [char; 2] = ['3', '2'];
            assert(t@ == seq!['3', '2']);
            literal_type(s, j, &t, FieldType::Float)
        } else if c == 'v' || c == 'V' {
            let t: [char; 3] = ['e', 'c', '4'];
            assert(t@ == seq!['e', 'c', '4']);
            literal_type(s, j, &t, FieldType::Vec4)
        } else if c == 'm' || c == 'M' {
            let t: [char; 3] = ['a', 't', '4'];
            assert(t@ == seq!['a', 't', '4']);
            literal_type(s, j, &t, FieldType::Mat4)
        } else if c == 'b' {
            let t: [char; 3] = ['o', 'o', 'l'];
            assert(t@ == seq!['o', 'o', 'l']);
            literal_type(s, j, &t, FieldType::Bool)
        } else if c == 'i' {
            integer_type(s, j, true)
        } else if c == 'u' {
            integer_type(s, j, false)
        } else if c == 'a' {
            let t: [char; 3] = ['d', 'd', 'r'];
            assert(t@ == seq!['d', 'd', 'r']);
            literal_type(s, j, &t, FieldType::Address)
        } else if c == 'p' {
            let t: [char; 2] = ['t', 'r'];
            assert(t@ == seq!['t', 'r']);
            literal_type(s, j, &t, FieldType::Address)
        } else if c == '@' {
            let t: [char; 14] = ['m', 'o', 't', 'i', 'o', 'n', '_', 'v', 'e', 'c', 't', 'o', 'r', 's'];
            assert(t@ == seq!['m', 'o', 't', 'i', 'o', 'n', '_', 'v', 'e', 'c', 't', 'o', 'r', 's']);
            literal_type(s, j, &t, FieldType::MotionVectors)
        } else if c == '[' {
            match field_type(s, j) {
                Err(e) => Err(e),
                Ok((t, k)) => if !char_is(s, k, ';') {
                    Err(backtrack_at(k))
                } else {
                    let k2 = space0(s, k + 1);
                    match dec_uint(s, k2) {
                        Err(e) => Err(e),
                        Ok((n, m)) => if char_is(s, m, ']') {
                            Ok((FieldType::Array(Box::new(t), n), m + 1))
                        } else {
                            Err(backtrack_at(m))
                        },
                    }
                },
            }
        } else {
            Err(backtrack_at(j))
        }
    };
    match r {
        Ok(v) => Ok(v),
        Err(e) => Err(push_context(e, Context::Label(Label::FieldType))),
    }
}

fn escaped_body(s: &Vec<char>, start: usize, q: char) -> (r: Result<(String, usize), Failure>)
    requires
        start <= s@.len(),
    ensures
        agrees(r, g::escaped_body(s@, start as int, q, seq![])),
        within(r, s@.len()),
{
    let mut acc = String::new();
    let mut k = start;
    loop
        invariant
            start <= k <= s@.len(),
            g::escaped_body(s@, k as int, q, acc@) == g::escaped_body(s@, start as int, q, seq![]),
        decreases s@.len() - k,
    {
        if k >= s.len() {
            return Ok((acc, k));
        }
        let c = s[k];
        if c != '\\' && c != q && c != '\n' {
            push_char(&mut acc, c);
            k = k + 1;
        } else if c == '\\' {
            if k + 1 < s.len() && (s[k + 1] == '\\' || s[k + 1] == q) {
                push_char(&mut acc, s[k + 1]);
                k = k + 2;
            } else {
                return Err(backtrack_at(k + 1));
            }
        } else {
            return Ok((acc, k));
        }
    }
}

fn string_literal(s: &Vec<char>, i: usize, q: char) -> (r: Result<(String, usize), Failure>)
    requires
        i <= s@.len(),
    ensures
        agrees(r, g::string_literal(s@, i as int, q)),
        within(r, s@.len()),
{
    let r: Result<(String, usize), Failure> = if !char_is(s, i, q) {
        Err(backtrack_at(i))
    } else {
        match escaped_body(s, i + 1, q) {
            Err(e) => Err(e),
            Ok((v, k)) => if char_is(s, k, q) {
                Ok((v, k + 1))
            } else {
                let mut context = Vec::new();
                context.push(Context::Expected(q));
                Err(Failure { cut: false, context, pos: k })
            },
        }
    };
    match r {
        Ok(v) => Ok(v),
        Err(e) => Err(Failure { cut: true, context: e.context, pos: e.pos }),
    }
}

fn name(s: &Vec<char>, i: usize) -> (r: Result<(String, usize), Failure>)
    requires
        i <= s@.len(),
    ensures
        agrees(r, g::name(s@, i as int)),
        within(r, s@.len()),
{
    let r: Result<(String, usize), Failure> = if i >= s.len() {
        Err(backtrack_at(i))
    } else if s[i] == '\'' {
        string_literal(s, i, '\'')
    } else if s[i] == '"' {
        string_literal(s, i, '"')
    } else {
        let j = scan_exec(s, i, CharClass::NameChar);
        if j == i {
            Err(backtrack_at(i))
        } else {
            let mut n = String::new();
            let mut k = i;
            while k < j
                invariant
                    i <= k <= j <= s@.len(),
                    n@ == s@.subrange(i as int, k as int),
                decreases j - k,
            {
                push_char(&mut n, s[k]);
                k = k + 1;
                assert(n@ =~= s@.subrange(i as int, k as int));
            }
            Ok((n, j))
        }
    };
    match r {
        Ok(v) => Ok(v),
        Err(e) => Err(push_context(e, Context::Label(Label::FieldName))),
    }
}

fn field_address(s: &Vec<char>, i: usize) -> (r: Result<(FieldPos, usize), Failure>)
    requires
        i <= s@.len(),
    ensures
        agrees(r, g::field_address(s@, i as int)),
        within(r, s@.len()),
{
    let r: Result<(FieldPos, usize), Failure> = match field_pos(s, i) {
        Err(e) => Err(e),
        Ok((p, j)) => match space1(s, j) {
            Err(e) => Err(e),
            Ok(k) => Ok((p, k)),
        },
    };
    match r {
        Ok(v) => Ok(v),
        Err(e) => Err(push_context(e, Context::Label(Label::FieldAddress))),
    }
}

fn optional_name(s: &Vec<char>, k: usize) -> (r: Result<(Option<String>, usize), Failure>)
    requires
        k <= s@.len(),
    ensures
        match (r, g::optional_name(s@, k as int)) {
            (Ok((n, j)), Ok((sn, sj))) => name_view(n) == sn && j == sj,
            (Err(e), Err(se)) => e@ == se,
            _ => false,
        },
        within(r, s@.len()),
{
    match space1(s, k) {
        Err(e) => if e.cut {
            Err(e)
        } else {
            Ok((None, k))
        },
        Ok(k2) => match name(s, k2) {
            Ok((n, k3)) => Ok((Some(n), k3)),
            Err(e) => if e.cut {
                Err(e)
            } else {
                Ok((None, k))
            },
        },
    }
}

fn field(s: &Vec<char>, i: usize) -> (r: Result<(Field, usize), Failure>)
    requires
        i <= s@.len(),
    ensures
        agrees(r, g::field(s@, i as int)),
        within(r, s@.len()),
{
    match field_address(s, i) {
        Err(e) => Err(e),
        Ok((p, j)) => match field_type(s, j) {
            Err(e) => Err(e),
            Ok((t, k)) => match optional_name(s, k) {
                Err(e) => Err(e),
                Ok((n, m)) => Ok((Field { position: p, field_type: t, name: n }, m)),
            },
        },
    }
}

pub(crate) fn field_line(s: &Vec<char>, i: usize) -> (r: Result<(Field, usize), Failure>)
    requires
        i <= s@.len(),
    ensures
        agrees(r, g::field_line(s@, i as int)),
        within(r, s@.len()),
{
    let j = space0(s, i);
    let r: Result<(Field, usize), Failure> = match field(s, j) {
        Err(e) => Err(Failure { cut: true, context: e.context, pos: e.pos }),
        Ok((f, k)) => {
            let k2 = space0(s, k);
            let k3: Result<usize, Failure> = match comment(s, k2) {
                Ok(x) => Ok(x),
                Err(e) => if e.cut {
                    Err(e)
                } else {
                    Ok(k2)
                },
            };
            match k3 {
                Err(e) => Err(e),
                Ok(k3) => match line_end_or_eof(s, k3) {
                    Ok(m) => Ok((f, m)),
                    Err(e) => Err(e),
                },
            }
        },
    };
    match r {
        Ok(v) => Ok(v),
        Err(e) => Err(push_context(e, Context::Label(Label::Line))),
    }
}

fn body(s: &Vec<char>, i: usize) -> (r: Result<(Vec<Field>, usize), Failure>)
    requires
        i <= s@.len(),
    ensures
        match (r, g::body(s@, i as int, seq![])) {
            (Ok((fs, j)), Ok((sfs, sj))) => fields_view(fs@) == sfs && j == sj,
            (Err(e), Err(se)) => e@ == se,
            _ => false,
        },
        within(r, s@.len()),
{
    let mut acc: Vec<Field> = Vec::new();
    let mut k = i;
    assert(fields_view(acc@) =~= seq![]);
    loop
        invariant
            i <= k <= s@.len(),
            g::body(s@, k as int, fields_view(acc@)) == g::body(s@, i as int, seq![]),
        decreases s@.len() - k,
    {
        if char_is(s, k, '[') || k == s.len() {
            return Ok((acc, k));
        }
        match field_line(s, k) {
            Err(e) => {
                return Err(e);
            },
            Ok((f, j)) => match junk(s, j) {
                Err(e) => {
                    return Err(e);
                },
                Ok(m) => {
                    if k < m && m <= s.len() {
                        let ghost before = acc@;
                        acc.push(f);
                        assert(fields_view(acc@) =~= fields_view(before).push(f@));
                        k = m;
                    } else {
                        return Err(no_progress_at(m));
                    }
                },
            },
        }
    }
}

fn header(s: &Vec<char>, i: usize) -> (r: Result<(String, usize), Failure>)
    requires
        i <= s@.len(),
    ensures
        agrees(r, g::header(s@, i as int)),
        within(r, s@.len()),
{
    let k = scan_exec(s, i, CharClass::Multispace);
    let r: Result<(String, usize), Failure> = if !char_is(s, k, '[') {
        Err(backtrack_at(k))
    } else {
        let j = scan_exec(s, k + 1, CharClass::NotCloseBracket);
        if j == k + 1 {
            Err(backtrack_at(k + 1))
        } else if !char_is(s, j, ']') {
            Err(backtrack_at(j))
        } else {
            let mut n = String::new();
            let mut m = k + 1;
            while m < j
                invariant
                    k + 1 <= m <= j < s@.len(),
                    n@ == s@.subrange(k + 1, m as int),
                decreases j - m,
            {
                push_char(&mut n, s[m]);
                m = m + 1;
                assert(n@ =~= s@.subrange(k + 1, m as int));
            }
            Ok((n, j + 1))
        }
    };
    match r {
        Ok(v) => Ok(v),
        Err(e) => Err(push_context(e, Context::Label(Label::Header))),
    }
}

pub(crate) fn section(s: &Vec<char>, i: usize) -> (r: Result<((String, Vec<Field>), usize), Failure>)
    requires
        i <= s@.len(),
    ensures
        match (r, g::section(s@, i as int)) {
            (Ok(((h, fs), j)), Ok(((sh, sfs), sj))) => h@ == sh && fields_view(fs@) == sfs && j
                == sj,
            (Err(e), Err(se)) => e@ == se,
            _ => false,
        },
        within(r, s@.len()),
{
    match header(s, i) {
        Err(e) => Err(e),
        Ok((h, j)) => match line_ending(s, j) {
            Err(e) => Err(e),
            Ok(k) => match junk(s, k) {
                Err(e) => Err(e),
                Ok(k2) => match body(s, k2) {
                    Err(e) => Err(e),
                    Ok((fs, m)) => Ok(((h, fs), m)),
                },
            },
        },
    }
}

/// Whether the string's characters are `t`.
fn string_is(n: &String, t: &[char]) -> (r: bool)
    ensures
        r == (n@ == t@),
{
    let st = n.as_str();
    let len = st.unicode_len();
    if len != t.len() {
        return false;
    }
    let mut k: usize = 0;
    while k < len
        invariant
            len == n@.len() == t@.len(),
            st@ == n@,
            k <= len,
            forall|m: int| 0 <= m < k ==> n@[m] == t@[m],
        decreases len - k,
    {
        if st.get_char(k) != t[k] {
            return false;
        }
        k = k + 1;
    }
    assert(n@ =~= t@);
    true
}

proof fn lemma_fields_view_concat(a: Seq<Field>, b: Seq<Field>)
    ensures
        fields_view(a + b) == fields_view(a) + fields_view(b),
{
    assert(fields_view(a + b) =~= fields_view(a) + fields_view(b));
}

fn append_fields(slot: &mut Vec<Field>, fs: Vec<Field>)
    ensures
        fields_view(final(slot)@) == fields_view(old(slot)@) + fields_view(fs@),
{
    let mut fs = fs;
    proof {
        lemma_fields_view_concat(slot@, fs@);
    }
    slot.append(&mut fs);
}

/// Appends a section's fields to the slot its name selects; `false`, with
/// nothing changed, when the name selects none.
fn add_section(d: &mut DefinitionFile, h: &String, fs: Vec<Field>) -> (ok: bool)
    ensures
        ok == g::add_section(old(d)@, h@, fields_view(fs@)) is Some,
        ok ==> final(d)@ == g::add_section(old(d)@, h@, fields_view(fs@))->0,
{
    let katamari: [char; 8] = ['k', 'a', 't', 'a', 'm', 'a', 'r', 'i'];
    let prince: [char; 6] = ['p', 'r', 'i', 'n', 'c', 'e'];
    let thing: [char; 5] = ['t', 'h', 'i', 'n', 'g'];
    let camera: [char; 6] = ['c', 'a', 'm', 'e', 'r', 'a'];
    let camera_transform: [char; 16] = [
        'c', 'a', 'm', 'e', 'r', 'a', '_', 't', 'r', 'a', 'n', 's', 'f', 'o', 'r', 'm',
    ];
    let global: [char; 6] = ['g', 'l', 'o', 'b', 'a', 'l'];
    assert(katamari@ == g::katamari_name());
    assert(prince@ == g::prince_name());
    assert(thing@ == g::thing_name());
    assert(camera@ == g::camera_name());
    assert(camera_transform@ == g::camera_transform_name());
    assert(global@ == g::global_name());
    if string_is(h, &katamari) {
        append_fields(&mut d.katamari, fs);
        true
    } else if string_is(h, &prince) {
        append_fields(&mut d.prince, fs);
        true
    } else if string_is(h, &thing) {
        append_fields(&mut d.thing, fs);
        true
    } else if string_is(h, &camera) {
        append_fields(&mut d.camera, fs);
        true
    } else if string_is(h, &camera_transform) {
        append_fields(&mut d.camera_transform, fs);
        true
    } else if string_is(h, &global) {
        append_fields(&mut d.global, fs);
        true
    } else {
        false
    }
}

fn empty_definition_file() -> (d: DefinitionFile)
    ensures
        d@ == g::empty_file(),
{
    let d = DefinitionFile {
        katamari: Vec::new(),
        prince: Vec::new(),
        thing: Vec::new(),
        camera: Vec::new(),
        camera_transform: Vec::new(),
        global: Vec::new(),
    };
    assert(fields_view(d.katamari@) =~= seq![]);
    assert(fields_view(d.prince@) =~= seq![]);
    assert(fields_view(d.thing@) =~= seq![]);
    assert(fields_view(d.camera@) =~= seq![]);
    assert(fields_view(d.camera_transform@) =~= seq![]);
    assert(fields_view(d.global@) =~= seq![]);
    d
}

pub(crate) fn sections(s: &Vec<char>) -> (r: Result<(DefinitionFile, usize), Failure>)
    ensures
        agrees(r, g::sections(s@, 0, g::empty_file())),
        within(r, s@.len()),
{
    let mut d = empty_definition_file();
    let mut k: usize = 0;
    loop
        invariant
            k <= s@.len(),
            g::sections(s@, k as int, d@) == g::sections(s@, 0, g::empty_file()),
        decreases s@.len() - k,
    {
        match section(s, k) {
            Ok(((h, fs), j)) => {
                if k < j && j <= s.len() {
                    if add_section(&mut d, &h, fs) {
                        k = j;
                    } else {
                        return Err(backtrack_at(k));
                    }
                } else {
                    return Err(no_progress_at(j));
                }
            },
            Err(e) => {
                if e.cut {
                    return Err(e);
                } else {
                    return Ok((d, k));
                }
            },
        }
    }
}

} // verus!

//! The definition-file grammar, stated over the input's characters.
//!
//! Every rule takes the input `s` and a position `i` and either succeeds with
//! a value and the position after it, or fails with a [`FailureV`]: whether the
//! failure is final (`cut`: no alternative may be tried instead), the context
//! gathered on the way out (innermost first), and the position the input was
//! left at when the failure was reported.

use vstd::prelude::*;

use super::{FieldPos, FieldType};

verus! {

/// The name of the grammar element a failure happened in.
#[derive(Debug, Clone, Copy, PartialEq, Eq)]
pub enum Label {
    FieldType,
    FieldName,
    FieldAddress,
    Line,
    Header,
}

/// One piece of context attached to a failure.
#[derive(Debug, Clone, Copy, PartialEq, Eq)]
pub enum Context {
    Label(Label),
    /// The character that was expected.
    Expected(char),
}

/// A failure as the grammar describes it.
#[verifier::ext_equal]
pub struct FailureV {
    pub cut: bool,
    pub context: Seq<Context>,
    pub pos: int,
}

/// A field as the grammar describes it: its name is a character sequence.
#[verifier::ext_equal]
pub struct FieldV {
    pub position: FieldPos,
    pub field_type: FieldType,
    pub name: Option<Seq<char>>,
}

/// A whole definition file as the grammar describes it.
#[verifier::ext_equal]
pub struct DefinitionFileV {
    pub katamari: Seq<FieldV>,
    pub prince: Seq<FieldV>,
    pub thing: Seq<FieldV>,
    pub camera: Seq<FieldV>,
    pub camera_transform: Seq<FieldV>,
    pub global: Seq<FieldV>,
}

pub open spec fn empty_file() -> DefinitionFileV {
    DefinitionFileV {
        katamari: seq![],
        prince: seq![],
        thing: seq![],
        camera: seq![],
        camera_transform: seq![],
        global: seq![],
    }
}

/// A failure that lets an enclosing alternative try something else.
pub open spec fn backtrack(pos: int) -> FailureV {
    FailureV { cut: false, context: seq![], pos }
}

/// A repetition whose element succeeded without consuming anything.
pub open spec fn no_progress(pos: int) -> FailureV {
    FailureV { cut: true, context: seq![], pos }
}

pub open spec fn add_context<T>(r: Result<T, FailureV>, c: Context) -> Result<T, FailureV> {
    match r {
        Ok(v) => Ok(v),
        Err(e) => Err(FailureV { cut: e.cut, context: e.context.push(c), pos: e.pos }),
    }
}

pub open spec fn make_cut<T>(r: Result<T, FailureV>) -> Result<T, FailureV> {
    match r {
        Ok(v) => Ok(v),
        Err(e) => Err(FailureV { cut: true, context: e.context, pos: e.pos }),
    }
}

pub open spec fn char_at(s: Seq<char>, i: int, c: char) -> bool {
    0 <= i < s.len() && s[i] == c
}

/// `t` occurs in `s` at `i`.
pub open spec fn literal_at(s: Seq<char>, i: int, t: Seq<char>) -> bool {
    0 <= i && i + t.len() <= s.len() && s.subrange(i, i + t.len()) == t
}

/// The character classes that the grammar skips over.
#[derive(Clone, Copy)]
pub enum CharClass {
    /// space or tab
    Space,
    /// space, tab, carriage return or line feed
    Multispace,
    /// `0-9`, `a-f`, `A-F`
    HexDigit,
    /// `0-9`
    DecDigit,
    /// anything but a carriage return or line feed
    NotLineEnd,
    /// anything that cannot end an unquoted name: not `;`, space, CR or LF
    NameChar,
    /// anything but `]`
    NotCloseBracket,
}

pub open spec fn in_class(c: char, cls: CharClass) -> bool {
    match cls {
        CharClass::Space => c == ' ' || c == '\t',
        CharClass::Multispace => c == ' ' || c == '\t' || c == '\r' || c == '\n',
        CharClass::HexDigit => ('0' <= c && c <= '9') || ('a' <= c && c <= 'f') || ('A' <= c
            && c <= 'F'),
        CharClass::DecDigit => '0' <= c && c <= '9',
        CharClass::NotLineEnd => c != '\r' && c != '\n',
        CharClass::NameChar => c != ';' && c != ' ' && c != '\r' && c != '\n',
        CharClass::NotCloseBracket => c != ']',
    }
}

/// The first position at or after `i` whose character is not in the class.
pub open spec fn scan(s: Seq<char>, i: int, cls: CharClass) -> int
    decreases s.len() - i,
{
    if 0 <= i < s.len() && in_class(s[i], cls) {
        scan(s, i + 1, cls)
    } else {
        i
    }
}

pub open spec fn hex_digit_value(c: char) -> nat {
    if '0' <= c && c <= '9' {
        (c as nat - '0' as nat) as nat
    } else if 'a' <= c && c <= 'f' {
        (c as nat - 'a' as nat + 10) as nat
    } else {
        (c as nat - 'A' as nat + 10) as nat
    }
}

/// The characters `s[i..j]` read as a base-16 number.
pub open spec fn hex_value(s: Seq<char>, i: int, j: int) -> nat
    decreases j - i,
{
    if j <= i {
        0
    } else {
        hex_value(s, i, j - 1) * 16 + hex_digit_value(s[j - 1])
    }
}

/// The characters `s[i..j]` read as a base-10 number.
pub open spec fn dec_value(s: Seq<char>, i: int, j: int) -> nat
    decreases j - i,
{
    if j <= i {
        0
    } else {
        dec_value(s, i, j - 1) * 10 + (s[j - 1] as nat - '0' as nat) as nat
    }
}

pub open spec fn space0(s: Seq<char>, i: int) -> int {
    scan(s, i, CharClass::Space)
}

pub open spec fn space1(s: Seq<char>, i: int) -> Result<int, FailureV> {
    let j = scan(s, i, CharClass::Space);
    if j == i {
        Err(backtrack(i))
    } else {
        Ok(j)
    }
}

/// `\n` or `\r\n`.
pub open spec fn line_ending(s: Seq<char>, i: int) -> Result<int, FailureV> {
    if char_at(s, i, '\n') {
        Ok(i + 1)
    } else if char_at(s, i, '\r') && char_at(s, i + 1, '\n') {
        Ok(i + 2)
    } else {
        Err(backtrack(i))
    }
}

/// A line ending, or the end of the input.
pub open spec fn line_end_or_eof(s: Seq<char>, i: int) -> Result<int, FailureV> {
    match line_ending(s, i) {
        Ok(j) => Ok(j),
        Err(_) => if i == s.len() {
            Ok(i)
        } else {
            Err(backtrack(i))
        },
    }
}

/// Everything up to the next line ending or the end of the input; a carriage
/// return that is not followed by a line feed is refused.
pub open spec fn till_line_ending(s: Seq<char>, i: int) -> Result<int, FailureV> {
    let j = scan(s, i, CharClass::NotLineEnd);
    if char_at(s, j, '\r') && !char_at(s, j + 1, '\n') {
        Err(backtrack(j))
    } else {
        Ok(j)
    }
}

/// `;` and the rest of the line.
pub open spec fn comment(s: Seq<char>, i: int) -> Result<int, FailureV> {
    if char_at(s, i, ';') {
        till_line_ending(s, i + 1)
    } else {
        Err(backtrack(i))
    }
}

/// A line holding only a comment, an empty line, or a run of spaces.
pub open spec fn blank_line(s: Seq<char>, i: int) -> Result<int, FailureV> {
    let j = space0(s, i);
    let first = match comment(s, j) {
        Ok(k) => line_end_or_eof(s, k),
        Err(e) => Err(e),
    };
    match first {
        Ok(k) => Ok(k),
        Err(e1) => if e1.cut {
            Err(e1)
        } else {
            match line_ending(s, j) {
                Ok(k) => Ok(k),
                Err(e2) => if e2.cut {
                    Err(e2)
                } else {
                    space1(s, i)
                },
            }
        },
    }
}

/// Any number of blank lines.
pub open spec fn junk(s: Seq<char>, i: int) -> Result<int, FailureV>
    decreases s.len() - i,
{
    match blank_line(s, i) {
        Ok(j) => if i < j <= s.len() {
            junk(s, j)
        } else {
            Err(no_progress(j))
        },
        Err(e) => if e.cut {
            Err(e)
        } else {
            Ok(i)
        },
    }
}

/// One to sixteen hexadecimal digits; more than sixteen is refused.
pub open spec fn hex_uint(s: Seq<char>, i: int) -> Result<(u64, int), FailureV> {
    let j = scan(s, i, CharClass::HexDigit);
    if j == i || j - i > 16 {
        Err(backtrack(i))
    } else {
        Ok((hex_value(s, i, j) as u64, j))
    }
}

/// A decimal number without leading zeros (a lone `0` stops after the `0`);
/// one that does not fit in a `usize` is refused.
pub open spec fn dec_uint(s: Seq<char>, i: int) -> Result<(usize, int), FailureV> {
    if 0 <= i < s.len() && '1' <= s[i] && s[i] <= '9' {
        let j = scan(s, i + 1, CharClass::DecDigit);
        if dec_value(s, i, j) <= usize::MAX {
            Ok((dec_value(s, i, j) as usize, j))
        } else {
            Err(backtrack(i))
        }
    } else if char_at(s, i, '0') {
        Ok((0, i + 1))
    } else {
        Err(backtrack(i))
    }
}

/// `x` and a hexadecimal base, then optionally `+` and a hexadecimal offset.
pub open spec fn field_pos(s: Seq<char>, i: int) -> Result<(FieldPos, int), FailureV> {
    if !char_at(s, i, 'x') {
        Err(backtrack(i))
    } else {
        match hex_uint(s, i + 1) {
            Err(e) => Err(e),
            Ok((b, j)) => {
                let offset: Result<(Option<isize>, int), FailureV> = if char_at(s, j, '+') {
                    match hex_uint(s, j + 1) {
                        Ok((o, k)) => Ok((Some(o as isize), k)),
                        Err(e) => if e.cut {
                            Err(e)
                        } else {
                            Ok((None, j))
                        },
                    }
                } else {
                    Ok((None, j))
                };
                match offset {
                    Err(e) => Err(e),
                    Ok((o, k)) => Ok((FieldPos { base: b as isize, offset: o }, k)),
                }
            },
        }
    }
}

/// `t` at `j`, giving `v`.
pub open spec fn literal_value<T>(s: Seq<char>, j: int, t: Seq<char>, v: T) -> Result<
    (T, int),
    FailureV,
> {
    if literal_at(s, j, t) {
        Ok((v, j + t.len()))
    } else {
        Err(backtrack(j))
    }
}

/// The width after `i` or `u`: `8`, `16`, `32` or `64`.
pub open spec fn integer_type(s: Seq<char>, j: int, signed: bool) -> Result<
    (FieldType, int),
    FailureV,
> {
    if literal_at(s, j, seq!['8']) {
        Ok((FieldType::Int8 { signed }, j + 1))
    } else if literal_at(s, j, seq!['1', '6']) {
        Ok((FieldType::Int16 { signed }, j + 2))
    } else if literal_at(s, j, seq!['3', '2']) {
        Ok((FieldType::Int32 { signed }, j + 2))
    } else if literal_at(s, j, seq!['6', '4']) {
        Ok((FieldType::Int64 { signed }, j + 2))
    } else {
        Err(backtrack(j))
    }
}

/// `f32`, `vec4`/`Vec4`, `mat4`/`Mat4`, `bool`, `i8`..`i64`, `u8`..`u64`,
/// `addr`, `ptr`, `@motion_vectors`, or `[type; count]`. The first character
/// is consumed before the rest is checked.
pub open spec fn field_type(s: Seq<char>, i: int) -> Result<(FieldType, int), FailureV>
    decreases s.len() - i,
{
    let r: Result<(FieldType, int), FailureV> = if !(0 <= i < s.len()) {
        Err(backtrack(i))
    } else {
        let c = s[i];
        let j = i + 1;
        if c == 'f' {
            literal_value(s, j, seq!['3', '2'], FieldType::Float)
        } else if c == 'v' || c == 'V' {
            literal_value(s, j, seq!['e', 'c', '4'], FieldType::Vec4)
        } else if c == 'm' || c == 'M' {
            literal_value(s, j, seq!['a', 't', '4'], FieldType::Mat4)
        } else if c == 'b' {
            literal_value(s, j, seq!['o', 'o', 'l'], FieldType::Bool)
        } else if c == 'i' {
            integer_type(s, j, true)
        } else if c == 'u' {
            integer_type(s, j, false)
        } else if c == 'a' {
            literal_value(s, j, seq!['d', 'd', 'r'], FieldType::Address)
        } else if c == 'p' {
            literal_value(s, j, seq!['t', 'r'], FieldType::Address)
        } else if c == '@' {
            literal_value(
                s,
                j,
                seq!['m', 'o', 't', 'i', 'o', 'n', '_', 'v', 'e', 'c', 't', 'o', 'r', 's'],
                FieldType::MotionVectors,
            )
        } else if c == '[' {
            match field_type(s, j) {
                Err(e) => Err(e),
                Ok((t, k)) => if !char_at(s, k, ';') {
                    Err(backtrack(k))
                } else {
                    match dec_uint(s, space0(s, k + 1)) {
                        Err(e) => Err(e),
                        Ok((n, m)) => if char_at(s, m, ']') {
                            Ok((FieldType::Array(Box::new(t), n), m + 1))
                        } else {
                            Err(backtrack(m))
                        },
                    }
                },
            }
        } else {
            Err(backtrack(j))
        }
    };
    add_context(r, Context::Label(Label::FieldType))
}

/// The characters of a quoted string after its opening quote `q`, with `\\`
/// and `\q` standing for `\` and `q`; stops before `q`, a line feed, or the end.
pub open spec fn escaped_body(s: Seq<char>, k: int, q: char, acc: Seq<char>) -> Result<
    (Seq<char>, int),
    FailureV,
>
    decreases s.len() - k,
{
    if !(0 <= k < s.len()) {
        Ok((acc, k))
    } else {
        let c = s[k];
        if c != '\\' && c != q && c != '\n' {
            escaped_body(s, k + 1, q, acc.push(c))
        } else if c == '\\' {
            if k + 1 < s.len() && (s[k + 1] == '\\' || s[k + 1] == q) {
                escaped_body(s, k + 2, q, acc.push(s[k + 1]))
            } else {
                Err(backtrack(k + 1))
            }
        } else {
            Ok((acc, k))
        }
    }
}

/// A string quoted with `q`; any failure past the start is final.
pub open spec fn string_literal(s: Seq<char>, i: int, q: char) -> Result<
    (Seq<char>, int),
    FailureV,
> {
    make_cut(
        if !char_at(s, i, q) {
            Err(backtrack(i))
        } else {
            match escaped_body(s, i + 1, q, seq![]) {
                Err(e) => Err(e),
                Ok((v, k)) => if char_at(s, k, q) {
                    Ok((v, k + 1))
                } else {
                    Err(FailureV { cut: false, context: seq![Context::Expected(q)], pos: k })
                },
            }
        },
    )
}

/// A name quoted with `'` or `"`, or a run of characters up to `;`, a space or a line end.
pub open spec fn name(s: Seq<char>, i: int) -> Result<(Seq<char>, int), FailureV> {
    let r: Result<(Seq<char>, int), FailureV> = if !(0 <= i < s.len()) {
        Err(backtrack(i))
    } else if s[i] == '\'' {
        string_literal(s, i, '\'')
    } else if s[i] == '"' {
        string_literal(s, i, '"')
    } else {
        let j = scan(s, i, CharClass::NameChar);
        if j == i {
            Err(backtrack(i))
        } else {
            Ok((s.subrange(i, j), j))
        }
    };
    add_context(r, Context::Label(Label::FieldName))
}

/// The field's address followed by at least one space.
pub open spec fn field_address(s: Seq<char>, i: int) -> Result<(FieldPos, int), FailureV> {
    let r: Result<(FieldPos, int), FailureV> = match field_pos(s, i) {
        Err(e) => Err(e),
        Ok((p, j)) => match space1(s, j) {
            Err(e) => Err(e),
            Ok(k) => Ok((p, k)),
        },
    };
    add_context(r, Context::Label(Label::FieldAddress))
}

/// Spaces and a name, if they are there.
pub open spec fn optional_name(s: Seq<char>, k: int) -> Result<(Option<Seq<char>>, int), FailureV> {
    match space1(s, k) {
        Err(e) => if e.cut {
            Err(e)
        } else {
            Ok((None, k))
        },
        Ok(k2) => match name(s, k2) {
            Ok((n, k3)) => Ok((Some(n), k3)),
            Err(e) => if e.cut {
                Err(e)
            } else {
                Ok((None, k))
            },
        },
    }
}

/// Address, type, and an optional name.
pub open spec fn field(s: Seq<char>, i: int) -> Result<(FieldV, int), FailureV> {
    match field_address(s, i) {
        Err(e) => Err(e),
        Ok((p, j)) => match field_type(s, j) {
            Err(e) => Err(e),
            Ok((t, k)) => match optional_name(s, k) {
                Err(e) => Err(e),
                Ok((n, m)) => Ok((FieldV { position: p, field_type: t, name: n }, m)),
            },
        },
    }
}

/// A field line: leading spaces, the field (a failure in it is final), then
/// spaces, an optional comment, and the end of the line or of the input.
pub open spec fn field_line(s: Seq<char>, i: int) -> Result<(FieldV, int), FailureV> {
    let r: Result<(FieldV, int), FailureV> = match make_cut(field(s, space0(s, i))) {
        Err(e) => Err(e),
        Ok((f, k)) => {
            let k2 = space0(s, k);
            let k3: Result<int, FailureV> = match comment(s, k2) {
                Ok(x) => Ok(x),
                Err(e) => if e.cut {
                    Err(e)
                } else {
                    Ok(k2)
                },
            };
            match k3 {
                Err(e) => Err(e),
                Ok(k3) => match line_end_or_eof(s, k3) {
                    Ok(m) => Ok((f, m)),
                    Err(e) => Err(e),
                },
            }
        },
    };
    add_context(r, Context::Label(Label::Line))
}

/// Field lines, each followed by blank lines, up to a `[` or the end of the input.
pub open spec fn body(s: Seq<char>, i: int, acc: Seq<FieldV>) -> Result<
    (Seq<FieldV>, int),
    FailureV,
>
    decreases s.len() - i,
{
    if char_at(s, i, '[') || i == s.len() {
        Ok((acc, i))
    } else {
        match field_line(s, i) {
            Err(e) => Err(e),
            Ok((f, j)) => match junk(s, j) {
                Err(e) => Err(e),
                Ok(k) => if i < k <= s.len() {
                    body(s, k, acc.push(f))
                } else {
                    Err(no_progress(k))
                },
            },
        }
    }
}

/// Leading white space, then `[name]`.
pub open spec fn header(s: Seq<char>, i: int) -> Result<(Seq<char>, int), FailureV> {
    let k = scan(s, i, CharClass::Multispace);
    let r: Result<(Seq<char>, int), FailureV> = if !char_at(s, k, '[') {
        Err(backtrack(k))
    } else {
        let j = scan(s, k + 1, CharClass::NotCloseBracket);
        if j == k + 1 {
            Err(backtrack(k + 1))
        } else if !char_at(s, j, ']') {
            Err(backtrack(j))
        } else {
            Ok((s.subrange(k + 1, j), j + 1))
        }
    };
    add_context(r, Context::Label(Label::Header))
}

/// A header, its line ending, blank lines, and the section's body.
pub open spec fn section(s: Seq<char>, i: int) -> Result<((Seq<char>, Seq<FieldV>), int), FailureV> {
    match header(s, i) {
        Err(e) => Err(e),
        Ok((h, j)) => match line_ending(s, j) {
            Err(e) => Err(e),
            Ok(k) => match junk(s, k) {
                Err(e) => Err(e),
                Ok(k2) => match body(s, k2, seq![]) {
                    Err(e) => Err(e),
                    Ok((fs, m)) => Ok(((h, fs), m)),
                },
            },
        },
    }
}

pub open spec fn katamari_name() -> Seq<char> {
    seq!['k', 'a', 't', 'a', 'm', 'a', 'r', 'i']
}

pub open spec fn prince_name() -> Seq<char> {
    seq!['p', 'r', 'i', 'n', 'c', 'e']
}

pub open spec fn thing_name() -> Seq<char> {
    seq!['t', 'h', 'i', 'n', 'g']
}

pub open spec fn camera_name() -> Seq<char> {
    seq!['c', 'a', 'm', 'e', 'r', 'a']
}

pub open spec fn camera_transform_name() -> Seq<char> {
    seq!['c', 'a', 'm', 'e', 'r', 'a', '_', 't', 'r', 'a', 'n', 's', 'f', 'o', 'r', 'm']
}

pub open spec fn global_name() -> Seq<char> {
    seq!['g', 'l', 'o', 'b', 'a', 'l']
}

/// The file with a section's fields appended to the slot the section names;
/// `None` when the name is none of the six.
pub open spec fn add_section(d: DefinitionFileV, name: Seq<char>, fs: Seq<FieldV>) -> Option<
    DefinitionFileV,
> {
    if name == katamari_name() {
        Some(DefinitionFileV { katamari: d.katamari + fs, ..d })
    } else if name == prince_name() {
        Some(DefinitionFileV { prince: d.prince + fs, ..d })
    } else if name == thing_name() {
        Some(DefinitionFileV { thing: d.thing + fs, ..d })
    } else if name == camera_name() {
        Some(DefinitionFileV { camera: d.camera + fs, ..d })
    } else if name == camera_transform_name() {
        Some(DefinitionFileV { camera_transform: d.camera_transform + fs, ..d })
    } else if name == global_name() {
        Some(DefinitionFileV { global: d.global + fs, ..d })
    } else {
        None
    }
}

/// Sections from `i` on, added to `d` in order; stops before the first
/// thing that is not a section, and refuses a section with an unknown name.
pub open spec fn sections(s: Seq<char>, i: int, d: DefinitionFileV) -> Result<
    (DefinitionFileV, int),
    FailureV,
>
    decreases s.len() - i,
{
    match section(s, i) {
        Ok(((h, fs), j)) => if i < j <= s.len() {
            match add_section(d, h, fs) {
                Some(d2) => sections(s, j, d2),
                None => Err(backtrack(i)),
            }
        } else {
            Err(no_progress(j))
        },
        Err(e) => if e.cut {
            Err(e)
        } else {
            Ok((d, i))
        },
    }
}

/// `r`, required to have consumed the whole input.
pub open spec fn complete<T>(s: Seq<char>, r: Result<(T, int), FailureV>) -> Result<
    (T, int),
    FailureV,
> {
    match r {
        Ok((v, j)) => if j == s.len() {
            Ok((v, j))
        } else {
            Err(backtrack(j))
        },
        Err(e) => Err(e),
    }
}

/// A whole definition file.
pub open spec fn document(s: Seq<char>) -> Result<(DefinitionFileV, int), FailureV> {
    complete(s, sections(s, 0, empty_file()))
}

} // verus!

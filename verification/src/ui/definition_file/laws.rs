//! Properties of the definition-file grammar.

use vstd::prelude::*;

use super::grammar::{
    add_section, field_pos, header, camera_name, camera_transform_name, char_at, comment, dec_uint, dec_value,
    document, escaped_body, field, field_address, field_line, field_type, global_name,
    hex_digit_value, hex_uint, hex_value, in_class, katamari_name, literal_at, name,
    optional_name, prince_name, scan, section, space0, string_literal, thing_name, CharClass,
    Context, DefinitionFileV, FailureV, FieldV, Label,
};
use super::{outcome, FieldPos, FieldType};
use crate::text::{decimal, digit_char, numeral};

verus! {

/// The usual spelling of a field type: `f32`, `vec4`, `mat4`, `bool`,
/// `i8`..`i64`, `u8`..`u64`, `addr`, `@motion_vectors`, `[type; count]`.
pub open spec fn type_spelling(t: FieldType) -> Seq<char>
    decreases t,
{
    match t {
        FieldType::Float => seq!['f', '3', '2'],
        FieldType::Vec4 => seq!['v', 'e', 'c', '4'],
        FieldType::Mat4 => seq!['m', 'a', 't', '4'],
        FieldType::Bool => seq!['b', 'o', 'o', 'l'],
        FieldType::Int8 { signed } => seq![if signed { 'i' } else { 'u' }, '8'],
        FieldType::Int16 { signed } => seq![if signed { 'i' } else { 'u' }, '1', '6'],
        FieldType::Int32 { signed } => seq![if signed { 'i' } else { 'u' }, '3', '2'],
        FieldType::Int64 { signed } => seq![if signed { 'i' } else { 'u' }, '6', '4'],
        FieldType::Address => seq!['a', 'd', 'd', 'r'],
        FieldType::MotionVectors => seq![
            '@',
            'm',
            'o',
            't',
            'i',
            'o',
            'n',
            '_',
            'v',
            'e',
            'c',
            't',
            'o',
            'r',
            's',
        ],
        FieldType::Array(inner, n) => seq!['['] + type_spelling(*inner) + seq![';', ' '] + decimal(
            n as nat,
        ) + seq![']'],
    }
}

proof fn lemma_decimal_digit(d: nat)
    requires
        d < 10,
    ensures
        '0' <= digit_char(d, false) <= '9',
        digit_char(d, false) as nat - '0' as nat == d,
        d > 0 ==> '1' <= digit_char(d, false),
{
    let t = seq!['0', '1', '2', '3', '4', '5', '6', '7', '8', '9', 'a', 'b', 'c', 'd', 'e', 'f'];
    assert(digit_char(d, false) == t[d as int]);
    if d == 0 {
    } else if d == 1 {
    } else if d == 2 {
    } else if d == 3 {
    } else if d == 4 {
    } else if d == 5 {
    } else if d == 6 {
    } else if d == 7 {
    } else if d == 8 {
    } else {
        assert(d == 9);
    }
}

/// A decimal numeral is made of digits, starts with a non-zero digit unless
/// it is `0`, and reads back as its number.
proof fn lemma_decimal(n: nat, s: Seq<char>, k: int)
    requires
        0 <= k,
        k + decimal(n).len() <= s.len(),
        s.subrange(k, k + decimal(n).len()) == decimal(n),
    ensures
        decimal(n).len() >= 1,
        forall|m: int| k <= m < k + decimal(n).len() ==> in_class(#[trigger] s[m], CharClass::DecDigit),
        n == 0 ==> decimal(n) == seq!['0'],
        n > 0 ==> '1' <= s[k] <= '9',
        dec_value(s, k, k + decimal(n).len()) == n,
    decreases n,
{
    let len = decimal(n).len() as int;
    if n < 10 {
        lemma_decimal_digit(n);
        assert(decimal(n) == seq![digit_char(n, false)]);
        assert(s[k] == s.subrange(k, k + len)[0]);
        assert(dec_value(s, k, k) == 0);
    } else {
        let q = n / 10;
        let r = n % 10;
        assert(decimal(n) == decimal(q).push(digit_char(r, false)));
        let lq = decimal(q).len() as int;
        assert(s.subrange(k, k + lq) =~= s.subrange(k, k + len).take(lq));
        assert(decimal(n).take(lq) =~= decimal(q));
        lemma_decimal(q, s, k);
        lemma_decimal_digit(r);
        assert(s[k + lq] == s.subrange(k, k + len)[lq]);
        assert forall|m: int| k <= m < k + len implies in_class(#[trigger] s[m], CharClass::DecDigit) by {
            if m < k + lq {
            } else {
                assert(m == k + lq);
            }
        }
        assert(s[k] == s.subrange(k, k + lq)[0]);
        assert(n == q * 10 + r);
    }
}

/// Scanning from `i` stops at `j` when everything in between is in the
/// class and `j` is the end or outside it.
proof fn lemma_scan_stops(s: Seq<char>, i: int, j: int, cls: CharClass)
    requires
        0 <= i <= j <= s.len(),
        forall|m: int| i <= m < j ==> in_class(#[trigger] s[m], cls),
        j == s.len() || !in_class(s[j], cls),
    ensures
        scan(s, i, cls) == j,
    decreases j - i,
{
    if i < j {
        lemma_scan_stops(s, i + 1, j, cls);
    }
}

proof fn lemma_literal_type(s: Seq<char>, i: int, t: FieldType, lit: Seq<char>)
    requires
        0 <= i,
        i + type_spelling(t).len() <= s.len(),
        s.subrange(i, i + type_spelling(t).len()) == type_spelling(t),
        type_spelling(t) =~= seq![type_spelling(t)[0]] + lit,
    ensures
        s[i] == type_spelling(t)[0],
        literal_at(s, i + 1, lit),
        i + 1 + lit.len() == i + type_spelling(t).len(),
{
    let sp = type_spelling(t);
    assert(s[i] == sp.subrange(0, sp.len() as int)[0]);
    assert(sp.subrange(1, 1 + lit.len() as int) =~= lit);
    assert(s.subrange(i + 1, i + 1 + lit.len()) =~= sp.subrange(1, 1 + lit.len() as int));
}

proof fn lemma_plain_type_parses(t: FieldType, s: Seq<char>, i: int)
    requires
        !(t is Array),
        0 <= i,
        i + type_spelling(t).len() <= s.len(),
        s.subrange(i, i + type_spelling(t).len()) == type_spelling(t),
    ensures
        field_type(s, i) == Ok::<(FieldType, int), FailureV>((t, i + type_spelling(t).len())),
{
    let sp = type_spelling(t);
    match t {
        FieldType::Float => {
            lemma_literal_type(s, i, t, seq!['3', '2']);
        },
        FieldType::Vec4 => {
            lemma_literal_type(s, i, t, seq!['e', 'c', '4']);
        },
        FieldType::Mat4 => {
            lemma_literal_type(s, i, t, seq!['a', 't', '4']);
        },
        FieldType::Bool => {
            lemma_literal_type(s, i, t, seq!['o', 'o', 'l']);
        },
        FieldType::Address => {
            lemma_literal_type(s, i, t, seq!['d', 'd', 'r']);
        },
        FieldType::MotionVectors => {
            lemma_literal_type(
                s,
                i,
                t,
                seq!['m', 'o', 't', 'i', 'o', 'n', '_', 'v', 'e', 'c', 't', 'o', 'r', 's'],
            );
        },
        FieldType::Int8 { signed } => {
            lemma_literal_type(s, i, t, seq!['8']);
        },
        FieldType::Int16 { signed } => {
            lemma_literal_type(s, i, t, seq!['1', '6']);
            assert(s[i + 1] == seq!['1', '6'][0]);
        },
        FieldType::Int32 { signed } => {
            lemma_literal_type(s, i, t, seq!['3', '2']);
            assert(s[i + 1] == seq!['3', '2'][0]);
        },
        FieldType::Int64 { signed } => {
            lemma_literal_type(s, i, t, seq!['6', '4']);
            assert(s[i + 1] == seq!['6', '4'][0]);
        },
        FieldType::Array(..) => {},
    }
}

/// Every field type's spelling reads back as that type, wherever it
/// stands and whatever follows it.
pub proof fn lemma_type_spelling_parses(t: FieldType, s: Seq<char>, i: int)
    requires
        0 <= i,
        i + type_spelling(t).len() <= s.len(),
        s.subrange(i, i + type_spelling(t).len()) == type_spelling(t),
    ensures
        field_type(s, i) == Ok::<(FieldType, int), FailureV>((t, i + type_spelling(t).len())),
    decreases t, 0nat,
{
    match t {
        FieldType::Array(inner, n) => {
            lemma_array_type_parses(*inner, n, s, i);
        },
        _ => {
            lemma_plain_type_parses(t, s, i);
        },
    }
}

#[verifier::rlimit(60)]
#[verifier::spinoff_prover]
proof fn lemma_array_type_parses(inner: FieldType, n: usize, s: Seq<char>, i: int)
    requires
        0 <= i,
        i + type_spelling(FieldType::Array(Box::new(inner), n)).len() <= s.len(),
        s.subrange(i, i + type_spelling(FieldType::Array(Box::new(inner), n)).len())
            == type_spelling(FieldType::Array(Box::new(inner), n)),
    ensures
        field_type(s, i) == Ok::<(FieldType, int), FailureV>(
            (
                FieldType::Array(Box::new(inner), n),
                i + type_spelling(FieldType::Array(Box::new(inner), n)).len(),
            ),
        ),
    decreases inner, 1nat,
{
    let t = FieldType::Array(Box::new(inner), n);
    let sp = type_spelling(t);
    let spi = type_spelling(inner);
    let li = spi.len() as int;
    let d = decimal(n as nat);
    assert(sp == seq!['['] + spi + seq![';', ' '] + d + seq![']']);
    assert(s[i] == sp.subrange(0, sp.len() as int)[0]);
    assert(s.subrange(i + 1, i + 1 + li) =~= sp.subrange(1, 1 + li));
    assert(sp.subrange(1, 1 + li) =~= spi);
    lemma_type_spelling_parses(inner, s, i + 1);
    let k = i + 1 + li;
    assert(s[k] == sp.subrange(0, sp.len() as int)[1 + li]);
    assert(s[k + 1] == sp.subrange(0, sp.len() as int)[2 + li]);
    let dk = k + 2;
    assert(s.subrange(dk, dk + d.len()) =~= sp.subrange(li + 3, li + 3 + d.len()));
    assert(sp.subrange(li + 3, li + 3 + d.len()) =~= d);
    lemma_decimal(n as nat, s, dk);
    lemma_scan_stops(s, k + 1, dk, CharClass::Space);
    let m = dk + d.len();
    assert(s[m] == sp.subrange(0, sp.len() as int)[sp.len() - 1]);
    if n > 0 {
        lemma_scan_stops(s, dk + 1, m, CharClass::DecDigit);
    } else {
        assert(s[dk] == d[0]);
    }
    assert(dec_uint(s, dk) == Ok::<(usize, int), FailureV>((n, m)));
}

/// The six section names a definition file may use.
pub open spec fn known_section(n: Seq<char>) -> bool {
    n == katamari_name() || n == prince_name() || n == thing_name() || n == camera_name() || n
        == camera_transform_name() || n == global_name()
}

/// A section is accepted exactly when its name is one of the six known ones.
pub proof fn lemma_known_sections(d: DefinitionFileV, n: Seq<char>, fs: Seq<FieldV>)
    ensures
        add_section(d, n, fs) is Some <==> known_section(n),
{
}

/// Two sections with the same name add up to one section holding the first
/// one's fields followed by the second one's.
pub proof fn lemma_same_section_concatenates(
    d: DefinitionFileV,
    n: Seq<char>,
    a: Seq<FieldV>,
    b: Seq<FieldV>,
)
    requires
        known_section(n),
    ensures
        add_section(add_section(d, n, a)->0, n, b) == add_section(d, n, a + b),
{
    let r1 = add_section(add_section(d, n, a)->0, n, b)->0;
    let r2 = add_section(d, n, a + b)->0;
    assert(d.katamari + a + b =~= d.katamari + (a + b));
    assert(d.prince + a + b =~= d.prince + (a + b));
    assert(d.thing + a + b =~= d.thing + (a + b));
    assert(d.camera + a + b =~= d.camera + (a + b));
    assert(d.camera_transform + a + b =~= d.camera_transform + (a + b));
    assert(d.global + a + b =~= d.global + (a + b));
    assert(r1 =~= r2);
}

/// Sections with different names do not affect each other: they can be
/// added in either order.
pub proof fn lemma_different_sections_commute(
    d: DefinitionFileV,
    n1: Seq<char>,
    a: Seq<FieldV>,
    n2: Seq<char>,
    b: Seq<FieldV>,
)
    requires
        known_section(n1),
        known_section(n2),
        n1 != n2,
    ensures
        add_section(add_section(d, n1, a)->0, n2, b) == add_section(add_section(d, n2, b)->0, n1, a),
{
    let r1 = add_section(add_section(d, n1, a)->0, n2, b)->0;
    let r2 = add_section(add_section(d, n2, b)->0, n1, a)->0;
    assert(r1 =~= r2);
}

/// A file whose first section has an unknown name is refused.
pub proof fn lemma_unknown_first_section_refused(s: Seq<char>)
    requires
        section(s, 0) is Ok,
        0 < (section(s, 0)->Ok_0).1 <= s.len(),
        !known_section(((section(s, 0)->Ok_0).0).0),
    ensures
        document(s) is Err,
{
    let ((h, fs), j) = section(s, 0)->Ok_0;
    lemma_known_sections(super::grammar::empty_file(), h, fs);
}

/// A line whose first character after its leading spaces is not the `x` of
/// an address is refused for good, at that character, as a bad field
/// address within a line.
pub proof fn lemma_line_needs_address(s: Seq<char>, i: int)
    requires
        0 <= i,
        !char_at(s, space0(s, i), 'x'),
    ensures
        field_line(s, i) == Err::<(FieldV, int), FailureV>(
            FailureV {
                cut: true,
                context: seq![Context::Label(Label::FieldAddress), Context::Label(Label::Line)],
                pos: space0(s, i),
            },
        ),
{
    let r = field_line(s, i);
    assert(r is Err);
    assert(r->Err_0.context =~= seq![Context::Label(Label::FieldAddress), Context::Label(Label::Line)]);
}

/// A quoted string whose closing quote is missing on its line is refused for
/// good where the line (or the input) ends, expecting the quote.
pub proof fn lemma_unterminated_quote(s: Seq<char>, i: int, q: char, e: int)
    requires
        char_at(s, i, q),
        q != '\\',
        q != '\n',
        i < e <= s.len(),
        e == s.len() || s[e] == '\n',
        forall|k: int| i < k < e ==> s[k] != q && s[k] != '\\' && s[k] != '\n',
    ensures
        string_literal(s, i, q) == Err::<(Seq<char>, int), FailureV>(
            FailureV { cut: true, context: seq![Context::Expected(q)], pos: e },
        ),
{
    lemma_escaped_body_runs(s, i + 1, q, e, seq![]);
    let v = (escaped_body(s, i + 1, q, seq![])->Ok_0).0;
    assert(escaped_body(s, i + 1, q, seq![]) == Ok::<(Seq<char>, int), FailureV>((v, e)));
}

proof fn lemma_escaped_body_runs(s: Seq<char>, k: int, q: char, e: int, acc: Seq<char>)
    requires
        0 <= k <= e <= s.len(),
        e == s.len() || s[e] == '\n',
        forall|m: int| k <= m < e ==> s[m] != q && s[m] != '\\' && s[m] != '\n',
    ensures
        escaped_body(s, k, q, acc) is Ok,
        (escaped_body(s, k, q, acc)->Ok_0).1 == e,
    decreases e - k,
{
    if k < e {
        lemma_escaped_body_runs(s, k + 1, q, e, acc.push(s[k]));
    }
}

/// A name that opens with a quote and lacks the closing one on its line is
/// refused for good as an invalid field name, expecting that quote.
pub proof fn lemma_unterminated_name(s: Seq<char>, i: int, e: int)
    requires
        char_at(s, i, '"') || char_at(s, i, '\''),
        i < e <= s.len(),
        e == s.len() || s[e] == '\n',
        forall|k: int| i < k < e ==> s[k] != s[i] && s[k] != '\\' && s[k] != '\n',
    ensures
        name(s, i) == Err::<(Seq<char>, int), FailureV>(
            FailureV {
                cut: true,
                context: seq![Context::Expected(s[i]), Context::Label(Label::FieldName)],
                pos: e,
            },
        ),
{
    lemma_unterminated_quote(s, i, s[i], e);
    let r = name(s, i);
    assert(r->Err_0.context =~= seq![Context::Expected(s[i]), Context::Label(Label::FieldName)]);
}

/// Every hexadecimal digit, upper or lower case, is a hexadecimal digit
/// character and reads as its value: `A`-`F` and `a`-`f` as 10 to 15.
pub proof fn lemma_hex_digit(d: nat, upper: bool)
    requires
        d < 16,
    ensures
        in_class(digit_char(d, upper), CharClass::HexDigit),
        hex_digit_value(digit_char(d, upper)) == d,
{
    let t = if upper {
        seq!['0', '1', '2', '3', '4', '5', '6', '7', '8', '9', 'A', 'B', 'C', 'D', 'E', 'F']
    } else {
        seq!['0', '1', '2', '3', '4', '5', '6', '7', '8', '9', 'a', 'b', 'c', 'd', 'e', 'f']
    };
    assert(digit_char(d, upper) == t[d as int]);
    if d < 8 {
        if d == 0 {
        } else if d == 1 {
        } else if d == 2 {
        } else if d == 3 {
        } else if d == 4 {
        } else if d == 5 {
        } else if d == 6 {
        } else {
            assert(d == 7);
        }
    } else {
        if d == 8 {
        } else if d == 9 {
        } else if d == 10 {
        } else if d == 11 {
        } else if d == 12 {
        } else if d == 13 {
        } else if d == 14 {
        } else {
            assert(d == 15);
        }
    }
}

/// A hexadecimal numeral, in upper or lower case, is made of hexadecimal
/// digits, has at most `w` digits for a number under `16^w`, and reads back
/// as its number.
pub proof fn lemma_hex(n: nat, s: Seq<char>, k: int, w: nat, upper: bool)
    requires
        0 <= k,
        k + numeral(n, 16, upper).len() <= s.len(),
        s.subrange(k, k + numeral(n, 16, upper).len()) == numeral(n, 16, upper),
        n < pow16(w),
    ensures
        1 <= numeral(n, 16, upper).len() <= if w == 0 { 1 } else { w },
        forall|m: int|
            k <= m < k + numeral(n, 16, upper).len() ==> in_class(
                #[trigger] s[m],
                CharClass::HexDigit,
            ),
        hex_value(s, k, k + numeral(n, 16, upper).len()) == n,
    decreases n,
{
    let len = numeral(n, 16, upper).len() as int;
    if n < 16 {
        lemma_hex_digit(n, upper);
        assert(numeral(n, 16, upper) == seq![digit_char(n, upper)]);
        assert(s[k] == s.subrange(k, k + len)[0]);
        assert(hex_value(s, k, k) == 0);
    } else {
        let q = n / 16;
        let r = n % 16;
        assert(w > 0) by {
            if w == 0 {
                assert(pow16(0) == 1);
            }
        }
        assert(pow16(w) == 16 * pow16((w - 1) as nat));
        assert(q < pow16((w - 1) as nat)) by (nonlinear_arith)
            requires
                n < 16 * pow16((w - 1) as nat),
                q == n / 16,
        ;
        assert(q >= 1);
        assert(w - 1 >= 1) by {
            if w == 1 {
                assert(pow16(0) == 1);
            }
        }
        assert(numeral(n, 16, upper) == numeral(q, 16, upper).push(digit_char(r, upper)));
        let lq = numeral(q, 16, upper).len() as int;
        assert(s.subrange(k, k + lq) =~= s.subrange(k, k + len).take(lq));
        assert(numeral(n, 16, upper).take(lq) =~= numeral(q, 16, upper));
        lemma_hex(q, s, k, (w - 1) as nat, upper);
        lemma_hex_digit(r, upper);
        assert(s[k + lq] == s.subrange(k, k + len)[lq]);
        assert forall|m: int|
            k <= m < k + len implies in_class(#[trigger] s[m], CharClass::HexDigit) by {
            if m < k + lq {
            } else {
                assert(m == k + lq);
            }
        }
        assert(n == q * 16 + r);
    }
}

/// `16^w`.
pub open spec fn pow16(w: nat) -> nat
    decreases w,
{
    if w == 0 {
        1
    } else {
        16 * pow16((w - 1) as nat)
    }
}

proof fn lemma_u64_below_pow16(n: u64)
    ensures
        (n as nat) < pow16(16),
{
    reveal_with_fuel(pow16, 17);
    assert(pow16(16) == 0x1_0000_0000_0000_0000nat);
}

/// A name written without quotes: at least one character, none of which ends
/// a name, not opening with a quote or a tab.
pub open spec fn plain_name(n: Seq<char>) -> bool {
    &&& n.len() > 0
    &&& forall|m: int|
        0 <= m < n.len() ==> #[trigger] n[m] != ';' && n[m] != ' ' && n[m] != '\r' && n[m] != '\n'
    &&& n[0] != '\'' && n[0] != '"' && n[0] != '\t'
}

/// A named field line: `x`, the base in hexadecimal with upper- or
/// lower-case digits, a space, the type, a space, and the name.
pub open spec fn line_spelled_in(base: u64, t: FieldType, n: Seq<char>, upper: bool) -> Seq<char> {
    seq!['x'] + numeral(base as nat, 16, upper) + seq![' '] + type_spelling(t) + seq![' '] + n
}

/// The usual spelling of a named field line: `x`, the base in lower-case
/// hexadecimal, a space, the type, a space, and the name.
pub open spec fn line_spelling(base: u64, t: FieldType, n: Seq<char>) -> Seq<char> {
    line_spelled_in(base, t, n, false)
}

/// What the field line spelled out for `base`, `t` and `n` reads as.
pub open spec fn spelled_field(base: u64, t: FieldType, n: Seq<char>) -> FieldV {
    FieldV { position: FieldPos { base: base as isize, offset: None }, field_type: t, name: Some(n) }
}

proof fn lemma_address_reads(base: u64, s: Seq<char>, i: int, j: int, upper: bool)
    requires
        0 <= i,
        j == i + 1 + numeral(base as nat, 16, upper).len(),
        j + 1 < s.len(),
        s[i] == 'x',
        s.subrange(i + 1, j) == numeral(base as nat, 16, upper),
        s[j] == ' ',
        s[j + 1] != ' ' && s[j + 1] != '\t',
    ensures
        field_address(s, i) == Ok::<(FieldPos, int), FailureV>(
            (FieldPos { base: base as isize, offset: None }, j + 1),
        ),
{
    lemma_u64_below_pow16(base);
    lemma_hex(base as nat, s, i + 1, 16, upper);
    lemma_scan_stops(s, i + 1, j, CharClass::HexDigit);
    assert(hex_uint(s, i + 1) == Ok::<(u64, int), FailureV>((base, j)));
    lemma_scan_stops(s, j, j + 1, CharClass::Space);
}

proof fn lemma_name_reads(n: Seq<char>, s: Seq<char>, k: int, e: int)
    requires
        plain_name(n),
        0 <= k,
        e == k + 1 + n.len(),
        e <= s.len(),
        s[k] == ' ',
        s.subrange(k + 1, e) == n,
        e == s.len() || s[e] == '\n',
    ensures
        optional_name(s, k) == Ok::<(Option<Seq<char>>, int), FailureV>((Some(n), e)),
{
    assert(s[k + 1] == s.subrange(k + 1, e)[0]);
    lemma_scan_stops(s, k, k + 1, CharClass::Space);
    assert forall|m: int| k + 1 <= m < e implies in_class(#[trigger] s[m], CharClass::NameChar) by {
        assert(s[m] == s.subrange(k + 1, e)[m - k - 1]);
    }
    lemma_scan_stops(s, k + 1, e, CharClass::NameChar);
    assert(name(s, k + 1) == Ok::<(Seq<char>, int), FailureV>((n, e)));
}

proof fn lemma_line_tail(f: FieldV, s: Seq<char>, i: int, e: int)
    requires
        0 <= i < e <= s.len(),
        s[i] == 'x',
        field(s, i) == Ok::<(FieldV, int), FailureV>((f, e)),
        e == s.len() || s[e] == '\n',
    ensures
        field_line(s, i) == Ok::<(FieldV, int), FailureV>(
            (f, if e == s.len() { s.len() as int } else { e + 1 }),
        ),
{
    lemma_scan_stops(s, i, i, CharClass::Space);
    lemma_scan_stops(s, e, e, CharClass::Space);
    assert(comment(s, e) is Err && !comment(s, e)->Err_0.cut);
}

#[verifier::spinoff_prover]
proof fn lemma_field_line_round_trip_in(
    base: u64,
    t: FieldType,
    n: Seq<char>,
    s: Seq<char>,
    i: int,
    upper: bool,
)
    requires
        plain_name(n),
        0 <= i,
        i + line_spelled_in(base, t, n, upper).len() <= s.len(),
        s.subrange(i, i + line_spelled_in(base, t, n, upper).len()) == line_spelled_in(base, t, n, upper),
        i + line_spelled_in(base, t, n, upper).len() == s.len() || s[i + line_spelled_in(base, t, n, upper).len()]
            == '\n',
    ensures
        field_line(s, i) == Ok::<(FieldV, int), FailureV>(
            (
                spelled_field(base, t, n),
                if i + line_spelled_in(base, t, n, upper).len() == s.len() {
                    s.len() as int
                } else {
                    i + line_spelled_in(base, t, n, upper).len() + 1
                },
            ),
        ),
{
    let line = line_spelled_in(base, t, n, upper);
    let hd = numeral(base as nat, 16, upper);
    let ts = type_spelling(t);
    let e = i + line.len();
    let hl = hd.len() as int;
    let tl = ts.len() as int;
    let j = i + 1 + hl;
    let k = j + 1 + tl;
    let window = s.subrange(i, e);
    assert(line.len() == 1 + hl + 1 + tl + 1 + n.len());
    assert(line.subrange(1, 1 + hl) =~= hd);
    assert(line.subrange(2 + hl, 2 + hl + tl) =~= ts);
    assert(line.subrange(3 + hl + tl, line.len() as int) =~= n);
    assert(s.subrange(i + 1, j) =~= window.subrange(1, 1 + hl));
    assert(s.subrange(j + 1, k) =~= window.subrange(2 + hl, 2 + hl + tl));
    assert(s.subrange(k + 1, e) =~= window.subrange(3 + hl + tl, line.len() as int));
    assert(s[i] == window[0]);
    assert(line[0] == 'x');
    assert(s[j] == window[1 + hl]);
    assert(line[1 + hl] == ' ');
    assert(s[k] == window[2 + hl + tl]);
    assert(line[2 + hl + tl] == ' ');
    assert(s[j + 1] == ts[0]) by {
        assert(s[j + 1] == s.subrange(j + 1, k)[0]);
    }
    assert(ts[0] != ' ' && ts[0] != '\t') by {
        reveal_with_fuel(type_spelling, 1);
    }
    lemma_address_reads(base, s, i, j, upper);
    lemma_type_spelling_parses(t, s, j + 1);
    lemma_name_reads(n, s, k, e);
    assert(field(s, i) == Ok::<(FieldV, int), FailureV>((spelled_field(base, t, n), e)));
    lemma_line_tail(spelled_field(base, t, n), s, i, e);
}

/// A field line in its usual spelling reads back as the field it spells,
/// ending at the end of the input or just after the line feed that ends it.
pub proof fn lemma_field_line_round_trip(base: u64, t: FieldType, n: Seq<char>, s: Seq<char>, i: int)
    requires
        plain_name(n),
        0 <= i,
        i + line_spelling(base, t, n).len() <= s.len(),
        s.subrange(i, i + line_spelling(base, t, n).len()) == line_spelling(base, t, n),
        i + line_spelling(base, t, n).len() == s.len() || s[i + line_spelling(base, t, n).len()]
            == '\n',
    ensures
        field_line(s, i) == Ok::<(FieldV, int), FailureV>(
            (
                spelled_field(base, t, n),
                if i + line_spelling(base, t, n).len() == s.len() {
                    s.len() as int
                } else {
                    i + line_spelling(base, t, n).len() + 1
                },
            ),
        ),
{
    lemma_field_line_round_trip_in(base, t, n, s, i, false);
}

/// Parsing exactly a field line in its usual spelling, as `parse_line`
/// does, gives back the field it spells.
pub proof fn lemma_parse_line_round_trip(base: u64, t: FieldType, n: Seq<char>)
    requires
        plain_name(n),
    ensures
        outcome(line_spelling(base, t, n), field_line(line_spelling(base, t, n), 0))
            == Ok::<FieldV, super::ParseErrorV>(spelled_field(base, t, n)),
{
    let s = line_spelling(base, t, n);
    assert(s.subrange(0, s.len() as int) =~= s);
    lemma_field_line_round_trip(base, t, n, s, 0);
}

/// Hexadecimal digits of an address are read without regard to case: a
/// field line whose base is written with upper-case digits (`x10EB18`) parses
/// to the same field as the one written with lower-case digits (`x10eb18`),
/// the base being the number the digits spell.
pub proof fn lemma_upper_case_line_round_trip(base: u64, t: FieldType, n: Seq<char>)
    requires
        plain_name(n),
    ensures
        outcome(line_spelled_in(base, t, n, true), field_line(line_spelled_in(base, t, n, true), 0))
            == Ok::<FieldV, super::ParseErrorV>(spelled_field(base, t, n)),
        outcome(line_spelled_in(base, t, n, true), field_line(line_spelled_in(base, t, n, true), 0))
            == outcome(line_spelling(base, t, n), field_line(line_spelling(base, t, n), 0)),
{
    let s = line_spelled_in(base, t, n, true);
    assert(s.subrange(0, s.len() as int) =~= s);
    lemma_field_line_round_trip_in(base, t, n, s, 0, true);
    lemma_parse_line_round_trip(base, t, n);
}

/// Each of the six section names adds its fields, after those already
/// there, to the part of the file of the same name, and leaves the other five
/// parts as they were: `[katamari]`, `[prince]`, `[thing]`, `[camera]`,
/// `[camera_transform]` and `[global]`.
pub proof fn lemma_sections_fill_their_own_part(d: DefinitionFileV, fs: Seq<FieldV>)
    ensures
        add_section(d, seq!['k', 'a', 't', 'a', 'm', 'a', 'r', 'i'], fs) == Some(
            DefinitionFileV {
                katamari: d.katamari + fs,
                prince: d.prince,
                thing: d.thing,
                camera: d.camera,
                camera_transform: d.camera_transform,
                global: d.global,
            },
        ),
        add_section(d, seq!['p', 'r', 'i', 'n', 'c', 'e'], fs) == Some(
            DefinitionFileV {
                katamari: d.katamari,
                prince: d.prince + fs,
                thing: d.thing,
                camera: d.camera,
                camera_transform: d.camera_transform,
                global: d.global,
            },
        ),
        add_section(d, seq!['t', 'h', 'i', 'n', 'g'], fs) == Some(
            DefinitionFileV {
                katamari: d.katamari,
                prince: d.prince,
                thing: d.thing + fs,
                camera: d.camera,
                camera_transform: d.camera_transform,
                global: d.global,
            },
        ),
        add_section(d, seq!['c', 'a', 'm', 'e', 'r', 'a'], fs) == Some(
            DefinitionFileV {
                katamari: d.katamari,
                prince: d.prince,
                thing: d.thing,
                camera: d.camera + fs,
                camera_transform: d.camera_transform,
                global: d.global,
            },
        ),
        add_section(
            d,
            seq!['c', 'a', 'm', 'e', 'r', 'a', '_', 't', 'r', 'a', 'n', 's', 'f', 'o', 'r', 'm'],
            fs,
        ) == Some(
            DefinitionFileV {
                katamari: d.katamari,
                prince: d.prince,
                thing: d.thing,
                camera: d.camera,
                camera_transform: d.camera_transform + fs,
                global: d.global,
            },
        ),
        add_section(d, seq!['g', 'l', 'o', 'b', 'a', 'l'], fs) == Some(
            DefinitionFileV {
                katamari: d.katamari,
                prince: d.prince,
                thing: d.thing,
                camera: d.camera,
                camera_transform: d.camera_transform,
                global: d.global + fs,
            },
        ),
{
    let names = seq![
        seq!['k', 'a', 't', 'a', 'm', 'a', 'r', 'i'],
        seq!['p', 'r', 'i', 'n', 'c', 'e'],
        seq!['t', 'h', 'i', 'n', 'g'],
        seq!['c', 'a', 'm', 'e', 'r', 'a'],
        seq!['c', 'a', 'm', 'e', 'r', 'a', '_', 't', 'r', 'a', 'n', 's', 'f', 'o', 'r', 'm'],
        seq!['g', 'l', 'o', 'b', 'a', 'l'],
    ];
    assert(names[0] =~= katamari_name());
    assert(names[1] =~= prince_name());
    assert(names[2] =~= thing_name());
    assert(names[3] =~= camera_name());
    assert(names[4] =~= camera_transform_name());
    assert(names[5] =~= global_name());
}

/// `n` written inside quotes `q`: every `q` and every backslash gets a
/// backslash in front.
pub open spec fn escaped(n: Seq<char>, q: char) -> Seq<char>
    decreases n.len(),
{
    if n.len() == 0 {
        seq![]
    } else {
        (if n[0] == q || n[0] == '\\' {
            seq!['\\', n[0]]
        } else {
            seq![n[0]]
        }) + escaped(n.drop_first(), q)
    }
}

proof fn lemma_escaped_body_reads(s: Seq<char>, k: int, q: char, n: Seq<char>, acc: Seq<char>)
    requires
        q != '\\',
        q != '\n',
        0 <= k,
        k + escaped(n, q).len() < s.len(),
        s.subrange(k, k + escaped(n, q).len()) == escaped(n, q),
        s[k + escaped(n, q).len()] == q,
        forall|m: int| 0 <= m < n.len() ==> #[trigger] n[m] != '\n',
    ensures
        escaped_body(s, k, q, acc) == Ok::<(Seq<char>, int), FailureV>(
            (acc + n, k + escaped(n, q).len()),
        ),
    decreases n.len(),
{
    let e = escaped(n, q);
    let end = k + e.len();
    if n.len() == 0 {
        assert(acc + n =~= acc);
    } else {
        let c = n[0];
        let rest = n.drop_first();
        let head: Seq<char> = if c == q || c == '\\' {
            seq!['\\', c]
        } else {
            seq![c]
        };
        assert(e == head + escaped(rest, q));
        let w = head.len() as int;
        assert(s[k] == s.subrange(k, end)[0]);
        assert(s.subrange(k + w, k + w + escaped(rest, q).len()) =~= s.subrange(k, end).subrange(
            w,
            e.len() as int,
        ));
        assert(s.subrange(k, end).subrange(w, e.len() as int) =~= escaped(rest, q));
        assert forall|m: int| 0 <= m < rest.len() implies #[trigger] rest[m] != '\n' by {
            assert(rest[m] == n[m + 1]);
        }
        assert(acc.push(c) + rest =~= acc + n);
        if c == q || c == '\\' {
            assert(s[k + 1] == s.subrange(k, end)[1]);
            lemma_escaped_body_reads(s, k + 2, q, rest, acc.push(c));
        } else {
            assert(c != '\n');
            lemma_escaped_body_reads(s, k + 1, q, rest, acc.push(c));
        }
    }
}

/// A name written in quotes, with its quotes and backslashes escaped, reads
/// back as the name: any characters but a line feed, and the text after the
/// closing quote is where reading goes on.
pub proof fn lemma_quoted_name_reads(n: Seq<char>, q: char, s: Seq<char>, i: int)
    requires
        q == '\'' || q == '"',
        forall|m: int| 0 <= m < n.len() ==> #[trigger] n[m] != '\n',
        0 <= i,
        i + escaped(n, q).len() + 2 <= s.len(),
        s[i] == q,
        s.subrange(i + 1, i + 1 + escaped(n, q).len()) == escaped(n, q),
        s[i + 1 + escaped(n, q).len()] == q,
    ensures
        name(s, i) == Ok::<(Seq<char>, int), FailureV>((n, i + escaped(n, q).len() + 2)),
{
    lemma_escaped_body_reads(s, i + 1, q, n, seq![]);
    assert(seq![] + n =~= n);
}

/// An address with an offset, `x<base>+<offset>` in hexadecimal (either
/// case), reads as that base and offset, wherever it stands and whatever
/// follows it other than a hexadecimal digit.
pub proof fn lemma_address_with_offset_reads(
    base: u64,
    off: u64,
    s: Seq<char>,
    i: int,
    upper: bool,
)
    requires
        0 <= i,
        i + 2 + numeral(base as nat, 16, upper).len() + numeral(off as nat, 16, upper).len()
            <= s.len(),
        s[i] == 'x',
        s.subrange(i + 1, i + 1 + numeral(base as nat, 16, upper).len()) == numeral(
            base as nat,
            16,
            upper,
        ),
        s[i + 1 + numeral(base as nat, 16, upper).len()] == '+',
        s.subrange(
            i + 2 + numeral(base as nat, 16, upper).len(),
            i + 2 + numeral(base as nat, 16, upper).len() + numeral(off as nat, 16, upper).len(),
        ) == numeral(off as nat, 16, upper),
        ({
            let e = i + 2 + numeral(base as nat, 16, upper).len() + numeral(
                off as nat,
                16,
                upper,
            ).len();
            e == s.len() || !in_class(s[e], CharClass::HexDigit)
        }),
    ensures
        field_pos(s, i) == Ok::<(FieldPos, int), FailureV>(
            (
                FieldPos { base: base as isize, offset: Some(off as isize) },
                i + 2 + numeral(base as nat, 16, upper).len() + numeral(off as nat, 16, upper).len(),
            ),
        ),
{
    let j = i + 1 + numeral(base as nat, 16, upper).len();
    let e = j + 1 + numeral(off as nat, 16, upper).len();
    lemma_u64_below_pow16(base);
    lemma_u64_below_pow16(off);
    lemma_hex(base as nat, s, i + 1, 16, upper);
    lemma_hex(off as nat, s, j + 1, 16, upper);
    lemma_scan_stops(s, i + 1, j, CharClass::HexDigit);
    lemma_scan_stops(s, j + 1, e, CharClass::HexDigit);
    assert(hex_uint(s, i + 1) == Ok::<(u64, int), FailureV>((base, j)));
    assert(hex_uint(s, j + 1) == Ok::<(u64, int), FailureV>((off, e)));
}

/// A section header `[name]` at the start of a line (after any white space)
/// reads as its name: any non-empty text without `]`.
pub proof fn lemma_header_reads(h: Seq<char>, s: Seq<char>, i: int)
    requires
        h.len() > 0,
        forall|m: int| 0 <= m < h.len() ==> #[trigger] h[m] != ']',
        0 <= i,
        i + h.len() + 2 <= s.len(),
        s[i] == '[',
        s.subrange(i + 1, i + 1 + h.len()) == h,
        s[i + 1 + h.len()] == ']',
    ensures
        header(s, i) == Ok::<(Seq<char>, int), FailureV>((h, i + h.len() + 2)),
{
    lemma_scan_stops(s, i, i, CharClass::Multispace);
    assert forall|m: int| i + 1 <= m < i + 1 + h.len() implies in_class(
        #[trigger] s[m],
        CharClass::NotCloseBracket,
    ) by {
        assert(s[m] == s.subrange(i + 1, i + 1 + h.len())[m - i - 1]);
    }
    lemma_scan_stops(s, i + 1, i + 1 + h.len(), CharClass::NotCloseBracket);
}

} // verus!

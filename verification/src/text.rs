//! Building strings: characters, decimal and hexadecimal numerals.

use vstd::prelude::*;
use vstd::utf8::{encode_scalar, encode_utf8};

verus! {

/// Appends `c` to `s` by calling std's `String::push`. Trusted, not proved:
/// the contract claims what std documents of that call, that the string's
/// characters afterwards are the ones before followed by `c`.
#[verifier::external_body]
pub(crate) fn push_char(s: &mut String, c: char)
    ensures
        final(s)@ == old(s)@.push(c),
{
    s.push(c);
}

/// The characters of `input`, in order.
pub fn chars_of(input: &str) -> (v: Vec<char>)
    ensures
        v@ == input@,
{
    broadcast use vstd::string::group_string_axioms;

    let mut v: Vec<char> = Vec::new();
    for c in it: input.chars()
        invariant
            v@ == it.seq().take(it.index() as int),
    {
        v.push(c);
    }
    v
}

/// Number of bytes of the UTF-8 encoding of `chars`.
pub open spec fn utf8_len(chars: Seq<char>) -> nat {
    encode_utf8(chars).len()
}

pub proof fn lemma_encode_utf8_concat(a: Seq<char>, b: Seq<char>)
    ensures
        encode_utf8(a + b) == encode_utf8(a) + encode_utf8(b),
    decreases a.len(),
{
    if a.len() == 0 {
        assert(a + b =~= b);
        assert(encode_utf8(a) =~= seq![]);
        assert(encode_utf8(a) + encode_utf8(b) =~= encode_utf8(b));
    } else {
        lemma_encode_utf8_concat(a.drop_first(), b);
        assert((a + b).drop_first() =~= a.drop_first() + b);
        assert((a + b)[0] == a[0]);
        assert(encode_utf8(a + b) =~= encode_scalar(a[0] as u32) + encode_utf8(a.drop_first() + b));
    }
}

/// The encoding of one character is its scalar's encoding.
pub proof fn lemma_utf8_len_single(c: char)
    ensures
        utf8_len(seq![c]) == encode_scalar(c as u32).len(),
        1 <= utf8_len(seq![c]) <= 4,
{
    assert(seq![c].drop_first() =~= seq![]);
    assert(encode_utf8(seq![c].drop_first()) =~= seq![]);
    assert(encode_utf8(seq![c]) =~= encode_scalar(c as u32));
    vstd::utf8::char_is_scalar(c);
}

/// The encoding of `s[i..j]` is that of `s[i..k]` followed by that of `s[k..j]`.
pub proof fn lemma_utf8_len_split(s: Seq<char>, i: int, k: int, j: int)
    requires
        0 <= i <= k <= j <= s.len(),
    ensures
        utf8_len(s.subrange(i, j)) == utf8_len(s.subrange(i, k)) + utf8_len(s.subrange(k, j)),
{
    lemma_encode_utf8_concat(s.subrange(i, k), s.subrange(k, j));
    assert(s.subrange(i, k) + s.subrange(k, j) =~= s.subrange(i, j));
}

/// Number of bytes of the UTF-8 encoding of `s[i..j]`.
pub(crate) fn utf8_len_between(s: &Vec<char>, i: usize, j: usize) -> (r: u128)
    requires
        i <= j <= s@.len(),
    ensures
        r == utf8_len(s@.subrange(i as int, j as int)),
{
    let mut k: usize = i;
    let mut r: u128 = 0;
    assert(s@.subrange(i as int, i as int) =~= seq![]);
    assert(encode_utf8(seq![]) =~= seq![]);
    while k < j
        invariant
            i <= k <= j <= s@.len(),
            r == utf8_len(s@.subrange(i as int, k as int)),
            r <= 4 * (k - i),
        decreases j - k,
    {
        let w = utf8_width(s[k]);
        proof {
            lemma_utf8_len_split(s@, i as int, k as int, k + 1);
            assert(s@.subrange(k as int, k + 1) =~= seq![s@[k as int]]);
            lemma_utf8_len_single(s@[k as int]);
        }
        r = r + w as u128;
        k = k + 1;
    }
    r
}

/// Bytes in the UTF-8 encoding of `c`.
pub(crate) fn utf8_width(c: char) -> (w: usize)
    ensures
        w == encode_scalar(c as u32).len(),
        1 <= w <= 4,
{
    proof {
        vstd::utf8::char_is_scalar(c);
    }
    let v = c as u32;
    if v <= 0x7f {
        1
    } else if v <= 0x7ff {
        2
    } else if v <= 0xffff {
        3
    } else {
        4
    }
}

/// Byte offset, in `input`, of the character at position `pos`.
pub fn byte_offset(input: &str, chars: &Vec<char>, pos: usize) -> (r: usize)
    requires
        chars@ == input@,
        pos <= chars@.len(),
    ensures
        r == utf8_len(input@.take(pos as int)),
{
    let total = input.as_bytes().len();
    proof {
        lemma_encode_utf8_concat(input@.take(pos as int), input@.skip(pos as int));
        assert(input@.take(pos as int) + input@.skip(pos as int) =~= input@);
        assert(encode_utf8(input@.take(0)) =~= seq![]) by {
            assert(input@.take(0) =~= seq![]);
        }
    }
    let mut k: usize = 0;
    let mut r: usize = 0;
    while k < pos
        invariant
            k <= pos <= chars@.len(),
            chars@ == input@,
            total == encode_utf8(input@).len(),
            utf8_len(input@.take(pos as int)) <= total,
            r == utf8_len(input@.take(k as int)),
        decreases pos - k,
    {
        let w = utf8_width(chars[k]);
        proof {
            lemma_encode_utf8_concat(input@.take(k as int), seq![input@[k as int]]);
            assert(input@.take(k as int) + seq![input@[k as int]] =~= input@.take(k + 1));
            assert(encode_utf8(seq![input@[k as int]]) =~= encode_scalar(input@[k as int] as u32)) by {
                assert(seq![input@[k as int]].drop_first() =~= seq![]);
                assert(encode_utf8(seq![input@[k as int]].drop_first()) =~= seq![]);
            }
            lemma_encode_utf8_concat(input@.take(k + 1), input@.subrange(k + 1, pos as int));
            assert(input@.take(k + 1) + input@.subrange(k + 1, pos as int) =~= input@.take(pos as int));
        }
        r = r + w;
        k = k + 1;
    }
    r
}

/// Appends `t` to `s`.
pub fn push_str(s: &mut String, t: &str)
    ensures
        final(s)@ == old(s)@ + t@,
{
    s.append(t);
}

/// The digit for `d` (below 16), with letters in upper or lower case.
pub open spec fn digit_char(d: nat, upper: bool) -> char {
    if upper {
        seq!['0', '1', '2', '3', '4', '5', '6', '7', '8', '9', 'A', 'B', 'C', 'D', 'E', 'F'][d as int]
    } else {
        seq!['0', '1', '2', '3', '4', '5', '6', '7', '8', '9', 'a', 'b', 'c', 'd', 'e', 'f'][d as int]
    }
}

/// The numeral for `n` in base `radix` (2 to 16), most significant digit
/// first, without leading zeros.
pub open spec fn numeral(n: nat, radix: nat, upper: bool) -> Seq<char>
    decreases n,
{
    if n < radix || radix < 2 {
        seq![digit_char(n, upper)]
    } else {
        proof {
            assert(n / radix < n) by (nonlinear_arith)
                requires
                    radix >= 2,
                    n >= radix,
            ;
        }
        numeral(n / radix, radix, upper).push(digit_char(n % radix, upper))
    }
}

pub open spec fn decimal(n: nat) -> Seq<char> {
    numeral(n, 10, false)
}

/// `0x` and the lower-case hexadecimal numeral, as `{:#x}` writes it.
pub open spec fn hex_lower(n: nat) -> Seq<char> {
    seq!['0', 'x'] + numeral(n, 16, false)
}

/// `0x` and the upper-case hexadecimal numeral, as `{:#X}` writes it.
pub open spec fn hex_upper(n: nat) -> Seq<char> {
    seq!['0', 'x'] + numeral(n, 16, true)
}

fn digit_exec(d: u128, upper: bool) -> (c: char)
    requires
        d < 16,
    ensures
        c == digit_char(d as nat, upper),
{
    let lower: [char; 16] = ['0', '1', '2', '3', '4', '5', '6', '7', '8', '9', 'a', 'b', 'c', 'd', 'e', 'f'];
    let higher: [char; 16] = ['0', '1', '2', '3', '4', '5', '6', '7', '8', '9', 'A', 'B', 'C', 'D', 'E', 'F'];
    assert(lower@ == seq!['0', '1', '2', '3', '4', '5', '6', '7', '8', '9', 'a', 'b', 'c', 'd', 'e', 'f']);
    assert(higher@ == seq!['0', '1', '2', '3', '4', '5', '6', '7', '8', '9', 'A', 'B', 'C', 'D', 'E', 'F']);
    if upper {
        higher[d as usize]
    } else {
        lower[d as usize]
    }
}

/// Appends the numeral for `n` in base `radix`.
pub fn push_numeral(s: &mut String, n: u128, radix: u128, upper: bool)
    requires
        2 <= radix <= 16,
    ensures
        final(s)@ == old(s)@ + numeral(n as nat, radix as nat, upper),
    decreases n,
{
    let ghost start = s@;
    if n >= radix {
        assert(n / radix < n) by (nonlinear_arith)
            requires
                radix >= 2,
                n >= radix,
        ;
        push_numeral(s, n / radix, radix, upper);
    }
    push_char(s, digit_exec(n % radix, upper));
    if n >= radix {
        assert(s@ =~= start + numeral((n / radix) as nat, radix as nat, upper).push(
            digit_char((n % radix) as nat, upper),
        ));
    } else {
        assert(n % radix == n) by (nonlinear_arith)
            requires
                n < radix,
        ;
        assert(s@ =~= start + seq![digit_char(n as nat, upper)]);
    }
}

/// Appends `n` in decimal.
pub fn push_decimal(s: &mut String, n: u128)
    ensures
        final(s)@ == old(s)@ + decimal(n as nat),
{
    push_numeral(s, n, 10, false);
}

/// Appends `n` as `0x` and lower-case hexadecimal digits.
pub fn push_hex_lower(s: &mut String, n: u64)
    ensures
        final(s)@ == old(s)@ + hex_lower(n as nat),
{
    push_char(s, '0');
    push_char(s, 'x');
    push_numeral(s, n as u128, 16, false);
    assert(final(s)@ =~= old(s)@ + hex_lower(n as nat));
}

/// Appends `n` as `0x` and upper-case hexadecimal digits.
pub fn push_hex_upper(s: &mut String, n: u64)
    ensures
        final(s)@ == old(s)@ + hex_upper(n as nat),
{
    push_char(s, '0');
    push_char(s, 'x');
    push_numeral(s, n as u128, 16, true);
    assert(final(s)@ =~= old(s)@ + hex_upper(n as nat));
}

/// `n` spaces.
pub open spec fn spaces(n: nat) -> Seq<char> {
    Seq::new(n, |k: int| ' ')
}

/// Appends `n` spaces.
pub fn push_spaces(s: &mut String, n: usize)
    ensures
        final(s)@ == old(s)@ + spaces(n as nat),
{
    let ghost start = s@;
    let mut k: usize = 0;
    while k < n
        invariant
            k <= n,
            s@ == start + spaces(k as nat),
        decreases n - k,
    {
        push_char(s, ' ');
        k = k + 1;
        assert(s@ =~= start + spaces(k as nat));
    }
    assert(s@ =~= start + spaces(n as nat));
}

} // verus!

//! Per-update timing values: converting tick counts to milliseconds and
//! carrying the rounding error of whole milliseconds from update to update.

use vstd::prelude::*;

verus! {

/// `a / b` rounded toward zero, as Rust's integer division does.
pub open spec fn div_toward_zero(a: int, b: int) -> int {
    if a >= 0 {
        a / b
    } else {
        -((-a) / b)
    }
}

/// A duration counted in ticks (1/30 s), in milliseconds: `ticks * 1000 / 30`,
/// rounded toward zero.
pub fn ticks_to_millis(ticks: i32) -> (r: i32)
    requires
        i32::MIN <= ticks * 1000 <= i32::MAX,
    ensures
        r == div_toward_zero(ticks * 1000, 30),
{
    (ticks * 1000) / 30
}

/// One update's carry: with `t = acc + micros`, a `t` above 1000 moves
/// `(t - 1) / 1000` thousands into the milliseconds, leaving 1 to 1000;
/// otherwise nothing moves (a remainder of exactly 1000 stays).
pub open spec fn carry(millis: int, acc: int, micros: int) -> (int, int) {
    let t = acc + micros;
    if t <= 1000 {
        (millis, t)
    } else {
        (millis + (t - 1) / 1000, t - 1000 * ((t - 1) / 1000))
    }
}

/// The whole milliseconds of this update and the accumulated sub-millisecond
/// remainder, after adding this update's remainder `micros` (in thousandths of
/// a millisecond): every full thousand beyond 1000 moves into the milliseconds.
pub fn carry_micros(millis: i32, accumulated: i16, micros: i16) -> (r: (i32, i16))
    requires
        i16::MIN <= accumulated + micros <= i16::MAX,
        accumulated + micros > 1000 ==> millis + (accumulated + micros - 1) / 1000 <= i32::MAX,
    ensures
        r.1 <= 1000,
        r.0 as int * 1000 + r.1 == millis as int * 1000 + accumulated + micros,
        accumulated + micros <= 1000 ==> r == (millis, (accumulated + micros) as i16),
        accumulated + micros > 1000 ==> r.0 == millis + (accumulated + micros - 1) / 1000,
        (r.0 as int, r.1 as int) == carry(millis as int, accumulated as int, micros as int),
{
    let ghost t: int = accumulated + micros;
    let mut acc = accumulated + micros;
    let mut ms = millis;
    let ghost mut n: int = 0;
    while acc > 1000
        invariant
            t == accumulated + micros,
            t > 1000 ==> millis + (t - 1) / 1000 <= i32::MAX,
            n >= 0,
            acc == t - 1000 * n,
            ms == millis + n,
            acc > 1000 ==> n < (t - 1) / 1000,
            t > 1000 ==> n <= (t - 1) / 1000,
            t <= 1000 ==> n == 0,
        decreases acc,
    {
        assert(n + 1 <= (t - 1) / 1000) by (nonlinear_arith)
            requires
                acc == t - 1000 * n,
                acc > 1000,
        ;
        ms = ms + 1;
        acc = acc - 1000;
        proof {
            n = n + 1;
        }
    }
    proof {
        if t > 1000 {
            assert(n == (t - 1) / 1000) by (nonlinear_arith)
                requires
                    acc == t - 1000 * n,
                    acc <= 1000,
                    n <= (t - 1) / 1000,
                    t > 1000,
            ;
        }
    }
    (ms, acc)
}

/// An update's remainder and the carried remainder both in 0 to 1000 (what
/// rounding a fraction of a millisecond to thousandths gives): the remainder
/// stays in 0 to 1000, at most one millisecond is carried, and the sum stays
/// well inside `i16`.
pub proof fn lemma_carry_bounded(millis: int, acc: int, micros: int)
    requires
        0 <= acc <= 1000,
        0 <= micros <= 1000,
    ensures
        0 <= carry(millis, acc, micros).1 <= 1000,
        carry(millis, acc, micros).0 == millis || carry(millis, acc, micros).0 == millis + 1,
        acc + micros <= i16::MAX,
{
}

/// The milliseconds and final remainder of a run of updates, each carrying
/// into the next: update `i` has whole milliseconds `millis[i]` and remainder
/// `micros[i]`, and the run starts with remainder `acc`.
pub open spec fn carry_run(millis: Seq<int>, micros: Seq<int>, acc: int) -> (Seq<int>, int)
    decreases millis.len(),
{
    if millis.len() == 0 || micros.len() == 0 {
        (seq![], acc)
    } else {
        let (m, a) = carry(millis[0], acc, micros[0]);
        let (rest, last) = carry_run(millis.drop_first(), micros.drop_first(), a);
        (seq![m] + rest, last)
    }
}

pub open spec fn sum(s: Seq<int>) -> int
    decreases s.len(),
{
    if s.len() == 0 {
        0
    } else {
        s[0] + sum(s.drop_first())
    }
}

/// The time the updates really took, in thousandths of a millisecond.
pub open spec fn true_micros(millis: Seq<int>, micros: Seq<int>) -> int
    decreases millis.len(),
{
    if millis.len() == 0 || micros.len() == 0 {
        0
    } else {
        1000 * millis[0] + micros[0] + true_micros(millis.drop_first(), micros.drop_first())
    }
}

/// Over any run of updates no rounding is lost: the milliseconds handed out,
/// times 1000, plus the remainder left, equal the starting remainder plus the
/// time the updates took. With every remainder in 0 to 1000 the carried
/// remainder stays in 0 to 1000 and each update hands out its whole
/// milliseconds or one more.
pub proof fn lemma_carry_run(millis: Seq<int>, micros: Seq<int>, acc: int)
    requires
        millis.len() == micros.len(),
    ensures
        carry_run(millis, micros, acc).0.len() == millis.len(),
        1000 * sum(carry_run(millis, micros, acc).0) + carry_run(millis, micros, acc).1 == acc
            + true_micros(millis, micros),
        (0 <= acc <= 1000 && forall|i: int| 0 <= i < micros.len() ==> 0 <= #[trigger] micros[i] <= 1000)
            ==> {
            &&& 0 <= carry_run(millis, micros, acc).1 <= 1000
            &&& forall|i: int|
                0 <= i < millis.len() ==> #[trigger] carry_run(millis, micros, acc).0[i] == millis[i]
                    || carry_run(millis, micros, acc).0[i] == millis[i] + 1
        },
    decreases millis.len(),
{
    if millis.len() > 0 {
        let (m, a) = carry(millis[0], acc, micros[0]);
        let tail_m = millis.drop_first();
        let tail_u = micros.drop_first();
        lemma_carry_run(tail_m, tail_u, a);
        let (rest, last) = carry_run(tail_m, tail_u, a);
        let out = seq![m] + rest;
        assert(out.drop_first() =~= rest);
        assert(out[0] == m);
        if 0 <= acc <= 1000 && forall|i: int| 0 <= i < micros.len() ==> 0 <= #[trigger] micros[i] <= 1000 {
            assert(0 <= micros[0] <= 1000);
            lemma_carry_bounded(millis[0], acc, micros[0]);
            assert forall|i: int| 0 <= i < tail_u.len() implies 0 <= #[trigger] tail_u[i] <= 1000 by {
                assert(tail_u[i] == micros[i + 1]);
            }
            assert forall|i: int| 0 <= i < millis.len() implies #[trigger] out[i] == millis[i] || out[i]
                == millis[i] + 1 by {
                if i > 0 {
                    assert(out[i] == rest[i - 1]);
                    assert(tail_m[i - 1] == millis[i]);
                }
            }
        }
    }
}

} // verus!

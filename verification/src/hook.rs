//! Machine code written into the game's DLL: absolute-jump hooks, relative
//! calls into the trampoline, and NOP padding.

use vstd::prelude::*;

verus! {

/// The canonical x86 NOP instruction of `n` bytes (`n` at most 9).
pub open spec fn nop(n: nat) -> Seq<u8> {
    if n == 0 {
        seq![]
    } else if n == 1 {
        seq![0x90u8]
    } else if n == 2 {
        seq![0x66u8, 0x90]
    } else if n == 3 {
        seq![0x0fu8, 0x1f, 0]
    } else if n == 4 {
        seq![0x0fu8, 0x1f, 0x40, 0x00]
    } else if n == 5 {
        seq![0x0fu8, 0x1f, 0x44, 0x00, 0x00]
    } else if n == 6 {
        seq![0x66u8, 0x0f, 0x1f, 0x44, 0x00, 0x00]
    } else if n == 7 {
        seq![0x0fu8, 0x1f, 0x80, 0x00, 0x00, 0x00, 0x00]
    } else if n == 8 {
        seq![0x0fu8, 0x1f, 0x84, 0x00, 0x00, 0x00, 0x00, 0x00]
    } else {
        seq![0x66u8, 0x0f, 0x1f, 0x84, 0x00, 0x00, 0x00, 0x00, 0x00]
    }
}

/// `n` bytes of NOPs: nine-byte NOPs from the start, and one shorter NOP for the rest.
pub open spec fn nops(n: nat) -> Seq<u8>
    decreases n,
{
    if n <= 9 {
        nop(n)
    } else {
        nop(9) + nops((n - 9) as nat)
    }
}

fn nop_bytes(n: usize) -> (r: Vec<u8>)
    requires
        n <= 9,
    ensures
        r@ == nop(n as nat),
        r@.len() == n,
{
    let r = if n == 0 {
        vec![]
    } else if n == 1 {
        vec![0x90u8]
    } else if n == 2 {
        vec![0x66u8, 0x90]
    } else if n == 3 {
        vec![0x0fu8, 0x1f, 0]
    } else if n == 4 {
        vec![0x0fu8, 0x1f, 0x40, 0x00]
    } else if n == 5 {
        vec![0x0fu8, 0x1f, 0x44, 0x00, 0x00]
    } else if n == 6 {
        vec![0x66u8, 0x0f, 0x1f, 0x44, 0x00, 0x00]
    } else if n == 7 {
        vec![0x0fu8, 0x1f, 0x80, 0x00, 0x00, 0x00, 0x00]
    } else if n == 8 {
        vec![0x0fu8, 0x1f, 0x84, 0x00, 0x00, 0x00, 0x00, 0x00]
    } else {
        vec![0x66u8, 0x0f, 0x1f, 0x84, 0x00, 0x00, 0x00, 0x00, 0x00]
    };
    assert(r@ =~= nop(n as nat));
    r
}

/// Overwrites `code` with NOPs, keeping its length.
pub fn fill_with_nops(code: &mut [u8])
    ensures
        final(code)@ == nops(old(code)@.len()),
{
    let len = code.len();
    let mut k: usize = 0;
    assert(old(code)@.take(0) =~= seq![]);
    while len - k > 9
        invariant
            k <= len,
            code@.len() == len,
            len == old(code)@.len(),
            code@.take(k as int) + nops((len - k) as nat) == nops(len as nat),
        decreases len - k,
    {
        let nb = nop_bytes(9);
        write_bytes(code, k, &nb);
        assert(code@.take(k + 9) =~= code@.take(k as int) + nop(9));
        k = k + 9;
    }
    let nb = nop_bytes(len - k);
    write_bytes(code, k, &nb);
    assert(code@ =~= code@.take(k as int) + nop((len - k) as nat));
}

/// Copies `bytes` into `code` at `at`, leaving the other bytes alone.
fn write_bytes(code: &mut [u8], at: usize, bytes: &Vec<u8>)
    requires
        at + bytes@.len() <= old(code)@.len(),
    ensures
        final(code)@ == old(code)@.take(at as int) + bytes@ + old(code)@.skip(at + bytes@.len()),
{
    let mut j: usize = 0;
    while j < bytes.len()
        invariant
            j <= bytes@.len(),
            at + bytes@.len() <= code.len(),
            code@.len() == old(code)@.len(),
            code@ == old(code)@.take(at as int) + bytes@.take(j as int) + old(code)@.skip(at + j),
        decreases bytes@.len() - j,
    {
        code[at + j] = bytes[j];
        j = j + 1;
        assert(code@ =~= old(code)@.take(at as int) + bytes@.take(j as int) + old(code)@.skip(at + j));
    }
    assert(bytes@.take(j as int) =~= bytes@);
}

/// The `n` low bytes of `v`, least significant first.
pub open spec fn le_bytes(v: nat, n: nat) -> Seq<u8>
    decreases n,
{
    if n == 0 {
        seq![]
    } else {
        seq![(v % 256) as u8] + le_bytes(v / 256, (n - 1) as nat)
    }
}

/// The number whose bytes, least significant first, are `b`.
pub open spec fn le_value(b: Seq<u8>) -> nat
    decreases b.len(),
{
    if b.len() == 0 {
        0
    } else {
        b[0] as nat + 256 * le_value(b.drop_first())
    }
}

/// Four bytes, least significant first, read as a signed 32-bit number.
pub open spec fn le_i32(b: Seq<u8>) -> int {
    let u = le_value(b);
    if u >= 0x8000_0000 {
        u - 0x1_0000_0000
    } else {
        u as int
    }
}

fn push_le_bytes(out: &mut Vec<u8>, v: u64, n: usize)
    ensures
        final(out)@ == old(out)@ + le_bytes(v as nat, n as nat),
{
    let mut x = v;
    let mut k: usize = 0;
    while k < n
        invariant
            k <= n,
            out@ + le_bytes(x as nat, (n - k) as nat) == old(out)@ + le_bytes(v as nat, n as nat),
        decreases n - k,
    {
        let ghost before = out@;
        out.push((x % 256) as u8);
        assert(le_bytes(x as nat, (n - k) as nat) == seq![(x % 256) as u8] + le_bytes(
            (x / 256) as nat,
            (n - k - 1) as nat,
        ));
        assert(out@ + le_bytes((x / 256) as nat, (n - k - 1) as nat) =~= before + le_bytes(
            x as nat,
            (n - k) as nat,
        ));
        x = x / 256;
        k = k + 1;
    }
    assert(le_bytes(x as nat, 0) =~= seq![]);
    assert(out@ =~= old(out)@ + le_bytes(v as nat, n as nat));
}

/// The displacement of a 5-byte relative `CALL` at `call_addr` that lands on
/// `target_addr`, measured from the end of the instruction.
pub open spec fn call_displacement(call_addr: int, target_addr: int) -> int {
    target_addr - (call_addr + 5)
}

/// The 32-bit two's-complement representation of `d`.
pub open spec fn as_u32_bits(d: int) -> nat {
    if d >= 0 {
        d as nat
    } else {
        (d + 0x1_0000_0000) as nat
    }
}

/// The bytes of `CALL rel32` from `call_addr` to `target_addr`, or `None`
/// when the distance does not fit in 32 bits.
pub open spec fn spec_generate_call(call_addr: int, target_addr: int) -> Option<Seq<u8>> {
    let d = call_displacement(call_addr, target_addr);
    if i32::MIN <= d <= i32::MAX {
        Some(seq![0xE8u8] + le_bytes(as_u32_bits(d), 4))
    } else {
        None
    }
}

/// Encodes `CALL rel32` at `call_addr` to `target_addr`; `None` when the
/// target is out of 32-bit reach.
pub fn generate_call(call_addr: usize, target_addr: usize) -> (r: Option<Vec<u8>>)
    requires
        call_addr + 5 <= usize::MAX,
    ensures
        match r {
            Some(c) => spec_generate_call(call_addr as int, target_addr as int) == Some(c@),
            None => spec_generate_call(call_addr as int, target_addr as int) is None,
        },
{
    let d: i128 = (target_addr as i128) - ((call_addr as i128) + 5);
    if d < -0x8000_0000 || d > 0x7fff_ffff {
        return None;
    }
    let bits: u64 = if d >= 0 {
        d as u64
    } else {
        (d + 0x1_0000_0000) as u64
    };
    let mut code: Vec<u8> = Vec::new();
    code.push(0xE8u8);
    push_le_bytes(&mut code, bits, 4);
    assert(code@ =~= seq![0xE8u8] + le_bytes(as_u32_bits(d as int), 4));
    Some(code)
}

/// Whether eight `0xEE` bytes start at `i`.
pub open spec fn marker_at(t: Seq<u8>, i: int) -> bool {
    0 <= i && i + 8 <= t.len() && forall|j: int| i <= j < i + 8 ==> t[j] == 0xEE
}

/// The first position at or after `i` where eight `0xEE` bytes start.
pub open spec fn find_marker(t: Seq<u8>, i: int) -> Option<int>
    decreases t.len() - i,
{
    if i < 0 || i + 8 > t.len() {
        None
    } else if marker_at(t, i) {
        Some(i)
    } else {
        find_marker(t, i + 1)
    }
}

/// Where the address goes in a hook template: at its eight-byte `0xEE`
/// placeholder, or at the start when it has none.
pub open spec fn address_slot(t: Seq<u8>) -> int {
    match find_marker(t, 0) {
        Some(i) => i,
        None => 0,
    }
}

/// The hook template with `addr`'s eight bytes, least significant first,
/// written over its placeholder.
pub open spec fn spec_hook_code(t: Seq<u8>, addr: nat) -> Seq<u8> {
    let p = address_slot(t);
    t.take(p) + le_bytes(addr, 8) + t.skip(p + 8)
}

proof fn lemma_find_marker_bounds(t: Seq<u8>, i: int)
    requires
        0 <= i,
    ensures
        find_marker(t, i) matches Some(p) ==> marker_at(t, p) && i <= p,
    decreases t.len() - i,
{
    if i + 8 <= t.len() && !marker_at(t, i) {
        lemma_find_marker_bounds(t, i + 1);
    }
}

fn is_marker(t: &[u8], i: usize) -> (r: bool)
    requires
        i + 8 <= t@.len(),
    ensures
        r == marker_at(t@, i as int),
{
    let mut j: usize = 0;
    while j < 8
        invariant
            j <= 8,
            i + 8 <= t.len(),
            forall|m: int| i <= m < i + j ==> t@[m] == 0xEE,
        decreases 8 - j,
    {
        if t[i + j] != 0xEE {
            return false;
        }
        j = j + 1;
    }
    true
}

proof fn lemma_le_bytes_len(v: nat, n: nat)
    ensures
        le_bytes(v, n).len() == n,
    decreases n,
{
    if n > 0 {
        lemma_le_bytes_len(v / 256, (n - 1) as nat);
    }
}

fn find_address_slot(t: &[u8]) -> (r: usize)
    requires
        t@.len() >= 8,
    ensures
        r == address_slot(t@),
        r + 8 <= t@.len(),
{
    let len = t.len();
    let mut i: usize = 0;
    while i <= len - 8
        invariant
            len == t@.len(),
            len >= 8,
            i <= len - 7,
            find_marker(t@, 0) == find_marker(t@, i as int),
        decreases len - i,
    {
        if is_marker(t, i) {
            proof {
                lemma_find_marker_bounds(t@, 0);
            }
            return i;
        }
        i = i + 1;
    }
    0
}

/// Copies a hook template (an absolute jump through a register) and writes
/// the detour's address into it.
pub fn hook_code(template: &[u8], addr: usize) -> (r: Vec<u8>)
    requires
        template@.len() >= 8,
    ensures
        r@ == spec_hook_code(template@, addr as nat),
        r@.len() == template@.len(),
{
    let len = template.len();
    let slot = find_address_slot(template);
    proof {
        lemma_le_bytes_len(addr as nat, 8);
    }
    let mut code: Vec<u8> = Vec::new();
    let mut k: usize = 0;
    while k < slot
        invariant
            k <= slot,
            slot + 8 <= len,
            len == template@.len(),
            code@ == template@.take(k as int),
        decreases slot - k,
    {
        code.push(template[k]);
        k = k + 1;
        assert(code@ =~= template@.take(k as int));
    }
    push_le_bytes(&mut code, addr as u64, 8);
    let mut m: usize = slot + 8;
    while m < len
        invariant
            slot + 8 <= m <= len,
            len == template@.len(),
            code@ == template@.take(slot as int) + le_bytes(addr as nat, 8) + template@.subrange(
                slot + 8,
                m as int,
            ),
        decreases len - m,
    {
        code.push(template[m]);
        m = m + 1;
        assert(code@ =~= template@.take(slot as int) + le_bytes(addr as nat, 8) + template@.subrange(
            slot + 8,
            m as int,
        ));
    }
    assert(template@.subrange(slot + 8, len as int) =~= template@.skip(slot + 8));
    code
}

/// What a patch writes over `len` bytes at `call_addr`: a call to the
/// trampoline at `trampoline_addr`, then NOPs; `None` when the trampoline is
/// out of 32-bit reach.
pub open spec fn spec_patch_code(call_addr: int, trampoline_addr: int, len: nat) -> Option<Seq<u8>> {
    match spec_generate_call(call_addr, trampoline_addr) {
        Some(c) => Some(c + nops((len - 5) as nat)),
        None => None,
    }
}

/// The bytes that replace `len` bytes (at least the call's five) at
/// `call_addr`: a call into the trampoline followed by NOP padding.
pub fn patch_code(call_addr: usize, trampoline_addr: usize, len: usize) -> (r: Option<Vec<u8>>)
    requires
        len >= 5,
        call_addr + 5 <= usize::MAX,
    ensures
        match r {
            Some(c) => spec_patch_code(call_addr as int, trampoline_addr as int, len as nat) == Some(c@),
            None => spec_patch_code(call_addr as int, trampoline_addr as int, len as nat) is None,
        },
{
    match generate_call(call_addr, trampoline_addr) {
        None => None,
        Some(call) => {
            let mut code = call;
            let mut pad: Vec<u8> = Vec::new();
            let mut k: usize = 0;
            while k < len - 5
                invariant
                    k <= len - 5,
                    pad@.len() == k,
                decreases len - 5 - k,
            {
                pad.push(0u8);
                k = k + 1;
            }
            fill_with_nops(pad.as_mut_slice());
            code.append(&mut pad);
            Some(code)
        },
    }
}

/// Size of the trampoline's first phase.
pub const TRAMPOLINE_LEN: usize = 0x20;

/// The trampoline's first phase: `JMP [RIP + 0xA]`, whose memory operand is
/// at offset 0x10 and holds `phase2_addr`; every other byte is `INT3`.
pub open spec fn spec_trampoline_code(phase2_addr: nat) -> Seq<u8> {
    seq![0xFFu8, 0x25, 0x0A, 0, 0, 0] + Seq::new(10, |k: int| 0xCCu8) + le_bytes(phase2_addr, 8)
        + Seq::new(8, |k: int| 0xCCu8)
}

/// Builds the trampoline's first phase, which jumps to `phase2_addr`.
pub fn trampoline_code(phase2_addr: usize) -> (r: Vec<u8>)
    ensures
        r@ == spec_trampoline_code(phase2_addr as nat),
        r@.len() == TRAMPOLINE_LEN,
{
    let mut code: Vec<u8> = vec![0xFFu8, 0x25, 0x0A, 0, 0, 0];
    let mut k: usize = 0;
    while k < 10
        invariant
            k <= 10,
            code@ == seq![0xFFu8, 0x25, 0x0A, 0, 0, 0] + Seq::new(k as nat, |m: int| 0xCCu8),
        decreases 10 - k,
    {
        code.push(0xCC);
        k = k + 1;
        assert(code@ =~= seq![0xFFu8, 0x25, 0x0A, 0, 0, 0] + Seq::new(k as nat, |m: int| 0xCCu8));
    }
    push_le_bytes(&mut code, phase2_addr as u64, 8);
    let ghost mid = code@;
    let mut m: usize = 0;
    while m < 8
        invariant
            m <= 8,
            code@ == mid + Seq::new(m as nat, |j: int| 0xCCu8),
        decreases 8 - m,
    {
        code.push(0xCC);
        m = m + 1;
        assert(code@ =~= mid + Seq::new(m as nat, |j: int| 0xCCu8));
    }
    proof {
        lemma_le_bytes_len(phase2_addr as nat, 8);
    }
    code
}

/// `256` to the power `n`.
pub open spec fn pow256(n: nat) -> nat
    decreases n,
{
    if n == 0 {
        1
    } else {
        256 * pow256((n - 1) as nat)
    }
}

/// Reading back the `n` bytes written for a number below `256^n` gives the number.
pub proof fn lemma_le_roundtrip(v: nat, n: nat)
    requires
        v < pow256(n),
    ensures
        le_value(le_bytes(v, n)) == v,
        le_bytes(v, n).len() == n,
    decreases n,
{
    lemma_le_bytes_len(v, n);
    if n > 0 {
        let p = pow256((n - 1) as nat);
        assert(v / 256 < p) by (nonlinear_arith)
            requires
                v < 256 * p,
        ;
        lemma_le_roundtrip(v / 256, (n - 1) as nat);
        let b = le_bytes(v, n);
        assert(b.drop_first() =~= le_bytes(v / 256, (n - 1) as nat));
        assert(b[0] == (v % 256) as u8);
        assert(v % 256 + 256 * (v / 256) == v) by (nonlinear_arith);
    } else {
        assert(v == 0);
    }
}

/// Every NOP filling has the length asked for.
pub proof fn lemma_nops_len(n: nat)
    ensures
        nops(n).len() == n,
    decreases n,
{
    if n > 9 {
        lemma_nops_len((n - 9) as nat);
    }
}

/// A generated call lands on its target: the opcode is `CALL rel32` (0xE8),
/// and the address after the instruction plus the signed displacement
/// stored in the next four bytes is the target.
pub proof fn lemma_call_lands_on_target(call_addr: int, target_addr: int)
    requires
        spec_generate_call(call_addr, target_addr) is Some,
    ensures
        ({
            let c = spec_generate_call(call_addr, target_addr)->0;
            &&& c.len() == 5
            &&& c[0] == 0xE8
            &&& call_addr + 5 + le_i32(c.subrange(1, 5)) == target_addr
        }),
{
    let d = call_displacement(call_addr, target_addr);
    let u = as_u32_bits(d);
    reveal_with_fuel(pow256, 5);
    lemma_le_roundtrip(u, 4);
    let c = spec_generate_call(call_addr, target_addr)->0;
    assert(c.subrange(1, 5) =~= le_bytes(u, 4));
}

/// The hook code is the template with exactly its address slot replaced:
/// the slot holds the address (least significant byte first) and every
/// other byte is the template's.
pub proof fn lemma_hook_code_holds_address(t: Seq<u8>, addr: nat)
    requires
        t.len() >= 8,
        addr < pow256(8),
    ensures
        ({
            let c = spec_hook_code(t, addr);
            let p = address_slot(t);
            &&& c.len() == t.len()
            &&& 0 <= p && p + 8 <= t.len()
            &&& le_value(c.subrange(p, p + 8)) == addr
            &&& forall|j: int| 0 <= j < t.len() && !(p <= j < p + 8) ==> c[j] == t[j]
        }),
{
    lemma_find_marker_bounds(t, 0);
    lemma_le_roundtrip(addr, 8);
    let c = spec_hook_code(t, addr);
    let p = address_slot(t);
    assert(c.subrange(p, p + 8) =~= le_bytes(addr, 8));
    assert forall|j: int| 0 <= j < t.len() && !(p <= j < p + 8) implies c[j] == t[j] by {
        if j < p {
            assert(c[j] == t.take(p)[j]);
        } else {
            assert(c[j] == t.skip(p + 8)[j - p - 8]);
        }
    }
}

/// The trampoline's jump reads its destination from offset 0x10 (its
/// displacement, 0xA, is measured from the end of the six-byte instruction),
/// and offset 0x10 holds the second phase's address.
pub proof fn lemma_trampoline_reaches_phase2(phase2_addr: nat)
    requires
        phase2_addr < pow256(8),
    ensures
        ({
            let c = spec_trampoline_code(phase2_addr);
            &&& c.len() == TRAMPOLINE_LEN
            &&& c[0] == 0xFF && c[1] == 0x25
            &&& 6 + le_i32(c.subrange(2, 6)) == 0x10
            &&& le_value(c.subrange(0x10, 0x18)) == phase2_addr
        }),
{
    lemma_le_roundtrip(phase2_addr, 8);
    let c = spec_trampoline_code(phase2_addr);
    let disp = seq![0x0Au8, 0, 0, 0];
    assert(c.subrange(2, 6) =~= disp);
    assert(le_value(disp) == 10) by {
        assert(disp.drop_first() =~= seq![0u8, 0, 0]);
        assert(disp.drop_first().drop_first() =~= seq![0u8, 0]);
        assert(disp.drop_first().drop_first().drop_first() =~= seq![0u8]);
        assert(disp.drop_first().drop_first().drop_first().drop_first() =~= seq![]);
        reveal_with_fuel(le_value, 5);
    }
    assert(c.subrange(0x10, 0x18) =~= le_bytes(phase2_addr, 8));
}

/// A patch fills exactly the bytes it replaces: a call landing on the
/// trampoline, then NOPs up to the end of the range.
pub proof fn lemma_patch_layout(call_addr: int, trampoline_addr: int, len: nat)
    requires
        len >= 5,
        spec_patch_code(call_addr, trampoline_addr, len) is Some,
    ensures
        ({
            let c = spec_patch_code(call_addr, trampoline_addr, len)->0;
            &&& c.len() == len
            &&& c.take(5) == spec_generate_call(call_addr, trampoline_addr)->0
            &&& c.skip(5) == nops((len - 5) as nat)
        }),
{
    lemma_call_lands_on_target(call_addr, trampoline_addr);
    lemma_nops_len((len - 5) as nat);
    let c = spec_patch_code(call_addr, trampoline_addr, len)->0;
    let g = spec_generate_call(call_addr, trampoline_addr)->0;
    assert(c.take(5) =~= g);
    assert(c.skip(5) =~= nops((len - 5) as nat));
}

} // verus!

pub mod entry;

//! Human-readable byte sizes, as shown in the `SIZE` column of the
//! attachment listing.
//!
//! The listing divides the size by 1024 as a 64-bit float and prints one
//! decimal. Everything here is computed on integers, exactly: a 64-bit
//! float holding `bytes` is `f64_round(bytes)` (53 significant bits,
//! ties to even), dividing it by 1024 is exact, and printing with one
//! decimal rounds the exact value to the nearest tenth, ties to even.
use vstd::prelude::*;
use crate::text::{dec, digit, push_decimal, extend_str, string_of};

verus! {

/// 2^53, the first integer past the 53-bit significand of an `f64`.
pub open spec fn two_53() -> nat {
    0x20000000000000
}

/// The spacing of `f64` values around `n`: the least power of two `p`
/// (starting the search at `p`) with `n < p * 2^53`.
pub open spec fn ulp_from(n: nat, p: nat) -> nat
    decreases n - p,
{
    if p == 0 || n < p * two_53() {
        p
    } else {
        ulp_from(n, 2 * p)
    }
}

/// `n as f64`, as an integer: `n` rounded to a multiple of its ulp,
/// to nearest, ties to even.
pub open spec fn f64_round(n: nat) -> nat {
    let p = ulp_from(n, 1);
    let q = n / p;
    let r = n % p;
    if 2 * r > p || (2 * r == p && q % 2 == 1) {
        (q + 1) * p
    } else {
        q * p
    }
}

/// How many times the size is divided by 1024 (at most 4, for TiB).
pub open spec fn size_unit(r: nat) -> nat {
    if r < 0x400 {
        0
    } else if r < 0x100000 {
        1
    } else if r < 0x40000000 {
        2
    } else if r < 0x10000000000 {
        3
    } else {
        4
    }
}

/// `1024^u`.
pub open spec fn unit_divisor(u: nat) -> nat {
    if u == 0 {
        1
    } else if u == 1 {
        0x400
    } else if u == 2 {
        0x100000
    } else if u == 3 {
        0x40000000
    } else {
        0x10000000000
    }
}

/// The name of unit `u`.
pub open spec fn unit_name(u: nat) -> Seq<char> {
    if u == 0 {
        seq!['B']
    } else if u == 1 {
        seq!['K', 'i', 'B']
    } else if u == 2 {
        seq!['M', 'i', 'B']
    } else if u == 3 {
        seq!['G', 'i', 'B']
    } else {
        seq!['T', 'i', 'B']
    }
}

/// `r / d` in tenths, rounded to nearest, ties to even.
pub open spec fn tenths(r: nat, d: nat) -> nat {
    let q = (10 * r) / d;
    let m = (10 * r) % d;
    if 2 * m > d || (2 * m == d && q % 2 == 1) {
        q + 1
    } else {
        q
    }
}

/// The text of `human_size(bytes)`: `"{bytes} B"` under 1 KiB, else the
/// size in the largest unit up to TiB, with one decimal.
pub open spec fn human_size_text(bytes: nat) -> Seq<char> {
    let r = f64_round(bytes);
    let u = size_unit(r);
    if u == 0 {
        dec(bytes) + seq![' ', 'B']
    } else {
        let t = tenths(r, unit_divisor(u));
        dec(t / 10) + seq!['.'] + seq![digit(t % 10)] + seq![' '] + unit_name(u)
    }
}

/// The unit `human_size(bytes)` is shown in: 0 for B, 1 for KiB, up to
/// 4 for TiB.
pub open spec fn shown_unit(bytes: nat) -> nat {
    size_unit(f64_round(bytes))
}

/// The spacing found from `p` is `p` itself, or small next to `n`.
proof fn lemma_ulp_bound(n: nat, p: nat)
    requires
        p >= 1,
        p == 1 || p * 0x10000000000000 <= n,
    ensures
        ulp_from(n, p) >= 1,
        ulp_from(n, p) == 1 || ulp_from(n, p) * 0x10000000000000 <= n,
    decreases n - p,
{
    if !(n < p * two_53()) {
        lemma_ulp_bound(n, 2 * p);
    }
}

/// Below 2^53 a byte count is held exactly; from 2^53 on, its rounding is
/// at least 2^40, one TiB.
proof fn lemma_f64_round_ranges(n: nat)
    ensures
        n < two_53() ==> f64_round(n) == n,
        n >= two_53() ==> f64_round(n) >= 0x10000000000,
{
    lemma_ulp_bound(n, 1);
    let p = ulp_from(n, 1);
    let q = n / p;
    let r = n % p;
    vstd::arithmetic::div_mod::lemma_fundamental_div_mod(n as int, p as int);
    vstd::arithmetic::div_mod::lemma_mod_pos_bound(n as int, p as int);
    assert((q + 1) * p == q * p + p) by (nonlinear_arith);
    assert(q * p == p * q) by (nonlinear_arith);
    if n < two_53() {
        assert(p == 1);
        assert(q == n && r == 0);
    } else {
        assert(q * p >= 0x10000000000) by (nonlinear_arith)
            requires
                p >= 1,
                p == 1 || p * 0x10000000000000 <= n,
                n >= 0x20000000000000,
                q * p + r == n,
                0 <= r < p,
        ;
    }
}

/// The number `human_size(bytes)` shows, before its unit.
pub open spec fn shown_number(bytes: nat) -> Seq<char> {
    let r = f64_round(bytes);
    let u = size_unit(r);
    if u == 0 {
        dec(bytes)
    } else {
        let t = tenths(r, unit_divisor(u));
        dec(t / 10) + seq!['.'] + seq![digit(t % 10)]
    }
}

/// The size text is a number, a space and the name of the shown unit.
pub proof fn lemma_human_size_parts(bytes: nat)
    ensures
        human_size_text(bytes) == shown_number(bytes) + seq![' '] + unit_name(shown_unit(bytes)),
{
    assert(human_size_text(bytes) =~= shown_number(bytes) + seq![' '] + unit_name(shown_unit(bytes)));
}

/// A larger byte count is never shown in a smaller unit.
pub proof fn lemma_shown_unit_monotonic(b1: nat, b2: nat)
    requires
        b1 <= b2,
    ensures
        shown_unit(b1) <= shown_unit(b2),
{
    lemma_f64_round_ranges(b1);
    lemma_f64_round_ranges(b2);
}

/// `bytes as f64`, as an integer.
fn f64_rounded(bytes: u64) -> (r: u128)
    ensures
        r == f64_round(bytes as nat),
        r <= 0x10000000000001000,
        bytes < 0x400 ==> r == bytes,
        r < 0x400 ==> bytes < 0x400,
{
    let n = bytes as u128;
    let mut p: u128 = 1;
    while n >= p * 0x20000000000000
        invariant
            1 <= p < 0x1000,
            n == bytes,
            ulp_from(bytes as nat, p as nat) == ulp_from(bytes as nat, 1),
            p == 1 || n >= 0x20000000000000,
        decreases n - p,
    {
        p = p * 2;
    }
    assert(ulp_from(bytes as nat, p as nat) == p);
    let q = n / p;
    let r = n % p;
    proof {
        vstd::arithmetic::div_mod::lemma_fundamental_div_mod(n as int, p as int);
        vstd::arithmetic::div_mod::lemma_mod_pos_bound(n as int, p as int);
        assert(q < 0x20000000000000) by (nonlinear_arith)
            requires
                n < p * 0x20000000000000,
                n == p * q + r,
                0 <= r,
                p >= 1,
        ;
        assert((q + 1) * p == q * p + p) by (nonlinear_arith);
        assert(q * p == p * q) by (nonlinear_arith);
    }
    let res = if 2 * r > p || (2 * r == p && q % 2 == 1) {
        (q + 1) * p
    } else {
        q * p
    };
    proof {
        if p == 1 {
            assert(q * p == q);
        }
    }
    res
}

/// Renders a byte count the way the attachment listing does: `"512 B"`,
/// `"1.5 KiB"`, `"3.0 MiB"`, … up to TiB.
pub fn human_size(bytes: u64) -> (s: String)
    ensures
        s@ == human_size_text(bytes as nat),
{
    let r = f64_rounded(bytes);
    if r < 0x400 {
        let mut out: Vec<char> = Vec::new();
        push_decimal(&mut out, bytes);
        out.push(' ');
        out.push('B');
        assert(out@ =~= human_size_text(bytes as nat));
        return string_of(&out);
    }
    let (u, d): (u64, u128) = if r < 0x100000 {
        (1, 0x400)
    } else if r < 0x40000000 {
        (2, 0x100000)
    } else if r < 0x10000000000 {
        (3, 0x40000000)
    } else {
        (4, 0x10000000000)
    };
    assert(u as nat == size_unit(r as nat));
    assert(d as nat == unit_divisor(u as nat));
    let q = (10 * r) / d;
    let m = (10 * r) % d;
    assert(q < 0x1000000000000000) by (nonlinear_arith)
        requires
            q == ((10 * r) as int) / (d as int),
            d >= 0x400,
            r <= 0x10000000000001000,
    ;
    let t: u128 = if 2 * m > d || (2 * m == d && q % 2 == 1) {
        q + 1
    } else {
        q
    };
    let t64 = t as u64;
    let mut out: Vec<char> = Vec::new();
    push_decimal(&mut out, t64 / 10);
    out.push('.');
    out.push(crate::text::digit_char(t64 % 10));
    out.push(' ');
    let name = if u == 1 {
        "KiB"
    } else if u == 2 {
        "MiB"
    } else if u == 3 {
        "GiB"
    } else {
        "TiB"
    };
    proof {
        reveal_strlit("KiB");
        reveal_strlit("MiB");
        reveal_strlit("GiB");
        reveal_strlit("TiB");
    }
    extend_str(&mut out, name);
    assert(name@ == unit_name(u as nat));
    assert(out@ =~= human_size_text(bytes as nat));
    string_of(&out)
}

} // verus!

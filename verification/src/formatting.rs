//! Presenting byte counts and durations in a form a person can read at a glance.
//!
//! Sizes are shown the way single precision floating point renders them: the
//! byte count is rounded to the nearest `f32`, divided by the unit, and printed
//! with one decimal place for small quantities of the larger units, none
//! otherwise, and in shortest round-trip form beyond the largest unit. All of it
//! is computed here on integers, exactly.

use vstd::arithmetic::div_mod::*;
use vstd::arithmetic::mul::*;
use vstd::arithmetic::power2::*;
use vstd::prelude::*;

use crate::text::{decimal, digit_char, digit_of, pow10, push_decimal, push_decimal_u128, push_signed_decimal, push_zero_padded, signed_decimal, zero_padded};

verus! {

/// `2^40`, a tebibyte.
pub open spec fn tebi() -> nat {
    0x100_0000_0000
}

/// How many low bits of `b` a 24 bit significand cannot hold: the smallest `e`
/// with `b / 2^e < 2^24`.
pub open spec fn f32_shift(b: nat) -> nat
    decreases b,
{
    if b < 0x100_0000 {
        0
    } else {
        1 + f32_shift(b / 2)
    }
}

/// `n / d` rounded to the nearest integer, halves going to the even neighbour.
pub open spec fn round_half_even(n: nat, d: nat) -> nat {
    let q = n / d;
    let r = n % d;
    if 2 * r > d {
        q + 1
    } else if 2 * r < d {
        q
    } else if q % 2 == 0 {
        q
    } else {
        q + 1
    }
}

/// The value of `b as f32`: `b` rounded to 24 significant bits, ties to even.
pub open spec fn f32_value(b: nat) -> nat {
    let p = pow2(f32_shift(b));
    round_half_even(b, p) * p
}

/// The distance from `b as f32` to the next larger `f32`.
pub open spec fn f32_ulp(b: nat) -> nat {
    let p = pow2(f32_shift(b));
    if round_half_even(b, p) == 0x100_0000 {
        2 * p
    } else {
        p
    }
}

/// `n` in decimal with no fractional part, as `{:.0}` shows `n / d`.
pub open spec fn fixed0(n: nat, d: nat) -> Seq<char> {
    decimal(round_half_even(n, d))
}

/// `n / d` with exactly one fractional digit, as `{:.1}` shows it.
pub open spec fn fixed1(n: nat, d: nat) -> Seq<char> {
    let t = round_half_even(10 * n, d);
    decimal(t / 10) + seq!['.', digit_char(t % 10)]
}

/// Whether `c` lies in the interval of values that round to the float at `w`
/// (margins `lo` below and `hi` above, inclusive when the significand is even).
pub open spec fn in_rounding_interval(w: nat, lo: nat, hi: nat, inclusive: bool, c: nat) -> bool {
    if inclusive {
        w <= c + lo && c <= w + hi
    } else {
        w < c + lo && c < w + hi
    }
}

/// The spacing of decimal candidates with `t` digits below the point of
/// `10^-13`, in units where one tebibyte is `10^13 * 2^40`.
pub open spec fn candidate_step(t: nat) -> nat {
    pow10(t) * tebi()
}

/// Of the two multiples of the step that bracket `w`, the one inside the
/// rounding interval, the nearer one when both are.
pub open spec fn pick_candidate(w: nat, lo: nat, hi: nat, inclusive: bool, t: nat) -> Option<nat> {
    let s = candidate_step(t);
    let below = (w / s) * s;
    let above = below + s;
    let fb = in_rounding_interval(w, lo, hi, inclusive, below);
    let fa = in_rounding_interval(w, lo, hi, inclusive, above);
    if fb && fa {
        if w - below < above - w {
            Some(below)
        } else {
            Some(above)
        }
    } else if fb {
        Some(below)
    } else if fa {
        Some(above)
    } else {
        None
    }
}

/// The candidate with the coarsest step below `10^t` that rounds back to the
/// float: the shortest decimal that reads back as the same value.
pub open spec fn coarsest_candidate(w: nat, lo: nat, hi: nat, inclusive: bool, t: nat) -> Option<nat>
    decreases t,
{
    if t == 0 {
        None
    } else {
        match pick_candidate(w, lo, hi, inclusive, (t - 1) as nat) {
            Some(c) => Some(c),
            None => coarsest_candidate(w, lo, hi, inclusive, (t - 1) as nat),
        }
    }
}

/// The fractional digits `f` of width `width`, trailing zeros dropped.
pub open spec fn trim_fraction(f: nat, width: nat) -> Seq<char>
    decreases width,
{
    if width > 0 && f % 10 == 0 {
        trim_fraction(f / 10, (width - 1) as nat)
    } else {
        zero_padded(f, width)
    }
}

/// `n / 10^width` in decimal, with a fractional part only when it is not zero,
/// and without trailing zeros.
pub open spec fn display_scaled(n: nat, width: nat) -> Seq<char> {
    let ip = n / pow10(width);
    let fp = n % pow10(width);
    if fp == 0 {
        decimal(ip)
    } else {
        decimal(ip) + seq!['.'] + trim_fraction(fp, width)
    }
}

/// How `b as f32 / 2^40 as f32` is displayed: the shortest decimal that rounds
/// back to the same `f32`, the closest such decimal when there are two.
pub open spec fn shortest_tebi(b: nat) -> Seq<char> {
    let r = f32_value(b);
    let ulp = f32_ulp(b);
    let sig = r / ulp;
    let hi = ulp / 2;
    let lo = if sig == 0x80_0000 { ulp / 4 } else { ulp / 2 };
    let w = r * pow10(13);
    let c = match coarsest_candidate(w, lo * pow10(13), hi * pow10(13), sig % 2 == 0, 22) {
        Some(c) => c,
        None => w,
    };
    display_scaled(c / tebi(), 13)
}

/// What `human_readable_size` shows for `bytes`.
pub open spec fn human_readable_size_text(bytes: nat) -> Seq<char> {
    let r = f32_value(bytes);
    if bytes < 0x400 {
        decimal(bytes)
    } else if bytes < 0x10_0000 {
        fixed0(r, 0x400) + seq!['k']
    } else if bytes < 10 * 0x10_0000 {
        fixed1(r, 0x10_0000) + seq!['m']
    } else if bytes < 0x4000_0000 {
        fixed0(r, 0x10_0000) + seq!['m']
    } else if bytes < 10 * 0x4000_0000 {
        fixed1(r, 0x4000_0000) + seq!['g']
    } else if bytes < tebi() {
        fixed0(r, 0x4000_0000) + seq!['g']
    } else if bytes < 10 * tebi() {
        fixed1(r, tebi()) + seq!['t']
    } else if bytes < 0x4_0000_0000_0000 {
        fixed0(r, tebi()) + seq!['t']
    } else {
        shortest_tebi(bytes) + seq!['t']
    }
}

proof fn lemma_pow10_values()
    ensures
        pow10(13) == 10_000_000_000_000,
        pow10(22) == 10_000_000_000_000_000_000_000,
{
    reveal_with_fuel(pow10, 23);
}

proof fn lemma_pow10_monotone(a: nat, b: nat)
    requires
        a <= b,
    ensures
        1 <= pow10(a) <= pow10(b),
    decreases b,
{
    if b > a {
        lemma_pow10_monotone(a, (b - 1) as nat);
    } else if a > 0 {
        lemma_pow10_monotone((a - 1) as nat, (a - 1) as nat);
    }
}

/// `n / d` rounded half to even.
fn round_half_even_exec(n: u128, d: u128) -> (q: u128)
    requires
        d > 0,
        n < 0x8000_0000_0000_0000_0000_0000_0000_0000,
    ensures
        q == round_half_even(n as nat, d as nat),
        q <= n / d + 1,
{
    let q = n / d;
    let r = n % d;
    proof {
        lemma_mod_pos_bound(n as int, d as int);
        lemma_div_is_ordered_by_denominator(n as int, 1, d as int);
    }
    if r > d - r {
        q + 1
    } else if r < d - r {
        q
    } else if q % 2 == 0 {
        q
    } else {
        q + 1
    }
}

/// `b as f32` and the spacing of `f32` values there.
fn f32_parts(b: u64) -> (res: (u128, u128))
    ensures
        res.0 == f32_value(b as nat),
        res.1 == f32_ulp(b as nat),
        res.0 <= 0x2_0000_0000_0000_0000,
        res.1 <= 0x400_0000_0000,
        res.1 > 0,
{
    let mut q: u64 = b;
    let mut p: u64 = 1;
    let ghost mut e: nat = 0;
    proof {
        lemma2_to64();
    }
    while q >= 0x100_0000
        invariant
            p == pow2(e),
            p > 0,
            q == b / p,
            f32_shift(b as nat) == e + f32_shift(q as nat),
            p <= 0x200_0000_0000,
        decreases q,
    {
        proof {
            lemma_fundamental_div_mod(b as int, p as int);
            lemma_mod_pos_bound(b as int, p as int);
            lemma_mul_inequality(0x100_0000, q as int, p as int);
            assert(p * 0x100_0000 <= b) by (nonlinear_arith)
                requires
                    p * q <= b,
                    q >= 0x100_0000,
                    p > 0;
            lemma_div_denominator(b as int, p as int, 2);
            lemma_pow2_unfold(e + 1);
        }
        q = q / 2;
        p = p * 2;
        proof {
            e = e + 1;
        }
    }
    let rem: u64 = b % p;
    proof {
        lemma_mod_pos_bound(b as int, p as int);
    }
    let big_q = q as u128;
    let big_p = p as u128;
    let rounded: u128 = if rem > p - rem {
        big_q + 1
    } else if rem < p - rem {
        big_q
    } else if big_q % 2 == 0 {
        big_q
    } else {
        big_q + 1
    };
    assert(rounded == round_half_even(b as nat, p as nat));
    assert(rounded <= 0x100_0000);
    assert(rounded * big_p <= 0x2_0000_0000_0000_0000) by (nonlinear_arith)
        requires
            rounded <= 0x100_0000,
            big_p <= 0x200_0000_0000;
    let r = rounded * big_p;
    let ulp = if rounded == 0x100_0000 { 2 * big_p } else { big_p };
    (r, ulp)
}

/// Appends `n / d` with no fractional digits.
fn push_fixed0(s: &mut String, n: u128, d: u128)
    requires
        d > 0,
        n <= 0x2_0000_0000_0000_0000,
    ensures
        final(s)@ == old(s)@ + fixed0(n as nat, d as nat),
{
    let q = round_half_even_exec(n, d);
    push_decimal_u128(s, q);
}

/// Appends `n / d` with one fractional digit.
fn push_fixed1(s: &mut String, n: u128, d: u128)
    requires
        d > 0,
        n <= 0x2_0000_0000_0000_0000,
    ensures
        final(s)@ == old(s)@ + fixed1(n as nat, d as nat),
{
    let ghost start = s@;
    let t = round_half_even_exec(10 * n, d);
    push_decimal_u128(s, t / 10);
    s.push('.');
    s.push(digit_of((t % 10) as u64));
    assert(s@ =~= start + fixed1(n as nat, d as nat));
}

/// The candidate chosen among the multiples of `step` bracketing `w`.
fn pick_candidate_exec(w: u128, lo: u128, hi: u128, inclusive: bool, step: u128, t: Ghost<nat>) -> (c: Option<u128>)
    requires
        step == candidate_step(t@),
        step > 0,
        step < 0x4_0000_0000_0000_0000_0000_0000_0000,
        w < 0x1_0000_0000_0000_0000_0000_0000_0000,
        lo < 0x1_0000_0000_0000_0000_0000_0000_0000,
        hi < 0x1_0000_0000_0000_0000_0000_0000_0000,
    ensures
        match c {
            Some(v) => pick_candidate(w as nat, lo as nat, hi as nat, inclusive, t@) == Some(v as nat),
            None => pick_candidate(w as nat, lo as nat, hi as nat, inclusive, t@) is None,
        },
{
    proof {
        lemma_fundamental_div_mod(w as int, step as int);
        lemma_mod_pos_bound(w as int, step as int);
        lemma_mul_is_commutative(step as int, (w / step) as int);
    }
    let below = (w / step) * step;
    assert(below <= w);
    assert(w - below < step);
    let above = below + step;
    let fb = if inclusive {
        w <= below + lo && below <= w + hi
    } else {
        w < below + lo && below < w + hi
    };
    let fa = if inclusive {
        w <= above + lo && above <= w + hi
    } else {
        w < above + lo && above < w + hi
    };
    if fb && fa {
        if w - below < above - w {
            Some(below)
        } else {
            Some(above)
        }
    } else if fb {
        Some(below)
    } else if fa {
        Some(above)
    } else {
        None
    }
}

/// Appends the trimmed fractional digits of `f`, `width` digits wide.
fn push_trimmed_fraction(s: &mut String, f: u128, width: usize)
    ensures
        final(s)@ == old(s)@ + trim_fraction(f as nat, width as nat),
{
    let mut g = f;
    let mut w = width;
    while w > 0 && g % 10 == 0
        invariant
            w <= width,
            trim_fraction(f as nat, width as nat) == trim_fraction(g as nat, w as nat),
        decreases w,
    {
        g = g / 10;
        w = w - 1;
    }
    push_zero_padded(s, g, w);
}

/// Appends `b as f32 / 2^40 as f32` as Rust's `{}` displays it.
fn push_shortest_tebi(s: &mut String, b: u64)
    ensures
        final(s)@ == old(s)@ + shortest_tebi(b as nat),
{
    let ghost start = s@;
    let (r, ulp) = f32_parts(b);
    let sig = r / ulp;
    let hi = ulp / 2;
    let lo = if sig == 0x80_0000 { ulp / 4 } else { ulp / 2 };
    let scale: u128 = 10_000_000_000_000;
    proof {
        lemma_pow10_values();
    }
    assert(r * scale < 0x1_0000_0000_0000_0000_0000_0000_0000) by (nonlinear_arith)
        requires
            r <= 0x2_0000_0000_0000_0000,
            scale == 10_000_000_000_000;
    let w = r * scale;
    let wlo = lo * scale;
    let whi = hi * scale;
    let inclusive = sig % 2 == 0;
    let mut t: usize = 0;
    let mut step: u128 = 0x100_0000_0000;
    let mut best: Option<u128> = None;
    assert(step == candidate_step(0)) by {
        reveal_with_fuel(pow10, 1);
    }
    while t < 22
        invariant
            t <= 22,
            step == candidate_step(t as nat),
            w == r * scale,
            w < 0x1_0000_0000_0000_0000_0000_0000_0000,
            scale == pow10(13),
            wlo < 0x1_0000_0000_0000_0000_0000_0000_0000,
            whi < 0x1_0000_0000_0000_0000_0000_0000_0000,
            pow10(22) == 10_000_000_000_000_000_000_000,
            match best {
                Some(v) => coarsest_candidate(w as nat, wlo as nat, whi as nat, inclusive, t as nat) == Some(v as nat),
                None => coarsest_candidate(w as nat, wlo as nat, whi as nat, inclusive, t as nat) is None,
            },
        decreases 22 - t,
    {
        proof {
            lemma_pow10_monotone(t as nat, 22);
            assert(step < 0x4_0000_0000_0000_0000_0000_0000_0000) by (nonlinear_arith)
                requires
                    step == pow10(t as nat) * 0x100_0000_0000,
                    pow10(t as nat) <= 10_000_000_000_000_000_000_000;
        }
        let picked = pick_candidate_exec(w, wlo, whi, inclusive, step, Ghost(t as nat));
        match picked {
            Some(c) => {
                best = Some(c);
            },
            None => {},
        }
        proof {
            assert(pow10((t + 1) as nat) == 10 * pow10(t as nat));
            assert(candidate_step((t + 1) as nat) == 10 * step) by (nonlinear_arith)
                requires
                    step == pow10(t as nat) * 0x100_0000_0000,
                    candidate_step((t + 1) as nat) == pow10((t + 1) as nat) * 0x100_0000_0000,
                    pow10((t + 1) as nat) == 10 * pow10(t as nat);
        }
        step = step * 10;
        t = t + 1;
    }
    let c = match best {
        Some(v) => v,
        None => w,
    };
    let n = c / 0x100_0000_0000;
    let ip = n / scale;
    let fp = n % scale;
    push_decimal_u128(s, ip);
    if fp != 0 {
        s.push('.');
        push_trimmed_fraction(s, fp, 13);
    }
    assert(s@ =~= start + shortest_tebi(b as nat));
}

/// Convert an integer number of bytes to something a human being might
/// reasonably interpret, with one place of decimal precision for low quanta of
/// the larger units: `12` is `"12"`, `2055` is `"2k"`, `36700244` is `"35m"` and
/// `3650722201` is `"3.4g"`.
pub fn human_readable_size(bytes: usize) -> (out: String)
    ensures
        out@ == human_readable_size_text(bytes as nat),
{
    let b = bytes as u64;
    let mut out = String::new();
    if b < 0x400 {
        push_decimal(&mut out, b);
        return out;
    }
    let (r, _ulp) = f32_parts(b);
    if b < 0x10_0000 {
        push_fixed0(&mut out, r, 0x400);
        out.push('k');
    } else if b < 10 * 0x10_0000 {
        push_fixed1(&mut out, r, 0x10_0000);
        out.push('m');
    } else if b < 0x4000_0000 {
        push_fixed0(&mut out, r, 0x10_0000);
        out.push('m');
    } else if b < 10 * 0x4000_0000 {
        push_fixed1(&mut out, r, 0x4000_0000);
        out.push('g');
    } else if b < 0x100_0000_0000 {
        push_fixed0(&mut out, r, 0x4000_0000);
        out.push('g');
    } else if b < 10 * 0x100_0000_0000 {
        push_fixed1(&mut out, r, 0x100_0000_0000);
        out.push('t');
    } else if b < 0x4_0000_0000_0000 {
        push_fixed0(&mut out, r, 0x100_0000_0000);
        out.push('t');
    } else {
        push_shortest_tebi(&mut out, b);
        out.push('t');
    }
    out
}

/// What `human_readable_time` shows for a duration of `secs` whole seconds:
/// seconds alone up to a minute, then minutes and seconds, and hours once
/// there are more than sixty minutes.
pub open spec fn human_readable_time_text(secs: int) -> Seq<char> {
    if secs > 60 {
        let mins = secs / 60;
        let rest = secs % 60;
        if mins > 60 {
            decimal((mins / 60) as nat) + seq!['h'] + decimal((mins % 60) as nat) + seq!['m']
                + decimal(rest as nat) + seq!['s']
        } else {
            decimal(mins as nat) + seq!['m'] + decimal(rest as nat) + seq!['s']
        }
    } else {
        signed_decimal(secs) + seq!['s']
    }
}

/// Format a duration, given in whole seconds, as an amount of time a human
/// might reasonably interpret: `45` is `"45s"`, `45311` is `"12h35m11s"`.
pub fn human_readable_time(seconds: i64) -> (out: String)
    ensures
        out@ == human_readable_time_text(seconds as int),
{
    let mut out = String::new();
    if seconds > 60 {
        let mins = seconds / 60;
        let rest = seconds % 60;
        if mins > 60 {
            push_decimal(&mut out, (mins / 60) as u64);
            out.push('h');
            push_decimal(&mut out, (mins % 60) as u64);
        } else {
            push_decimal(&mut out, mins as u64);
        }
        out.push('m');
        push_decimal(&mut out, rest as u64);
    } else {
        push_signed_decimal(&mut out, seconds);
    }
    out.push('s');
    assert(out@ =~= human_readable_time_text(seconds as int));
    out
}

} // verus!

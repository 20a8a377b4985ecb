//! Amount formatting with unit suffixes: values at or above a threshold are
//! shown with one decimal digit and a `K`, `M` or `B` suffix; smaller values
//! are shown as plain decimal integers.

use vstd::prelude::*;
use crate::strutil::{digit_char, push_char, spec_decimal, spec_digit_char, u64_to_decimal};

verus! {

pub const THOUSAND: u64 = 1_000;

pub const MILLION: u64 = 1_000_000;

pub const BILLION: u64 = 1_000_000_000;

/// Whole part and tenths digit of `n / d`, rounded half up to one decimal.
///
/// The rounding is exact integer arithmetic, a deliberate deviation from
/// one-decimal floating-point formatting of `n / d`: the two agree on every
/// input except an exact decimal tie (a remainder of exactly `d / 2`, e.g.
/// 1250 of a thousand), where float formatting rounds by the nearest-double
/// representation and this definition always rounds up.
pub open spec fn spec_amount_whole(n: nat, d: nat) -> nat {
    let t = (n % d * 10 + d / 2) / d;
    if t == 10 {
        n / d + 1
    } else {
        n / d
    }
}

/// The tenths digit that goes with [`spec_amount_whole`]: exact integer
/// arithmetic, rounding half up (see there for how this deliberately
/// deviates from float formatting at exact decimal ties).
pub open spec fn spec_amount_tenth(n: nat, d: nat) -> nat {
    let t = (n % d * 10 + d / 2) / d;
    if t == 10 {
        0
    } else {
        t
    }
}

/// The scaled rendering `<whole>.<tenth>` of `n / d` as characters.
pub open spec fn spec_scaled(n: nat, d: nat) -> Seq<char> {
    spec_decimal(spec_amount_whole(n, d)).push('.').push(
        spec_digit_char(spec_amount_tenth(n, d)),
    )
}

/// The full formatting rule: `B`, `M` or `K` suffix at the fixed thresholds,
/// plain decimal below one thousand.
pub open spec fn spec_format_amount(n: nat) -> Seq<char> {
    if n >= BILLION {
        spec_scaled(n, BILLION as nat).push('B')
    } else if n >= MILLION {
        spec_scaled(n, MILLION as nat).push('M')
    } else if n >= THOUSAND {
        spec_scaled(n, THOUSAND as nat).push('K')
    } else {
        spec_decimal(n)
    }
}

/// Renders `n / d` with one decimal digit, rounded half up.
fn scaled(n: u64, d: u64) -> (r: String)
    requires
        d == THOUSAND || d == MILLION || d == BILLION,
    ensures
        r@ == spec_scaled(n as nat, d as nat),
{
    let whole: u64 = n / d;
    let rem: u64 = n % d;
    proof {
        assert(rem < d) by (nonlinear_arith)
            requires
                d > 0,
                rem == n as nat % d as nat,
        ;
        assert(whole <= n) by (nonlinear_arith)
            requires
                d > 0,
                whole == n as nat / d as nat,
        ;
    }
    let t: u64 = (rem * 10 + d / 2) / d;
    proof {
        assert(t <= 10) by (nonlinear_arith)
            requires
                d > 0,
                rem < d,
                t == (rem * 10 + d / 2) as nat / d as nat,
        ;
        assert(whole < 0xffff_ffff_ffff_ffffu64) by (nonlinear_arith)
            requires
                d >= 1000,
                whole == n as nat / d as nat,
                n <= 0xffff_ffff_ffff_ffffu64,
        ;
    }
    let (w, tenth): (u64, u64) = if t == 10 {
        (whole + 1, 0)
    } else {
        (whole, t)
    };
    let mut s = u64_to_decimal(w);
    push_char(&mut s, '.');
    push_char(&mut s, digit_char(tenth));
    s
}

/// Formats a counted amount for the badge message: unit suffix at the fixed
/// thresholds, one rounded decimal digit, plain decimal below one thousand.
pub fn format_amount(n: u64) -> (r: String)
    ensures
        r@ == spec_format_amount(n as nat),
{
    if n >= BILLION {
        let mut s = scaled(n, BILLION);
        push_char(&mut s, 'B');
        s
    } else if n >= MILLION {
        let mut s = scaled(n, MILLION);
        push_char(&mut s, 'M');
        s
    } else if n >= THOUSAND {
        let mut s = scaled(n, THOUSAND);
        push_char(&mut s, 'K');
        s
    } else {
        u64_to_decimal(n)
    }
}

} // verus!

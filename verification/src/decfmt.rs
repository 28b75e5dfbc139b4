//! Decimal rendering of integers and of retry delays.
//!
//! A rate-limit response carries its retry delay as decimal seconds with
//! millisecond precision and no trailing zeros, the way a float printed
//! with the shortest round-trip rendering would read.

use crate::hexcodec::{hex_digit_str, spec_hex_digit};
use vstd::prelude::*;
use vstd::string::StringExecFns;

verus! {

/// The decimal rendering of a non-negative integer, most significant digit
/// first. Digits below ten coincide with the hexadecimal digits.
pub open spec fn spec_dec(n: int) -> Seq<char>
    recommends
        n >= 0,
    decreases n,
{
    if n < 10 {
        seq![spec_hex_digit(n as u8)]
    } else {
        spec_dec(n / 10) + seq![spec_hex_digit((n % 10) as u8)]
    }
}

/// Renders an integer in decimal.
pub fn u64_to_dec(n: u64) -> (s: String)
    ensures
        s@ == spec_dec(n as int),
    decreases n,
{
    if n < 10 {
        let d = hex_digit_str((n % 16) as u8);
        proof {
            assert(n % 16 == n);
        }
        d.to_owned()
    } else {
        let high = u64_to_dec(n / 10);
        high.concat(hex_digit_str((n % 10) as u8))
    }
}

/// The retry delay of `ms` milliseconds as decimal seconds: the whole
/// seconds, then — only when the millisecond remainder is not zero — a
/// point and the remainder's three digits with trailing zeros dropped.
pub open spec fn spec_retry_secs(ms: u64) -> Seq<char> {
    let s = ms as int / 1000;
    let f = ms as int % 1000;
    if f == 0 {
        spec_dec(s)
    } else if f % 100 == 0 {
        spec_dec(s) + seq!['.', spec_hex_digit((f / 100) as u8)]
    } else if f % 10 == 0 {
        spec_dec(s) + seq![
            '.',
            spec_hex_digit((f / 100) as u8),
            spec_hex_digit((f / 10 % 10) as u8),
        ]
    } else {
        spec_dec(s) + seq![
            '.',
            spec_hex_digit((f / 100) as u8),
            spec_hex_digit((f / 10 % 10) as u8),
            spec_hex_digit((f % 10) as u8),
        ]
    }
}

/// Renders a delay in milliseconds as decimal seconds, millisecond
/// precision, no trailing zeros.
pub fn retry_secs_string(ms: u64) -> (r: String)
    ensures
        r@ == spec_retry_secs(ms),
{
    let s = ms / 1000;
    let f = ms % 1000;
    let mut out = u64_to_dec(s);
    if f == 0 {
        proof {
            assert(out@ =~= spec_retry_secs(ms));
        }
        return out;
    }
    out.append(".");
    out.append(hex_digit_str((f / 100) as u8));
    if f % 100 != 0 {
        out.append(hex_digit_str((f / 10 % 10) as u8));
        if f % 10 != 0 {
            out.append(hex_digit_str((f % 10) as u8));
        }
    }
    proof {
        reveal_strlit(".");
        assert("."@ =~= seq!['.']);
        assert(out@ =~= spec_retry_secs(ms));
    }
    out
}

} // verus!

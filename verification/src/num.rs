//! Verified decimal rendering of integers into ASCII bytes, used by the
//! line-protocol serializer.

use vstd::prelude::*;

verus! {

/// The ASCII digit byte for a value between 0 and 9.
pub open spec fn spec_ascii_digit(d: int) -> u8
    recommends
        0 <= d <= 9,
{
    (0x30 + d) as u8
}

/// The decimal rendering of a nonnegative integer, as ASCII digit bytes,
/// most significant first, with no leading zeros (`0` renders as `0`).
pub open spec fn spec_u64_dec(n: int) -> Seq<u8>
    recommends
        n >= 0,
    decreases n,
{
    if n < 10 {
        seq![spec_ascii_digit(n)]
    } else {
        spec_u64_dec(n / 10).push(spec_ascii_digit(n % 10))
    }
}

/// The decimal rendering of a signed integer: the magnitude's digits,
/// preceded by `-` when negative.
pub open spec fn spec_i64_dec(n: int) -> Seq<u8> {
    if n < 0 {
        seq![0x2du8] + spec_u64_dec(-n)
    } else {
        spec_u64_dec(n)
    }
}

/// Appends the decimal rendering of `n` to `out`.
pub fn push_u64_dec(out: &mut Vec<u8>, n: u64)
    ensures
        final(out)@ == old(out)@ + spec_u64_dec(n as int),
    decreases n,
{
    if n < 10 {
        out.push(0x30 + (n as u8));
        proof {
            assert(out@ =~= old(out)@ + spec_u64_dec(n as int));
        }
    } else {
        push_u64_dec(out, n / 10);
        out.push(0x30 + ((n % 10) as u8));
        proof {
            assert(out@ =~= old(out)@ + spec_u64_dec(n as int));
        }
    }
}

/// Appends the decimal rendering of `n` to `out`, with a leading `-` when
/// `n` is negative.
pub fn push_i64_dec(out: &mut Vec<u8>, n: i64)
    ensures
        final(out)@ == old(out)@ + spec_i64_dec(n as int),
{
    if n >= 0 {
        push_u64_dec(out, n as u64);
    } else {
        out.push(0x2d);
        let m: u64 = ((-(n + 1)) as u64) + 1;
        proof {
            assert(m as int == -(n as int));
        }
        push_u64_dec(out, m);
        proof {
            assert(out@ =~= old(out)@ + spec_i64_dec(n as int));
        }
    }
}

} // verus!

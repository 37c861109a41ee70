//! Query and write options: the query language selector and the timestamp
//! precision, with its exact truncation arithmetic.

use vstd::prelude::*;
use vstd::arithmetic::div_mod::lemma_basic_div;
use vstd::arithmetic::div_mod::lemma_div_denominator;
use vstd::arithmetic::div_mod::lemma_div_pos_is_pos;
use vstd::arithmetic::div_mod::lemma_fundamental_div_mod;
use vstd::arithmetic::div_mod::lemma_hoist_over_denominator;
use vstd::arithmetic::div_mod::lemma_mod_division_less_than_divisor;
use vstd::arithmetic::div_mod::lemma_multiply_divide_lt;
use vstd::arithmetic::mul::lemma_mul_strictly_positive;
use vstd::string::StringExecFns;

use crate::error::InfluxDBError;
use crate::util::str_eq;

verus! {

/// The query language a query is written in.
#[derive(Debug, Clone, Copy, PartialEq, Eq, Structural)]
pub enum QueryType {
    SQL,
    InfluxQL,
}

impl Default for QueryType {
    fn default() -> (r: Self)
        ensures
            r == QueryType::SQL,
    {
        QueryType::SQL
    }
}

/// The precision a point's timestamp is rendered at on the wire: the
/// nanosecond-resolution instant is truncated to the chosen unit.
#[derive(Debug, Clone, Copy, PartialEq, Eq, Structural)]
pub enum TimestampPrecision {
    Nanoseconds,
    Microseconds,
    Milliseconds,
    Seconds,
}

impl Default for TimestampPrecision {
    fn default() -> (r: Self)
        ensures
            r == TimestampPrecision::Nanoseconds,
    {
        TimestampPrecision::Nanoseconds
    }
}

/// The precision named by a token, as `try_from` accepts it: the short
/// v2 form or the long v3 form of each unit.
pub open spec fn spec_precision_token(s: Seq<char>) -> Option<TimestampPrecision> {
    if s == "ns"@ || s == "nanosecond"@ {
        Some(TimestampPrecision::Nanoseconds)
    } else if s == "us"@ || s == "microsecond"@ {
        Some(TimestampPrecision::Microseconds)
    } else if s == "ms"@ || s == "millisecond"@ {
        Some(TimestampPrecision::Milliseconds)
    } else if s == "s"@ || s == "second"@ {
        Some(TimestampPrecision::Seconds)
    } else {
        None
    }
}

/// The integer a nanosecond instant renders as at each precision: the
/// nanosecond count, floor-divided down to the chosen unit.
pub open spec fn spec_process_timestamp(p: TimestampPrecision, nanos: int) -> int {
    match p {
        TimestampPrecision::Nanoseconds => nanos,
        TimestampPrecision::Microseconds => nanos / 1000,
        TimestampPrecision::Milliseconds => nanos / 1000000,
        TimestampPrecision::Seconds => nanos / 1000000000,
    }
}

impl TimestampPrecision {
    /// The precision token in the v2 API's short form.
    pub fn v2_str(&self) -> (r: &'static str)
        ensures
            r@ == match *self {
                TimestampPrecision::Nanoseconds => "ns"@,
                TimestampPrecision::Microseconds => "Âµs"@,
                TimestampPrecision::Milliseconds => "ms"@,
                TimestampPrecision::Seconds => "s"@,
            },
    {
        match self {
            TimestampPrecision::Nanoseconds => "ns",
            TimestampPrecision::Microseconds => "Âµs",
            TimestampPrecision::Milliseconds => "ms",
            TimestampPrecision::Seconds => "s",
        }
    }

    /// The precision token in the v3 API's long form.
    pub fn v3_str(&self) -> (r: &'static str)
        ensures
            r@ == match *self {
                TimestampPrecision::Nanoseconds => "nanosecond"@,
                TimestampPrecision::Microseconds => "microsecond"@,
                TimestampPrecision::Milliseconds => "millisecond"@,
                TimestampPrecision::Seconds => "second"@,
            },
    {
        match self {
            TimestampPrecision::Nanoseconds => "nanosecond",
            TimestampPrecision::Microseconds => "microsecond",
            TimestampPrecision::Milliseconds => "millisecond",
            TimestampPrecision::Seconds => "second",
        }
    }

    /// Parses a precision token, accepting both the short and the long form
    /// of each unit; any other token is rejected with a typed error.
    pub fn try_from(value: &str) -> (r: Result<TimestampPrecision, InfluxDBError>)
        ensures
            match spec_precision_token(value@) {
                Some(p) => r == Ok::<TimestampPrecision, InfluxDBError>(p),
                None => r matches Err(InfluxDBError::InvalidTimestampPrecision(t)) && t@
                    == value@,
            },
    {
        if str_eq(value, "ns") || str_eq(value, "nanosecond") {
            Ok(TimestampPrecision::Nanoseconds)
        } else if str_eq(value, "us") || str_eq(value, "microsecond") {
            Ok(TimestampPrecision::Microseconds)
        } else if str_eq(value, "ms") || str_eq(value, "millisecond") {
            Ok(TimestampPrecision::Milliseconds)
        } else if str_eq(value, "s") || str_eq(value, "second") {
            Ok(TimestampPrecision::Seconds)
        } else {
            Err(InfluxDBError::InvalidTimestampPrecision(String::from_str(value)))
        }
    }

    /// Truncates a nanosecond instant to this precision.
    pub fn process_timestamp(&self, nanos: i64) -> (r: i64)
        ensures
            r as int == spec_process_timestamp(*self, nanos as int),
    {
        match self {
            TimestampPrecision::Nanoseconds => nanos,
            TimestampPrecision::Microseconds => div_floor(nanos, 1000),
            TimestampPrecision::Milliseconds => div_floor(nanos, 1000000),
            TimestampPrecision::Seconds => div_floor(nanos, 1000000000),
        }
    }
}

/// Floor division of a signed value by a positive divisor.
fn div_floor(n: i64, d: i64) -> (r: i64)
    requires
        1 <= d,
    ensures
        r as int == n as int / d as int,
{
    proof {
        lemma_div_floor_in_range(n as int, d as int);
    }
    n.checked_div_euclid(d).unwrap()
}

/// Floor division by a positive divisor never leaves the dividend's range:
/// the quotient lies between the dividend and zero.
proof fn lemma_div_floor_in_range(n: int, d: int)
    requires
        1 <= d,
    ensures
        n >= 0 ==> 0 <= n / d <= n,
        n < 0 ==> n <= n / d <= 0,
{
    let q = n / d;
    let r = n % d;
    lemma_fundamental_div_mod(n, d);
    lemma_mod_division_less_than_divisor(n, d);
    if n >= 0 {
        lemma_div_pos_is_pos(n, d);
        assert(n == d * q + r);
        assert(d * q >= q) by (nonlinear_arith)
            requires
                d >= 1,
                q >= 0,
        ;
    } else {
        assert(q < 0) by {
            if q >= 0 {
                assert(d * q >= 0) by (nonlinear_arith)
                    requires
                        d >= 1,
                        q >= 0,
                ;
            }
        }
        assert(d * q + r <= q) by (nonlinear_arith)
            requires
                d >= 1,
                q <= -1,
                r >= 0,
                r <= d - 1,
        ;
    }
}

/// Floor division by `a` and then by `b` equals floor division by `a * b`,
/// for positive divisors, over the whole signed range.
proof fn lemma_div_div(n: int, a: int, b: int)
    requires
        1 <= a,
        1 <= b,
    ensures
        (n / a) / b == n / (a * b),
{
    if n >= 0 {
        lemma_div_denominator(n, a, b);
    } else {
        lemma_mul_strictly_positive(a, b);
        let q = n / (a * b);
        let r = n % (a * b);
        lemma_fundamental_div_mod(n, a * b);
        lemma_mod_division_less_than_divisor(n, a * b);
        assert(n == r + (b * q) * a) by (nonlinear_arith)
            requires
                n == (a * b) * q + r,
        ;
        lemma_hoist_over_denominator(r, b * q, a as nat);
        assert(n / a == r / a + b * q);
        lemma_div_pos_is_pos(r, a);
        lemma_multiply_divide_lt(r, a, b);
        lemma_hoist_over_denominator(r / a, q, b as nat);
        assert((r / a + q * b) / b == r / a / b + q);
        lemma_basic_div(r / a, b);
        assert(r / a + b * q == r / a + q * b) by (nonlinear_arith);
        assert((n / a) / b == q);
    }
}

/// Timestamp rendering is precision-exact: truncating the nanosecond
/// instant at a coarse precision equals truncating at a finer precision
/// and then dividing the rest of the way, so no precision is re-derived
/// from a lossy intermediate.
pub proof fn lemma_precision_truncation_exact(nanos: int)
    ensures
        spec_process_timestamp(TimestampPrecision::Microseconds, nanos) / 1000
            == spec_process_timestamp(TimestampPrecision::Milliseconds, nanos),
        spec_process_timestamp(TimestampPrecision::Milliseconds, nanos) / 1000
            == spec_process_timestamp(TimestampPrecision::Seconds, nanos),
        spec_process_timestamp(TimestampPrecision::Microseconds, nanos) / 1000000
            == spec_process_timestamp(TimestampPrecision::Seconds, nanos),
{
    lemma_div_div(nanos, 1000, 1000);
    lemma_div_div(nanos, 1000000, 1000);
    lemma_div_div(nanos, 1000, 1000000);
}

} // verus!

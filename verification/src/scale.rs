//! Pure scaling between absolute brightness (the full `[0, SCALE]` range) and
//! a calibrated sub-range `[low, high]`.

use vstd::prelude::*;

use crate::errors::{Error, ErrorKind};
use crate::SCALE;

verus! {

/// `v` forced into `[lo, hi]`.
pub open spec fn spec_clamp(v: int, lo: int, hi: int) -> int {
    if v < lo {
        lo
    } else if v > hi {
        hi
    } else {
        v
    }
}

/// Mathematical meaning of `scale_to_clamped_relative` for `low <= high`.
pub open spec fn spec_to_relative(v: int, low: int, high: int) -> int {
    spec_clamp(v, 0, SCALE as int) * (high - low) / (SCALE as int) + low
}

/// Mathematical meaning of `scale_to_clamped_absolute` for `low <= high`.
/// An empty calibration range (`low == high`) admits only one calibrated
/// value, which is mapped to 0.
pub open spec fn spec_to_absolute(v: int, low: int, high: int) -> int {
    if low == high {
        0
    } else {
        (spec_clamp(v, low, high) - low) * (SCALE as int) / (high - low)
    }
}

/// Scale a value from the `[0, SCALE]` range onto the arbitrary range
/// `[low, high]`.
pub fn scale_to_clamped_relative(absolute_value: u64, low: u64, high: u64) -> (r: Result<
    u64,
    Error,
>)
    requires
        low <= SCALE,
        high <= SCALE,
    ensures
        r is Err <==> low > high,
        r matches Err(e) ==> e.kind == ErrorKind::InvalidRange,
        r matches Ok(v) ==> v == spec_to_relative(absolute_value as int, low as int, high as int),
        r matches Ok(v) ==> low <= v <= high,
{
    if low > high {
        Err(Error::of_kind(ErrorKind::InvalidRange))
    } else {
        let clamped: u64 = if absolute_value > SCALE {
            SCALE
        } else {
            absolute_value
        };
        let spread: u64 = high - low;
        proof {
            assert(clamped * spread <= SCALE * SCALE) by (nonlinear_arith)
                requires
                    0 <= clamped <= SCALE,
                    0 <= spread <= SCALE,
            ;
        }
        let scaled: u64 = clamped * spread / SCALE;
        proof {
            lemma_scaled_in_spread(clamped as int, spread as int);
        }
        Ok(scaled + low)
    }
}

/// Scale a value from the arbitrary range `[low, high]` back onto the
/// `[0, SCALE]` range.
pub fn scale_to_clamped_absolute(relative_value: u64, low: u64, high: u64) -> (r: Result<
    u64,
    Error,
>)
    requires
        low <= SCALE,
        high <= SCALE,
    ensures
        r is Err <==> low > high,
        r matches Err(e) ==> e.kind == ErrorKind::InvalidRange,
        r matches Ok(v) ==> v == spec_to_absolute(relative_value as int, low as int, high as int),
        r matches Ok(v) ==> v <= SCALE,
{
    if low > high {
        Err(Error::of_kind(ErrorKind::InvalidRange))
    } else if low == high {
        Ok(0)
    } else {
        let clamped: u64 = if relative_value < low {
            low
        } else if relative_value > high {
            high
        } else {
            relative_value
        };
        let spread: u64 = high - low;
        proof {
            assert((clamped - low) * SCALE <= SCALE * SCALE) by (nonlinear_arith)
                requires
                    0 <= clamped - low <= SCALE,
            ;
        }
        let scaled: u64 = (clamped - low) * SCALE / spread;
        proof {
            lemma_absolute_in_unit((clamped - low) as int, spread as int);
        }
        Ok(scaled)
    }
}

/// For `0 <= c <= SCALE` and a spread `d`, `c * d / SCALE` stays within the
/// spread.
proof fn lemma_scaled_in_spread(c: int, d: int)
    requires
        0 <= c <= SCALE,
        0 <= d,
    ensures
        0 <= c * d / (SCALE as int) <= d,
{
    let s = SCALE as int;
    assert(0 <= c * d && c * d <= s * d) by (nonlinear_arith)
        requires
            0 <= c <= s,
            0 <= d,
    ;
    vstd::arithmetic::div_mod::lemma_div_is_ordered(c * d, s * d, s);
    vstd::arithmetic::div_mod::lemma_div_multiples_vanish(d, s);
    vstd::arithmetic::div_mod::lemma_div_pos_is_pos(c * d, s);
}

/// For `0 <= n <= d`, `n * SCALE / d` stays within the unit range.
proof fn lemma_absolute_in_unit(n: int, d: int)
    requires
        0 <= n <= d,
        0 < d,
    ensures
        0 <= n * (SCALE as int) / d <= SCALE,
{
    let s = SCALE as int;
    assert(0 <= n * s && n * s <= d * s) by (nonlinear_arith)
        requires
            0 <= n <= d,
            0 < s,
    ;
    vstd::arithmetic::div_mod::lemma_div_is_ordered(n * s, d * s, d);
    vstd::arithmetic::div_mod::lemma_div_multiples_vanish(s, d);
    vstd::arithmetic::div_mod::lemma_div_pos_is_pos(n * s, d);
}

/// Round-trip law: scaling onto a non-empty calibration range and back loses
/// at most one quantization step. For every `x` and every `low < high`, the
/// value that comes back differs from `clamp(x, 0, SCALE)` by less than
/// `SCALE / (high - low) + 1`, and never exceeds it.
///
/// An empty range (`low == high`) is excluded: it maps every input to the
/// single calibrated value `low`, from which nothing can be recovered.
pub proof fn lemma_scale_round_trip(x: u64, low: u64, high: u64)
    requires
        low < high <= SCALE,
    ensures
        ({
            let c = spec_clamp(x as int, 0, SCALE as int);
            let rel = spec_to_relative(x as int, low as int, high as int);
            let back = spec_to_absolute(rel, low as int, high as int);
            back <= c && (c - back) * (high - low) < SCALE + (high - low)
        }),
{
    let s = SCALE as int;
    let d = high as int - low as int;
    let c = spec_clamp(x as int, 0, s);
    let rel = spec_to_relative(x as int, low as int, high as int);
    let q = c * d / s;

    // rel = q + low sits inside [low, high], so to_absolute does not clamp it.
    lemma_scaled_in_spread(c, d);
    assert(rel == q + low);
    assert(low as int <= rel <= high as int);
    let back = spec_to_absolute(rel, low as int, high as int);
    assert(back == q * s / d);

    // Name the two division remainders.
    vstd::arithmetic::div_mod::lemma_fundamental_div_mod(c * d, s);
    let r1 = (c * d) % s;
    assert(c * d == s * q + r1);
    vstd::arithmetic::div_mod::lemma_mod_bound(c * d, s);

    vstd::arithmetic::div_mod::lemma_fundamental_div_mod(q * s, d);
    let r2 = (q * s) % d;
    assert(q * s == d * back + r2);
    vstd::arithmetic::div_mod::lemma_mod_bound(q * s, d);

    // d * back == c * d - r1 - r2, hence c*d - d*back == r1 + r2 < s + d.
    assert(d * back == c * d - r1 - r2);
    assert((c - back) * d == c * d - back * d) by (nonlinear_arith);
    assert((c - back) * d == r1 + r2);
    assert((c - back) * d < s + d);

    // back <= c: d * back <= c * d and d > 0.
    assert(d * back <= c * d);
    assert(back <= c) by (nonlinear_arith)
        requires
            d * back <= c * d,
            d > 0,
    ;
}

} // verus!

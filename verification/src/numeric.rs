//! Fixed-point numbers and their rounding.

use crate::error::ErrorKind;
use vstd::prelude::*;

verus! {

/// Decimal places carried by every price, volume and amount.
pub const DECIMALS: u32 = 8;

/// The raw value of the number one.
pub const UNIT: i64 = 100_000_000;

/// `n / d` rounded to the nearest integer, a tie going to the even neighbour.
pub open spec fn round_half_even(n: int, d: int) -> int
    recommends
        d > 0,
{
    let q = n / d;
    let r = n % d;
    if 2 * r < d {
        q
    } else if 2 * r > d {
        q + 1
    } else if q % 2 == 0 {
        q
    } else {
        q + 1
    }
}

/// The product of two fixed-point numbers, rounded to the last place.
pub open spec fn fx_mul_spec(a: int, b: int) -> int {
    round_half_even(a * b, UNIT as int)
}

/// Whether `a * b` can be formed in 128 bits.
pub open spec fn product_fits(a: int, b: int) -> bool {
    i128::MIN <= a * b <= i128::MAX
}

/// The rounded quotient lies within one of the exact one, and an exact
/// quotient is returned as it is.
pub proof fn lemma_round_half_even_bounds(n: int, d: int)
    requires
        d > 0,
    ensures
        n / d <= round_half_even(n, d) <= n / d + 1,
        n % d == 0 ==> round_half_even(n, d) == n / d,
        2 * (round_half_even(n, d) * d - n) <= d,
        2 * (n - round_half_even(n, d) * d) <= d,
{
    assert(n == d * (n / d) + n % d) by {
        vstd::arithmetic::div_mod::lemma_fundamental_div_mod(n, d);
    }
    assert(0 <= n % d < d) by {
        vstd::arithmetic::div_mod::lemma_mod_bound(n, d);
    }
    assert((n / d + 1) * d == (n / d) * d + d) by (nonlinear_arith);
    assert(d * (n / d) == (n / d) * d) by (nonlinear_arith);
}

/// The sum of two numbers, held to the range of the fixed-point type.
pub open spec fn sat_add_spec(a: i64, b: i64) -> i64 {
    if a + b > i64::MAX {
        i64::MAX
    } else if a + b < i64::MIN {
        i64::MIN
    } else {
        (a + b) as i64
    }
}

/// What `later` has grown by over `earlier`, and zero where it has not
/// grown, held to the range of the fixed-point type.
pub open spec fn growth_spec(later: i64, earlier: i64) -> i64 {
    if later - earlier <= 0 {
        0
    } else if later - earlier > i64::MAX {
        i64::MAX
    } else {
        (later - earlier) as i64
    }
}

/// The larger of two numbers.
pub open spec fn max_spec(a: i64, b: i64) -> i64 {
    if a >= b {
        a
    } else {
        b
    }
}

/// The smaller of two numbers.
pub open spec fn min_spec(a: i64, b: i64) -> i64 {
    if a <= b {
        a
    } else {
        b
    }
}

/// The sum of two numbers, held to the range of the fixed-point type.
pub fn sat_add(a: i64, b: i64) -> (r: i64)
    ensures
        r == sat_add_spec(a, b),
{
    let sum: i128 = a as i128 + b as i128;
    if sum > i64::MAX as i128 {
        i64::MAX
    } else if sum < i64::MIN as i128 {
        i64::MIN
    } else {
        sum as i64
    }
}

/// What `later` has grown by over `earlier`, and zero where it has not
/// grown.
pub fn growth(later: i64, earlier: i64) -> (r: i64)
    ensures
        r == growth_spec(later, earlier),
{
    let d: i128 = later as i128 - earlier as i128;
    if d <= 0 {
        0
    } else if d > i64::MAX as i128 {
        i64::MAX
    } else {
        d as i64
    }
}

/// The larger of two numbers.
pub fn max_of(a: i64, b: i64) -> (r: i64)
    ensures
        r == max_spec(a, b),
{
    if a >= b {
        a
    } else {
        b
    }
}

/// The smaller of two numbers.
pub fn min_of(a: i64, b: i64) -> (r: i64)
    ensures
        r == min_spec(a, b),
{
    if a <= b {
        a
    } else {
        b
    }
}

/// The product of two bounded numbers is bounded by the product of the
/// bounds.
pub proof fn lemma_product_bound(a: int, b: int, bound_a: int, bound_b: int)
    requires
        -bound_a <= a <= bound_a,
        -bound_b <= b <= bound_b,
    ensures
        -(bound_a * bound_b) <= a * b <= bound_a * bound_b,
{
    assert((bound_a - a) * (bound_b - b) >= 0) by (nonlinear_arith)
        requires
            bound_a - a >= 0,
            bound_b - b >= 0,
    ;
    assert((bound_a + a) * (bound_b + b) >= 0) by (nonlinear_arith)
        requires
            bound_a + a >= 0,
            bound_b + b >= 0,
    ;
    assert((bound_a - a) * (bound_b + b) >= 0) by (nonlinear_arith)
        requires
            bound_a - a >= 0,
            bound_b + b >= 0,
    ;
    assert((bound_a + a) * (bound_b - b) >= 0) by (nonlinear_arith)
        requires
            bound_a + a >= 0,
            bound_b - b >= 0,
    ;
    assert((bound_a - a) * (bound_b - b) + (bound_a + a) * (bound_b + b) == 2 * (bound_a * bound_b)
        + 2 * (a * b)) by (nonlinear_arith);
    assert((bound_a - a) * (bound_b + b) + (bound_a + a) * (bound_b - b) == 2 * (bound_a * bound_b)
        - 2 * (a * b)) by (nonlinear_arith);
}

/// `n / d` rounded half to even, for a positive divisor.
pub fn div_round_half_even(n: i128, d: i128) -> (r: i128)
    requires
        d > 0,
    ensures
        r == round_half_even(n as int, d as int),
{
    proof {
        lemma_round_half_even_bounds(n as int, d as int);
        vstd::arithmetic::div_mod::lemma_fundamental_div_mod(n as int, d as int);
        vstd::arithmetic::div_mod::lemma_mod_bound(n as int, d as int);
        lemma_quotient_range(n as int, d as int);
    }
    let q: i128 = n.checked_div_euclid(d).unwrap();
    let r: i128 = n.checked_rem_euclid(d).unwrap();
    // `r < d`, so `d - r` cannot overflow; comparing `r` with `d - r`
    // avoids doubling `r`.
    let rest: i128 = d - r;
    if r < rest {
        q
    } else if r > rest {
        q + 1
    } else if q % 2 == 0 {
        q
    } else {
        q + 1
    }
}

/// For a positive divisor the floor quotient is no larger in magnitude than
/// the dividend, and one more than it still fits where the dividend does
/// unless the division is exact.
pub proof fn lemma_quotient_range(n: int, d: int)
    requires
        d > 0,
    ensures
        n >= 0 ==> 0 <= n / d <= n,
        n < 0 ==> n <= n / d < 0,
        n >= 0 && n % d != 0 ==> n / d + 1 <= n,
{
    vstd::arithmetic::div_mod::lemma_fundamental_div_mod(n, d);
    vstd::arithmetic::div_mod::lemma_mod_bound(n, d);
    let q = n / d;
    let r = n % d;
    assert(n == d * q + r);
    if n >= 0 {
        assert(q >= 0) by (nonlinear_arith)
            requires
                n == d * q + r,
                0 <= r < d,
                n >= 0,
                d > 0,
        ;
        assert(q <= n) by (nonlinear_arith)
            requires
                n == d * q + r,
                0 <= r < d,
                q >= 0,
                d > 0,
        ;
        if r != 0 {
            assert(q + 1 <= n) by (nonlinear_arith)
                requires
                    n == d * q + r,
                    0 < r < d,
                    q >= 0,
                    d > 0,
            ;
        }
    } else {
        assert(q < 0) by (nonlinear_arith)
            requires
                n == d * q + r,
                0 <= r < d,
                n < 0,
                d > 0,
        ;
        assert(n <= q) by (nonlinear_arith)
            requires
                n == d * q + r,
                0 <= r < d,
                q < 0,
                d > 0,
        ;
    }
}

/// The product of two fixed-point numbers rounded to the last place, or
/// `None` where the unrounded product does not fit in 128 bits.
pub fn fx_mul(a: i128, b: i128) -> (r: Option<i128>)
    ensures
        r is Some <==> product_fits(a as int, b as int),
        r is Some ==> r->0 == fx_mul_spec(a as int, b as int),
{
    match a.checked_mul(b) {
        Some(p) => Some(div_round_half_even(p, UNIT as i128)),
        None => None,
    }
}


/// Ten to the power `n`.
pub open spec fn pow10(n: nat) -> int
    decreases n,
{
    if n == 0 {
        1
    } else {
        10 * pow10((n - 1) as nat)
    }
}

/// What `rust_decimal::Decimal::checked_div` returns for the decimal
/// `a / 10^a_scale` divided by the decimal `b / 10^b_scale`: the mantissa
/// and the scale of the quotient, or `None`.
pub uninterp spec fn decimal_quotient(a: int, a_scale: nat, b: int, b_scale: nat) -> Option<(int, nat)>;

/// `rust_decimal::Decimal::checked_div` on two decimals given by mantissa
/// and scale. The quotient is a function of the two operands alone; nothing
/// more is claimed of it than that it is the value named
/// `decimal_quotient`. The operands are within what `Decimal` can hold, so
/// building them does not panic.
#[verifier::external_body]
fn decimal_checked_div(a: i128, a_scale: u32, b: i128, b_scale: u32) -> (r: Option<(i128, u32)>)
    requires
        a_scale <= 28,
        b_scale <= 28,
        -0xffff_ffff_ffff_ffff_ffff_ffff <= a <= 0xffff_ffff_ffff_ffff_ffff_ffff,
        -0xffff_ffff_ffff_ffff_ffff_ffff <= b <= 0xffff_ffff_ffff_ffff_ffff_ffff,
    ensures
        match r {
            Some((m, s)) => decimal_quotient(a as int, a_scale as nat, b as int, b_scale as nat)
                == Some((m as int, s as nat)),
            None => decimal_quotient(a as int, a_scale as nat, b as int, b_scale as nat) is None,
        },
{
    let x = rust_decimal::Decimal::from_i128_with_scale(a, a_scale);
    let y = rust_decimal::Decimal::from_i128_with_scale(b, b_scale);
    match x.checked_div(y) {
        Some(q) => Some((q.mantissa(), q.scale())),
        None => None,
    }
}

/// Ten to the power `n`, where it fits in 128 bits.
fn pow10_checked(n: u32) -> (r: Option<i128>)
    ensures
        r is Some <==> pow10(n as nat) <= i128::MAX,
        r is Some ==> r->0 == pow10(n as nat),
{
    let mut p: i128 = 1;
    let mut i: u32 = 0;
    while i < n
        invariant
            i <= n,
            p == pow10(i as nat),
            p >= 1,
        decreases n - i,
    {
        match p.checked_mul(10) {
            Some(next) => {
                p = next;
            },
            None => {
                proof {
                    lemma_pow10_monotonic((i + 1) as nat, n as nat);
                }
                return None;
            },
        }
        i = i + 1;
    }
    Some(p)
}

/// The powers of ten are positive and do not fall.
pub proof fn lemma_pow10_monotonic(a: nat, b: nat)
    requires
        a <= b,
    ensures
        1 <= pow10(a) <= pow10(b),
    decreases b,
{
    if a < b {
        lemma_pow10_monotonic(a, (b - 1) as nat);
    } else if a > 0 {
        lemma_pow10_monotonic((a - 1) as nat, (b - 1) as nat);
    }
}

/// The multiple of `target` nearest to the quotient `mantissa / 10^scale`
/// times `target`: the quotient is rounded half to even and multiplied by
/// the target. A result outside the range of the fixed-point type, or a
/// scale whose power of ten does not fit in 128 bits, is a numeric error.
pub open spec fn quantize_spec(mantissa: int, scale: nat, target: int) -> Result<i64, ErrorKind> {
    if pow10(scale) > i128::MAX {
        Err(ErrorKind::Numeric)
    } else {
        let k = round_half_even(mantissa, pow10(scale));
        if i64::MIN <= k * target <= i64::MAX {
            Ok((k * target) as i64)
        } else {
            Err(ErrorKind::Numeric)
        }
    }
}

/// What rounding `value` to a multiple of `target` gives, where `quotient`
/// is the decimal quotient of the two: a zero target is a numeric error, an
/// exact multiple is returned as it is, and any other value is the rounded
/// quotient times the target.
pub open spec fn round_to_spec(value: i64, target: i64, quotient: Option<(int, nat)>) -> Result<
    i64,
    ErrorKind,
> {
    if target == 0 {
        Err(ErrorKind::Numeric)
    } else if is_multiple(value as int, target as int) {
        Ok(value)
    } else {
        match quotient {
            Some((m, s)) => quantize_spec(m, s, target as int),
            None => Err(ErrorKind::Numeric),
        }
    }
}

/// Whether `value` is an integer multiple of `target`.
pub open spec fn is_multiple(value: int, target: int) -> bool {
    exists|k: int| value == #[trigger] (k * target)
}

/// Rounds the quotient `mantissa / 10^scale` half to even and multiplies it
/// by `target`.
pub fn quantize(mantissa: i128, scale: u32, target: i64) -> (r: Result<i64, ErrorKind>)
    ensures
        r == quantize_spec(mantissa as int, scale as nat, target as int),
{
    let d = match pow10_checked(scale) {
        Some(d) => d,
        None => { return Err(ErrorKind::Numeric); },
    };
    proof {
        lemma_pow10_monotonic(0, scale as nat);
    }
    let k: i128 = div_round_half_even(mantissa, d);
    match k.checked_mul(target as i128) {
        Some(p) => {
            if p < i64::MIN as i128 || p > i64::MAX as i128 {
                Err(ErrorKind::Numeric)
            } else {
                Ok(p as i64)
            }
        },
        None => Err(ErrorKind::Numeric),
    }
}

/// Whether `value` is an integer multiple of the non-zero `target`.
fn divides(value: i64, target: i64) -> (r: bool)
    requires
        target != 0,
    ensures
        r == is_multiple(value as int, target as int),
{
    let v: i128 = value as i128;
    let t: i128 = if target < 0 {
        -(target as i128)
    } else {
        target as i128
    };
    let rem: i128 = v.checked_rem_euclid(t).unwrap();
    proof {
        let vi = value as int;
        let ti = t as int;
        vstd::arithmetic::div_mod::lemma_fundamental_div_mod(vi, ti);
        if rem == 0 {
            let q = vi / ti;
            assert(vi == ti * q);
            if target < 0 {
                assert(vi == (-q) * (target as int)) by (nonlinear_arith)
                    requires
                        vi == ti * q,
                        ti == -(target as int),
                ;
            } else {
                assert(vi == q * (target as int)) by (nonlinear_arith)
                    requires
                        vi == ti * q,
                        ti == target as int,
                ;
            }
        } else {
            if is_multiple(vi, target as int) {
                let k = choose|k: int| vi == #[trigger] (k * (target as int));
                let k2 = if target < 0 {
                    -k
                } else {
                    k
                };
                assert(vi == k2 * ti) by (nonlinear_arith)
                    requires
                        vi == k * (target as int),
                        (target < 0 && ti == -(target as int) && k2 == -k) || (target >= 0 && ti
                            == target as int && k2 == k),
                ;
                vstd::arithmetic::div_mod::lemma_mod_multiples_basic(k2, ti);
                assert(false);
            }
        }
    }
    rem == 0
}

/// Rounds `value` to a multiple of `target`, both fixed-point numbers, in
/// decimal arithmetic. A multiple of the target is returned as it is. Any
/// other value is divided by the target as a decimal, the quotient is
/// rounded to the nearest whole number, a tie going to the even one, and
/// multiplied by the target. A zero target is a numeric error, and so is a
/// result that the fixed-point type cannot hold.
pub fn round_to(value: i64, target: i64) -> (r: Result<i64, ErrorKind>)
    ensures
        r == round_to_spec(
            value,
            target,
            decimal_quotient(value as int, DECIMALS as nat, target as int, DECIMALS as nat),
        ),
        r is Ok ==> is_multiple(r->Ok_0 as int, target as int),
{
    proof {
        lemma_round_to_gives_multiple(
            value,
            target,
            decimal_quotient(value as int, DECIMALS as nat, target as int, DECIMALS as nat),
        );
    }
    if target == 0 {
        return Err(ErrorKind::Numeric);
    }
    if divides(value, target) {
        return Ok(value);
    }
    match decimal_checked_div(value as i128, DECIMALS, target as i128, DECIMALS) {
        Some((m, s)) => quantize(m, s, target),
        None => Err(ErrorKind::Numeric),
    }
}

/// The size of a number.
pub open spec fn magnitude(x: int) -> int {
    if x < 0 {
        -x
    } else {
        x
    }
}

/// Where the quotient `mantissa / 10^scale` is the exact quotient of
/// `value` by `target`, what comes of it is a multiple of the target that
/// is nearest to the value: no further from it than half the target.
pub proof fn lemma_quantize_is_nearest(mantissa: int, scale: nat, value: int, target: int)
    requires
        target != 0,
        mantissa * target == value * pow10(scale),
        quantize_spec(mantissa, scale, target) is Ok,
    ensures
        2 * magnitude(quantize_spec(mantissa, scale, target)->Ok_0 - value) <= magnitude(target),
{
    let d = pow10(scale);
    lemma_pow10_monotonic(0, scale);
    lemma_round_half_even_bounds(mantissa, d);
    let k = round_half_even(mantissa, d);
    let r = k * target;
    let e = k * d - mantissa;
    assert(quantize_spec(mantissa, scale, target)->Ok_0 == r);
    assert(d * (r - value) == target * e) by (nonlinear_arith)
        requires
            r == k * target,
            e == k * d - mantissa,
            mantissa * target == value * d,
    ;
    let t = magnitude(target);
    assert(2 * magnitude(target * e) <= t * d) by (nonlinear_arith)
        requires
            t == magnitude(target),
            -d <= 2 * e <= d,
            d >= 1,
    {
        if target >= 0 {
            assert(2 * (target * e) <= target * d);
            assert(2 * (target * e) >= -(target * d));
        } else {
            assert(2 * (target * e) <= (-target) * d);
            assert(2 * (target * e) >= -((-target) * d));
        }
    }
    let x = r - value;
    assert(2 * magnitude(x) <= t) by (nonlinear_arith)
        requires
            d >= 1,
            t >= 0,
            2 * magnitude(d * x) <= t * d,
    {
        if x >= 0 {
            assert(d * x >= 0);
            assert(2 * (d * x) <= t * d);
            assert(d * (2 * x - t) <= 0);
        } else {
            assert(d * x <= 0);
            assert(2 * (-(d * x)) <= t * d);
            assert(d * (-2 * x - t) <= 0);
        }
    }
}

/// An integer multiple of the target is rounded to itself, whatever the
/// decimal quotient: `round_to(k * t, t) == k * t` for every non-zero `t`.
pub proof fn lemma_round_to_keeps_multiples(k: int, target: i64, quotient: Option<(int, nat)>)
    requires
        target != 0,
        i64::MIN <= k * target <= i64::MAX,
    ensures
        round_to_spec((k * target) as i64, target, quotient) == Ok::<i64, ErrorKind>(
            (k * target) as i64,
        ),
{
    assert(is_multiple(k * target, target as int));
}

/// Whatever `round_to` returns is an integer multiple of the target.
pub proof fn lemma_round_to_gives_multiple(value: i64, target: i64, quotient: Option<(int, nat)>)
    ensures
        round_to_spec(value, target, quotient) is Ok ==> is_multiple(
            round_to_spec(value, target, quotient)->Ok_0 as int,
            target as int,
        ),
{
    let r = round_to_spec(value, target, quotient);
    if r is Ok && !is_multiple(value as int, target as int) {
        let (m, s) = quotient->0;
        let k = round_half_even(m, pow10(s));
        assert(r->Ok_0 as int == k * target);
    }
}

} // verus!

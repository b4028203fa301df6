//! Fixed-point decimal numbers.
//!
//! A [`Decimal`] is a mantissa of at most 96 bits and the number of digits that
//! stand behind the decimal point. The view of a number is the integer that
//! counts how many times the smallest step, one part in 10^28, goes into it, so
//! two numbers that are written with a different number of trailing zeros have
//! the same view. The arithmetic is that of the `rust_decimal` crate.

use crate::text::{digits, fixed_digits};
use core::str::FromStr;
use rust_decimal::prelude::ToPrimitive;
use std::cmp::Ordering;
use vstd::prelude::*;

verus! {

/// The largest mantissa, 2^96 - 1.
pub const MAX_MANTISSA: i128 = 79228162514264337593543950335;

/// The largest number of digits behind the decimal point.
pub const MAX_SCALE: u32 = 28;

/// Ten to the power `n`.
pub open spec fn pow10(n: nat) -> int
    decreases n,
{
    if n == 0 {
        1
    } else {
        10 * pow10((n - 1) as nat)
    }
}

/// How many of the smallest steps go into one.
pub open spec fn one() -> int {
    pow10(28)
}

/// Whether a mantissa and a scale make a number.
pub open spec fn valid(mantissa: i128, scale: u32) -> bool {
    -MAX_MANTISSA <= mantissa <= MAX_MANTISSA && scale <= MAX_SCALE
}

/// The number `mantissa / 10^scale`, counted in the smallest steps.
pub open spec fn steps(mantissa: i128, scale: u32) -> int {
    mantissa * pow10((28 - scale) as nat)
}

/// How a number is written: the whole part, and behind a point as many digits as
/// its scale says.
pub open spec fn decimal_text(mantissa: i128, scale: u32) -> Seq<char> {
    let magnitude = if mantissa < 0 {
        (-mantissa) as nat
    } else {
        mantissa as nat
    };
    let sign = if mantissa < 0 {
        seq!['-']
    } else {
        Seq::empty()
    };
    let whole = digits(magnitude / (pow10(scale as nat) as nat));
    let fraction = if scale > 0 {
        seq!['.'] + fixed_digits(magnitude, scale as nat)
    } else {
        Seq::empty()
    };
    sign + whole + fraction
}

/// Whether a piece of text is how a number of this value is written, with some number of
/// trailing zeros.
pub open spec fn writes(text: Seq<char>, value: int) -> bool {
    exists|m: i128, s: u32|
        valid(m, s) && text == #[trigger] decimal_text(m, s) && value == steps(m, s)
}

/// The mantissa and the scale of the sum that `rust_decimal` gives for two numbers.
pub uninterp spec fn decimal_sum(m1: i128, s1: u32, m2: i128, s2: u32) -> Option<(i128, u32)>;

/// The mantissa and the scale of the difference that `rust_decimal` gives for two numbers.
pub uninterp spec fn decimal_difference(m1: i128, s1: u32, m2: i128, s2: u32) -> Option<
    (i128, u32),
>;

/// The mantissa and the scale of the product that `rust_decimal` gives for two numbers.
pub uninterp spec fn decimal_product(m1: i128, s1: u32, m2: i128, s2: u32) -> Option<(i128, u32)>;

/// The mantissa and the scale of the quotient that `rust_decimal` gives for two numbers.
pub uninterp spec fn decimal_quotient(m1: i128, s1: u32, m2: i128, s2: u32) -> Option<
    (i128, u32),
>;

/// What `rust_decimal` reads in a piece of text: a mantissa and a scale.
pub uninterp spec fn parsed_decimal(text: Seq<char>) -> Option<(i128, u32)>;

/// The integer nearest to `n / d`; of two that are equally near the odd one or the even one,
/// as `odd` says.
pub open spec fn rounded(n: int, d: int, odd: bool) -> int {
    let low = n / d;
    let rest = n % d;
    if 2 * rest < d || (2 * rest == d && (low % 2 == 1) == odd) {
        low
    } else {
        low + 1
    }
}

/// The mantissa that `n / d` steps have when `28 - k` digits are kept.
pub open spec fn mantissa_at(n: int, d: int, k: nat, odd: bool) -> int {
    rounded(n, d * pow10(k), odd)
}

/// `n / d` steps, rounded to the finest place, `28 - k` digits or fewer, at which
/// the mantissa fits, rounded half to even; `None` if it fits at no place. Of two numbers
/// at that place that are equally near, `odd` says which.
pub open spec fn nearest_from(n: int, d: int, k: nat, odd: bool) -> Option<int>
    decreases 29 - k,
{
    if k > 28 {
        None
    } else if -MAX_MANTISSA <= mantissa_at(n, d, k, false) <= MAX_MANTISSA {
        Some(mantissa_at(n, d, k, odd) * pow10(k))
    } else {
        nearest_from(n, d, k + 1, odd)
    }
}

/// The number that stands for `n / d` steps: the exact value wherever that is a
/// number, else the nearest one at the finest place at which it fits; `None` where it is
/// too large. Of two that are equally near, `odd` says which.
pub open spec fn nearest(n: int, d: int, odd: bool) -> Option<int> {
    nearest_from(n, d, 0, odd)
}

/// The sum of two numbers given by their views.
pub open spec fn sum_of(a: int, b: int) -> Option<int> {
    nearest(a + b, 1, false)
}

/// The difference of two numbers given by their views.
pub open spec fn difference_of(a: int, b: int) -> Option<int> {
    nearest(a - b, 1, false)
}

/// The product of two numbers given by their views.
pub open spec fn product_of(a: int, b: int) -> Option<int> {
    nearest(a * b, one(), false)
}

/// The quotient of two numbers given by their views; `None` too where `b` is zero. Of two
/// that are equally near, `odd` says which.
pub open spec fn quotient_of(a: int, b: int, odd: bool) -> Option<int> {
    if b == 0 {
        None
    } else if b > 0 {
        nearest(a * one(), b, odd)
    } else {
        nearest(-a * one(), -b, odd)
    }
}

/// The largest whole number that is not above `a`.
pub open spec fn floor_of(a: int) -> int {
    (a / one()) * one()
}

/// The smallest whole number that is not below `a`.
pub open spec fn ceiling_of(a: int) -> int {
    -floor_of(-a)
}

/// The whole number nearest to `a`, the even one of two that are equally near.
pub open spec fn rounding_of(a: int) -> int {
    rounded(a, one(), false) * one()
}

/// Whether a count of the smallest steps is a number.
pub open spec fn representable(v: int) -> bool {
    exists|m: int, k: nat|
        -MAX_MANTISSA <= m <= MAX_MANTISSA && k <= 28 && v == #[trigger] (m * pow10(k))
}

/// A power of ten is positive.
pub proof fn lemma_pow10_positive(n: nat)
    ensures
        pow10(n) > 0,
    decreases n,
{
    if n > 0 {
        lemma_pow10_positive((n - 1) as nat);
    }
}

/// Powers of ten multiply by adding the exponents.
pub proof fn lemma_pow10_sum(a: nat, b: nat)
    ensures
        pow10(a + b) == pow10(a) * pow10(b),
    decreases b,
{
    if b > 0 {
        lemma_pow10_sum(a, (b - 1) as nat);
        let x = pow10(a);
        let y = pow10((b - 1) as nat);
        assert(a + b - 1 == a + (b - 1));
        assert(10 * (x * y) == x * (10 * y)) by (nonlinear_arith);
    } else {
        assert(pow10(a) * 1 == pow10(a));
    }
}

/// Rounding `n / d` does not leave the whole numbers that enclose it.
proof fn lemma_rounded_between(n: int, d: int, lo: int, hi: int, odd: bool)
    requires
        d > 0,
        lo * d <= n <= hi * d,
    ensures
        lo <= rounded(n, d, odd) <= hi,
{
    let low = n / d;
    let rest = n % d;
    assert(n == d * low + rest && 0 <= rest < d) by (nonlinear_arith)
        requires
            d > 0,
            low == n / d,
            rest == n % d,
    ;
    assert(lo <= low) by (nonlinear_arith)
        requires
            d > 0,
            lo * d <= d * low + rest,
            rest < d,
    ;
    assert(low <= hi && (low == hi ==> rest == 0)) by (nonlinear_arith)
        requires
            d > 0,
            d * low + rest <= hi * d,
            0 <= rest,
    ;
}

/// A value that two numbers with the same scale enclose is rounded to a number
/// that they enclose too.
proof fn lemma_nearest_from_between(
    n: int,
    d: int,
    j: nat,
    lo: int,
    hi: int,
    k: nat,
    odd: bool,
)
    requires
        d > 0,
        j <= k <= 28,
        -MAX_MANTISSA <= lo <= hi <= MAX_MANTISSA,
        lo * pow10(k) * d <= n <= hi * pow10(k) * d,
    ensures
        nearest_from(n, d, j, odd) matches Some(w) && lo * pow10(k) <= w <= hi * pow10(k),
    decreases k - j,
{
    let q = pow10(j);
    let up = pow10((k - j) as nat);
    lemma_pow10_positive(j);
    lemma_pow10_positive((k - j) as nat);
    lemma_pow10_sum((k - j) as nat, j);
    assert((k - j) as nat + j == k);
    assert(pow10(k) == up * q);
    assert(d * q > 0) by (nonlinear_arith)
        requires
            d > 0,
            q > 0,
    ;
    assert(lo * (up * q) * d == (lo * up) * (d * q)) by (nonlinear_arith);
    assert(hi * (up * q) * d == (hi * up) * (d * q)) by (nonlinear_arith);
    lemma_rounded_between(n, d * q, lo * up, hi * up, false);
    lemma_rounded_between(n, d * q, lo * up, hi * up, odd);
    let mantissa = mantissa_at(n, d, j, odd);
    if -MAX_MANTISSA <= mantissa_at(n, d, j, false) <= MAX_MANTISSA {
        assert(lo * (up * q) <= mantissa * q <= hi * (up * q)) by (nonlinear_arith)
            requires
                q > 0,
                lo * up <= mantissa <= hi * up,
        ;
    } else {
        if j == k {
            assert(up == 1);
            assert(lo * 1 == lo && hi * 1 == hi);
        }
        lemma_nearest_from_between(n, d, j + 1, lo, hi, k, odd);
    }
}

/// Where `n / d` is itself a number, it stands for itself.
pub proof fn lemma_nearest_exact(n: int, d: int, v: int, odd: bool)
    requires
        d > 0,
        representable(v),
        n == v * d,
    ensures
        nearest(n, d, odd) == Some(v),
{
    let (m, k) = choose|m: int, k: nat|
        -MAX_MANTISSA <= m <= MAX_MANTISSA && k <= 28 && v == #[trigger] (m * pow10(k));
    lemma_nearest_from_between(n, d, 0, m, m, k, odd);
}

/// A value that is no larger in size than some number has a number that stands for
/// it, which is no larger either and does not change the sign.
pub proof fn lemma_nearest_within(n: int, d: int, v: int, odd: bool)
    requires
        d > 0,
        representable(v),
        v >= 0,
        -v * d <= n <= v * d,
    ensures
        nearest(n, d, odd) matches Some(w) && -v <= w <= v && (n >= 0 ==> w >= 0) && (n <= 0 ==> w
            <= 0),
{
    let (m, k) = choose|m: int, k: nat|
        -MAX_MANTISSA <= m <= MAX_MANTISSA && k <= 28 && v == #[trigger] (m * pow10(k));
    let p = pow10(k);
    lemma_pow10_positive(k);
    assert(m >= 0) by (nonlinear_arith)
        requires
            m * p >= 0,
            p > 0,
    ;
    assert((-m) * p == -(m * p)) by (nonlinear_arith);
    assert(0 * p == 0 && 0 * d == 0);
    if n >= 0 {
        lemma_nearest_from_between(n, d, 0, 0, m, k, odd);
    } else {
        lemma_nearest_from_between(n, d, 0, -m, 0, k, odd);
    }
    if n == 0 {
        lemma_nearest_from_between(n, d, 0, 0, 0, k, odd);
    }
}

/// A value that is not negative stands for no negative number, and one that is not
/// positive for no positive one.
pub proof fn lemma_nearest_sign(n: int, d: int, odd: bool)
    requires
        d > 0,
        nearest(n, d, odd) is Some,
    ensures
        n >= 0 ==> nearest(n, d, odd)->0 >= 0,
        n <= 0 ==> nearest(n, d, odd)->0 <= 0,
{
    lemma_nearest_from_sign(n, d, 0, odd);
}

proof fn lemma_nearest_from_sign(n: int, d: int, j: nat, odd: bool)
    requires
        d > 0,
        nearest_from(n, d, j, odd) is Some,
    ensures
        n >= 0 ==> nearest_from(n, d, j, odd)->0 >= 0,
        n <= 0 ==> nearest_from(n, d, j, odd)->0 <= 0,
    decreases 29 - j,
{
    let q = pow10(j);
    lemma_pow10_positive(j);
    assert(d * q > 0) by (nonlinear_arith)
        requires
            d > 0,
            q > 0,
    ;
    let e = d * q;
    let mantissa = mantissa_at(n, d, j, odd);
    let size = if n >= 0 {
        n
    } else {
        -n
    };
    assert(-size * e <= n <= size * e && 0 * e == 0) by (nonlinear_arith)
        requires
            e >= 1,
            -size <= n <= size,
            size >= 0,
    ;
    if n >= 0 {
        lemma_rounded_between(n, e, 0, size, odd);
        assert(mantissa * q >= 0) by (nonlinear_arith)
            requires
                mantissa >= 0,
                q > 0,
        ;
    }
    if n <= 0 {
        lemma_rounded_between(n, e, -size, 0, odd);
        assert(mantissa * q <= 0) by (nonlinear_arith)
            requires
                mantissa <= 0,
                q > 0,
        ;
    }
    if !(-MAX_MANTISSA <= mantissa_at(n, d, j, false) <= MAX_MANTISSA) {
        lemma_nearest_from_sign(n, d, j + 1, odd);
    }
}

/// Rounding keeps the order.
proof fn lemma_rounded_order(n: int, above: int, d: int)
    requires
        d > 0,
        n <= above,
    ensures
        rounded(n, d, false) <= rounded(above, d, false),
{
    let (a, b) = (n / d, above / d);
    let (r, s) = (n % d, above % d);
    vstd::arithmetic::div_mod::lemma_fundamental_div_mod(n, d);
    vstd::arithmetic::div_mod::lemma_fundamental_div_mod(above, d);
    vstd::arithmetic::div_mod::lemma_mod_bound(n, d);
    vstd::arithmetic::div_mod::lemma_mod_bound(above, d);
    assert(a <= b && (a == b ==> r <= s)) by (nonlinear_arith)
        requires
            d > 0,
            d * a + r <= d * b + s,
            0 <= r < d,
            0 <= s < d,
    ;
}

/// What does not fit at one place is, where it fits at all, no smaller than what does.
proof fn lemma_nearest_from_large(n: int, d: int, k: nat)
    requires
        d > 0,
        mantissa_at(n, d, k, false) > MAX_MANTISSA,
        nearest_from(n, d, k + 1, false) is Some,
    ensures
        nearest_from(n, d, k + 1, false)->0 >= MAX_MANTISSA * pow10(k),
    decreases 29 - k,
{
    let q = pow10(k);
    let e = d * q;
    let m = mantissa_at(n, d, k + 1, false);
    lemma_pow10_positive(k);
    assert(e > 0) by (nonlinear_arith)
        requires
            d > 0,
            q > 0,
            e == d * q,
    ;
    assert(pow10(k + 1) == 10 * q);
    assert(d * (10 * q) == 10 * e) by (nonlinear_arith)
        requires
            e == d * q,
    ;
    vstd::arithmetic::div_mod::lemma_fundamental_div_mod(n, e);
    vstd::arithmetic::div_mod::lemma_mod_bound(n, e);
    let low = n / e;
    assert(low >= MAX_MANTISSA && (low == MAX_MANTISSA ==> 2 * (n % e) >= e));
    assert(2 * n >= (2 * MAX_MANTISSA + 1) * e) by (nonlinear_arith)
        requires
            n == e * low + n % e,
            low >= MAX_MANTISSA,
            low == MAX_MANTISSA ==> 2 * (n % e) >= e,
            0 <= n % e,
            e > 0,
    ;
    vstd::arithmetic::div_mod::lemma_fundamental_div_mod(n, 10 * e);
    vstd::arithmetic::div_mod::lemma_mod_bound(n, 10 * e);
    let (up, rest) = (n / (10 * e), n % (10 * e));
    assert((10 * e) * up == 10 * (e * up)) by (nonlinear_arith);
    let x = e * up;
    assert(up >= 7922816251426433759354395033) by (nonlinear_arith)
        requires
            x == e * up,
            2 * (10 * x + rest) >= 158456325028528675187087900671 * e,
            rest < 10 * e,
            e > 0,
    ;
    assert(m >= 7922816251426433759354395034) by {
        if up == 7922816251426433759354395033 {
            assert(x == 7922816251426433759354395033 * e) by (nonlinear_arith)
                requires
                    x == e * up,
                    up == 7922816251426433759354395033,
            ;
        }
    }
    if -MAX_MANTISSA <= m <= MAX_MANTISSA {
        assert(m * (10 * q) >= MAX_MANTISSA * q) by (nonlinear_arith)
            requires
                m >= 7922816251426433759354395034,
                q > 0,
        ;
    } else {
        lemma_nearest_from_large(n, d, k + 1);
        assert(MAX_MANTISSA * (10 * q) >= MAX_MANTISSA * q) by (nonlinear_arith)
            requires
                q > 0,
        ;
    }
}

proof fn lemma_nearest_from_order(n: int, above: int, d: int, k: nat)
    requires
        d > 0,
        0 <= n <= above,
        nearest_from(n, d, k, false) is Some,
        nearest_from(above, d, k, false) is Some,
    ensures
        nearest_from(n, d, k, false)->0 <= nearest_from(above, d, k, false)->0,
    decreases 29 - k,
{
    let q = pow10(k);
    let e = d * q;
    let (a, b) = (mantissa_at(n, d, k, false), mantissa_at(above, d, k, false));
    lemma_pow10_positive(k);
    assert(e > 0) by (nonlinear_arith)
        requires
            d > 0,
            q > 0,
            e == d * q,
    ;
    lemma_rounded_order(n, above, e);
    lemma_rounded_order(0, n, e);
    assert(0int / e == 0 && 0int % e == 0) by (nonlinear_arith)
        requires
            e > 0,
    ;
    assert(a >= 0);
    if a > MAX_MANTISSA {
        lemma_nearest_from_order(n, above, d, k + 1);
    } else if b > MAX_MANTISSA {
        lemma_nearest_from_large(above, d, k);
        assert(a * q <= MAX_MANTISSA * q) by (nonlinear_arith)
            requires
                a <= MAX_MANTISSA,
                q > 0,
        ;
    } else {
        assert(a * q <= b * q) by (nonlinear_arith)
            requires
                a <= b,
                q > 0,
        ;
    }
}

/// Of two values that are not negative, the larger one does not stand for a smaller number.
pub proof fn lemma_nearest_order(n: int, above: int, d: int)
    requires
        d > 0,
        0 <= n <= above,
        nearest(n, d, false) is Some,
        nearest(above, d, false) is Some,
    ensures
        nearest(n, d, false)->0 <= nearest(above, d, false)->0,
{
    lemma_nearest_from_order(n, above, d, 0);
}

/// A positive sum or difference is not rounded off to nothing.
pub proof fn lemma_positive_stays(n: int)
    requires
        n > 0,
        nearest(n, 1, false) is Some,
    ensures
        nearest(n, 1, false)->0 > 0,
{
    assert(1 * pow10(0) == 1);
    assert(representable(1));
    lemma_nearest_exact(1, 1, 1, false);
    lemma_nearest_order(1, n, 1);
}

/// The nearest whole number is at most half away.
pub proof fn lemma_rounding_is_near(v: int)
    ensures
        rounding_of(v) == (rounding_of(v) / one()) * one(),
        -one() <= 2 * (rounding_of(v) - v) <= one(),
        v >= 0 ==> rounding_of(v) >= 0,
{
    let e = one();
    lemma_pow10_positive(28);
    let n = rounded(v, e, false);
    let low = v / e;
    vstd::arithmetic::div_mod::lemma_fundamental_div_mod(v, e);
    vstd::arithmetic::div_mod::lemma_mod_bound(v, e);
    assert((n * e) / e == n) by (nonlinear_arith)
        requires
            e > 0,
    ;
    assert((low + 1) * e == e * low + e && low * e == e * low) by (nonlinear_arith);
    if v >= 0 {
        vstd::arithmetic::div_mod::lemma_div_pos_is_pos(v, e);
        assert(n * e >= 0) by (nonlinear_arith)
            requires
                n >= 0,
                e > 0,
        ;
    }
}

/// Of two whole numbers that are equally near the even one is taken.
pub proof fn lemma_rounding_to_even(v: int)
    requires
        2 * (rounding_of(v) - v) == one() || 2 * (v - rounding_of(v)) == one(),
    ensures
        (rounding_of(v) / one()) % 2 == 0,
{
    let e = one();
    lemma_pow10_positive(28);
    let n = rounded(v, e, false);
    let low = v / e;
    vstd::arithmetic::div_mod::lemma_fundamental_div_mod(v, e);
    vstd::arithmetic::div_mod::lemma_mod_bound(v, e);
    assert((n * e) / e == n) by (nonlinear_arith)
        requires
            e > 0,
    ;
    assert((low + 1) * e == e * low + e && low * e == e * low) by (nonlinear_arith);
}

/// Where a sum is a number, adding gives exactly that number.
pub proof fn law_sum_exact(a: int, b: int)
    requires
        representable(a + b),
    ensures
        sum_of(a, b) == Some(a + b),
{
    lemma_nearest_exact(a + b, 1, a + b, false);
}

/// Where a difference is a number, subtracting gives exactly that number.
pub proof fn law_difference_exact(a: int, b: int)
    requires
        representable(a - b),
    ensures
        difference_of(a, b) == Some(a - b),
{
    lemma_nearest_exact(a - b, 1, a - b, false);
}

/// Where a product is a number, multiplying gives exactly that number.
pub proof fn law_product_exact(a: int, b: int, v: int)
    requires
        representable(v),
        a * b == v * one(),
    ensures
        product_of(a, b) == Some(v),
{
    lemma_pow10_positive(28);
    lemma_nearest_exact(a * b, one(), v, false);
}

/// Where a quotient is a number, dividing gives exactly that number.
pub proof fn law_quotient_exact(a: int, b: int, v: int, odd: bool)
    requires
        representable(v),
        b != 0,
        a * one() == v * b,
    ensures
        quotient_of(a, b, odd) == Some(v),
{
    if b > 0 {
        lemma_nearest_exact(a * one(), b, v, odd);
    } else {
        let e = one();
        assert(-a * e == v * (-b)) by (nonlinear_arith)
            requires
                a * e == v * b,
        ;
        lemma_nearest_exact(-a * one(), -b, v, odd);
    }
}

/// Whether the digits of two numbers, counted in a common unit, are few enough that their
/// quotient is never rounded off to a whole number that it does not reach.
pub open spec fn short(dividend: int, divisor: int) -> bool {
    0 <= dividend && 0 < divisor && 10 * (dividend + divisor) <= MAX_MANTISSA
}

/// The lowest power of ten that is not below a number is at most ten times the number.
proof fn lemma_power_above(n: int, t: nat) -> (r: nat)
    requires
        1 <= n <= pow10(t),
    ensures
        r <= t,
        n <= pow10(r) <= 10 * n,
    decreases t,
{
    if t == 0 || pow10((t - 1) as nat) < n {
        t
    } else {
        lemma_power_above(n, (t - 1) as nat)
    }
}

/// Between the whole numbers that enclose a quotient of `v` and `s`, rounding off to a
/// place with enough digits keeps it off the upper one, and off the lower one too unless it
/// is that number.
proof fn lemma_short_mantissa(v: int, s: int, p: int, q: int, u: int, odd: bool)
    requires
        0 <= v,
        0 < s <= u,
        p > 0,
        q > 0,
    ensures
        (v / s) * u <= rounded((v * p) * (u * q), (s * p) * q, odd) < (v / s + 1) * u,
        (rounded((v * p) * (u * q), (s * p) * q, odd) == (v / s) * u) <==> v % s == 0,
{
    let n = v / s;
    let r = v % s;
    let c = p * q;
    let d = s * c;
    let x = (v * p) * (u * q);
    vstd::arithmetic::div_mod::lemma_fundamental_div_mod(v, s);
    vstd::arithmetic::div_mod::lemma_mod_bound(v, s);
    assert(c > 0) by (nonlinear_arith)
        requires
            p > 0,
            q > 0,
            c == p * q,
    ;
    assert(d > 0) by (nonlinear_arith)
        requires
            s > 0,
            c > 0,
            d == s * c,
    ;
    assert((s * p) * q == d) by (nonlinear_arith)
        requires
            c == p * q,
            d == s * c,
    ;
    assert(x == (v * u) * c) by (nonlinear_arith)
        requires
            x == (v * p) * (u * q),
            c == p * q,
    ;
    assert(v * u == (n * u) * s + r * u) by (nonlinear_arith)
        requires
            v == s * n + r,
    ;
    let a = n * u;
    let b = r * u;
    assert((a * s + b) * c == a * d + b * c) by (nonlinear_arith)
        requires
            d == s * c,
    ;
    assert(0 <= (r * u) * c) by (nonlinear_arith)
        requires
            r >= 0,
            u > 0,
            c > 0,
    ;
    assert((r * u) * c + d <= u * d) by (nonlinear_arith)
        requires
            r + 1 <= s,
            s <= u,
            0 < s,
            c > 0,
            d == s * c,
    ;
    assert(((n + 1) * u - 1) * d == (n * u) * d + u * d - d) by (nonlinear_arith);
    lemma_rounded_between(x, d, n * u, (n + 1) * u - 1, odd);
    if r == 0 {
        assert((r * u) * c == 0) by (nonlinear_arith)
            requires
                r == 0,
        ;
        lemma_rounded_between(x, d, n * u, n * u, odd);
    } else {
        assert(d <= (r * u) * c) by (nonlinear_arith)
            requires
                r >= 1,
                0 < s <= u,
                c > 0,
                d == s * c,
        ;
        assert((n * u + 1) * d == (n * u) * d + d) by (nonlinear_arith);
        lemma_rounded_between(x, d, n * u + 1, (n + 1) * u - 1, odd);
    }
}

proof fn lemma_short_from(v: int, s: int, p: int, j: nat, t: nat, odd: bool)
    requires
        0 <= v,
        0 < s <= pow10(t),
        p > 0,
        j + t <= 28,
        (v / s + 1) * pow10(t) <= MAX_MANTISSA,
    ensures
        nearest_from((v * p) * one(), s * p, j, odd) matches Some(w) && (v / s) * one() <= w < (v
            / s + 1) * one() && (w == (v / s) * one() <==> v % s == 0),
    decreases 28 - j,
{
    let n = v / s;
    let q = pow10(j);
    let u = pow10((28 - j) as nat);
    let m = mantissa_at((v * p) * one(), s * p, j, odd);
    let even = mantissa_at((v * p) * one(), s * p, j, false);
    let over = (28 - j - t) as nat;
    lemma_pow10_positive(j);
    lemma_pow10_positive(t);
    lemma_pow10_positive(over);
    lemma_pow10_sum((28 - j) as nat, j);
    lemma_pow10_sum(t, over);
    assert((28 - j) as nat + j == 28);
    assert(t + over == 28 - j);
    let b = pow10(t);
    let o = pow10(over);
    assert(b <= b * o) by (nonlinear_arith)
        requires
            b > 0,
            o >= 1,
    ;
    lemma_short_mantissa(v, s, p, q, u, odd);
    lemma_short_mantissa(v, s, p, q, u, false);
    vstd::arithmetic::div_mod::lemma_div_pos_is_pos(v, s);
    assert(0 <= n * u) by (nonlinear_arith)
        requires
            n >= 0,
            u > 0,
    ;
    if even <= MAX_MANTISSA {
        assert(n * (u * q) <= m * q < (n + 1) * (u * q) && (m * q == n * (u * q) <==> m == n * u))
            by (nonlinear_arith)
            requires
                n * u <= m < (n + 1) * u,
                q > 0,
        ;
    } else {
        if j + t == 28 {
            assert(u == b);
        }
        lemma_short_from(v, s, p, j + 1, t, odd);
    }
}

/// The quotient of two numbers with few digits stays between the whole numbers that
/// enclose it: rounding it off reaches neither the upper one nor, unless it is that number,
/// the lower one.
pub proof fn lemma_short_quotient(v: int, s: int, k: nat, odd: bool)
    requires
        short(v, s),
    ensures
        quotient_of(v * pow10(k), s * pow10(k), odd) matches Some(w) && (v / s) * one() <= w < (v
            / s + 1) * one() && (w == (v / s) * one() <==> v % s == 0),
{
    let p = pow10(k);
    lemma_pow10_positive(k);
    assert(pow10(28) == 10000000000000000000000000000) by {
        reveal_with_fuel(pow10, 29);
    }
    let t = lemma_power_above(s, 28);
    let n = v / s;
    let b = pow10(t);
    vstd::arithmetic::div_mod::lemma_fundamental_div_mod(v, s);
    vstd::arithmetic::div_mod::lemma_mod_bound(v, s);
    vstd::arithmetic::div_mod::lemma_div_pos_is_pos(v, s);
    assert((n + 1) * b <= 10 * (s * n + s)) by (nonlinear_arith)
        requires
            n >= 0,
            b <= 10 * s,
    ;
    assert(s * p > 0) by (nonlinear_arith)
        requires
            s > 0,
            p > 0,
    ;
    lemma_short_from(v, s, p, 0, t, odd);
}

/// A quotient of two numbers is not rounded off to more than one unit of a place at which it
/// fits.
proof fn lemma_nearest_not_far_above(n: int, d: int, j: nat, odd: bool)
    requires
        n >= 0,
        d > 0,
        j <= 28,
        n / (d * pow10(j)) + 1 <= MAX_MANTISSA,
    ensures
        nearest(n, d, odd) matches Some(w) && 0 <= w && w * d <= n + pow10(j) * d,
{
    let u = pow10(j);
    let e = d * u;
    lemma_pow10_positive(j);
    assert(e > 0) by (nonlinear_arith)
        requires
            d > 0,
            u > 0,
            e == d * u,
    ;
    let low = n / e;
    vstd::arithmetic::div_mod::lemma_fundamental_div_mod(n, e);
    vstd::arithmetic::div_mod::lemma_mod_bound(n, e);
    vstd::arithmetic::div_mod::lemma_div_pos_is_pos(n, e);
    assert(low * u * d <= n <= (low + 1) * u * d && 0 * u * d == 0) by (nonlinear_arith)
        requires
            n == e * low + n % e,
            0 <= n % e < e,
            e == d * u,
    ;
    lemma_nearest_from_between(n, d, 0, 0, low + 1, j, odd);
    let w = nearest(n, d, odd)->0;
    assert(0 * u == 0);
    assert(w * d <= ((low + 1) * u) * d) by (nonlinear_arith)
        requires
            w <= (low + 1) * u,
            d > 0,
    ;
    assert(((low + 1) * u) * d == low * u * d + u * d) by (nonlinear_arith);
}

/// A quotient of two numbers is rounded off by no more than one unit of a place at which it
/// fits.
pub proof fn lemma_nearest_is_near(n: int, d: int, j: nat, odd: bool)
    requires
        n >= 0,
        d > 0,
        j <= 28,
        n / (d * pow10(j)) + 1 <= MAX_MANTISSA,
    ensures
        nearest(n, d, odd) matches Some(w) && 0 <= w && n - pow10(j) * d <= w * d <= n + pow10(j)
            * d,
{
    let u = pow10(j);
    let e = d * u;
    lemma_nearest_not_far_above(n, d, j, odd);
    lemma_pow10_positive(j);
    assert(e > 0) by (nonlinear_arith)
        requires
            d > 0,
            u > 0,
            e == d * u,
    ;
    let low = n / e;
    vstd::arithmetic::div_mod::lemma_fundamental_div_mod(n, e);
    vstd::arithmetic::div_mod::lemma_mod_bound(n, e);
    vstd::arithmetic::div_mod::lemma_div_pos_is_pos(n, e);
    assert(low * u * d <= n <= (low + 1) * u * d) by (nonlinear_arith)
        requires
            n == e * low + n % e,
            0 <= n % e < e,
            e == d * u,
    ;
    lemma_nearest_from_between(n, d, 0, low, low + 1, j, odd);
    let w = nearest(n, d, odd)->0;
    assert((low * u) * d <= w * d) by (nonlinear_arith)
        requires
            low * u <= w,
            d > 0,
    ;
    assert((low + 1) * u * d == low * u * d + u * d) by (nonlinear_arith);
    assert(low * u * d == (low * u) * d) by (nonlinear_arith);
}

/// Whether an amount `a`, a price `p` and a step `s`, counted in `10^k` of the smallest steps,
/// have so few digits that dividing the amount by the price and then by the step is never
/// rounded off to a whole number that is not reached: the first quotient fits with a digit of
/// weight `10^j`, the second with one of weight `10^i`.
pub open spec fn short_purchase(a: int, p: int, s: int, k: nat, j: nat, i: nat) -> bool {
    &&& 0 <= a
    &&& 0 < p
    &&& 0 < s
    &&& k <= 28
    &&& j <= 28
    &&& i <= 28
    &&& (a * pow10((28 - j) as nat)) / p + 1 <= MAX_MANTISSA
    &&& 2 * (pow10(j) * p) <= pow10(k)
    &&& ((a * pow10((28 - k) as nat)) / (p * s) + 1) * pow10((28 - i) as nat) <= MAX_MANTISSA
    &&& 2 * (p * s * pow10(i)) < one()
}

/// Dividing an amount with few digits by the price and then by the step gives as many whole
/// steps as the amount buys, no more and no fewer.
pub proof fn lemma_short_purchase(
    a: int,
    p: int,
    s: int,
    k: nat,
    j: nat,
    i: nat,
    first: bool,
    second: bool,
)
    requires
        short_purchase(a, p, s, k, j, i),
    ensures
        ({
            let unit = pow10(k);
            let raw = quotient_of(a * unit, p * unit, first);
            let count = quotient_of(raw->0, s * unit, second);
            &&& raw is Some
            &&& count is Some
            &&& ((count->0 / one()) * (s * unit)) * (p * unit) <= (a * unit) * one()
            &&& (a * unit) * one() < ((count->0 / one() + 1) * (s * unit)) * (p * unit)
            &&& representable((count->0 / one()) * (s * unit))
        }),
{
    let e = one();
    let unit = pow10(k);
    let u = pow10(j);
    let v = pow10(i);
    let c = pow10((28 - k) as nat);
    lemma_pow10_positive(28);
    lemma_pow10_positive(k);
    lemma_pow10_positive(j);
    lemma_pow10_positive(i);
    lemma_pow10_positive((28 - k) as nat);
    lemma_pow10_positive((28 - j) as nat);
    lemma_pow10_positive((28 - i) as nat);
    lemma_pow10_sum((28 - k) as nat, k);
    lemma_pow10_sum((28 - j) as nat, j);
    lemma_pow10_sum((28 - i) as nat, i);
    assert((28 - k) as nat + k == 28 && (28 - j) as nat + j == 28 && (28 - i) as nat + i == 28);
    let x = pow10((28 - j) as nat);
    let y = pow10((28 - i) as nat);
    assert(e == c * unit && e == x * u && e == y * v);
    // The first quotient.
    let n1 = (a * unit) * e;
    let d1 = p * unit;
    assert(d1 > 0 && n1 >= 0) by (nonlinear_arith)
        requires
            a >= 0,
            p > 0,
            unit > 0,
            e > 0,
            n1 == (a * unit) * e,
            d1 == p * unit,
    ;
    let w = unit * u;
    assert(w > 0) by (nonlinear_arith)
        requires
            unit > 0,
            u > 0,
            w == unit * u,
    ;
    assert(n1 == (a * x) * w) by (nonlinear_arith)
        requires
            n1 == (a * unit) * e,
            e == x * u,
            w == unit * u,
    ;
    assert(d1 * u == p * w) by (nonlinear_arith)
        requires
            d1 == p * unit,
            w == unit * u,
    ;
    lemma_common_unit(a * x, p, w);
    lemma_nearest_is_near(n1, d1, j, first);
    let raw = nearest(n1, d1, first)->0;
    assert(raw * p <= a * e + u * p) by (nonlinear_arith)
        requires
            raw * d1 <= n1 + u * d1,
            d1 == p * unit,
            n1 == (a * unit) * e,
            unit > 0,
    ;
    // What the amount buys.
    let ps = p * s;
    assert(ps > 0) by (nonlinear_arith)
        requires
            p > 0,
            s > 0,
            ps == p * s,
    ;
    let ac = a * c;
    let n = ac / ps;
    vstd::arithmetic::div_mod::lemma_fundamental_div_mod(ac, ps);
    vstd::arithmetic::div_mod::lemma_mod_bound(ac, ps);
    assert(ac + 1 <= (n + 1) * ps && n * ps <= ac) by (nonlinear_arith)
        requires
            ac == ps * n + ac % ps,
            0 <= ac % ps < ps,
    ;
    let t = (n + 1) * ps;
    assert(a * e == ac * unit) by (nonlinear_arith)
        requires
            e == c * unit,
            ac == a * c,
    ;
    assert(ac * unit + unit <= t * unit) by (nonlinear_arith)
        requires
            ac + 1 <= t,
            unit > 0,
    ;
    assert(2 * (raw * p) <= 2 * (t * unit) - unit);
    // The second quotient.
    let d2 = s * unit;
    let n2 = raw * e;
    assert(d2 > 0 && n2 >= 0) by (nonlinear_arith)
        requires
            s > 0,
            unit > 0,
            e > 0,
            raw >= 0,
            d2 == s * unit,
            n2 == raw * e,
    ;
    let limit = (n + 1) * y;
    assert(d2 * v > 0) by (nonlinear_arith)
        requires
            d2 > 0,
            v > 0,
    ;
    assert(t * unit == ((n + 1) * d2) * p) by (nonlinear_arith)
        requires
            t == (n + 1) * ps,
            ps == p * s,
            d2 == s * unit,
    ;
    let top = (n + 1) * d2;
    assert(raw < top) by (nonlinear_arith)
        requires
            2 * (raw * p) <= 2 * (top * p) - unit,
            unit > 0,
            p > 0,
    ;
    assert(raw * e < top * e) by (nonlinear_arith)
        requires
            raw < top,
            e > 0,
    ;
    assert(top * e == limit * (d2 * v)) by (nonlinear_arith)
        requires
            top == (n + 1) * d2,
            limit == (n + 1) * y,
            e == y * v,
    ;
    let most = d2 * v;
    assert(n2 / most < limit) by (nonlinear_arith)
        requires
            n2 < limit * most,
            most > 0,
    ;
    lemma_nearest_is_near(n2, d2, i, second);
    let q = nearest(n2, d2, second)->0;
    let m = n + 1;
    let z = ps * v;
    assert(q * d2 <= raw * e + v * d2);
    let (qd, re, vd) = (q * d2, raw * e, v * d2);
    assert(qd * p <= re * p + vd * p) by (nonlinear_arith)
        requires
            qd <= re + vd,
            p > 0,
    ;
    assert(re * p == (raw * p) * e) by (nonlinear_arith)
        requires
            re == raw * e,
    ;
    assert(vd * p == z * unit) by (nonlinear_arith)
        requires
            vd == v * d2,
            d2 == s * unit,
            ps == p * s,
            z == ps * v,
    ;
    assert(2 * ((raw * p) * e) <= (2 * (t * unit) - unit) * e) by (nonlinear_arith)
        requires
            2 * (raw * p) <= 2 * (t * unit) - unit,
            e > 0,
    ;
    assert(2 * (z * unit) < e * unit) by (nonlinear_arith)
        requires
            2 * z < e,
            unit > 0,
    ;
    assert((2 * (t * unit) - unit) * e == 2 * ((t * unit) * e) - e * unit) by (nonlinear_arith);
    assert((q * d2) * p < (t * unit) * e);
    assert((t * unit) * e == ((m * e) * d2) * p) by (nonlinear_arith)
        requires
            t == m * ps,
            ps == p * s,
            d2 == s * unit,
    ;
    let d2p = d2 * p;
    assert(d2p > 0) by (nonlinear_arith)
        requires
            d2 > 0,
            p > 0,
            d2p == d2 * p,
    ;
    assert(q < m * e) by (nonlinear_arith)
        requires
            (q * d2) * p < ((m * e) * d2) * p,
            d2 * p > 0,
    ;
    let count = q / e;
    assert(count < m) by (nonlinear_arith)
        requires
            q < m * e,
            e > 0,
            count == q / e,
    ;
    // It is a number.
    assert(j <= k) by {
        if j > k {
            lemma_pow10_sum((j - k) as nat, k);
            lemma_pow10_positive((j - k) as nat);
            let up = pow10((j - k) as nat);
            assert((j - k) as nat + k == j);
            assert(up * unit >= unit) by (nonlinear_arith)
                requires
                    up >= 1,
                    unit > 0,
            ;
            assert(u * p >= u) by (nonlinear_arith)
                requires
                    u > 0,
                    p >= 1,
            ;
        }
    }
    lemma_pow10_sum((28 - k) as nat, (k - j) as nat);
    lemma_pow10_positive((k - j) as nat);
    let over = pow10((k - j) as nat);
    assert((28 - k) as nat + (k - j) as nat == (28 - j) as nat);
    let ax = a * x;
    assert(ac <= ax) by (nonlinear_arith)
        requires
            ac == a * c,
            ax == a * x,
            x == c * over,
            over >= 1,
            a >= 0,
            c > 0,
    ;
    let bound = ax / p;
    vstd::arithmetic::div_mod::lemma_fundamental_div_mod(ax, p);
    vstd::arithmetic::div_mod::lemma_mod_bound(ax, p);
    assert(n * s <= bound) by (nonlinear_arith)
        requires
            n * ps <= ac,
            ac <= ax,
            ps == p * s,
            ax == p * bound + ax % p,
            ax % p < p,
            p > 0,
    ;
    assert(0 <= count) by (nonlinear_arith)
        requires
            q >= 0,
            e > 0,
            count == q / e,
    ;
    assert(0 <= count * s <= n * s) by (nonlinear_arith)
        requires
            0 <= count <= n,
            s > 0,
    ;
    let mantissa = count * s;
    assert(count * d2 == mantissa * unit) by (nonlinear_arith)
        requires
            d2 == s * unit,
            mantissa == count * s,
    ;
    assert(representable(mantissa * pow10(k)));
    // It is no less than the amount buys.
    assert(a * e - u * p <= raw * p) by (nonlinear_arith)
        requires
            n1 - u * d1 <= raw * d1,
            d1 == p * unit,
            n1 == (a * unit) * e,
            unit > 0,
    ;
    if n * ps < ac {
        assert(re * p - vd * p <= qd * p) by (nonlinear_arith)
            requires
                re - vd <= qd,
                p > 0,
        ;
        assert((2 * (ac * unit) - unit) * e <= 2 * ((raw * p) * e)) by (nonlinear_arith)
            requires
                2 * (ac * unit) - unit <= 2 * (raw * p),
                e > 0,
        ;
        assert((2 * (ac * unit) - unit) * e == 2 * ((ac * unit) * e) - e * unit)
            by (nonlinear_arith);
        let np = n * ps;
        assert((np * unit) * e + unit * e <= (ac * unit) * e) by (nonlinear_arith)
            requires
                np + 1 <= ac,
                unit > 0,
                e > 0,
        ;
        assert(unit * e == e * unit) by (nonlinear_arith);
        assert((np * unit) * e == ((n * e) * d2) * p) by (nonlinear_arith)
            requires
                np == n * ps,
                ps == p * s,
                d2 == s * unit,
        ;
        assert(((n * e) * d2) * p < (q * d2) * p);
        assert(n * e < q) by (nonlinear_arith)
            requires
                ((n * e) * d2) * p < (q * d2) * p,
                d2 * p > 0,
        ;
        assert(n <= count) by (nonlinear_arith)
            requires
                n * e < q,
                e > 0,
                count == q / e,
        ;
    } else {
        assert((a * unit) * e == (n * d2) * d1) by (nonlinear_arith)
            requires
                n * ps == ac,
                ac == a * c,
                e == c * unit,
                ps == p * s,
                d2 == s * unit,
                d1 == p * unit,
        ;
        assert(n * d2 == (n * s) * unit) by (nonlinear_arith)
            requires
                d2 == s * unit,
        ;
        vstd::arithmetic::div_mod::lemma_div_pos_is_pos(ac, ps);
        assert(0 <= n <= n * s) by (nonlinear_arith)
            requires
                n >= 0,
                s >= 1,
        ;
        assert(representable((n * s) * pow10(k)));
        law_quotient_exact(a * unit, p * unit, n * d2, first);
        assert((n * d2) * e == (n * e) * d2) by (nonlinear_arith);
        assert(representable(n * pow10(28)));
        law_quotient_exact(n * d2, d2, n * e, second);
        assert((n * e) / e == n) by (nonlinear_arith)
            requires
                e > 0,
        ;
    }
    assert(count == n);
    // So much it costs.
    assert((count * d2) * d1 <= (n * d2) * d1) by (nonlinear_arith)
        requires
            count <= n,
            d2 > 0,
            d1 > 0,
    ;
    assert((n * d2) * d1 == (n * ps) * (unit * unit)) by (nonlinear_arith)
        requires
            d2 == s * unit,
            d1 == p * unit,
            ps == p * s,
    ;
    let square = unit * unit;
    assert((n * ps) * square <= ac * square) by (nonlinear_arith)
        requires
            n * ps <= ac,
            square >= 0,
            square == unit * unit,
    ;
    assert(ac * square == (a * unit) * e) by (nonlinear_arith)
        requires
            square == unit * unit,
            ac == a * c,
            e == c * unit,
    ;
    assert(ac * square < t * square) by (nonlinear_arith)
        requires
            ac < t,
            square == unit * unit,
            unit > 0,
    ;
    assert(((n + 1) * d2) * d1 == t * square) by (nonlinear_arith)
        requires
            d2 == s * unit,
            d1 == p * unit,
            ps == p * s,
            t == (n + 1) * ps,
            square == unit * unit,
    ;
}

/// Counting in another unit does not change how often one number goes into another.
pub proof fn lemma_common_unit(v: int, s: int, p: int)
    requires
        s > 0,
        p > 0,
    ensures
        s * p > 0,
        (v * p) / (s * p) == v / s,
{
    let n = v / s;
    let r = v % s;
    vstd::arithmetic::div_mod::lemma_fundamental_div_mod(v, s);
    vstd::arithmetic::div_mod::lemma_mod_bound(v, s);
    assert(s * p > 0) by (nonlinear_arith)
        requires
            s > 0,
            p > 0,
    ;
    assert(v * p == n * (s * p) + r * p && 0 <= r * p < s * p) by (nonlinear_arith)
        requires
            v == s * n + r,
            0 <= r < s,
            p > 0,
    ;
    vstd::arithmetic::div_mod::lemma_fundamental_div_mod_converse(v * p, s * p, n, r * p);
}

/// Counting in another unit does not change what is left over.
pub proof fn lemma_common_rest(v: int, s: int, p: int)
    requires
        s > 0,
        p > 0,
    ensures
        s * p > 0,
        (v * p) % (s * p) == (v % s) * p,
{
    let n = v / s;
    let r = v % s;
    lemma_common_unit(v, s, p);
    vstd::arithmetic::div_mod::lemma_fundamental_div_mod(v, s);
    vstd::arithmetic::div_mod::lemma_mod_bound(v, s);
    assert(v * p == n * (s * p) + r * p && 0 <= r * p < s * p) by (nonlinear_arith)
        requires
            v == s * n + r,
            0 <= r < s,
            p > 0,
    ;
    vstd::arithmetic::div_mod::lemma_fundamental_div_mod_converse(v * p, s * p, n, r * p);
}

/// What is not a multiple of ten is no multiple of a multiple of ten.
proof fn lemma_no_multiple(m: int, b: int)
    requires
        b > 0,
        m % 10 != 0,
    ensures
        m % (b * 10) != 0,
{
    let q = m / (b * 10);
    if m % (b * 10) == 0 {
        vstd::arithmetic::div_mod::lemma_fundamental_div_mod(m, b * 10);
        assert((b * 10) * q == 10 * (b * q)) by (nonlinear_arith);
        assert(m == 10 * (b * q));
    }
}

/// The size of a number is a multiple where the number is.
proof fn lemma_multiple_size(v: int, s: int)
    requires
        s > 0,
    ensures
        (-v) % s == 0 <==> v % s == 0,
{
    vstd::arithmetic::div_mod::lemma_fundamental_div_mod(v, s);
    vstd::arithmetic::div_mod::lemma_fundamental_div_mod(-v, s);
    let (a, b) = (v / s, (-v) / s);
    if v % s == 0 {
        assert(-v == (-a) * s + 0) by (nonlinear_arith)
            requires
                v == s * a,
        ;
        vstd::arithmetic::div_mod::lemma_fundamental_div_mod_converse(-v, s, -a, 0);
    }
    if (-v) % s == 0 {
        assert(v == (-b) * s + 0) by (nonlinear_arith)
            requires
                -v == s * b,
        ;
        vstd::arithmetic::div_mod::lemma_fundamental_div_mod_converse(v, s, -b, 0);
    }
}

/// A number is nothing but a mantissa times a power of ten.
proof fn lemma_steps_representable(mantissa: i128, scale: u32)
    requires
        valid(mantissa, scale),
    ensures
        representable(steps(mantissa, scale)),
{
    assert(steps(mantissa, scale) == mantissa as int * pow10((28 - scale) as nat));
}

/// The size of a number is a number.
proof fn lemma_negation_representable(v: int)
    requires
        representable(v),
    ensures
        representable(-v),
{
    let (m, k) = choose|m: int, k: nat|
        -MAX_MANTISSA <= m <= MAX_MANTISSA && k <= 28 && v == #[trigger] (m * pow10(k));
    let p = pow10(k);
    assert((-m) * p == -(m * p)) by (nonlinear_arith);
    assert(-v == (-m) * pow10(k));
}

/// Multiplying by a number between minus one and one does not enlarge.
proof fn lemma_product_within(a: int, b: int)
    requires
        representable(a),
        -one() <= b <= one(),
    ensures
        product_of(a, b) matches Some(w) && (a >= 0 ==> -a <= w <= a) && (a <= 0 ==> a <= w <= -a),
{
    lemma_pow10_positive(28);
    let e = one();
    let size = if a >= 0 {
        a
    } else {
        -a
    };
    lemma_negation_representable(a);
    assert(-size * e <= a * b <= size * e) by (nonlinear_arith)
        requires
            -e <= b <= e,
            e > 0,
            size >= 0,
            size == a || size == -a,
    ;
    lemma_nearest_within(a * b, e, size, false);
}

/// What stands for a value is a number.
pub proof fn lemma_nearest_from_is_number(n: int, d: int, j: nat, odd: bool)
    requires
        nearest_from(n, d, j, odd) is Some,
    ensures
        representable(nearest_from(n, d, j, odd)->0),
    decreases 29 - j,
{
    if -MAX_MANTISSA <= mantissa_at(n, d, j, false) <= MAX_MANTISSA {
        let m = mantissa_at(n, d, j, odd);
        assert(-MAX_MANTISSA <= m <= MAX_MANTISSA);
        assert(representable(m * pow10(j)));
    } else {
        lemma_nearest_from_is_number(n, d, j + 1, odd);
    }
}

/// Dividing by a number that is at least one does not enlarge and keeps the sign.
proof fn lemma_quotient_within(a: int, b: int, odd: bool)
    requires
        representable(a),
        b >= one(),
    ensures
        quotient_of(a, b, odd) matches Some(w) && (a >= 0 ==> 0 <= w <= a) && (a <= 0 ==> a <= w
            <= 0),
{
    lemma_pow10_positive(28);
    let e = one();
    let size = if a >= 0 {
        a
    } else {
        -a
    };
    lemma_negation_representable(a);
    assert(-size * b <= a * e <= size * b && (a >= 0 ==> a * e >= 0) && (a <= 0 ==> a * e <= 0))
        by (nonlinear_arith)
        requires
            0 < e <= b,
            size >= 0,
            size == a || size == -a,
    ;
    lemma_nearest_within(a * e, b, size, odd);
}

/// The difference of two numbers of which neither is negative is never too large.
proof fn lemma_difference_within(a: int, b: int)
    requires
        representable(a),
        representable(b),
        a >= 0,
        b >= 0,
    ensures
        difference_of(a, b) matches Some(w) && -b <= w <= a,
{
    if a >= b {
        lemma_nearest_within(a - b, 1, a, false);
    } else {
        lemma_nearest_within(a - b, 1, b, false);
    }
}

/// A result is too large to be a number, or a divisor is zero.
#[derive(Clone, Copy, Debug, PartialEq, Eq, Structural)]
pub struct Overflow;

/// A decimal number.
#[derive(Clone, Copy, Debug)]
pub struct Decimal {
    mantissa: i128,
    scale: u32,
}

impl View for Decimal {
    type V = int;

    closed spec fn view(&self) -> int {
        steps(self.mantissa, self.scale)
    }
}

/// Whether a whole number is a mantissa.
pub open spec fn fits(m: int) -> bool {
    -MAX_MANTISSA <= m <= MAX_MANTISSA
}

/// A mantissa when the number is written with so many digits behind the point.
pub open spec fn aligned(mantissa: i128, scale: u32, places: u32) -> int {
    mantissa * pow10((places - scale) as nat)
}

/// The larger of two scales.
pub open spec fn more_places(s1: u32, s2: u32) -> u32 {
    if s1 < s2 {
        s2
    } else {
        s1
    }
}

/// The sum of two numbers, digit for digit under one another; nothing where that has too many
/// digits. A number to which nothing is added stays as it is written.
pub open spec fn plain_sum(m1: i128, s1: u32, m2: i128, s2: u32) -> Option<(i128, u32)> {
    let places = more_places(s1, s2);
    let (a, b) = (aligned(m1, s1, places), aligned(m2, s2, places));
    if m1 == 0 {
        Some((m2, s2))
    } else if m2 == 0 {
        Some((m1, s1))
    } else if fits(a) && fits(b) && fits(a + b) {
        Some(((a + b) as i128, places))
    } else {
        None
    }
}

/// The product of two numbers, digit for digit; nothing where that has too many digits.
pub open spec fn plain_product(m1: i128, s1: u32, m2: i128, s2: u32) -> Option<(i128, u32)> {
    if m1 == 0 || m2 == 0 {
        Some((0, 0))
    } else if s1 + s2 <= MAX_SCALE && fits(m1 * m2) {
        Some(((m1 * m2) as i128, (s1 + s2) as u32))
    } else {
        None
    }
}

/// The quotient of two numbers where one mantissa goes into the other without a rest;
/// nothing where it does not, or has too many digits.
pub open spec fn plain_quotient(m1: i128, s1: u32, m2: i128, s2: u32) -> Option<(i128, u32)> {
    let whole = m1 as int / m2 as int;
    if m2 == 0 || m1 as int % m2 as int != 0 {
        None
    } else if m1 == 0 {
        Some((0, 0))
    } else if s1 >= s2 {
        Some((whole as i128, (s1 - s2) as u32))
    } else if fits(whole * pow10((s2 - s1) as nat)) {
        Some(((whole * pow10((s2 - s1) as nat)) as i128, 0))
    } else {
        None
    }
}

/// The value of a result, if there is one.
pub open spec fn value_of(r: Option<(i128, u32)>) -> Option<int> {
    match r {
        Some(p) => Some(steps(p.0, p.1)),
        None => None,
    }
}

/// Calls `Decimal::checked_add`. The claim: the result depends on the two numbers as they
/// are written alone. It is the exact sum, rounded half to even at the finest place at which
/// its mantissa fits in 96 bits, and there is none when it fits at no place. Where the digits
/// under one another fit, none is dropped or added; how many trailing zeros there are
/// otherwise is left to the name.
#[verifier::external_body]
fn outside_add(m1: i128, s1: u32, m2: i128, s2: u32) -> (r: Option<(i128, u32)>)
    requires
        valid(m1, s1),
        valid(m2, s2),
    ensures
        r == decimal_sum(m1, s1, m2, s2),
        r matches Some(p) ==> valid(p.0, p.1),
        value_of(r) == sum_of(steps(m1, s1), steps(m2, s2)),
        plain_sum(m1, s1, m2, s2) is Some ==> r == plain_sum(m1, s1, m2, s2),
{
    let a = rust_decimal::Decimal::from_i128_with_scale(m1, s1);
    let b = rust_decimal::Decimal::from_i128_with_scale(m2, s2);
    a.checked_add(b).map(|r| (r.mantissa(), r.scale()))
}

/// Calls `Decimal::checked_sub`. The claim: the result depends on the two numbers as they
/// are written alone. It is the exact difference, rounded half to even at the finest place at
/// which its mantissa fits in 96 bits, and there is none when it fits at no place. Where the
/// digits under one another fit, none is dropped or added; how many trailing zeros there are
/// otherwise is left to the name.
#[verifier::external_body]
fn outside_sub(m1: i128, s1: u32, m2: i128, s2: u32) -> (r: Option<(i128, u32)>)
    requires
        valid(m1, s1),
        valid(m2, s2),
    ensures
        r == decimal_difference(m1, s1, m2, s2),
        r matches Some(p) ==> valid(p.0, p.1),
        value_of(r) == difference_of(steps(m1, s1), steps(m2, s2)),
        plain_sum(m1, s1, (-m2) as i128, s2) is Some ==> r == plain_sum(
            m1,
            s1,
            (-m2) as i128,
            s2,
        ),
{
    let a = rust_decimal::Decimal::from_i128_with_scale(m1, s1);
    let b = rust_decimal::Decimal::from_i128_with_scale(m2, s2);
    a.checked_sub(b).map(|r| (r.mantissa(), r.scale()))
}

/// Calls `Decimal::checked_mul`. The claim: the result depends on the two numbers as they
/// are written alone. It is the exact product, rounded half to even at the finest place, 28
/// digits or fewer, at which its mantissa fits in 96 bits, and there is none when it fits at no
/// place. Where the product of the mantissas fits, no trailing zero is dropped or added, but
/// nought is written without any; how many there are otherwise is left to the name.
#[verifier::external_body]
fn outside_mul(m1: i128, s1: u32, m2: i128, s2: u32) -> (r: Option<(i128, u32)>)
    requires
        valid(m1, s1),
        valid(m2, s2),
    ensures
        r == decimal_product(m1, s1, m2, s2),
        r matches Some(p) ==> valid(p.0, p.1),
        value_of(r) == product_of(steps(m1, s1), steps(m2, s2)),
        plain_product(m1, s1, m2, s2) is Some ==> r == plain_product(m1, s1, m2, s2),
{
    let a = rust_decimal::Decimal::from_i128_with_scale(m1, s1);
    let b = rust_decimal::Decimal::from_i128_with_scale(m2, s2);
    a.checked_mul(b).map(|r| (r.mantissa(), r.scale()))
}

/// Whether a mantissa needs more than 64 bits.
pub open spec fn wide(mantissa: i128) -> bool {
    mantissa <= -18446744073709551616 || mantissa >= 18446744073709551616
}

/// Calls `Decimal::checked_div`. The claim: the result depends on the two numbers as they
/// are written alone. It is the exact quotient, rounded to the nearest number at the finest
/// place, 28 digits or fewer, at which its mantissa fits in 96 bits; there is none when it fits
/// at no place or when the divisor is zero. Of two numbers that are equally near it is the even
/// one, unless the mantissa of the divisor needs more than 64 bits; then the name says which.
/// Where one mantissa goes into the other without a rest no trailing zero is dropped, and none
/// added but before the point; how many there are otherwise is left to the name.
#[verifier::external_body]
fn outside_div(m1: i128, s1: u32, m2: i128, s2: u32) -> (r: Option<(i128, u32)>)
    requires
        valid(m1, s1),
        valid(m2, s2),
    ensures
        r == decimal_quotient(m1, s1, m2, s2),
        r matches Some(p) ==> valid(p.0, p.1),
        value_of(r) == quotient_of(steps(m1, s1), steps(m2, s2), false) || (wide(m2) && value_of(r)
            == quotient_of(steps(m1, s1), steps(m2, s2), true)),
        plain_quotient(m1, s1, m2, s2) is Some ==> r == plain_quotient(m1, s1, m2, s2),
{
    let a = rust_decimal::Decimal::from_i128_with_scale(m1, s1);
    let b = rust_decimal::Decimal::from_i128_with_scale(m2, s2);
    a.checked_div(b).map(|r| (r.mantissa(), r.scale()))
}

/// Calls `Decimal::floor`. The claim: the result is the largest whole number that is not
/// above the argument, without digits behind the point.
#[verifier::external_body]
fn outside_floor(m: i128, s: u32) -> (r: (i128, u32))
    requires
        valid(m, s),
    ensures
        valid(r.0, r.1),
        steps(r.0, r.1) == floor_of(steps(m, s)),
        r.1 == 0,
{
    let r = rust_decimal::Decimal::from_i128_with_scale(m, s).floor();
    (r.mantissa(), r.scale())
}

/// Calls `Decimal::ceil`. The claim: the result is the smallest whole number that is not
/// below the argument, without digits behind the point.
#[verifier::external_body]
fn outside_ceil(m: i128, s: u32) -> (r: (i128, u32))
    requires
        valid(m, s),
    ensures
        valid(r.0, r.1),
        steps(r.0, r.1) == ceiling_of(steps(m, s)),
        r.1 == 0,
{
    let r = rust_decimal::Decimal::from_i128_with_scale(m, s).ceil();
    (r.mantissa(), r.scale())
}

/// Calls `Decimal::round`. The claim: the result is the whole number nearest to the
/// argument, the even one of two that are equally near, without digits behind the point.
#[verifier::external_body]
fn outside_round(m: i128, s: u32) -> (r: (i128, u32))
    requires
        valid(m, s),
    ensures
        valid(r.0, r.1),
        steps(r.0, r.1) == rounding_of(steps(m, s)),
        r.1 == 0,
{
    let r = rust_decimal::Decimal::from_i128_with_scale(m, s).round();
    (r.mantissa(), r.scale())
}

/// Compares with `<` of `Decimal`. The claim: it compares the values, whatever the
/// number of trailing zeros.
#[verifier::external_body]
fn outside_less(m1: i128, s1: u32, m2: i128, s2: u32) -> (r: bool)
    requires
        valid(m1, s1),
        valid(m2, s2),
    ensures
        r == (steps(m1, s1) < steps(m2, s2)),
{
    let a = rust_decimal::Decimal::from_i128_with_scale(m1, s1);
    let b = rust_decimal::Decimal::from_i128_with_scale(m2, s2);
    a < b
}

/// Calls `Decimal::to_u32`. The claim: the result is the argument without its
/// fraction, and there is none when that is negative or above 2^32 - 1.
#[verifier::external_body]
fn outside_to_u32(m: i128, s: u32) -> (r: Option<u32>)
    requires
        valid(m, s),
    ensures
        match r {
            Some(n) => 0 <= steps(m, s) && steps(m, s) / one() == n,
            None => steps(m, s) < 0 || steps(m, s) / one() > u32::MAX,
        },
{
    rust_decimal::Decimal::from_i128_with_scale(m, s).to_u32()
}

/// Calls `Decimal::to_string`. The claim: the text is a minus sign where the number
/// is negative, the whole part without leading zeros, and a point with as many
/// digits behind it as the scale says, if there are any.
#[verifier::external_body]
fn outside_to_string(m: i128, s: u32) -> (r: String)
    requires
        valid(m, s),
    ensures
        r@ == decimal_text(m, s),
{
    rust_decimal::Decimal::from_i128_with_scale(m, s).to_string()
}

/// Calls `Decimal::from_str`. The claim: the result depends on the text alone and is
/// a number, and the text of a number reads back with its mantissa and its scale.
/// What else is read, signs, separators, exponents and surplus digits, is left to
/// the name.
#[verifier::external_body]
fn outside_from_str(text: &str) -> (r: Option<(i128, u32)>)
    ensures
        r == parsed_decimal(text@),
        r matches Some(p) ==> valid(p.0, p.1),
        forall|m: i128, s: u32|
            valid(m, s) && text@ == #[trigger] decimal_text(m, s) ==> r == Some((m, s)),
{
    rust_decimal::Decimal::from_str(text).ok().map(|d| (d.mantissa(), d.scale()))
}

/// The sum of two numbers, as they are written.
pub open spec fn plus(a: (i128, u32), b: (i128, u32)) -> Option<(i128, u32)> {
    decimal_sum(a.0, a.1, b.0, b.1)
}

/// The difference of two numbers, as they are written.
pub open spec fn minus(a: (i128, u32), b: (i128, u32)) -> Option<(i128, u32)> {
    decimal_difference(a.0, a.1, b.0, b.1)
}

/// The product of two numbers, as they are written.
pub open spec fn times(a: (i128, u32), b: (i128, u32)) -> Option<(i128, u32)> {
    decimal_product(a.0, a.1, b.0, b.1)
}

/// The quotient of two numbers, as they are written.
pub open spec fn over(a: (i128, u32), b: (i128, u32)) -> Option<(i128, u32)> {
    decimal_quotient(a.0, a.1, b.0, b.1)
}

/// The value of a number that is written like this.
pub open spec fn worth(form: (i128, u32)) -> int {
    steps(form.0, form.1)
}

/// The largest whole number that is not above a number, as it is written.
pub open spec fn floor_form(form: (i128, u32)) -> (i128, u32) {
    ((worth(form) / one()) as i128, 0)
}

/// The smallest whole number that is not below a number, as it is written.
pub open spec fn ceiling_form(form: (i128, u32)) -> (i128, u32) {
    ((-((-worth(form)) / one())) as i128, 0)
}

/// Whether the quotient of two numbers is the odd one of two that are equally near.
pub open spec fn tie(a: (i128, u32), b: (i128, u32)) -> bool {
    value_of(over(a, b)) != quotient_of(worth(a), worth(b), false)
}

/// How a result is written, if there is one.
pub open spec fn form_of(r: Option<Decimal>) -> Option<(i128, u32)> {
    match r {
        Some(d) => Some(d.form()),
        None => None,
    }
}

/// A number is worth what its mantissa and its scale say.
pub proof fn lemma_form(d: Decimal)
    ensures
        d@ == worth(d.form()),
{
}

/// Two numbers that are written alike are the same.
pub proof fn lemma_same_form(a: Decimal, b: Decimal)
    requires
        a.form() == b.form(),
    ensures
        a == b,
{
}

impl Decimal {
    #[verifier::type_invariant]
    spec fn in_range(self) -> bool {
        valid(self.mantissa, self.scale)
    }

    /// The mantissa.
    pub closed spec fn coefficient(self) -> i128 {
        self.mantissa
    }

    /// The number of digits behind the decimal point.
    pub closed spec fn places(self) -> u32 {
        self.scale
    }

    /// The mantissa and the scale.
    pub open spec fn form(self) -> (i128, u32) {
        (self.coefficient(), self.places())
    }

    /// Whether a quotient by this number may be the odd one of two numbers that are equally
    /// near: only where its mantissa needs more than 64 bits.
    pub open spec fn ties(self, odd: bool) -> bool {
        odd ==> wide(self.coefficient())
    }

    /// How the number is written.
    pub open spec fn text(self) -> Seq<char> {
        decimal_text(self.coefficient(), self.places())
    }

    /// The number `mantissa / 10^scale`, if there is one.
    pub fn new(mantissa: i128, scale: u32) -> (r: Option<Decimal>)
        ensures
            r is Some <==> valid(mantissa, scale),
            r matches Some(d) ==> d@ == steps(mantissa, scale) && d.coefficient() == mantissa
                && d.places() == scale,
    {
        if -MAX_MANTISSA <= mantissa && mantissa <= MAX_MANTISSA && scale <= MAX_SCALE {
            Some(Decimal { mantissa, scale })
        } else {
            None
        }
    }

    /// A natural number.
    pub fn from_u32(n: u32) -> (r: Decimal)
        ensures
            r@ == n * one(),
            r.coefficient() == n,
            r.places() == 0,
    {
        Decimal { mantissa: n as i128, scale: 0 }
    }

    /// Nought.
    pub fn zero() -> (r: Decimal)
        ensures
            r@ == 0,
            r.form() == (0i128, 0u32),
    {
        Decimal { mantissa: 0, scale: 0 }
    }

    /// The mantissa and the scale.
    pub fn parts(self) -> (r: (i128, u32))
        ensures
            valid(r.0, r.1),
            self@ == steps(r.0, r.1),
            r == (self.coefficient(), self.places()),
    {
        proof {
            use_type_invariant(&self);
        }
        (self.mantissa, self.scale)
    }

    /// The sum, if it is not too large.
    pub fn checked_add(self, other: Decimal) -> (r: Option<Decimal>)
        ensures
            match r {
                Some(d) => sum_of(self@, other@) == Some(d@),
                None => sum_of(self@, other@) is None,
            },
            form_of(r) == plus(self.form(), other.form()),
            plain_sum(
                self.coefficient(),
                self.places(),
                other.coefficient(),
                other.places(),
            ) matches Some(p) ==> form_of(r) == Some(p),
    {
        proof {
            use_type_invariant(&self);
            use_type_invariant(&other);
        }
        match outside_add(self.mantissa, self.scale, other.mantissa, other.scale) {
            Some(p) => Some(Decimal { mantissa: p.0, scale: p.1 }),
            None => None,
        }
    }

    /// The difference, if it is not too large. Between numbers that are not negative
    /// it never is.
    pub fn checked_sub(self, other: Decimal) -> (r: Option<Decimal>)
        ensures
            match r {
                Some(d) => difference_of(self@, other@) == Some(d@),
                None => difference_of(self@, other@) is None,
            },
            self@ >= 0 && other@ >= 0 ==> (r matches Some(d) && -other@ <= d@ <= self@),
            form_of(r) == minus(self.form(), other.form()),
            plain_sum(
                self.coefficient(),
                self.places(),
                (-other.coefficient()) as i128,
                other.places(),
            ) matches Some(p) ==> form_of(r) == Some(p),
    {
        proof {
            use_type_invariant(&self);
            use_type_invariant(&other);
            lemma_steps_representable(self.mantissa, self.scale);
            lemma_steps_representable(other.mantissa, other.scale);
            if self@ >= 0 && other@ >= 0 {
                lemma_difference_within(self@, other@);
            }
        }
        match outside_sub(self.mantissa, self.scale, other.mantissa, other.scale) {
            Some(p) => Some(Decimal { mantissa: p.0, scale: p.1 }),
            None => None,
        }
    }

    /// The product, if it is not too large. Multiplying by a number between minus one
    /// and one does not enlarge.
    pub fn checked_mul(self, other: Decimal) -> (r: Option<Decimal>)
        ensures
            match r {
                Some(d) => product_of(self@, other@) == Some(d@),
                None => product_of(self@, other@) is None,
            },
            -one() <= other@ <= one() ==> (r matches Some(d) && (self@ >= 0 ==> -self@ <= d@
                <= self@) && (self@ <= 0 ==> self@ <= d@ <= -self@)),
            self.places() <= MAX_SCALE,
            other.places() <= MAX_SCALE,
            form_of(r) == times(self.form(), other.form()),
            plain_product(
                self.coefficient(),
                self.places(),
                other.coefficient(),
                other.places(),
            ) matches Some(p) ==> form_of(r) == Some(p),
    {
        proof {
            use_type_invariant(&self);
            use_type_invariant(&other);
            lemma_steps_representable(self.mantissa, self.scale);
            if -one() <= other@ <= one() {
                lemma_product_within(self@, other@);
            }
        }
        match outside_mul(self.mantissa, self.scale, other.mantissa, other.scale) {
            Some(p) => Some(Decimal { mantissa: p.0, scale: p.1 }),
            None => None,
        }
    }

    /// The quotient, if the divisor is not zero and the quotient not too large. Of two
    /// numbers that are equally near it is the even one, unless the divisor has very many
    /// digits. Dividing by a number that is at least one does not enlarge and keeps the sign.
    pub fn checked_div(self, other: Decimal) -> (r: Option<Decimal>)
        ensures
            match r {
                Some(d) => quotient_of(self@, other@, tie(self.form(), other.form())) == Some(d@),
                None => quotient_of(self@, other@, tie(self.form(), other.form())) is None,
            },
            other.ties(tie(self.form(), other.form())),
            other@ >= one() ==> (r matches Some(d) && (self@ >= 0 ==> 0 <= d@ <= self@) && (self@
                <= 0 ==> self@ <= d@ <= 0)),
            form_of(r) == over(self.form(), other.form()),
            plain_quotient(
                self.coefficient(),
                self.places(),
                other.coefficient(),
                other.places(),
            ) matches Some(p) ==> form_of(r) == Some(p),
    {
        proof {
            use_type_invariant(&self);
            use_type_invariant(&other);
            lemma_steps_representable(self.mantissa, self.scale);
            if other@ >= one() {
                lemma_quotient_within(self@, other@, false);
                lemma_quotient_within(self@, other@, true);
            }
        }
        match outside_div(self.mantissa, self.scale, other.mantissa, other.scale) {
            Some(p) => Some(Decimal { mantissa: p.0, scale: p.1 }),
            None => None,
        }
    }

    /// The largest whole number that is not above this one.
    pub fn floor(self) -> (r: Decimal)
        ensures
            r@ == floor_of(self@),
            r.form() == floor_form(self.form()),
            r.coefficient() == self@ / one(),
    {
        proof {
            use_type_invariant(&self);
        }
        let p = outside_floor(self.mantissa, self.scale);
        proof {
            let (m, n, e) = (p.0 as int, self@ / one(), one());
            lemma_pow10_positive(28);
            assert(m == n) by (nonlinear_arith)
                requires
                    m * e == n * e,
                    e > 0,
            ;
        }
        Decimal { mantissa: p.0, scale: p.1 }
    }

    /// The smallest whole number that is not below this one.
    pub fn ceil(self) -> (r: Decimal)
        ensures
            r@ == ceiling_of(self@),
            r.form() == ceiling_form(self.form()),
    {
        proof {
            use_type_invariant(&self);
        }
        let p = outside_ceil(self.mantissa, self.scale);
        proof {
            let (m, n, e) = (p.0 as int, (-self@) / one(), one());
            lemma_pow10_positive(28);
            assert(m == -n) by (nonlinear_arith)
                requires
                    m * e == -(n * e),
                    e > 0,
            ;
        }
        Decimal { mantissa: p.0, scale: p.1 }
    }

    /// The nearest whole number, the even one of two that are equally near.
    pub fn round(self) -> (r: Decimal)
        ensures
            r@ == rounding_of(self@),
            r.places() == 0,
    {
        proof {
            use_type_invariant(&self);
        }
        let p = outside_round(self.mantissa, self.scale);
        Decimal { mantissa: p.0, scale: p.1 }
    }

    /// The number without its fraction, if that is a natural number of 32 bits.
    pub fn to_u32(self) -> (r: Option<u32>)
        ensures
            match r {
                Some(n) => 0 <= self@ && self@ / one() == n,
                None => self@ < 0 || self@ / one() > u32::MAX,
            },
    {
        proof {
            use_type_invariant(&self);
        }
        outside_to_u32(self.mantissa, self.scale)
    }

    /// Writes the number.
    pub fn to_text(self) -> (r: String)
        ensures
            r@ == self.text(),
            writes(r@, self@),
    {
        proof {
            use_type_invariant(&self);
            assert(writes(decimal_text(self.mantissa, self.scale), self@));
        }
        outside_to_string(self.mantissa, self.scale)
    }

    /// Reads a number. What was written for a number reads back as that number, and is
    /// written the same way again.
    pub fn parse(text: &str) -> (r: Option<Decimal>)
        ensures
            match r {
                Some(d) => parsed_decimal(text@) matches Some(p) && d@ == steps(p.0, p.1)
                    && d.coefficient() == p.0 && d.places() == p.1,
                None => parsed_decimal(text@) is None,
            },
            forall|value: int| #[trigger]
                writes(text@, value) ==> r is Some && r->0@ == value && r->0.text() == text@,
    {
        match outside_from_str(text) {
            Some(p) => Some(Decimal { mantissa: p.0, scale: p.1 }),
            None => None,
        }
    }

    /// Whether the number is a multiple of another one.
    pub fn is_multiple_of(self, step: Decimal) -> (r: bool)
        requires
            step@ > 0,
        ensures
            r == (self@ % step@ == 0),
    {
        proof {
            use_type_invariant(&self);
            use_type_invariant(&step);
        }
        let size: u128 = if self.mantissa < 0 {
            (-self.mantissa) as u128
        } else {
            self.mantissa as u128
        };
        let ghost p = pow10((28 - step.scale) as nat);
        let ghost q = pow10((28 - self.scale) as nat);
        proof {
            lemma_pow10_positive((28 - step.scale) as nat);
            lemma_pow10_positive((28 - self.scale) as nat);
            let (m, s) = (step.mantissa as int, self.mantissa as int);
            assert(m > 0) by (nonlinear_arith)
                requires
                    m * p > 0,
                    p > 0,
            ;
            assert((-s) * q == -(s * q)) by (nonlinear_arith);
            lemma_multiple_size(self@, step@);
            assert((self@ % step@ == 0) == ((size * q) % step@ == 0));
        }
        let unit: u128 = step.mantissa as u128;
        if self.scale <= step.scale {
            let more: u32 = step.scale - self.scale;
            let mut rest: u128 = size % unit;
            let mut i: u32 = 0;
            proof {
                assert(size * pow10(0) == size);
            }
            while i < more
                invariant
                    i <= more,
                    more <= 28,
                    0 < unit <= MAX_MANTISSA,
                    rest < unit,
                    rest == (size * pow10(i as nat)) % (unit as int),
                decreases more - i,
            {
                proof {
                    let x = size * pow10(i as nat);
                    let t = pow10(i as nat);
                    vstd::arithmetic::div_mod::lemma_mul_mod_noop_left(x, 10, unit as int);
                    assert((size * t) * 10 == size * (10 * t)) by (nonlinear_arith);
                    assert(pow10((i + 1) as nat) == 10 * t);
                }
                rest = (rest * 10) % unit;
                i = i + 1;
            }
            proof {
                let e = pow10(more as nat);
                lemma_pow10_sum(more as nat, (28 - step.scale) as nat);
                assert(more as nat + (28 - step.scale) as nat == (28 - self.scale) as nat);
                assert(size * (e * p) == (size * e) * p) by (nonlinear_arith);
                lemma_common_rest(size * e, unit as int, p);
                assert((rest as int) * p == 0 <==> rest == 0) by (nonlinear_arith)
                    requires
                        p > 0,
                ;
            }
            rest == 0
        } else {
            let fewer: u32 = self.scale - step.scale;
            let mut left: u128 = size;
            let mut i: u32 = 0;
            proof {
                lemma_pow10_sum(fewer as nat, (28 - self.scale) as nat);
                assert(fewer as nat + (28 - self.scale) as nat == (28 - step.scale) as nat);
            }
            let ghost e = pow10(fewer as nat);
            proof {
                let u = unit as int;
                lemma_pow10_positive(fewer as nat);
                assert(u * (e * q) == (u * e) * q) by (nonlinear_arith);
                assert(u * e > 0) by (nonlinear_arith)
                    requires
                        u > 0,
                        e > 0,
                ;
                lemma_common_rest(size as int, u * e, q);
                let rest = (size as int) % (u * e);
                assert(rest * q == 0 <==> rest == 0) by (nonlinear_arith)
                    requires
                        q > 0,
                ;
                assert(size * pow10(0) == size);
            }
            while i < fewer
                invariant
                    i <= fewer,
                    fewer <= 28,
                    unit > 0,
                    e == pow10(fewer as nat),
                    size == left * pow10(i as nat),
                    (self@ % step@ == 0) == ((size as int) % (unit * e) == 0),
                decreases fewer - i,
            {
                let ghost t = pow10(i as nat);
                let ghost u = unit as int;
                if left % 10 != 0 {
                    proof {
                        let rest_of = pow10((fewer - i - 1) as nat);
                        lemma_pow10_positive(i as nat);
                        lemma_pow10_positive((fewer - i - 1) as nat);
                        lemma_pow10_sum((fewer - i) as nat, i as nat);
                        assert((fewer - i) as nat + i as nat == fewer as nat);
                        assert(pow10((fewer - i) as nat) == 10 * rest_of);
                        assert(u * ((10 * rest_of) * t) == ((u * rest_of) * 10) * t)
                            by (nonlinear_arith);
                        assert(u * rest_of > 0) by (nonlinear_arith)
                            requires
                                u > 0,
                                rest_of > 0,
                        ;
                        lemma_no_multiple(left as int, u * rest_of);
                        lemma_common_rest(left as int, (u * rest_of) * 10, t);
                        let rest = (left as int) % ((u * rest_of) * 10);
                        assert(rest * t != 0) by (nonlinear_arith)
                            requires
                                rest != 0,
                                t > 0,
                        ;
                    }
                    return false;
                }
                proof {
                    let x = (left / 10) as int;
                    assert(left == x * 10);
                    assert(pow10((i + 1) as nat) == 10 * t);
                    assert((x * 10) * t == x * (10 * t)) by (nonlinear_arith);
                }
                left = left / 10;
                i = i + 1;
            }
            proof {
                lemma_pow10_positive(fewer as nat);
                lemma_common_rest(left as int, unit as int, e);
                let rest = (left as int) % (unit as int);
                assert(rest * e == 0 <==> rest == 0) by (nonlinear_arith)
                    requires
                        e > 0,
                ;
            }
            left % unit == 0
        }
    }

    /// Whether the number is smaller.
    pub fn less(&self, other: &Decimal) -> (r: bool)
        ensures
            r == (self@ < other@),
    {
        proof {
            use_type_invariant(self);
            use_type_invariant(other);
        }
        outside_less(self.mantissa, self.scale, other.mantissa, other.scale)
    }

    /// The larger of two numbers, the first if they are equal.
    pub fn max(self, other: Decimal) -> (r: Decimal)
        ensures
            r == (if self@ < other@ {
                other
            } else {
                self
            }),
    {
        if self.less(&other) {
            other
        } else {
            self
        }
    }

    /// The smaller of two numbers, the first if they are equal.
    pub fn min(self, other: Decimal) -> (r: Decimal)
        ensures
            r == (if other@ < self@ {
                other
            } else {
                self
            }),
    {
        if other.less(&self) {
            other
        } else {
            self
        }
    }
}

impl PartialEq for Decimal {
    fn eq(&self, other: &Decimal) -> (r: bool) {
        !self.less(other) && !other.less(self)
    }
}

impl Eq for Decimal {

}

impl vstd::std_specs::cmp::PartialEqSpecImpl for Decimal {
    open spec fn obeys_eq_spec() -> bool {
        true
    }

    open spec fn eq_spec(&self, other: &Decimal) -> bool {
        self@ == other@
    }
}

impl PartialOrd for Decimal {
    fn partial_cmp(&self, other: &Decimal) -> (r: Option<Ordering>) {
        if self.less(other) {
            Some(Ordering::Less)
        } else if other.less(self) {
            Some(Ordering::Greater)
        } else {
            Some(Ordering::Equal)
        }
    }
}

impl vstd::std_specs::cmp::PartialOrdSpecImpl for Decimal {
    open spec fn obeys_partial_cmp_spec() -> bool {
        true
    }

    open spec fn partial_cmp_spec(&self, other: &Decimal) -> Option<Ordering> {
        if self@ < other@ {
            Some(Ordering::Less)
        } else if other@ < self@ {
            Some(Ordering::Greater)
        } else {
            Some(Ordering::Equal)
        }
    }
}

} // verus!

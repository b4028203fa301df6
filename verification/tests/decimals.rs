//! Decimal arithmetic, held against long arithmetic on decimal digits.

use grid_trader::decimal::{Decimal, MAX_MANTISSA};

/// A natural number: its decimal digits, the lowest first, without zeros at the end.
type Digits = Vec<u8>;

fn trim(mut a: Digits) -> Digits {
    while a.last() == Some(&0) {
        a.pop();
    }
    a
}

fn natural(mut n: u128) -> Digits {
    let mut r = Vec::new();
    while n > 0 {
        r.push((n % 10) as u8);
        n /= 10;
    }
    r
}

fn shifted(a: &Digits, zeros: usize) -> Digits {
    if a.is_empty() {
        return Vec::new();
    }
    let mut r = vec![0; zeros];
    r.extend_from_slice(a);
    r
}

fn smaller(a: &Digits, b: &Digits) -> bool {
    if a.len() != b.len() {
        return a.len() < b.len();
    }
    for i in (0..a.len()).rev() {
        if a[i] != b[i] {
            return a[i] < b[i];
        }
    }
    false
}

fn plus(a: &Digits, b: &Digits) -> Digits {
    let mut r = Vec::new();
    let mut carry = 0;
    for i in 0..a.len().max(b.len()) {
        let sum = a.get(i).unwrap_or(&0) + b.get(i).unwrap_or(&0) + carry;
        r.push(sum % 10);
        carry = sum / 10;
    }
    r.push(carry);
    trim(r)
}

fn minus(a: &Digits, b: &Digits) -> Digits {
    let mut r = Vec::new();
    let mut borrow = 0i8;
    for i in 0..a.len() {
        let mut d = a[i] as i8 - *b.get(i).unwrap_or(&0) as i8 - borrow;
        borrow = 0;
        if d < 0 {
            d += 10;
            borrow = 1;
        }
        r.push(d as u8);
    }
    assert_eq!(borrow, 0);
    trim(r)
}

fn times(a: &Digits, b: &Digits) -> Digits {
    let mut r = vec![0u32; a.len() + b.len() + 1];
    for i in 0..a.len() {
        for j in 0..b.len() {
            r[i + j] += a[i] as u32 * b[j] as u32;
        }
    }
    let mut out = Vec::new();
    let mut carry = 0u32;
    for d in r {
        let sum = d + carry;
        out.push((sum % 10) as u8);
        carry = sum / 10;
    }
    trim(out)
}

fn divided(a: &Digits, b: &Digits) -> (Digits, Digits) {
    let mut quotient = vec![0u8; a.len()];
    let mut rest: Digits = Vec::new();
    for i in (0..a.len()).rev() {
        rest.insert(0, a[i]);
        rest = trim(rest);
        while !smaller(&rest, b) {
            rest = minus(&rest, b);
            quotient[i] += 1;
        }
    }
    (trim(quotient), rest)
}

/// The size of the number nearest to `n / d` steps.
fn nearest(n: &Digits, d: &Digits) -> Option<Digits> {
    let limit = natural(MAX_MANTISSA as u128);
    for k in 0..=28 {
        let unit = shifted(d, k);
        let (mut mantissa, rest) = divided(n, &unit);
        let twice = plus(&rest, &rest);
        let odd = mantissa.first().map_or(false, |d| d % 2 == 1);
        if smaller(&unit, &twice) || (twice == unit && odd) {
            mantissa = plus(&mantissa, &natural(1));
        }
        if !smaller(&limit, &mantissa) {
            return Some(shifted(&mantissa, k));
        }
    }
    None
}

/// A signed number of steps.
#[derive(Debug, PartialEq, Eq, Clone)]
struct Steps {
    negative: bool,
    size: Digits,
}

fn steps(d: Decimal) -> Steps {
    let (mantissa, scale) = d.parts();
    Steps {
        negative: mantissa < 0,
        size: shifted(&natural(mantissa.unsigned_abs()), 28 - scale as usize),
    }
}

fn signed(negative: bool, size: Digits) -> Steps {
    let negative = negative && !size.is_empty();
    Steps { negative, size }
}

fn sum(a: &Steps, b: &Steps) -> Steps {
    if a.negative == b.negative {
        signed(a.negative, plus(&a.size, &b.size))
    } else if smaller(&a.size, &b.size) {
        signed(b.negative, minus(&b.size, &a.size))
    } else {
        signed(a.negative, minus(&a.size, &b.size))
    }
}

struct Random(u64);

impl Random {
    fn next(&mut self) -> u64 {
        self.0 ^= self.0 << 13;
        self.0 ^= self.0 >> 7;
        self.0 ^= self.0 << 17;
        self.0
    }

    fn below(&mut self, n: u64) -> u64 {
        self.next() % n
    }

    fn decimal(&mut self) -> Decimal {
        let wide = (self.next() as u128) << 64 | self.next() as u128;
        let mut mantissa = match self.below(8) {
            0 => MAX_MANTISSA - self.below(12) as i128,
            1 => 10i128.pow(self.below(29) as u32) * (1 + self.below(9) as i128),
            2 => 10i128.pow(self.below(28) as u32) + self.below(3) as i128 - 1,
            3 => self.below(1000) as i128,
            4 => 1i128 << self.below(96),
            _ => (wide >> (32 + self.below(96))) as i128,
        };
        if mantissa > MAX_MANTISSA {
            mantissa = MAX_MANTISSA;
        }
        if self.below(2) == 0 {
            mantissa = -mantissa;
        }
        Decimal::new(mantissa, self.below(29) as u32).unwrap()
    }
}

fn expect(got: Option<Decimal>, negative: bool, size: Option<Digits>, what: (Decimal, Decimal)) {
    let want = size.map(|s| signed(negative, s));
    assert_eq!(got.map(steps), want, "{what:?}");
}

fn check_add(a: Decimal, b: Decimal) {
    let exact = sum(&steps(a), &steps(b));
    expect(
        a.checked_add(b),
        exact.negative,
        nearest(&exact.size, &natural(1)),
        (a, b),
    );
}

fn check_sub(a: Decimal, b: Decimal) {
    let other = steps(b);
    let exact = sum(&steps(a), &signed(!other.negative, other.size));
    expect(
        a.checked_sub(b),
        exact.negative,
        nearest(&exact.size, &natural(1)),
        (a, b),
    );
}

fn check_mul(a: Decimal, b: Decimal) {
    let (x, y) = (steps(a), steps(b));
    let size = nearest(&times(&x.size, &y.size), &shifted(&natural(1), 28));
    expect(a.checked_mul(b), x.negative != y.negative, size, (a, b));
}

fn check_div(a: Decimal, b: Decimal) {
    let (x, y) = (steps(a), steps(b));
    if y.size.is_empty() {
        assert!(a.checked_div(b).is_none());
        return;
    }
    let size = nearest(&shifted(&x.size, 28), &y.size);
    expect(a.checked_div(b), x.negative != y.negative, size, (a, b));
}

#[test]
fn sums_are_rounded_at_the_finest_place() {
    let mut random = Random(0x9e3779b97f4a7c15);
    for _ in 0..6000 {
        let (a, b) = (random.decimal(), random.decimal());
        check_add(a, b);
    }
}

#[test]
fn differences_are_rounded_at_the_finest_place() {
    let mut random = Random(0x2545f4914f6cdd1d);
    for _ in 0..6000 {
        let (a, b) = (random.decimal(), random.decimal());
        check_sub(a, b);
    }
}

#[test]
fn products_are_rounded_at_the_finest_place() {
    let mut random = Random(0x123456789abcdef1);
    for _ in 0..4000 {
        let (a, b) = (random.decimal(), random.decimal());
        check_mul(a, b);
    }
}

#[test]
fn quotients_are_rounded_at_the_finest_place() {
    let mut random = Random(0xfedcba9876543211);
    for _ in 0..3000 {
        let (a, b) = (random.decimal(), random.decimal());
        check_div(a, b);
    }
}

#[test]
fn numbers_are_compared_by_value() {
    let mut random = Random(0x0123456789abcdef);
    for _ in 0..6000 {
        let (a, b) = (random.decimal(), random.decimal());
        let (x, y) = (steps(a), steps(b));
        let less = match (x.negative, y.negative) {
            (true, false) => true,
            (false, true) => false,
            (false, false) => smaller(&x.size, &y.size),
            (true, true) => smaller(&y.size, &x.size),
        };
        assert_eq!(a < b, less);
        assert_eq!(a == b, x == y);
        assert_eq!(a.max(b), if less { b } else { a });
        assert_eq!(a.min(b), if b < a { b } else { a });
    }
    assert_eq!(Decimal::new(10, 1).unwrap(), Decimal::new(1, 0).unwrap());
}

#[test]
fn whole_numbers_are_found_next_to_a_number() {
    let mut random = Random(0xabcdef0123456789);
    let one = shifted(&natural(1), 28);
    for _ in 0..4000 {
        let d = random.decimal();
        let x = steps(d);
        let (whole, rest) = divided(&x.size, &one);
        let up = plus(&whole, &natural(1));
        let away = if rest.is_empty() { whole.clone() } else { up.clone() };
        let (low, high) = if x.negative { (away, whole.clone()) } else { (whole.clone(), away) };
        assert_eq!(steps(d.floor()), signed(x.negative, shifted(&low, 28)));
        assert_eq!(steps(d.ceil()), signed(x.negative, shifted(&high, 28)));
        let twice = plus(&rest, &rest);
        let odd = whole.first().map_or(false, |d| d % 2 == 1);
        let near = if smaller(&one, &twice) || (twice == one && odd) { up } else { whole.clone() };
        assert_eq!(steps(d.round()), signed(x.negative, shifted(&near, 28)));
        let count = if x.negative && !x.size.is_empty() {
            None
        } else {
            let limit = natural(u32::MAX as u128);
            if smaller(&limit, &whole) {
                None
            } else {
                Some(whole.iter().rev().fold(0u64, |n, d| n * 10 + *d as u64) as u32)
            }
        };
        if x.negative && whole.is_empty() {
            // A fraction above minus one.
            assert!(d.to_u32().is_none());
        } else {
            assert_eq!(d.to_u32(), count);
        }
    }
}

#[test]
fn numbers_read_back_as_they_are_written() {
    let mut random = Random(0x1111222233334444);
    for _ in 0..6000 {
        let d = random.decimal();
        let text = d.to_text();
        let read = Decimal::parse(&text).unwrap();
        assert_eq!(read.parts(), d.parts());
        assert_eq!(read.to_text(), text);
    }
}

#[test]
fn numbers_are_written_with_their_zeros() {
    let text = |m: i128, s: u32| Decimal::new(m, s).unwrap().to_text();
    assert_eq!(text(0, 0), "0");
    assert_eq!(text(0, 2), "0.00");
    assert_eq!(text(5, 1), "0.5");
    assert_eq!(text(-5, 3), "-0.005");
    assert_eq!(text(1500, 2), "15.00");
    assert_eq!(text(-12345, 2), "-123.45");
    assert_eq!(text(MAX_MANTISSA, 28), "7.9228162514264337593543950335");
    assert_eq!(text(MAX_MANTISSA, 0), "79228162514264337593543950335");
}

#[test]
fn text_that_is_no_number_is_refused() {
    assert!(Decimal::parse("").is_none());
    assert!(Decimal::parse("abc").is_none());
    assert!(Decimal::parse("1.2.3").is_none());
    assert_eq!(Decimal::parse("0.0001").unwrap(), Decimal::new(1, 4).unwrap());
    assert_eq!(Decimal::parse("-2").unwrap(), Decimal::new(-2, 0).unwrap());
}

#[test]
fn numbers_out_of_range_are_not_made() {
    assert!(Decimal::new(MAX_MANTISSA, 28).is_some());
    assert!(Decimal::new(-MAX_MANTISSA, 0).is_some());
    assert!(Decimal::new(MAX_MANTISSA + 1, 0).is_none());
    assert!(Decimal::new(-MAX_MANTISSA - 1, 0).is_none());
    assert!(Decimal::new(1, 29).is_none());
    assert_eq!(Decimal::from_u32(7), Decimal::new(70, 1).unwrap());
    assert_eq!(Decimal::zero(), Decimal::new(0, 9).unwrap());
}

#[test]
fn exact_results_are_not_rounded() {
    let d = |m: i128, s: u32| Decimal::new(m, s).unwrap();
    assert_eq!(d(1, 1).checked_add(d(2, 1)), Some(d(3, 1)));
    assert_eq!(d(1, 0).checked_sub(d(1, 28)), Some(d(9999999999999999999999999999, 28)));
    assert_eq!(d(25, 2).checked_mul(d(4, 0)), Some(d(1, 0)));
    assert_eq!(d(1, 0).checked_div(d(8, 0)), Some(d(125, 3)));
    assert_eq!(d(1, 0).checked_div(d(3, 0)), Some(d(3333333333333333333333333333, 28)));
    assert_eq!(d(2, 0).checked_div(d(3, 0)), Some(d(6666666666666666666666666667, 28)));
    assert!(d(MAX_MANTISSA, 0).checked_add(d(1, 0)).is_none());
    assert!(d(MAX_MANTISSA, 0).checked_mul(d(2, 0)).is_none());
    assert!(d(1, 0).checked_div(d(0, 5)).is_none());
}

#[test]
fn quotients_halfway_between_two_numbers_are_one_of_them() {
    let d = |m: i128, s: u32| Decimal::new(m, s).unwrap();
    let dividend = d(15845632502852867518708790069, 0);
    let (even, odd) = (7922816251426433759354395034, 7922816251426433759354395035);
    // With few digits in the divisor it is the even one.
    assert_eq!(dividend.checked_div(d(2, 0)), Some(d(even, 0)));
    assert_eq!(dividend.checked_div(d(-2, 0)), Some(d(-even, 0)));
    // With many either may come.
    for (divisor, scale) in [(d(20000000000000000000, 0), 19), (d(20000000000000000000, 19), 0)] {
        let r = dividend.checked_div(divisor).unwrap();
        assert!(r == d(even, scale) || r == d(odd, scale));
        let r = dividend.checked_div(d(-divisor.parts().0, divisor.parts().1)).unwrap();
        assert!(r == d(-even, scale) || r == d(-odd, scale));
    }
}

#[test]
fn multiples_are_told_from_other_numbers() {
    let d = |m: i128, s: u32| Decimal::new(m, s).unwrap();
    let yes = [
        ((3, 1), (1, 1)),
        ((30, 2), (1, 1)),
        ((-30, 2), (1, 1)),
        ((0, 28), (7, 3)),
        ((6, 0), (15, 1)),
        ((600000, 5), (15, 1)),
        ((MAX_MANTISSA, 0), (1, 28)),
        ((MAX_MANTISSA, 28), (MAX_MANTISSA, 28)),
        ((5, 0), (5, 0)),
    ];
    let no = [
        ((15, 2), (1, 1)),
        ((1, 28), (1, 27)),
        ((MAX_MANTISSA, 28), (10, 0)),
        ((1, 0), (MAX_MANTISSA, 0)),
        ((-15, 2), (1, 1)),
        ((7, 0), (15, 1)),
    ];
    for ((m, s), (n, t)) in yes {
        assert!(d(m, s).is_multiple_of(d(n, t)), "{m} {s} {n} {t}");
    }
    for ((m, s), (n, t)) in no {
        assert!(!d(m, s).is_multiple_of(d(n, t)), "{m} {s} {n} {t}");
    }
}

fn fitting(m: i128) -> Option<i128> {
    Some(m).filter(|m| -MAX_MANTISSA <= *m && *m <= MAX_MANTISSA)
}

fn aligned(m: i128, s: u32, places: u32) -> Option<i128> {
    m.checked_mul(10i128.checked_pow(places - s)?).and_then(fitting)
}

/// The digits under one another, if they fit.
fn plain_sum(a: (i128, u32), b: (i128, u32)) -> Option<(i128, u32)> {
    if a.0 == 0 {
        return Some(b);
    }
    if b.0 == 0 {
        return Some(a);
    }
    let places = a.1.max(b.1);
    let sum = aligned(a.0, a.1, places)? + aligned(b.0, b.1, places)?;
    Some((fitting(sum)?, places))
}

fn plain_product(a: (i128, u32), b: (i128, u32)) -> Option<(i128, u32)> {
    if a.0 == 0 || b.0 == 0 {
        return Some((0, 0));
    }
    let product = a.0.checked_mul(b.0).and_then(fitting)?;
    Some((product, a.1 + b.1)).filter(|p| p.1 <= 28)
}

fn plain_quotient(a: (i128, u32), b: (i128, u32)) -> Option<(i128, u32)> {
    if b.0 == 0 || a.0 % b.0 != 0 {
        return None;
    }
    if a.0 == 0 {
        return Some((0, 0));
    }
    if a.1 >= b.1 {
        return Some((a.0 / b.0, a.1 - b.1));
    }
    Some((aligned(a.0 / b.0, 0, b.1 - a.1)?, 0))
}

#[test]
fn digits_that_fit_are_kept() {
    let mut random = Random(0x1234567890abcdef);
    let parts = |r: Option<Decimal>| r.map(|d| d.parts());
    let new = |p: (i128, u32)| Decimal::new(p.0, p.1).unwrap();
    let mut seen = [0; 4];
    for _ in 0..40000 {
        let mut number = || {
            let bits = random.below(96) as u32;
            let high = (random.next() as u128) << 64 | random.next() as u128;
            let size = (high & ((1u128 << bits) - 1)) as i128;
            let m = if random.below(2) == 0 { size } else { -size };
            (if random.below(20) == 0 { 0 } else { m }, random.below(29) as u32)
        };
        let (a, b) = (number(), number());
        if let Some(p) = plain_sum(a, b) {
            assert_eq!(parts(new(a).checked_add(new(b))), Some(p));
            seen[0] += 1;
        }
        if let Some(p) = plain_sum(a, (-b.0, b.1)) {
            assert_eq!(parts(new(a).checked_sub(new(b))), Some(p));
            seen[1] += 1;
        }
        if let Some(p) = plain_product(a, b) {
            assert_eq!(parts(new(a).checked_mul(new(b))), Some(p));
            seen[2] += 1;
        }
        let c = plain_product(a, (b.0, 0)).unwrap_or(a);
        for dividend in [a, c] {
            if let Some(p) = plain_quotient(dividend, b) {
                assert_eq!(parts(new(dividend).checked_div(new(b))), Some(p));
                seen[3] += 1;
            }
        }
        for whole in [new(a).floor(), new(a).ceil(), new(a).round()] {
            assert_eq!(whole.parts().1, 0);
        }
    }
    assert!(seen.iter().all(|n| *n > 1000), "{seen:?}");
}

#[test]
fn the_same_numbers_give_the_same_digits() {
    let mut random = Random(0x0fedcba987654321);
    let parts = |r: Option<Decimal>| r.map(|d| d.parts());
    for _ in 0..2000 {
        let (a, b) = (random.decimal(), random.decimal());
        assert_eq!(parts(a.checked_add(b)), parts(a.checked_add(b)));
        assert_eq!(parts(a.checked_sub(b)), parts(a.checked_sub(b)));
        assert_eq!(parts(a.checked_mul(b)), parts(a.checked_mul(b)));
        assert_eq!(parts(a.checked_div(b)), parts(a.checked_div(b)));
    }
    assert_eq!(Decimal::zero().parts(), (0, 0));
}

use inheritance_plans::amount::{Amount, MAX_MANTISSA, MAX_SCALE};
use inheritance_plans::binary64::Binary64;
use inheritance_plans::yields::{accrual_terms, elapsed_seconds, rate_bps};
use rust_decimal::Decimal;

fn amount(mantissa: i128, scale: u32) -> Amount {
    Amount::new(mantissa, scale).unwrap()
}

fn below_zero(x: f64) -> bool {
    Binary64 { bits: x.to_bits() }.below_zero()
}

#[test]
fn amounts_have_bounds() {
    assert_eq!(amount(MAX_MANTISSA, MAX_SCALE).mantissa(), MAX_MANTISSA);
    assert_eq!(amount(-MAX_MANTISSA, 0).scale(), 0);
    assert_eq!(Amount::new(MAX_MANTISSA + 1, 0), None);
    assert_eq!(Amount::new(-MAX_MANTISSA - 1, 0), None);
    assert_eq!(Amount::new(1, MAX_SCALE + 1), None);
    assert_eq!(Amount::zero(), amount(0, 0));
}

#[test]
fn amount_bounds_are_those_of_decimals() {
    assert_eq!(Decimal::MAX.mantissa(), MAX_MANTISSA);
    assert_eq!(Decimal::MIN.mantissa(), -MAX_MANTISSA);
    assert_eq!(Decimal::MAX_SCALE, MAX_SCALE);
}

#[test]
fn normalizing_strips_zeros() {
    assert_eq!(amount(3100, 3).normalize(), amount(31, 1));
    assert_eq!(amount(-12000, 2).normalize(), amount(-120, 0));
    assert_eq!(amount(0, 5).normalize(), amount(0, 0));
    assert_eq!(amount(1001, 2).normalize(), amount(1001, 2));
}

#[test]
fn normalizing_twice_is_normalizing_once() {
    let once = amount(50000, 4).normalize();
    assert_eq!(once, amount(5, 0));
    assert_eq!(once.normalize(), once);
}

#[test]
fn sums_are_exact_where_they_fit() {
    assert_eq!(amount(150, 1).plus(&amount(25, 2)), Some(amount(1525, 2)));
    assert_eq!(amount(25, 2).plus(&amount(150, 1)), Some(amount(1525, 2)));
    assert_eq!(amount(5, 0).plus(&amount(-5, 0)), Some(amount(0, 0)));
    assert_eq!(amount(5, 1).plus(&amount(-50, 2)), Some(amount(0, 2)));
    let wide = 1i128 << 90;
    assert_eq!(amount(wide, 3).plus(&amount(-1, 3)), Some(amount(wide - 1, 3)));
    assert_eq!(amount(wide, 3).plus(&amount(1, 1)), Some(amount(wide + 100, 3)));
    assert_eq!(amount(1, 0).plus(&amount(1, 28)), Some(amount(10i128.pow(28) + 1, 28)));
}

#[test]
fn zero_leaves_the_other_summand_as_written() {
    assert_eq!(amount(0, 7).plus(&amount(150, 2)), Some(amount(150, 2)));
    assert_eq!(amount(150, 2).plus(&amount(0, 7)), Some(amount(150, 2)));
    assert_eq!(amount(0, 7).plus(&amount(0, 2)), Some(amount(0, 2)));
    assert_eq!(amount(MAX_MANTISSA, 0).plus(&amount(0, 28)), Some(amount(MAX_MANTISSA, 0)));
}

#[test]
fn sums_out_of_range_are_none() {
    assert_eq!(amount(MAX_MANTISSA, 0).plus(&amount(1, 0)), None);
    assert_eq!(amount(-MAX_MANTISSA, 0).plus(&amount(-1, 0)), None);
}

#[test]
fn sums_with_too_many_digits_are_rounded() {
    let tenth = MAX_MANTISSA / 10;
    assert_eq!(MAX_MANTISSA % 100, 35);
    let sum = |b: i128| amount(MAX_MANTISSA, 1).plus(&amount(b, 1)).unwrap();
    assert_eq!(sum(1), amount(tenth + 1, 0));
    assert_eq!(sum(9), amount(tenth + 1, 0));
    // Halves go to the even neighbour.
    assert_eq!(sum(10), amount(tenth + 1, 0));
    assert_eq!(sum(20), amount(tenth + 3, 0));
    let negative = amount(-MAX_MANTISSA, 1).plus(&amount(-20, 1)).unwrap();
    assert_eq!(negative, amount(-tenth - 3, 0));
    let unlike = amount(MAX_MANTISSA, 1).plus(&amount(2, 0)).unwrap();
    assert_eq!(unlike, amount(tenth + 3, 0));
}

#[test]
fn only_numbers_below_zero_are_below_zero() {
    assert!(below_zero(-1.0));
    assert!(below_zero(-5e-324));
    assert!(below_zero(f64::NEG_INFINITY));
    assert!(!below_zero(0.0));
    assert!(!below_zero(-0.0));
    assert!(!below_zero(12.5));
    assert!(!below_zero(f64::INFINITY));
    assert!(!below_zero(f64::NAN));
    assert!(!below_zero(-f64::NAN));
}

#[test]
fn elapsed_time_is_never_negative() {
    assert_eq!(elapsed_seconds(1_000, 1_090), 90);
    assert_eq!(elapsed_seconds(1_000, 1_000), 0);
    assert_eq!(elapsed_seconds(1_000, 10), 0);
    assert_eq!(elapsed_seconds(i64::MIN, i64::MAX), u64::MAX);
}

#[test]
fn yield_accrues_from_the_last_ping() {
    assert_eq!(accrual_terms(500, 1_000, 4_600), Some((500, 3_600)));
    assert_eq!(accrual_terms(500, 5_000, 4_600), Some((500, 0)));
    assert_eq!(accrual_terms(0, 1_000, 4_600), None);
    assert_eq!(accrual_terms(500, 0, 4_600), None);
    assert_eq!(rate_bps(-1), u32::MAX);
}

#[test]
fn a_sum_with_something_is_not_less() {
    let stored = amount(MAX_MANTISSA, 1);
    assert_eq!(stored.plus(&amount(1, 1)), Some(amount((MAX_MANTISSA + 5) / 10, 0)));
    assert_eq!(amount(-25, 1).plus(&amount(1, 28)), Some(amount(-25 * 10i128.pow(27) + 1, 28)));
}

/// The digits of a sum by hand: a sign and decimal digits, the highest first.
struct Digits {
    negative: bool,
    digits: Vec<u8>,
}

fn digits_at(a: &Amount, scale: u32) -> Digits {
    let mut digits: Vec<u8> =
        a.mantissa().unsigned_abs().to_string().bytes().map(|b| b - b'0').collect();
    digits.resize(digits.len() + (scale - a.scale()) as usize, 0);
    let mut padded = vec![0; 80 - digits.len()];
    padded.extend(digits);
    Digits { negative: a.mantissa() < 0, digits: padded }
}

fn add_digits(a: &Digits, b: &Digits) -> Digits {
    let mut r = vec![0u8; 80];
    if a.negative == b.negative {
        let mut carry = 0;
        for i in (0..80).rev() {
            let d = a.digits[i] + b.digits[i] + carry;
            r[i] = d % 10;
            carry = d / 10;
        }
        return Digits { negative: a.negative, digits: r };
    }
    let (large, small) = if a.digits >= b.digits { (a, b) } else { (b, a) };
    let mut borrow = 0i8;
    for i in (0..80).rev() {
        let d = large.digits[i] as i8 - small.digits[i] as i8 - borrow;
        r[i] = ((d + 10) % 10) as u8;
        borrow = if d < 0 { 1 } else { 0 };
    }
    Digits { negative: large.negative, digits: r }
}

/// The number without its last `dropped` digits, rounded half to even, where it fits.
fn round_digits(a: &Digits, dropped: usize) -> Option<i128> {
    let (kept, tail) = a.digits.split_at(80 - dropped);
    let mut half = vec![0u8; dropped];
    if dropped > 0 {
        half[0] = 5;
    }
    let mut value: i128 = 0;
    for d in kept {
        value = value.checked_mul(10)?.checked_add(*d as i128)?;
    }
    if dropped > 0 && (tail > &half[..] || tail == &half[..] && value % 2 == 1) {
        value += 1;
    }
    if value > MAX_MANTISSA {
        return None;
    }
    Some(if a.negative { -value } else { value })
}

fn sum_by_hand(a: &Amount, b: &Amount) -> Option<Amount> {
    if a.mantissa() == 0 {
        return Some(*b);
    }
    if b.mantissa() == 0 {
        return Some(*a);
    }
    let scale = a.scale().max(b.scale());
    let exact = add_digits(&digits_at(a, scale), &digits_at(b, scale));
    for dropped in 0..=scale {
        if let Some(m) = round_digits(&exact, dropped as usize) {
            return Some(amount(m, scale - dropped));
        }
    }
    None
}

fn agree(a: Amount, b: Amount) {
    assert_eq!(a.plus(&b), sum_by_hand(&a, &b), "{:?} + {:?}", a, b);
}

#[test]
fn sums_agree_with_sums_by_hand() {
    let mut seed: u64 = 0x9e37_79b9_7f4a_7c15;
    let mut next = move || {
        seed ^= seed << 13;
        seed ^= seed >> 7;
        seed ^= seed << 17;
        seed
    };
    let mut any = || {
        let bits = next() % 97;
        let wide = ((next() as u128) << 64 | next() as u128) & ((1u128 << bits) - 1);
        let m = wide as i128;
        let m = if next() % 2 == 0 { m } else { -m };
        amount(m, (next() % 29) as u32)
    };
    for _ in 0..100_000 {
        let (a, b) = (any(), any());
        agree(a, b);
    }
}

#[test]
fn sums_at_the_bounds_agree_with_sums_by_hand() {
    let mut mantissas: Vec<i128> = vec![0, 1, 4, 5, 6, 15, 25, 49, 50, 51, 1 << 32, 1 << 64];
    for k in 0..29u32 {
        let p = 10i128.pow(k.min(28));
        mantissas.extend([p, p - 1, p + 1, MAX_MANTISSA / p, 5 * (p / 10)]);
    }
    for d in 0..12 {
        mantissas.push(MAX_MANTISSA - d);
        mantissas.push((1 << 32) - d);
        mantissas.push((1 << 64) - d);
    }
    mantissas.sort();
    mantissas.dedup();
    mantissas.retain(|m| *m >= 0 && *m <= MAX_MANTISSA);
    for (i, a) in mantissas.iter().enumerate() {
        for b in mantissas.iter().skip(i % 3).step_by(3) {
            for (s, t) in [(0, 0), (0, 1), (0, 28), (28, 28), (1, 10), (3, 28), (9, 0), (19, 0)] {
                for (x, y) in [(*a, *b), (*a, -*b), (-*a, *b), (-*a, -*b)] {
                    agree(amount(x, s), amount(y, t));
                    agree(amount(y, t), amount(x, s));
                }
            }
        }
    }
}

#[test]
fn a_sum_that_rounds_over_the_bound_drops_one_more_digit() {
    // MAX + 0.5 rounds to MAX + 1, which fits only with one digit less.
    let a = amount(MAX_MANTISSA, 2);
    assert_eq!(a.plus(&amount(5, 3)), Some(amount((MAX_MANTISSA + 5) / 10, 1)));
    assert_eq!(a.plus(&amount(4, 3)), Some(a));
    // Without a digit to drop there is no sum.
    assert_eq!(amount(MAX_MANTISSA, 0).plus(&amount(5, 1)), None);
    assert_eq!(amount(MAX_MANTISSA, 0).plus(&amount(4, 1)), Some(amount(MAX_MANTISSA, 0)));
}

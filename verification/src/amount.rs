//! Money: decimal amounts and their sums.

use rust_decimal::Decimal;
use vstd::arithmetic::power::{lemma_pow_adds, lemma_pow_increases, lemma_pow_positive, pow};
use vstd::prelude::*;

verus! {

/// The largest mantissa of an amount: ninety-six one bits.
pub const MAX_MANTISSA: i128 = 0xffff_ffff_ffff_ffff_ffff_ffff;

/// The most digits that an amount has behind the decimal point.
pub const MAX_SCALE: u32 = 28;

/// The number `mantissa / 10^scale`, written with `scale` digits behind the point.
pub struct Fixed {
    pub mantissa: int,
    pub scale: nat,
}

/// Whether `m` fits into the ninety-six bits of a mantissa, sign aside.
pub open spec fn fits(m: int) -> bool {
    -MAX_MANTISSA <= m <= MAX_MANTISSA
}

impl Fixed {
    /// Whether an amount can hold this number as it is written.
    pub open spec fn valid(self) -> bool {
        fits(self.mantissa) && self.scale <= MAX_SCALE
    }

    /// The mantissa once the number is written with `scale` digits behind the point.
    pub open spec fn mantissa_at(self, scale: nat) -> int
        recommends
            self.scale <= scale,
    {
        self.mantissa * pow(10, (scale - self.scale) as nat)
    }

    /// Whether both are the same number, however they are written.
    pub open spec fn same_number(self, other: Fixed) -> bool {
        self.mantissa_at(self.scale + other.scale) == other.mantissa_at(self.scale + other.scale)
    }

    /// Whether this number is less than the other one, however they are written.
    pub open spec fn below(self, other: Fixed) -> bool {
        self.mantissa_at(self.scale + other.scale) < other.mantissa_at(self.scale + other.scale)
    }

    /// This number with no zero left at the end of its fraction; zero without a fraction.
    pub open spec fn stripped(self) -> Fixed
        decreases self.scale,
    {
        if self.mantissa == 0 {
            Fixed { mantissa: 0, scale: 0 }
        } else if self.scale > 0 && self.mantissa % 10 == 0 {
            (Fixed { mantissa: self.mantissa / 10, scale: (self.scale - 1) as nat }).stripped()
        } else {
            self
        }
    }
}

/// The larger of two scales.
pub open spec fn common_scale(a: Fixed, b: Fixed) -> nat {
    if a.scale <= b.scale {
        b.scale
    } else {
        a.scale
    }
}

/// The exact sum, written with the larger of the two scales.
pub open spec fn exact_sum(a: Fixed, b: Fixed) -> Fixed {
    let scale = common_scale(a, b);
    Fixed { mantissa: a.mantissa_at(scale) + b.mantissa_at(scale), scale }
}

/// Whether the exact sum fits a mantissa at the larger of the two scales.
pub open spec fn sums_exactly(a: Fixed, b: Fixed) -> bool {
    fits(exact_sum(a, b).mantissa)
}

/// `m / 10^digits`, rounded to the nearest integer, and to the even one where two are as near.
pub open spec fn rounded(m: int, digits: nat) -> int {
    if m < 0 {
        -rounded_magnitude(-m, pow(10, digits))
    } else {
        rounded_magnitude(m, pow(10, digits))
    }
}

/// `m / unit`, where `m` is not negative, rounded in the same way.
pub open spec fn rounded_magnitude(m: int, unit: int) -> int {
    if 2 * (m % unit) > unit || 2 * (m % unit) == unit && m / unit % 2 == 1 {
        m / unit + 1
    } else {
        m / unit
    }
}

/// `exact` rounded to as many digits behind the point as leave a mantissa that fits, but to no
/// more than `scale`.
pub open spec fn fitted(exact: Fixed, scale: nat) -> Option<Fixed>
    decreases scale,
{
    let mantissa = rounded(exact.mantissa, (exact.scale - scale) as nat);
    if fits(mantissa) {
        Some(Fixed { mantissa, scale })
    } else if scale == 0 {
        None
    } else {
        fitted(exact, (scale - 1) as nat)
    }
}

/// The sum of `a` and `b`, where it is in range. A zero summand leaves the other one as it is
/// written. Else it is the exact sum, written with the larger of the two scales where it fits so,
/// and rounded to as few digits less as make it fit where it does not.
pub open spec fn sum(a: Fixed, b: Fixed) -> Option<Fixed> {
    if a.mantissa == 0 {
        Some(b)
    } else if b.mantissa == 0 {
        Some(a)
    } else {
        fitted(exact_sum(a, b), common_scale(a, b))
    }
}

/// A decimal amount of money: a mantissa of at most ninety-six bits, a sign, and at most
/// twenty-eight digits behind the point. Zero has no sign.
#[derive(Clone, Copy, Debug, PartialEq, Eq, Structural)]
pub struct Amount {
    mantissa: i128,
    scale: u32,
}

impl View for Amount {
    type V = Fixed;

    closed spec fn view(&self) -> Fixed {
        Fixed { mantissa: self.mantissa as int, scale: self.scale as nat }
    }
}

/// The view of an amount that may be missing.
pub open spec fn amount_view(a: Option<Amount>) -> Option<Fixed> {
    match a {
        Some(a) => Some(a@),
        None => None,
    }
}

/// `Decimal::checked_add` gives the sum of two decimals, or nothing where the sum is out of
/// range. A zero summand gives back the other one unchanged. Else the sum has the larger of the
/// two scales and is exact, if its mantissa fits ninety-six bits. If not, it has the largest
/// smaller scale at which the exact sum, rounded half to even, fits; and there is none where it
/// does not fit at scale zero.
#[verifier::external_body]
fn decimal_checked_add(a: Amount, b: Amount) -> (r: Option<Amount>)
    requires
        a@.valid(),
        b@.valid(),
    ensures
        amount_view(r) == sum(a@, b@),
{
    let a = Decimal::from_i128_with_scale(a.mantissa, a.scale);
    let b = Decimal::from_i128_with_scale(b.mantissa, b.scale);
    let r = a.checked_add(b);
    r.map(|d| Amount { mantissa: d.mantissa(), scale: d.scale() })
}

/// `Decimal::normalize` strips the zeros at the end of a decimal's fraction; zero becomes a
/// zero without a fraction.
#[verifier::external_body]
fn decimal_normalize(a: Amount) -> (r: Amount)
    requires
        a@.valid(),
    ensures
        r@ == a@.stripped(),
        r@.valid(),
{
    let d = Decimal::from_i128_with_scale(a.mantissa, a.scale).normalize();
    Amount { mantissa: d.mantissa(), scale: d.scale() }
}

impl Amount {
    #[verifier::type_invariant]
    spec fn in_range(self) -> bool {
        self@.valid()
    }

    /// The amount `mantissa / 10^scale`, where an amount can hold it.
    pub fn new(mantissa: i128, scale: u32) -> (r: Option<Amount>)
        ensures
            match r {
                Some(a) => a@ == (Fixed { mantissa: mantissa as int, scale: scale as nat })
                    && a@.valid(),
                None => !fits(mantissa as int) || scale > MAX_SCALE,
            },
    {
        if -MAX_MANTISSA <= mantissa && mantissa <= MAX_MANTISSA && scale <= MAX_SCALE {
            Some(Amount { mantissa, scale })
        } else {
            None
        }
    }

    /// Nothing.
    pub fn zero() -> (r: Amount)
        ensures
            r@ == (Fixed { mantissa: 0, scale: 0 }),
    {
        Amount { mantissa: 0, scale: 0 }
    }

    /// The mantissa, with its sign.
    pub fn mantissa(&self) -> (r: i128)
        ensures
            r == self@.mantissa,
            fits(r as int),
    {
        proof {
            use_type_invariant(self);
        }
        self.mantissa
    }

    /// How many digits stand behind the point.
    pub fn scale(&self) -> (r: u32)
        ensures
            r == self@.scale,
            r <= MAX_SCALE,
    {
        proof {
            use_type_invariant(self);
        }
        self.scale
    }

    /// The same number without zeros at the end of its fraction.
    pub fn normalize(&self) -> (r: Amount)
        ensures
            r@ == self@.stripped(),
            r@.valid(),
    {
        proof {
            use_type_invariant(self);
        }
        decimal_normalize(*self)
    }

    /// The sum of both amounts, or `None` where it is out of range.
    pub fn plus(&self, other: &Amount) -> (r: Option<Amount>)
        ensures
            amount_view(r) == sum(self@, other@),
    {
        proof {
            use_type_invariant(self);
            use_type_invariant(other);
        }
        decimal_checked_add(*self, *other)
    }
}

/// Stripping keeps the number and its sign, leaves no zero at the end of its fraction, and does
/// nothing more the second time.
pub proof fn law_stripped(a: Fixed)
    ensures
        a.same_number(a.stripped()),
        a.stripped().mantissa * pow(10, (a.scale - a.stripped().scale) as nat) == a.mantissa,
        a.mantissa == 0 ==> a.stripped().scale == 0,
        a.stripped().mantissa == 0 <==> a.mantissa == 0,
        a.stripped().mantissa > 0 <==> a.mantissa > 0,
        a.stripped().scale <= a.scale,
        a.stripped().scale == 0 || a.stripped().mantissa % 10 != 0,
        a.stripped().stripped() == a.stripped(),
        a.valid() ==> a.stripped().valid(),
{
    lemma_stripped_mantissa(a);
    let b = a.stripped();
    let up = (a.scale - b.scale) as nat;
    assert(a.mantissa_at(a.scale + b.scale) == b.mantissa_at(a.scale + b.scale)) by {
        lemma_pow_adds(10, up, b.scale);
        assert(up + b.scale == a.scale);
        assert(a.scale + b.scale - a.scale == b.scale);
        assert(a.scale + b.scale - b.scale == a.scale);
        assert((b.mantissa * pow(10, up)) * pow(10, b.scale) == b.mantissa * (pow(10, up) * pow(
            10,
            b.scale,
        ))) by (nonlinear_arith);
    }
}

proof fn lemma_stripped_mantissa(a: Fixed)
    ensures
        a.stripped().scale <= a.scale,
        a.stripped().scale == 0 || a.stripped().mantissa % 10 != 0,
        a.stripped().stripped() == a.stripped(),
        a.stripped().mantissa_at(a.scale) == a.mantissa,
        a.stripped().mantissa == 0 <==> a.mantissa == 0,
        a.stripped().mantissa > 0 <==> a.mantissa > 0,
        fits(a.mantissa) ==> fits(a.stripped().mantissa),
    decreases a.scale,
{
    if a.mantissa == 0 {
        assert(0 * pow(10, a.scale) == 0);
    } else if a.scale > 0 && a.mantissa % 10 == 0 {
        let c = Fixed { mantissa: a.mantissa / 10, scale: (a.scale - 1) as nat };
        lemma_stripped_mantissa(c);
        let b = a.stripped();
        let up = (c.scale - b.scale) as nat;
        reveal(pow);
        assert(pow(10, (a.scale - b.scale) as nat) == 10 * pow(10, up));
        assert(b.mantissa * (10 * pow(10, up)) == 10 * (b.mantissa * pow(10, up)))
            by (nonlinear_arith);
    } else {
        reveal(pow);
        assert(pow(10, 0) == 1);
    }
}

/// The exact sum is the sum of the numbers, in either order: at any scale at least as large as
/// both, the mantissas add up.
pub proof fn law_exact_sum(a: Fixed, b: Fixed, scale: nat)
    requires
        a.scale <= scale,
        b.scale <= scale,
    ensures
        exact_sum(a, b).mantissa_at(scale) == a.mantissa_at(scale) + b.mantissa_at(scale),
        exact_sum(a, b) == exact_sum(b, a),
{
    let c = common_scale(a, b);
    let up = (scale - c) as nat;
    lemma_pow_adds(10, (c - a.scale) as nat, up);
    lemma_pow_adds(10, (c - b.scale) as nat, up);
    let pa = pow(10, (c - a.scale) as nat);
    let pb = pow(10, (c - b.scale) as nat);
    let pu = pow(10, up);
    assert((c - a.scale) as nat + up == (scale - a.scale) as nat);
    assert((c - b.scale) as nat + up == (scale - b.scale) as nat);
    assert((a.mantissa * pa + b.mantissa * pb) * pu == a.mantissa * (pa * pu) + b.mantissa * (pb
        * pu)) by (nonlinear_arith);
}

/// Two amounts that are written alike are the same amount.
pub proof fn law_same_digits(a: Amount, b: Amount)
    requires
        a@ == b@,
    ensures
        a == b,
{
}

/// Rounding moves a number by at most half a unit, and not at all where nothing is dropped.
proof fn lemma_rounded(m: int, digits: nat)
    ensures
        pow(10, digits) > 0,
        2 * m - pow(10, digits) <= 2 * (rounded(m, digits) * pow(10, digits)),
        2 * (rounded(m, digits) * pow(10, digits)) <= 2 * m + pow(10, digits),
        digits == 0 ==> rounded(m, digits) == m,
{
    let unit = pow(10, digits);
    lemma_pow_positive(10, digits);
    let x = if m < 0 {
        -m
    } else {
        m
    };
    let q = x / unit;
    let r = x % unit;
    assert(x == q * unit + r && 0 <= r < unit) by (nonlinear_arith)
        requires
            unit > 0,
            q == x / unit,
            r == x % unit,
    ;
    assert((q + 1) * unit == q * unit + unit) by (nonlinear_arith);
    assert((-q) * unit == -(q * unit)) by (nonlinear_arith);
    assert((-(q + 1)) * unit == -(q * unit) - unit) by (nonlinear_arith);
    if digits == 0 {
        reveal(pow);
        assert(unit == 1);
    }
}

proof fn lemma_fitted(exact: Fixed, scale: nat)
    requires
        scale <= exact.scale,
    ensures
        match fitted(exact, scale) {
            Some(r) => {
                &&& r.scale <= scale
                &&& fits(r.mantissa)
                &&& r.mantissa == rounded(exact.mantissa, (exact.scale - r.scale) as nat)
                &&& forall|s: nat|
                    r.scale < s <= scale ==> !fits(
                        #[trigger] rounded(exact.mantissa, (exact.scale - s) as nat),
                    )
            },
            None => forall|s: nat|
                s <= scale ==> !fits(
                    #[trigger] rounded(exact.mantissa, (exact.scale - s) as nat),
                ),
        },
    decreases scale,
{
    if !fits(rounded(exact.mantissa, (exact.scale - scale) as nat)) && scale > 0 {
        lemma_fitted(exact, (scale - 1) as nat);
    }
}

/// The sum of two amounts that are not zero is exact where the exact sum fits. Else it is the
/// exact sum rounded half to even, at the largest scale at which that fits, and so off by at most
/// half a unit of its last digit; there is none only where that fits at no scale.
pub proof fn law_sum_rounds(a: Fixed, b: Fixed)
    requires
        a.mantissa != 0,
        b.mantissa != 0,
    ensures
        sums_exactly(a, b) ==> sum(a, b) == Some(exact_sum(a, b)),
        match sum(a, b) {
            Some(r) => {
                let exact = exact_sum(a, b);
                let dropped = (exact.scale - r.scale) as nat;
                &&& r.scale <= exact.scale
                &&& fits(r.mantissa)
                &&& r.mantissa == rounded(exact.mantissa, dropped)
                &&& 2 * exact.mantissa - pow(10, dropped) <= 2 * r.mantissa_at(exact.scale)
                &&& 2 * r.mantissa_at(exact.scale) <= 2 * exact.mantissa + pow(10, dropped)
                &&& forall|s: nat|
                    r.scale < s <= exact.scale ==> !fits(
                        #[trigger] rounded(exact.mantissa, (exact.scale - s) as nat),
                    )
            },
            None => forall|s: nat|
                s <= common_scale(a, b) ==> !fits(
                    #[trigger] rounded(
                        exact_sum(a, b).mantissa,
                        (common_scale(a, b) - s) as nat,
                    ),
                ),
        },
{
    let exact = exact_sum(a, b);
    lemma_fitted(exact, exact.scale);
    lemma_rounded(exact.mantissa, 0);
    match sum(a, b) {
        Some(r) => {
            lemma_rounded(exact.mantissa, (exact.scale - r.scale) as nat);
        },
        None => {},
    }
}

/// Numbers compare at a common scale as they compare at all.
proof fn lemma_below(a: Fixed, b: Fixed, scale: nat)
    requires
        a.scale <= scale,
        b.scale <= scale,
    ensures
        a.below(b) <==> a.mantissa_at(scale) < b.mantissa_at(scale),
{
    let pa = pow(10, a.scale);
    let pb = pow(10, b.scale);
    let ua = pow(10, (scale - a.scale) as nat);
    let ub = pow(10, (scale - b.scale) as nat);
    let p = pow(10, scale);
    lemma_pow_positive(10, a.scale);
    lemma_pow_positive(10, b.scale);
    lemma_pow_positive(10, scale);
    lemma_pow_adds(10, (scale - a.scale) as nat, a.scale);
    lemma_pow_adds(10, (scale - b.scale) as nat, b.scale);
    assert(ua * pa == p);
    assert(ub * pb == p);
    assert(a.scale + b.scale - a.scale == b.scale);
    assert(a.scale + b.scale - b.scale == a.scale);
    let x = a.mantissa * ua;
    let y = b.mantissa * ub;
    let u = a.mantissa * pb;
    let v = b.mantissa * pa;
    assert(x * (pa * pb) == u * p) by (nonlinear_arith)
        requires
            x == a.mantissa * ua,
            u == a.mantissa * pb,
            ua * pa == p,
    ;
    assert(y * (pa * pb) == v * p) by (nonlinear_arith)
        requires
            y == b.mantissa * ub,
            v == b.mantissa * pa,
            ub * pb == p,
    ;
    assert(pa * pb > 0) by (nonlinear_arith)
        requires
            pa > 0,
            pb > 0,
    ;
    let w = pa * pb;
    assert(u < v <==> x < y) by (nonlinear_arith)
        requires
            x * w == u * p,
            y * w == v * p,
            w > 0,
            p > 0,
    ;
}

/// A sum is never less than the one summand where the other is more than nothing; and it is more
/// where the other is more than half a unit of the last digit of the sum.
pub proof fn law_sum_grows(a: Fixed, b: Fixed, r: Fixed)
    requires
        fits(a.mantissa),
        b.mantissa > 0,
        sum(a, b) == Some(r),
    ensures
        !r.below(a),
        2 * b.mantissa_at(common_scale(a, b)) > pow(10, (common_scale(a, b) - r.scale) as nat)
            ==> a.below(r),
{
    let c = common_scale(a, b);
    let ma = a.mantissa_at(c);
    let mb = b.mantissa_at(c);
    lemma_pow_positive(10, (c - b.scale) as nat);
    assert(mb > 0) by (nonlinear_arith)
        requires
            mb == b.mantissa * pow(10, (c - b.scale) as nat),
            b.mantissa > 0,
            pow(10, (c - b.scale) as nat) > 0,
    ;
    if a.mantissa == 0 {
        assert(0 * pow(10, (c - a.scale) as nat) == 0);
        assert(ma == 0);
    } else {
        law_sum_rounds(a, b);
        let exact = exact_sum(a, b);
        let dropped = (c - r.scale) as nat;
        let unit = pow(10, dropped);
        let mr = r.mantissa_at(c);
        lemma_pow_positive(10, dropped);
        if a.scale <= r.scale {
            let up = pow(10, (r.scale - a.scale) as nat);
            lemma_pow_adds(10, (r.scale - a.scale) as nat, dropped);
            let at = a.mantissa * up;
            assert(ma == at * unit) by (nonlinear_arith)
                requires
                    ma == a.mantissa * (up * unit),
                    at == a.mantissa * up,
            ;
            assert(r.mantissa >= at && (2 * mb > unit ==> r.mantissa > at)) by (nonlinear_arith)
                requires
                    2 * (at * unit + mb) - unit <= 2 * (r.mantissa * unit),
                    mb > 0,
                    unit > 0,
            ;
            let m = r.mantissa;
            assert(m * unit >= at * unit && (m > at ==> m * unit > at * unit))
                by (nonlinear_arith)
                requires
                    m >= at,
                    unit > 0,
            ;
        } else {
            lemma_rounded_over(a, b, r);
        }
    }
    lemma_below(r, a, c);
    lemma_below(a, r, c);
}

/// Where the sum has fewer digits behind the point than the one summand, it is more than that.
proof fn lemma_rounded_over(a: Fixed, b: Fixed, r: Fixed)
    requires
        fits(a.mantissa),
        a.mantissa != 0,
        b.mantissa > 0,
        sum(a, b) == Some(r),
        r.scale < a.scale,
        b.mantissa_at(common_scale(a, b)) > 0,
    ensures
        a.mantissa_at(common_scale(a, b)) < r.mantissa_at(common_scale(a, b)),
{
    law_sum_rounds(a, b);
    let exact = exact_sum(a, b);
    let c = common_scale(a, b);
    let s = r.scale + 1;
    let finer = (c - s) as nat;
    let unit = pow(10, finer);
    let m = rounded(exact.mantissa, finer);
    assert(!fits(m));
    lemma_rounded(exact.mantissa, finer);
    reveal(pow);
    assert(pow(10, (c - r.scale) as nat) == 10 * unit);
    let ma = a.mantissa_at(c);
    let up = pow(10, (c - a.scale) as nat);
    lemma_pow_positive(10, (c - a.scale) as nat);
    lemma_pow_increases(10, (c - a.scale) as nat, finer);
    let max = MAX_MANTISSA as int;
    assert(-max * unit <= ma <= max * unit) by (nonlinear_arith)
        requires
            ma == a.mantissa * up,
            -max <= a.mantissa <= max,
            0 < up <= unit,
    ;
    let e = exact.mantissa;
    assert(m > max) by (nonlinear_arith)
        requires
            m > max || m < -max,
            e > -max * unit,
            2 * (m * unit) >= 2 * e - unit,
            unit > 0,
    ;
    assert(2 * e >= (2 * max + 1) * unit) by (nonlinear_arith)
        requires
            m >= max + 1,
            2 * (m * unit) <= 2 * e + unit,
            unit > 0,
    ;
    let n = r.mantissa;
    assert(20 * n >= 2 * max - 9) by (nonlinear_arith)
        requires
            2 * e - 10 * unit <= 2 * (n * (10 * unit)),
            2 * e >= (2 * max + 1) * unit,
            unit > 0,
    ;
    assert(10 * n > max);
    assert(max * unit < n * (10 * unit)) by (nonlinear_arith)
        requires
            10 * n > max,
            unit > 0,
    ;
}

/// An amount has a mantissa of at most ninety-six bits, sign aside, and at most twenty-eight
/// digits behind the point.
pub proof fn law_range(a: Fixed)
    ensures
        fits(a.mantissa) <==> -79228162514264337593543950335 <= a.mantissa
            <= 79228162514264337593543950335,
        a.valid() <==> fits(a.mantissa) && a.scale <= 28,
{
}

/// A number fits once it is rounded where it is less than half a unit above the largest mantissa;
/// a number that lies in the middle is rounded to an even one.
proof fn lemma_rounded_fits(m: int, digits: nat)
    ensures
        ({
            let unit = pow(10, digits);
            let size = if m < 0 {
                -m
            } else {
                m
            };
            let off = m - rounded(m, digits) * unit;
            &&& fits(rounded(m, digits)) <==> 2 * size < 158456325028528675187087900671 * unit
            &&& 2 * off == unit || 2 * off == -unit ==> rounded(m, digits) % 2 == 0
        }),
{
    let unit = pow(10, digits);
    lemma_pow_positive(10, digits);
    let max = MAX_MANTISSA as int;
    let size = if m < 0 {
        -m
    } else {
        m
    };
    let q = size / unit;
    let r = size % unit;
    assert(size == q * unit + r && 0 <= r < unit) by (nonlinear_arith)
        requires
            unit > 0,
            q == size / unit,
            r == size % unit,
    ;
    assert(q >= 0) by (nonlinear_arith)
        requires
            size >= 0,
            unit > 0,
            q == size / unit,
    ;
    let n = rounded_magnitude(size, unit);
    assert(n == q || n == q + 1);
    assert((2 * max + 1) * unit == 2 * (max * unit) + unit) by (nonlinear_arith);
    if q < max {
        assert(q * unit + unit <= max * unit) by (nonlinear_arith)
            requires
                q + 1 <= max,
                unit > 0,
        ;
    } else if q > max {
        assert(q * unit >= max * unit + unit) by (nonlinear_arith)
            requires
                q >= max + 1,
                unit > 0,
        ;
    }
    assert((q + 1) * unit == q * unit + unit) by (nonlinear_arith);
    assert((-q) * unit == -(q * unit)) by (nonlinear_arith);
    assert((-(q + 1)) * unit == -(q * unit) - unit) by (nonlinear_arith);
}

/// A zero summand leaves the other one as it is written. Else, with `e` the sum of both numbers
/// at the larger of their scales, the result is `e` without some of its last digits, rounded to
/// the nearest number and from the middle to the even one; one digit more would not fit, and
/// there is no result only where `e` does not fit without any digit behind the point.
pub proof fn law_sum(a: Fixed, b: Fixed)
    ensures
        a.mantissa == 0 ==> sum(a, b) == Some(b),
        a.mantissa != 0 && b.mantissa == 0 ==> sum(a, b) == Some(a),
        a.mantissa != 0 && b.mantissa != 0 ==> {
            let c = if a.scale >= b.scale {
                a.scale
            } else {
                b.scale
            };
            let e = a.mantissa * pow(10, (c - a.scale) as nat) + b.mantissa * pow(
                10,
                (c - b.scale) as nat,
            );
            let size = if e < 0 {
                -e
            } else {
                e
            };
            match sum(a, b) {
                Some(r) => {
                    let unit = pow(10, (c - r.scale) as nat);
                    let off = e - r.mantissa * unit;
                    &&& r.scale <= c
                    &&& -79228162514264337593543950335 <= r.mantissa
                        <= 79228162514264337593543950335
                    &&& -unit <= 2 * off <= unit
                    &&& 2 * off == unit || 2 * off == -unit ==> r.mantissa % 2 == 0
                    &&& r.scale < c ==> 2 * size >= 158456325028528675187087900671 * pow(
                        10,
                        (c - r.scale - 1) as nat,
                    )
                    &&& size <= 79228162514264337593543950335 ==> r.scale == c && r.mantissa == e
                },
                None => 2 * size >= 158456325028528675187087900671 * pow(10, c),
            }
        },
{
    if a.mantissa != 0 && b.mantissa != 0 {
        law_sum_rounds(a, b);
        let c = common_scale(a, b);
        let e = exact_sum(a, b).mantissa;
        assert(c == a.scale && c >= b.scale || c == b.scale && c >= a.scale);
        match sum(a, b) {
            Some(r) => {
                lemma_rounded(e, (c - r.scale) as nat);
                lemma_rounded_fits(e, (c - r.scale) as nat);
                if r.scale < c {
                    let s = r.scale + 1;
                    assert(!fits(rounded(e, (c - s) as nat)));
                    lemma_rounded_fits(e, (c - s) as nat);
                    assert((c - s) as nat == (c - r.scale - 1) as nat);
                }
            },
            None => {
                assert(!fits(rounded(e, (c - 0nat) as nat)));
                lemma_rounded_fits(e, c);
            },
        }
    }
}

} // verus!

//! Exact decimal amounts.
//!
//! A [`Money`] holds what a `rust_decimal::Decimal` holds: a signed mantissa
//! of at most 96 bits and a scale, the number of fractional digits. Its
//! value is `mantissa / 10^scale`. The ledger keeps four fractional digits,
//! so it reasons about an amount by its number of ten-thousandths,
//! [`MoneyView::units`].

use rust_decimal::Decimal;
use vstd::prelude::*;
use vstd::std_specs::cmp::PartialEqSpecImpl;

verus! {

/// Largest magnitude of a mantissa, `2^96 - 1`.
pub const MAX_MANTISSA: i128 = 79_228_162_514_264_337_593_543_950_335;

/// Largest number of fractional digits a decimal can carry.
pub const MAX_SCALE: u32 = 28;

/// Number of fractional digits the ledger keeps.
pub const LEDGER_SCALE: u32 = 4;

/// `10^n`.
pub open spec fn pow10(n: nat) -> int
    decreases n,
{
    if n == 0 {
        1
    } else {
        10 * pow10((n - 1) as nat)
    }
}

/// Whether `m` is a mantissa that 96 bits and a sign can hold.
pub open spec fn is_mantissa(m: int) -> bool {
    -MAX_MANTISSA <= m <= MAX_MANTISSA
}

/// The mathematical content of a [`Money`].
pub struct MoneyView {
    pub mantissa: int,
    pub scale: nat,
}

impl MoneyView {
    /// The mantissa of this value written with `s` fractional digits,
    /// meaningful for `s >= self.scale`.
    pub open spec fn at_scale(self, s: nat) -> int
        recommends
            self.scale <= s,
    {
        self.mantissa * pow10((s - self.scale) as nat)
    }

    /// The value in ten-thousandths, meaningful for a scale of at most four.
    pub open spec fn units(self) -> int
        recommends
            self.scale <= LEDGER_SCALE,
    {
        self.at_scale(LEDGER_SCALE as nat)
    }
}

/// The larger of the two scales: the one a sum or a comparison is made at.
pub open spec fn common_scale(a: MoneyView, b: MoneyView) -> nat {
    if a.scale >= b.scale {
        a.scale
    } else {
        b.scale
    }
}

/// The mantissa, at the common scale, of the exact sum of `a` and `b`.
pub open spec fn exact_sum(a: MoneyView, b: MoneyView) -> int {
    a.at_scale(common_scale(a, b)) + b.at_scale(common_scale(a, b))
}

/// The mantissa, at the common scale, of the exact difference of `a` and `b`.
pub open spec fn exact_difference(a: MoneyView, b: MoneyView) -> int {
    a.at_scale(common_scale(a, b)) - b.at_scale(common_scale(a, b))
}

/// Whether `a` and `b` are the same number, whatever their scales.
pub open spec fn same_value(a: MoneyView, b: MoneyView) -> bool {
    a.at_scale(common_scale(a, b)) == b.at_scale(common_scale(a, b))
}

/// Whether `a` is at most `b` as a number, whatever their scales.
pub open spec fn at_most(a: MoneyView, b: MoneyView) -> bool {
    a.at_scale(common_scale(a, b)) <= b.at_scale(common_scale(a, b))
}

/// The powers of ten the ledger's scale needs.
pub proof fn lemma_pow10_values()
    ensures
        pow10(0) == 1,
        pow10(1) == 10,
        pow10(2) == 100,
        pow10(3) == 1000,
        pow10(4) == 10000,
{
    reveal_with_fuel(pow10, 5);
}

/// With at most four fractional digits, the ten-thousandths of a value are
/// its mantissa at any scale `s` up to four, times `10^(4 - s)`.
pub proof fn lemma_units_from_scale(v: MoneyView, s: nat)
    requires
        v.scale <= s <= LEDGER_SCALE,
    ensures
        v.units() == v.at_scale(s) * pow10((LEDGER_SCALE - s) as nat),
        pow10((LEDGER_SCALE - s) as nat) >= 1,
{
    lemma_pow10_values();
    let m = v.mantissa;
    if s == 0 {
    } else if s == 1 {
        if v.scale == 0 {
            assert(m * 10 * 1000 == m * 10000);
        }
    } else if s == 2 {
        if v.scale == 0 {
            assert(m * 100 * 100 == m * 10000);
        } else if v.scale == 1 {
            assert(m * 10 * 100 == m * 1000);
        }
    } else if s == 3 {
        if v.scale == 0 {
            assert(m * 1000 * 10 == m * 10000);
        } else if v.scale == 1 {
            assert(m * 100 * 10 == m * 1000);
        } else if v.scale == 2 {
            assert(m * 10 * 10 == m * 100);
        }
    } else {
    }
}

/// An exact decimal number.
#[derive(Clone, Copy, Debug)]
pub struct Money {
    mantissa: i128,
    scale: u32,
}

impl View for Money {
    type V = MoneyView;

    closed spec fn view(&self) -> MoneyView {
        MoneyView { mantissa: self.mantissa as int, scale: self.scale as nat }
    }
}

impl Money {
    #[verifier::type_invariant]
    spec fn representable(self) -> bool {
        self.scale <= MAX_SCALE && is_mantissa(self.mantissa as int)
    }

    /// Whether the ledger can hold this amount: it has at most four
    /// fractional digits and its number of ten-thousandths is a mantissa.
    pub open spec fn in_range(self) -> bool {
        self@.scale <= LEDGER_SCALE && is_mantissa(self@.units())
    }

    /// The amount `num / 10^scale`.
    pub fn new(num: i64, scale: u32) -> (m: Money)
        requires
            scale <= MAX_SCALE,
        ensures
            m@ == (MoneyView { mantissa: num as int, scale: scale as nat }),
    {
        Money { mantissa: num as i128, scale }
    }

    /// The amount `num / 10^scale`, if a decimal can hold it.
    pub fn try_from_i128_with_scale(num: i128, scale: u32) -> (m: Option<Money>)
        ensures
            m is Some <==> scale <= MAX_SCALE && is_mantissa(num as int),
            m is Some ==> m->0@ == (MoneyView { mantissa: num as int, scale: scale as nat }),
    {
        if scale <= MAX_SCALE && -MAX_MANTISSA <= num && num <= MAX_MANTISSA {
            Some(Money { mantissa: num, scale })
        } else {
            None
        }
    }

    /// Zero, with no fractional digits.
    pub fn zero() -> (m: Money)
        ensures
            m@ == (MoneyView { mantissa: 0, scale: 0 }),
    {
        Money { mantissa: 0, scale: 0 }
    }

    /// The number of ten-thousandths.
    pub fn units(&self) -> (u: i128)
        requires
            self@.scale <= LEDGER_SCALE,
        ensures
            u == self@.units(),
            -10000 * MAX_MANTISSA <= u <= 10000 * MAX_MANTISSA,
    {
        proof {
            use_type_invariant(self);
            lemma_pow10_values();
        }
        if self.scale == 0 {
            self.mantissa * 10000
        } else if self.scale == 1 {
            self.mantissa * 1000
        } else if self.scale == 2 {
            self.mantissa * 100
        } else if self.scale == 3 {
            self.mantissa * 10
        } else {
            self.mantissa
        }
    }

    /// The exact sum, for two amounts of at most four fractional digits
    /// whose sum the ledger can hold.
    pub fn plus(self, other: Money) -> (sum: Money)
        requires
            self@.scale <= LEDGER_SCALE,
            other@.scale <= LEDGER_SCALE,
            is_mantissa(self@.units() + other@.units()),
        ensures
            sum.in_range(),
            sum@.units() == self@.units() + other@.units(),
    {
        let ghost s = common_scale(self@, other@);
        proof {
            lemma_units_from_scale(self@, s);
            lemma_units_from_scale(other@, s);
            let factor = pow10((LEDGER_SCALE - s) as nat);
            assert(exact_sum(self@, other@) * factor == self@.at_scale(s) * factor
                + other@.at_scale(s) * factor) by (nonlinear_arith)
                requires
                    exact_sum(self@, other@) == self@.at_scale(s) + other@.at_scale(s),
            ;
            lemma_scaled_bound(exact_sum(self@, other@), factor);
        }
        let sum = decimal_checked_add(self, other).unwrap();
        proof {
            lemma_units_from_scale(sum@, s);
        }
        sum
    }

    /// The exact difference, for two amounts of at most four fractional
    /// digits whose difference the ledger can hold.
    pub fn minus(self, other: Money) -> (difference: Money)
        requires
            self@.scale <= LEDGER_SCALE,
            other@.scale <= LEDGER_SCALE,
            is_mantissa(self@.units() - other@.units()),
        ensures
            difference.in_range(),
            difference@.units() == self@.units() - other@.units(),
    {
        let ghost s = common_scale(self@, other@);
        proof {
            lemma_units_from_scale(self@, s);
            lemma_units_from_scale(other@, s);
            let factor = pow10((LEDGER_SCALE - s) as nat);
            assert(exact_difference(self@, other@) * factor == self@.at_scale(s) * factor
                - other@.at_scale(s) * factor) by (nonlinear_arith)
                requires
                    exact_difference(self@, other@) == self@.at_scale(s) - other@.at_scale(s),
            ;
            lemma_scaled_bound(exact_difference(self@, other@), factor);
        }
        let difference = decimal_checked_sub(self, other).unwrap();
        proof {
            lemma_units_from_scale(difference@, s);
        }
        difference
    }

    /// Whether this amount is at most `other`, for two amounts of at most
    /// four fractional digits.
    pub fn le(&self, other: &Money) -> (r: bool)
        requires
            self@.scale <= LEDGER_SCALE,
            other@.scale <= LEDGER_SCALE,
        ensures
            r == (self@.units() <= other@.units()),
    {
        proof {
            let s = common_scale(self@, other@);
            lemma_units_from_scale(self@, s);
            lemma_units_from_scale(other@, s);
            lemma_scaled_order(self@.at_scale(s), other@.at_scale(s), pow10((LEDGER_SCALE - s) as nat));
        }
        decimal_le(*self, *other)
    }

    /// This amount rounded to `dp` fractional digits: itself where it has no
    /// more than that.
    pub open spec fn rounded(self, dp: nat) -> Money {
        if self@.scale <= dp {
            self
        } else {
            self.shortened(dp)
        }
    }

    /// What rounding makes of an amount that has more than `dp` fractional
    /// digits.
    pub closed spec fn shortened(self, dp: nat) -> Money {
        let (mantissa, scale) = decimal_round_dp(self.mantissa as int, self.scale as nat, dp);
        Money { mantissa: mantissa as i128, scale: scale as u32 }
    }

    /// This amount rounded to `dp` fractional digits.
    pub fn round_dp(&self, dp: u32) -> (r: Money)
        ensures
            r == self.rounded(dp as nat),
    {
        decimal_round(*self, dp)
    }

    pub fn mantissa(&self) -> (m: i128)
        ensures
            m == self@.mantissa,
            is_mantissa(m as int),
    {
        proof {
            use_type_invariant(self);
        }
        self.mantissa
    }

    pub fn scale(&self) -> (s: u32)
        ensures
            s == self@.scale,
            s <= MAX_SCALE,
    {
        proof {
            use_type_invariant(self);
        }
        self.scale
    }
}

impl Default for Money {
    fn default() -> (m: Money)
        ensures
            m@ == (MoneyView { mantissa: 0, scale: 0 }),
    {
        Money::zero()
    }
}

impl PartialEq for Money {
    fn eq(&self, other: &Money) -> (r: bool) {
        decimal_eq(*self, *other)
    }
}

impl Eq for Money {

}

/// Two amounts are equal when they are the same number: `1.50 == 1.5`.
impl PartialEqSpecImpl for Money {
    open spec fn obeys_eq_spec() -> bool {
        true
    }

    open spec fn eq_spec(&self, other: &Money) -> bool {
        same_value(self@, other@)
    }
}

/// A product with a factor of at least one is no closer to zero than the
/// other factor: if the product is a mantissa, so is that factor.
proof fn lemma_scaled_bound(x: int, factor: int)
    requires
        factor >= 1,
        is_mantissa(x * factor),
    ensures
        is_mantissa(x),
{
    assert(x >= 0 ==> x * factor >= x) by (nonlinear_arith)
        requires
            factor >= 1,
    ;
    assert(x <= 0 ==> x * factor <= x) by (nonlinear_arith)
        requires
            factor >= 1,
    ;
}

/// Multiplying by a positive factor keeps the order.
proof fn lemma_scaled_order(x: int, y: int, factor: int)
    requires
        factor >= 1,
    ensures
        (x <= y) == (x * factor <= y * factor),
        (x == y) == (x * factor == y * factor),
{
    assert(x <= y ==> x * factor <= y * factor) by (nonlinear_arith)
        requires
            factor >= 1,
    ;
    assert(x > y ==> x * factor > y * factor) by (nonlinear_arith)
        requires
            factor >= 1,
    ;
    assert(x < y ==> x * factor < y * factor) by (nonlinear_arith)
        requires
            factor >= 1,
    ;
}

/// `Decimal::checked_add` of rust_decimal, on the decimals that `a` and `b`
/// stand for. Claimed of it: where the exact sum, written at the larger of
/// the two scales, fits a 96-bit mantissa, the call returns a decimal of that
/// very value, at no larger a scale. Nothing is claimed of the other case,
/// in which the crate rounds or reports overflow.
#[verifier::external_body]
fn decimal_checked_add(a: Money, b: Money) -> (sum: Option<Money>)
    ensures
        is_mantissa(exact_sum(a@, b@)) ==> sum is Some && sum->0@.scale <= common_scale(a@, b@)
            && sum->0@.at_scale(common_scale(a@, b@)) == exact_sum(a@, b@),
{
    let x = Decimal::from_i128_with_scale(a.mantissa, a.scale);
    let y = Decimal::from_i128_with_scale(b.mantissa, b.scale);
    match x.checked_add(y) {
        Some(d) => Some(Money { mantissa: d.mantissa(), scale: d.scale() }),
        None => None,
    }
}

/// `Decimal::checked_sub` of rust_decimal, on the decimals that `a` and `b`
/// stand for. Claimed of it: where the exact difference, written at the
/// larger of the two scales, fits a 96-bit mantissa, the call returns a
/// decimal of that very value, at no larger a scale. Nothing is claimed of
/// the other case, in which the crate rounds or reports overflow.
#[verifier::external_body]
fn decimal_checked_sub(a: Money, b: Money) -> (difference: Option<Money>)
    ensures
        is_mantissa(exact_difference(a@, b@)) ==> difference is Some && difference->0@.scale
            <= common_scale(a@, b@) && difference->0@.at_scale(common_scale(a@, b@))
            == exact_difference(a@, b@),
{
    let x = Decimal::from_i128_with_scale(a.mantissa, a.scale);
    let y = Decimal::from_i128_with_scale(b.mantissa, b.scale);
    match x.checked_sub(y) {
        Some(d) => Some(Money { mantissa: d.mantissa(), scale: d.scale() }),
        None => None,
    }
}

/// `<=` on rust_decimal's `Decimal`, on the decimals that `a` and `b` stand
/// for. Claimed of it: it compares the two numbers, that is their mantissas
/// at the larger of the two scales.
#[verifier::external_body]
fn decimal_le(a: Money, b: Money) -> (r: bool)
    ensures
        r == at_most(a@, b@),
{
    Decimal::from_i128_with_scale(a.mantissa, a.scale) <= Decimal::from_i128_with_scale(
        b.mantissa,
        b.scale,
    )
}

/// `==` on rust_decimal's `Decimal`, on the decimals that `a` and `b` stand
/// for. Claimed of it: it holds when the two are the same number, that is
/// when their mantissas at the larger of the two scales are equal.
#[verifier::external_body]
fn decimal_eq(a: Money, b: Money) -> (r: bool)
    ensures
        r == same_value(a@, b@),
{
    Decimal::from_i128_with_scale(a.mantissa, a.scale) == Decimal::from_i128_with_scale(
        b.mantissa,
        b.scale,
    )
}

/// The mantissa and the scale of what rust_decimal's `Decimal::round_dp`
/// returns for the decimal of the given mantissa and scale and for `dp`
/// fractional digits.
pub uninterp spec fn decimal_round_dp(mantissa: int, scale: nat, dp: nat) -> (int, nat);

/// `Decimal::round_dp` of rust_decimal, on the decimal that `a` stands for.
/// Claimed of it: a decimal with no more than `dp` fractional digits comes
/// back as it is.
#[verifier::external_body]
fn decimal_round(a: Money, dp: u32) -> (r: Money)
    ensures
        (r@.mantissa, r@.scale) == decimal_round_dp(a@.mantissa, a@.scale, dp as nat),
        a@.scale <= dp ==> r == a,
{
    let d = Decimal::from_i128_with_scale(a.mantissa, a.scale).round_dp(dp);
    Money { mantissa: d.mantissa(), scale: d.scale() }
}

} // verus!

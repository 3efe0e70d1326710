//! Exact decimal amounts.
//!
//! An [`Amount`] is a signed integer mantissa of at most 96 bits together
//! with a scale between 0 and 28: it stands for `mantissa / 10^scale`.
//! Arithmetic, rounding, parsing and printing are done by `rust_decimal`;
//! this module states what each of those calls returns.

use rust_decimal::Decimal;
use std::str::FromStr;
use vstd::prelude::*;
use crate::text::decimal_digits;
use crate::text::zero_padded;

verus! {

/// The largest magnitude a mantissa can have: `2^96 - 1`.
pub const MAX_MANTISSA: i128 = 79228162514264337593543950335i128;

/// The largest scale: the number of digits after the decimal point.
pub const MAX_SCALE: u32 = 28u32;

/// What an [`Amount`] is: the number `mantissa / 10^scale`.
pub struct AmountView {
    pub mantissa: int,
    pub scale: nat,
}

/// `10^e`.
pub open spec fn pow10(e: nat) -> nat
    decreases e,
{
    if e == 0 {
        1
    } else {
        10 * pow10((e - 1) as nat)
    }
}

/// The absolute value of `m`.
pub open spec fn magnitude(m: int) -> nat {
    if m < 0 {
        (-m) as nat
    } else {
        m as nat
    }
}

impl AmountView {
    /// Whether an [`Amount`] can hold this value.
    pub open spec fn representable(self) -> bool {
        -MAX_MANTISSA <= self.mantissa <= MAX_MANTISSA && self.scale <= MAX_SCALE
    }

    /// The value in units of `10^-28`, the finest any amount can resolve. Two
    /// amounts stand for the same number exactly when their units agree.
    pub open spec fn units(self) -> int {
        self.mantissa * pow10((MAX_SCALE - self.scale) as nat)
    }

    /// The value rounded to `dp` digits after the point, a tie going to the
    /// neighbour whose last digit is even. A value that has no more than `dp`
    /// digits is left as it is.
    pub open spec fn rounded(self, dp: nat) -> AmountView {
        if self.scale <= dp {
            self
        } else {
            let unit = pow10((self.scale - dp) as nat);
            let whole = magnitude(self.mantissa) / unit;
            let rest = magnitude(self.mantissa) % unit;
            let up = 2 * rest > unit || (2 * rest == unit && whole % 2 == 1);
            let kept: int = if up { whole as int + 1 } else { whole as int };
            AmountView { mantissa: if self.mantissa < 0 { -kept } else { kept }, scale: dp }
        }
    }

    /// The digits after the decimal point when the value is printed with
    /// `precision` of them: digits beyond `precision` are cut off, missing ones
    /// are zeros.
    pub open spec fn fraction_digits(self, precision: nat) -> Seq<char> {
        let fraction = magnitude(self.mantissa) % pow10(self.scale);
        if precision <= self.scale {
            zero_padded(fraction / pow10((self.scale - precision) as nat), precision)
        } else {
            zero_padded(fraction * pow10((precision - self.scale) as nat), precision)
        }
    }

    /// The value printed with exactly `precision` digits after the point: a
    /// minus sign if it is negative, the whole part, and, where `precision` is
    /// not zero, a point and the fraction digits.
    pub open spec fn fixed_text(self, precision: nat) -> Seq<char> {
        let sign = if self.mantissa < 0 { seq!['-'] } else { Seq::<char>::empty() };
        let whole = decimal_digits(magnitude(self.mantissa) / pow10(self.scale));
        if precision == 0 {
            sign + whole
        } else {
            sign + whole + seq!['.'] + self.fraction_digits(precision)
        }
    }

    /// The mantissa that the value has when it is written with `scale` digits
    /// after the point, for a `scale` that is not below its own.
    pub open spec fn at_scale(self, scale: nat) -> int {
        self.mantissa * pow10((scale - self.scale) as nat)
    }

    /// The value printed with as many digits after the point as its scale.
    pub open spec fn plain_text(self) -> Seq<char> {
        self.fixed_text(self.scale)
    }
}

/// The most that a mantissa can be for `rust_decimal` to add it in 64 bits.
pub const SHORT_MANTISSA: i128 = 0xffff_ffff_ffff_ffffi128;

/// The greatest difference of two scales over which `rust_decimal` adds in 64
/// bits.
pub const SHORT_REACH: u32 = 19u32;

/// The greater of two scales.
pub open spec fn finer(a: nat, b: nat) -> nat {
    if a >= b {
        a
    } else {
        b
    }
}

/// Whether `rust_decimal` adds `a` and `b` without rounding: both mantissas
/// fit in 64 bits, the scales are no more than 19 apart, and the sum, written
/// at the greater of the two scales, fits in a mantissa.
pub open spec fn adds_exactly(a: AmountView, b: AmountView) -> bool {
    let scale = finer(a.scale, b.scale);
    &&& magnitude(a.mantissa) <= SHORT_MANTISSA
    &&& magnitude(b.mantissa) <= SHORT_MANTISSA
    &&& scale - a.scale <= SHORT_REACH
    &&& scale - b.scale <= SHORT_REACH
    &&& magnitude(a.at_scale(scale) + b.at_scale(scale)) <= MAX_MANTISSA
}

/// The sum that `rust_decimal` computes for two amounts, each given by its
/// mantissa and scale; `None` where the sum is out of range.
pub uninterp spec fn decimal_checked_add(
    a_mantissa: int,
    a_scale: nat,
    b_mantissa: int,
    b_scale: nat,
) -> Option<(int, nat)>;

/// The difference that `rust_decimal` computes for two amounts, each given by
/// its mantissa and scale; `None` where the difference is out of range.
pub uninterp spec fn decimal_checked_sub(
    a_mantissa: int,
    a_scale: nat,
    b_mantissa: int,
    b_scale: nat,
) -> Option<(int, nat)>;

/// The amount that `rust_decimal` reads from a text, as mantissa and scale;
/// `None` where it rejects the text.
pub uninterp spec fn decimal_from_str(text: Seq<char>) -> Option<(int, nat)>;

/// An exact decimal number.
#[derive(Clone, Copy, Debug)]
pub struct Amount {
    mantissa: i128,
    scale: u32,
}

impl View for Amount {
    type V = AmountView;

    closed spec fn view(&self) -> AmountView {
        AmountView { mantissa: self.mantissa as int, scale: self.scale as nat }
    }
}

impl Amount {
    #[verifier::type_invariant]
    spec fn in_range(self) -> bool {
        -MAX_MANTISSA <= self.mantissa <= MAX_MANTISSA && self.scale <= MAX_SCALE
    }

    /// The amount `mantissa / 10^scale`, or `None` if the mantissa needs more
    /// than 96 bits or the scale is above 28.
    pub fn new(mantissa: i128, scale: u32) -> (r: Option<Amount>)
        ensures
            r is Some <==> (AmountView { mantissa: mantissa as int, scale: scale as nat }).representable(),
            r is Some ==> r->0@ == (AmountView { mantissa: mantissa as int, scale: scale as nat }),
    {
        if -MAX_MANTISSA <= mantissa && mantissa <= MAX_MANTISSA && scale <= MAX_SCALE {
            Some(Amount { mantissa, scale })
        } else {
            None
        }
    }

    /// Zero, with no digits after the point.
    pub fn zero() -> (r: Amount)
        ensures
            r@ == (AmountView { mantissa: 0, scale: 0 }),
    {
        Amount { mantissa: 0, scale: 0 }
    }

    /// The mantissa.
    pub fn mantissa(&self) -> (r: i128)
        ensures
            r == self@.mantissa,
            self@.representable(),
    {
        proof {
            use_type_invariant(self);
        }
        self.mantissa
    }

    /// The scale.
    pub fn scale(&self) -> (r: u32)
        ensures
            r == self@.scale,
            self@.representable(),
    {
        proof {
            use_type_invariant(self);
        }
        self.scale
    }

    /// Whether the amount is below zero.
    pub fn is_negative(&self) -> (r: bool)
        ensures
            r == (self@.mantissa < 0),
    {
        self.mantissa < 0
    }

    /// The sum of two amounts as `rust_decimal` computes it, or `None` if it is
    /// out of range. Where the two add exactly, the sum is there and stands
    /// for the sum of the two numbers.
    pub fn checked_add(&self, other: &Amount) -> (r: Option<Amount>)
        ensures
            amount_parts(r) == decimal_checked_add(
                self@.mantissa,
                self@.scale,
                other@.mantissa,
                other@.scale,
            ),
            adds_exactly(self@, other@) ==> {
                &&& r is Some
                &&& r->0@.units() == self@.units() + other@.units()
                &&& r->0@.scale <= finer(self@.scale, other@.scale)
            },
    {
        add_decimal(self, other)
    }

    /// This amount less `other` as `rust_decimal` computes it, or `None` if it
    /// is out of range.
    pub fn checked_sub(&self, other: &Amount) -> (r: Option<Amount>)
        ensures
            amount_parts(r) == decimal_checked_sub(
                self@.mantissa,
                self@.scale,
                other@.mantissa,
                other@.scale,
            ),
    {
        sub_decimal(self, other)
    }

    /// Whether two amounts stand for the same number: `1.5` and `1.50` do.
    pub fn same_value(&self, other: &Amount) -> (r: bool)
        ensures
            r == (self@.units() == other@.units()),
    {
        eq_decimal(self, other)
    }

    /// The amount rounded to `dp` digits after the point, ties to even.
    pub fn round_dp(&self, dp: u32) -> (r: Amount)
        ensures
            r@ == self@.rounded(dp as nat),
    {
        round_decimal(self, dp)
    }

    /// The amount printed with two digits after the point.
    pub fn to_fixed2(&self) -> (r: String)
        ensures
            r@ == self@.fixed_text(2),
    {
        display_decimal(self, 2)
    }

    /// The amount printed with the digits it has: as many after the point as
    /// its scale.
    pub fn to_text(&self) -> (r: String)
        ensures
            r@ == self@.plain_text(),
    {
        proof {
            use_type_invariant(self);
        }
        display_decimal(self, self.scale)
    }

    /// Reads an amount from a text such as `-12.50`.
    pub fn parse(text: &str) -> (r: Option<Amount>)
        ensures
            amount_parts(r) == decimal_from_str(text@),
    {
        parse_decimal(text)
    }
}

/// Mantissa and scale of an amount that may be absent.
pub open spec fn amount_parts(a: Option<Amount>) -> Option<(int, nat)> {
    match a {
        Some(x) => Some((x@.mantissa, x@.scale)),
        None => None,
    }
}

/// `Decimal::checked_add`: the result is the crate's own sum of the two
/// numbers, which this library names and does not restate in full. One part
/// is stated, that of the crate's two short ways. A zero on either side
/// returns the other number. Two mantissas of 32 bits are brought to the
/// greater scale and added in 32 bits where that fits; two of 64 bits, and
/// those of 32 that did not fit, are brought to the greater scale in 128 bits
/// where the scales are no more than 19 apart, and their sum is returned as
/// it is where it fits in 96 bits. On these ways nothing is rounded: the sum
/// is present and exact, with a scale no greater than the greater of the two.
#[verifier::external_body]
fn add_decimal(a: &Amount, b: &Amount) -> (r: Option<Amount>)
    ensures
        amount_parts(r) == decimal_checked_add(a@.mantissa, a@.scale, b@.mantissa, b@.scale),
        adds_exactly(a@, b@) ==> {
            &&& r is Some
            &&& r->0@.units() == a@.units() + b@.units()
            &&& r->0@.scale <= finer(a@.scale, b@.scale)
        },
{
    let x = Decimal::from_i128_with_scale(a.mantissa, a.scale);
    let y = Decimal::from_i128_with_scale(b.mantissa, b.scale);
    match x.checked_add(y) {
        Some(d) => Some(Amount { mantissa: d.mantissa(), scale: d.scale() }),
        None => None,
    }
}

/// `Decimal::checked_sub`: the result is the crate's own difference of the
/// two numbers, which this library names and does not restate.
#[verifier::external_body]
fn sub_decimal(a: &Amount, b: &Amount) -> (r: Option<Amount>)
    ensures
        amount_parts(r) == decimal_checked_sub(a@.mantissa, a@.scale, b@.mantissa, b@.scale),
{
    let x = Decimal::from_i128_with_scale(a.mantissa, a.scale);
    let y = Decimal::from_i128_with_scale(b.mantissa, b.scale);
    match x.checked_sub(y) {
        Some(d) => Some(Amount { mantissa: d.mantissa(), scale: d.scale() }),
        None => None,
    }
}

/// `Decimal`'s `==`: true exactly when the two stand for the same number,
/// whatever their scales.
#[verifier::external_body]
fn eq_decimal(a: &Amount, b: &Amount) -> (r: bool)
    ensures
        r == (a@.units() == b@.units()),
{
    let x = Decimal::from_i128_with_scale(a.mantissa, a.scale);
    let y = Decimal::from_i128_with_scale(b.mantissa, b.scale);
    x == y
}

/// `Decimal::round_dp`: banker's rounding to `dp` digits after the point; a
/// number with no more digits than that comes back unchanged.
#[verifier::external_body]
fn round_decimal(a: &Amount, dp: u32) -> (r: Amount)
    ensures
        r@ == a@.rounded(dp as nat),
{
    let d = Decimal::from_i128_with_scale(a.mantissa, a.scale).round_dp(dp);
    Amount { mantissa: d.mantissa(), scale: d.scale() }
}

/// `Decimal`'s `Display` with a precision: a minus sign for a negative number,
/// the whole part, and, where the precision is not zero, a point and as many
/// fraction digits as it asks for, further digits cut off and missing ones
/// filled with zeros. The crate builds the digits in 32 places: a precision of
/// two, or one that is the scale, always fits.
#[verifier::external_body]
fn display_decimal(a: &Amount, precision: u32) -> (r: String)
    requires
        precision == 2 || precision as nat == a@.scale,
    ensures
        r@ == a@.fixed_text(precision as nat),
{
    let d = Decimal::from_i128_with_scale(a.mantissa, a.scale);
    format!("{:.*}", precision as usize, d)
}

/// `Decimal::from_str`: the result is the crate's own reading of the text,
/// which this library names and does not restate.
#[verifier::external_body]
fn parse_decimal(text: &str) -> (r: Option<Amount>)
    ensures
        amount_parts(r) == decimal_from_str(text@),
{
    match Decimal::from_str(text) {
        Ok(d) => Some(Amount { mantissa: d.mantissa(), scale: d.scale() }),
        Err(_) => None,
    }
}

/// A power of ten is at least one.
pub proof fn lemma_pow10_positive(e: nat)
    ensures
        pow10(e) >= 1,
    decreases e,
{
    if e > 0 {
        lemma_pow10_positive((e - 1) as nat);
    }
}

/// The power of a sum is the product of the powers.
pub proof fn lemma_pow10_sum(x: nat, y: nat)
    ensures
        pow10(x + y) == pow10(x) * pow10(y),
    decreases x,
{
    if x > 0 {
        lemma_pow10_sum((x - 1) as nat, y);
        assert(pow10(x + y) == 10 * pow10((x + y - 1) as nat));
        assert(10 * (pow10((x - 1) as nat) * pow10(y)) == (10 * pow10((x - 1) as nat)) * pow10(y))
            by (nonlinear_arith);
    } else {
        assert(1 * pow10(y) == pow10(y));
    }
}

/// Written at a greater scale, a value has a mantissa that is greater by the
/// power of ten between the two scales.
pub proof fn lemma_at_scale_step(v: AmountView, from: nat, to: nat)
    requires
        v.scale <= from <= to,
    ensures
        v.at_scale(to) == v.at_scale(from) * pow10((to - from) as nat),
{
    lemma_pow10_sum((from - v.scale) as nat, (to - from) as nat);
    let p = pow10((from - v.scale) as nat);
    let q = pow10((to - from) as nat);
    assert(v.mantissa * (p * q) == (v.mantissa * p) * q) by (nonlinear_arith);
}

/// The units of a value are its mantissa at scale 28.
pub proof fn lemma_units_at_scale(v: AmountView, scale: nat)
    requires
        v.scale <= scale <= MAX_SCALE,
    ensures
        v.units() == v.at_scale(scale) * pow10((MAX_SCALE - scale) as nat),
{
    lemma_at_scale_step(v, scale, MAX_SCALE as nat);
}

/// A product with a factor of at least one is no nearer to zero than the
/// number itself.
pub proof fn lemma_magnitude_grows(x: int, k: nat)
    requires
        k >= 1,
    ensures
        magnitude(x) <= magnitude(x * k),
{
    assert(magnitude(x) <= magnitude(x * k)) by (nonlinear_arith)
        requires
            k >= 1,
            magnitude(x) == (if x < 0 { -x } else { x }),
            magnitude(x * k) == (if x * k < 0 { -(x * k) } else { x * k }),
    ;
}

} // verus!

//! Amounts as display text: two digits after the point, the whole part in
//! groups of three, and an optional currency symbol before or after.

use vstd::prelude::*;
use crate::amount::magnitude;
use crate::amount::pow10;
use crate::amount::Amount;
use crate::amount::AmountView;
use crate::text::decimal_digits;
use crate::text::push_str;

verus! {

/// Where the currency symbol stands, and what it is.
#[derive(Debug, Clone, PartialEq, Eq)]
pub enum CurrencyPosition {
    /// No symbol at all.
    Hidden,
    /// The symbol before the number.
    Prefix(String),
    /// The symbol after the number.
    Suffix(String),
}

/// How an amount is written out.
#[derive(Debug, Clone, PartialEq, Eq)]
pub struct FormatOptions {
    pub thousands_separator: char,
    pub decimal_separator: char,
    pub currency: CurrencyPosition,
}

impl Default for FormatOptions {
    fn default() -> (r: Self)
        ensures
            r.thousands_separator == '\u{a0}',
            r.decimal_separator == '.',
            r.currency is Hidden,
    {
        FormatOptions {
            thousands_separator: '\u{a0}',
            decimal_separator: '.',
            currency: CurrencyPosition::Hidden,
        }
    }
}

/// The digits `digits` with `separator` set before every group of three,
/// counted from the right.
pub open spec fn grouped(digits: Seq<char>, separator: char) -> Seq<char>
    decreases digits.len(),
{
    if digits.len() <= 3 {
        digits
    } else {
        grouped(digits.subrange(0, digits.len() - 3), separator).push(separator) + digits.subrange(
            digits.len() - 3,
            digits.len() as int,
        )
    }
}

/// `body` with the currency symbol that `currency` asks for.
pub open spec fn with_currency(body: Seq<char>, currency: CurrencyPosition) -> Seq<char> {
    match currency {
        CurrencyPosition::Hidden => body,
        CurrencyPosition::Prefix(symbol) => symbol@ + body,
        CurrencyPosition::Suffix(symbol) => body + symbol@,
    }
}

/// The number part of a formatted amount: the value rounded to two digits
/// after the point, its sign, its whole part in groups of three, the decimal
/// separator and the two fraction digits.
pub open spec fn formatted_number(value: AmountView, thousands: char, decimal: char) -> Seq<char> {
    let r = value.rounded(2);
    let sign = if r.mantissa < 0 { seq!['-'] } else { Seq::<char>::empty() };
    let whole = decimal_digits(magnitude(r.mantissa) / pow10(r.scale));
    sign + grouped(whole, thousands) + seq![decimal] + r.fraction_digits(2)
}

/// A formatted amount: the number part with the currency symbol.
pub open spec fn formatted_amount(value: AmountView, options: FormatOptions) -> Seq<char> {
    with_currency(
        formatted_number(value, options.thousands_separator, options.decimal_separator),
        options.currency,
    )
}

/// A value that can be written out under [`FormatOptions`].
pub trait NumberFormatter {
    /// The text that [`NumberFormatter::format`] returns.
    spec fn format_spec(&self, options: &FormatOptions) -> Seq<char>;

    /// The value as display text.
    fn format(&self, options: &FormatOptions) -> (r: String)
        ensures
            r@ == self.format_spec(options),
    ;
}

/// A number below one hundred has at most two digits.
proof fn lemma_two_digits(n: nat)
    requires
        n < 100,
    ensures
        1 <= decimal_digits(n).len() <= 2,
{
    reveal_with_fuel(decimal_digits, 2);
}

/// Printed with two digits after the point, a value of scale two or less has
/// exactly two fraction digits.
proof fn lemma_fraction_length(value: AmountView)
    requires
        value.scale <= 2,
    ensures
        value.fraction_digits(2).len() == 2,
{
    assert(pow10(0) == 1 && pow10(1) == 10 && pow10(2) == 100) by {
        reveal_with_fuel(pow10, 3);
    }
    let fraction = magnitude(value.mantissa) % pow10(value.scale);
    if value.scale == 2 {
        assert(fraction / 1 == fraction);
        lemma_two_digits(fraction);
    } else if value.scale == 1 {
        lemma_two_digits(fraction * 10);
    } else {
        assert(fraction == 0);
        assert(fraction * 100 == 0);
        lemma_two_digits(0);
    }
    reveal_with_fuel(decimal_digits, 2);
}

/// The decimal digits of a number are never empty.
proof fn lemma_digits_nonempty(n: nat)
    ensures
        decimal_digits(n).len() >= 1,
    decreases n,
{
    if n >= 10 {
        lemma_digits_nonempty(n / 10);
    }
}

/// Appends `digits`, in groups of three from the right, to `out`.
fn push_grouped(out: &mut String, digits: &str, separator: char)
    ensures
        final(out)@ == old(out)@ + grouped(digits@, separator),
    decreases digits@.len(),
{
    let n = digits.unicode_len();
    if n <= 3 {
        out.append(digits);
    } else {
        let head = digits.substring_char(0, n - 3);
        let tail = digits.substring_char(n - 3, n);
        push_grouped(out, head, separator);
        out.push(separator);
        out.append(tail);
        assert(out@ =~= old(out)@ + grouped(digits@, separator));
    }
}

impl NumberFormatter for Amount {
    open spec fn format_spec(&self, options: &FormatOptions) -> Seq<char> {
        formatted_amount(self@, *options)
    }

    fn format(&self, options: &FormatOptions) -> (r: String) {
        let rounded = self.round_dp(2);
        let text = rounded.to_fixed2();
        let sign: usize = if rounded.is_negative() { 1 } else { 0 };
        let n = text.as_str().unicode_len();
        let ghost value = rounded@;
        let ghost whole = decimal_digits(magnitude(value.mantissa) / pow10(value.scale));
        let ghost lead = if value.mantissa < 0 { seq!['-'] } else { Seq::<char>::empty() };
        proof {
            lemma_fraction_length(value);
            lemma_digits_nonempty(magnitude(value.mantissa) / pow10(value.scale));
            assert(text@ =~= lead + whole + seq!['.'] + value.fraction_digits(2));
            assert(n == sign + whole.len() + 3);
        }
        let digits = text.as_str().substring_char(sign, n - 3);
        let fraction = text.as_str().substring_char(n - 2, n);
        proof {
            assert(digits@ =~= whole);
            assert(fraction@ =~= value.fraction_digits(2));
        }
        let mut body = String::new();
        if sign == 1 {
            body.push('-');
        }
        push_grouped(&mut body, digits, options.thousands_separator);
        body.push(options.decimal_separator);
        body.append(fraction);
        proof {
            assert(body@ =~= formatted_number(
                self@,
                options.thousands_separator,
                options.decimal_separator,
            ));
        }
        match &options.currency {
            CurrencyPosition::Prefix(symbol) => {
                let mut out = symbol.clone();
                out.append(body.as_str());
                out
            },
            CurrencyPosition::Suffix(symbol) => {
                push_str(&mut body, symbol.as_str());
                body
            },
            CurrencyPosition::Hidden => body,
        }
    }
}

} // verus!

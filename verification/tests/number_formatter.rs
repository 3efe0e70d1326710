use mfinance::amount::Amount;
use mfinance::number_formatter::{CurrencyPosition, FormatOptions, NumberFormatter};
use rust_decimal::prelude::FromPrimitive;
use rust_decimal::Decimal;

fn amount(d: Decimal) -> Amount {
    Amount::new(d.mantissa(), d.scale()).expect("every decimal is an amount")
}

#[test]
fn format_with_currency_prefix() {
    let options = FormatOptions {
        currency: CurrencyPosition::Prefix("€".to_string()),
        ..FormatOptions::default()
    };
    assert_eq!(amount(Decimal::from(1000)).format(&options), "€1\u{a0}000.00");
}

#[test]
fn format_with_currency_suffix() {
    let options = FormatOptions {
        currency: CurrencyPosition::Suffix(" EUR".to_string()),
        ..FormatOptions::default()
    };
    assert_eq!(amount(Decimal::from(1000)).format(&options), "1\u{a0}000.00 EUR");
}

#[test]
fn format_with_thousands_separator() {
    let options = FormatOptions { thousands_separator: ',', ..FormatOptions::default() };
    assert_eq!(amount(Decimal::from(1000)).format(&options), "1,000.00");
}

#[test]
fn format_with_decimal_separator() {
    let options = FormatOptions { decimal_separator: ',', ..FormatOptions::default() };
    assert_eq!(amount(Decimal::from(1000)).format(&options), "1\u{a0}000,00");
}

#[test]
fn format_fractions_negative() {
    assert_eq!(
        amount(Decimal::from_f32(-0.006).unwrap()).format(&FormatOptions::default()),
        "-0.01"
    );
}

#[test]
fn format_fractions() {
    let options = FormatOptions::default();
    assert_eq!(amount(Decimal::from_f32(0.006).unwrap()).format(&options), "0.01");
}

#[test]
fn format_singles() {
    assert_eq!(amount(Decimal::from_i8(1).unwrap()).format(&FormatOptions::default()), "1.00");
}

#[test]
fn format_singles_negative() {
    assert_eq!(amount(Decimal::from_i8(-1).unwrap()).format(&FormatOptions::default()), "-1.00");
}

#[test]
fn format_tens() {
    assert_eq!(amount(Decimal::from_i8(10).unwrap()).format(&FormatOptions::default()), "10.00");
}

#[test]
fn format_tens_negative() {
    assert_eq!(amount(Decimal::from_i8(-10).unwrap()).format(&FormatOptions::default()), "-10.00");
}

#[test]
fn format_hundreds() {
    assert_eq!(amount(Decimal::from_i8(100).unwrap()).format(&FormatOptions::default()), "100.00");
}

#[test]
fn format_hundreds_negative() {
    assert_eq!(
        amount(Decimal::from_i8(-100).unwrap()).format(&FormatOptions::default()),
        "-100.00"
    );
}

#[test]
fn format_thousands() {
    let options = FormatOptions::default();
    assert_eq!(amount(Decimal::from_f32(1999.99).unwrap()).format(&options), "1\u{a0}999.99");
}

#[test]
fn format_thousands_negative() {
    assert_eq!(
        amount(Decimal::from_f32(-1999.99).unwrap()).format(&FormatOptions::default()),
        "-1\u{a0}999.99"
    );
}

#[test]
fn format_ten_thousands() {
    assert_eq!(
        amount(Decimal::from_f32(19999.99).unwrap()).format(&FormatOptions::default()),
        "19\u{a0}999.99"
    );
}

#[test]
fn format_ten_thousands_negative() {
    assert_eq!(
        amount(Decimal::from_f32(-19999.99).unwrap()).format(&FormatOptions::default()),
        "-19\u{a0}999.99"
    );
}

#[test]
fn format_hundred_thousands() {
    assert_eq!(
        amount(Decimal::from_f64(199999.99).unwrap()).format(&FormatOptions::default()),
        "199\u{a0}999.99"
    );
}

#[test]
fn format_hundred_thousands_negative() {
    assert_eq!(
        amount(Decimal::from_f64(-199999.99).unwrap()).format(&FormatOptions::default()),
        "-199\u{a0}999.99"
    );
}

#[test]
fn format_million() {
    assert_eq!(
        amount(Decimal::from_f64(1999999.99).unwrap()).format(&FormatOptions::default()),
        "1\u{a0}999\u{a0}999.99"
    );
}

#[test]
fn format_million_negative() {
    assert_eq!(
        amount(Decimal::from_f64(-1999999.99).unwrap()).format(&FormatOptions::default()),
        "-1\u{a0}999\u{a0}999.99"
    );
}

#[test]
fn format_rounds_half_to_even() {
    let options = FormatOptions::default();
    assert_eq!(Amount::parse("0.125").unwrap().format(&options), "0.12");
    assert_eq!(Amount::parse("0.135").unwrap().format(&options), "0.14");
    assert_eq!(Amount::parse("-0.125").unwrap().format(&options), "-0.12");
    assert_eq!(Amount::parse("2.5").unwrap().format(&options), "2.50");
    assert_eq!(Amount::parse("0.995").unwrap().format(&options), "1.00");
    assert_eq!(Amount::parse("999.995").unwrap().format(&options), "1\u{a0}000.00");
}

#[test]
fn format_small_negative_rounds_to_plain_zero() {
    assert_eq!(Amount::parse("-0.001").unwrap().format(&FormatOptions::default()), "0.00");
    assert_eq!(Amount::parse("0").unwrap().format(&FormatOptions::default()), "0.00");
}

#[test]
fn format_groups_do_not_count_the_sign() {
    let options = FormatOptions { thousands_separator: ',', ..FormatOptions::default() };
    assert_eq!(Amount::parse("-100").unwrap().format(&options), "-100.00");
    assert_eq!(Amount::parse("-1000").unwrap().format(&options), "-1,000.00");
    assert_eq!(Amount::parse("-100000").unwrap().format(&options), "-100,000.00");
    assert_eq!(Amount::parse("1234567890.1").unwrap().format(&options), "1,234,567,890.10");
}

#[test]
fn format_with_wide_separators() {
    let options = FormatOptions {
        thousands_separator: '٬',
        decimal_separator: '٫',
        currency: CurrencyPosition::Suffix(" ﷼".to_string()),
    };
    assert_eq!(Amount::parse("1234.5").unwrap().format(&options), "1٬234٫50 ﷼");
}

#[test]
fn format_largest_amount() {
    let options = FormatOptions { thousands_separator: ',', ..FormatOptions::default() };
    let largest = Amount::new(79228162514264337593543950335, 0).unwrap();
    assert_eq!(largest.format(&options), "79,228,162,514,264,337,593,543,950,335.00");
    let smallest = Amount::new(-79228162514264337593543950335, 28).unwrap();
    assert_eq!(smallest.format(&options), "-7.92");
}

#[test]
fn default_options() {
    let options = FormatOptions::default();
    assert_eq!(options.thousands_separator, '\u{a0}');
    assert_eq!(options.decimal_separator, '.');
    assert_eq!(options.currency, CurrencyPosition::Hidden);
}

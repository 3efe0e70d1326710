//! Settings: how amounts are to be written out.

use vstd::prelude::*;
use crate::number_formatter::CurrencyPosition;
use crate::number_formatter::FormatOptions;

verus! {

/// The side of the number on which the currency symbol stands.
#[derive(Debug, Copy, Clone, PartialEq, Eq)]
pub enum CurrencyPositionChoice {
    Prefix,
    Suffix,
}

/// The formatting section of the settings.
#[derive(Debug, Clone, PartialEq, Eq)]
pub struct FormattingConfig {
    pub currency: Option<String>,
    pub currency_position: Option<CurrencyPositionChoice>,
    pub thousands_separator: char,
    pub decimal_separator: char,
}

/// All settings.
#[derive(Debug, Clone, PartialEq, Eq)]
pub struct Config {
    pub formatting: FormattingConfig,
}

impl Default for FormattingConfig {
    fn default() -> (r: Self)
        ensures
            r.currency is None,
            r.currency_position is None,
            r.thousands_separator == '\u{a0}',
            r.decimal_separator == '.',
    {
        FormattingConfig {
            currency: None,
            currency_position: None,
            thousands_separator: '\u{a0}',
            decimal_separator: '.',
        }
    }
}

impl Default for Config {
    fn default() -> (r: Self)
        ensures
            r.formatting.currency is None,
            r.formatting.currency_position is None,
            r.formatting.thousands_separator == '\u{a0}',
            r.formatting.decimal_separator == '.',
    {
        Config { formatting: FormattingConfig::default() }
    }
}

impl FormattingConfig {
    /// The currency these settings ask for: a symbol together with a side, or
    /// none where either is missing.
    pub open spec fn currency_spec(&self) -> CurrencyPosition {
        match (self.currency, self.currency_position) {
            (Some(symbol), Some(CurrencyPositionChoice::Prefix)) => CurrencyPosition::Prefix(symbol),
            (Some(symbol), Some(CurrencyPositionChoice::Suffix)) => CurrencyPosition::Suffix(symbol),
            _ => CurrencyPosition::Hidden,
        }
    }

    /// The format options that these settings describe.
    pub fn format_options(&self) -> (r: FormatOptions)
        ensures
            r.thousands_separator == self.thousands_separator,
            r.decimal_separator == self.decimal_separator,
            r.currency == self.currency_spec(),
    {
        let currency = match (&self.currency, self.currency_position) {
            (Some(symbol), Some(CurrencyPositionChoice::Prefix)) => CurrencyPosition::Prefix(
                symbol.clone(),
            ),
            (Some(symbol), Some(CurrencyPositionChoice::Suffix)) => CurrencyPosition::Suffix(
                symbol.clone(),
            ),
            _ => CurrencyPosition::Hidden,
        };
        FormatOptions {
            thousands_separator: self.thousands_separator,
            decimal_separator: self.decimal_separator,
            currency,
        }
    }
}

} // verus!

//! A small personal ledger: dated monetary entries grouped by year, the
//! navigation and editing state machine of its terminal interface, and the
//! text reports of its command line.

pub mod amount;
pub mod config;
pub mod date;
pub mod number_formatter;
pub mod order;
pub mod text;
pub mod tui;

use vstd::prelude::*;
use vstd::seq_lib::to_multiset_contains;
use vstd::seq_lib::to_multiset_len;
use vstd::seq_lib::to_multiset_remove;
use crate::amount::decimal_checked_add;
use crate::amount::decimal_checked_sub;
use crate::amount::adds_exactly;
use crate::amount::finer;
use crate::amount::lemma_at_scale_step;
use crate::amount::lemma_magnitude_grows;
use crate::amount::lemma_pow10_positive;
use crate::amount::lemma_units_at_scale;
use crate::amount::magnitude;
use crate::amount::pow10;
use crate::amount::MAX_MANTISSA;
use crate::amount::MAX_SCALE;
use crate::amount::SHORT_MANTISSA;
use crate::amount::SHORT_REACH;
use crate::number_formatter::formatted_amount;
use crate::number_formatter::FormatOptions;
use crate::number_formatter::NumberFormatter;
use crate::order::is_sorted_ledger;
use crate::order::sort_by_date;
use crate::text::pad_left;
use crate::text::padded_left;
use crate::amount::Amount;
use crate::amount::AmountView;
use crate::date::naive_date_from_str;
use crate::date::Date;
use crate::date::DateView;

verus! {

/// The field delimiter of a ledger file.
pub const DELIMITER: u8 = 59u8;

/// What can go wrong with a ledger.
#[derive(Debug)]
pub enum AppError {
    /// The text of an entry's date holds no date.
    DateParse { input: String },
    /// The ledger has no entries.
    NoEntries,
    /// No entry of the ledger has a date that begins with the filter.
    FilteredNoEntries(String),
    /// A sum of amounts is out of range.
    AmountOverflow,
}

impl AppError {
    /// What [`AppError::message`] returns.
    pub open spec fn message_spec(&self) -> Seq<char> {
        match self {
            AppError::DateParse { input } => "Invalid date format: "@ + input@,
            AppError::NoEntries => "No entries found"@,
            AppError::FilteredNoEntries(named) => "No entries matching filter: "@ + named@,
            AppError::AmountOverflow => "Amount out of range"@,
        }
    }

    /// The error in words.
    pub fn message(&self) -> (r: String)
        ensures
            r@ == self.message_spec(),
    {
        match self {
            AppError::DateParse { input } => {
                let mut text = String::from_str("Invalid date format: ");
                text.append(input.as_str());
                text
            },
            AppError::NoEntries => String::from_str("No entries found"),
            AppError::FilteredNoEntries(named) => {
                let mut text = String::from_str("No entries matching filter: ");
                text.append(named.as_str());
                text
            },
            AppError::AmountOverflow => String::from_str("Amount out of range"),
        }
    }
}

/// One record of a ledger: a date, written as `YYYY-MM-DD`, and an amount.
#[derive(Debug)]
pub struct Entry {
    pub date: String,
    pub amount: Amount,
}

impl Clone for Entry {
    fn clone(&self) -> (r: Self)
        ensures
            r == *self,
    {
        Entry { date: self.date.clone(), amount: self.amount }
    }
}

/// The year of the date that a text holds, if it holds a date.
pub open spec fn year_of(date: Seq<char>) -> Option<int> {
    match naive_date_from_str(date) {
        Some((year, _, _)) => Some(year),
        None => None,
    }
}

/// Whether every entry's date text holds a date.
pub open spec fn all_dated(entries: Seq<Entry>) -> bool {
    forall|i: int| 0 <= i < entries.len() ==> (#[trigger] naive_date_from_str(entries[i].date@)) is Some
}

/// A date text as a row label: month name and day where the text holds a
/// date, the text itself where it does not.
pub open spec fn day_month_text(date: Seq<char>) -> Seq<char> {
    match naive_date_from_str(date) {
        Some((year, month, day)) => (DateView { year, month, day }).month_day_text(),
        None => date,
    }
}

/// The sum of two amounts, absent if either is absent or the sum is out of
/// range.
pub open spec fn added(acc: Option<AmountView>, next: AmountView) -> Option<AmountView> {
    match acc {
        Some(a) => match decimal_checked_add(a.mantissa, a.scale, next.mantissa, next.scale) {
            Some((mantissa, scale)) => Some(AmountView { mantissa, scale }),
            None => None,
        },
        None => None,
    }
}

/// The sum of the amounts of `entries`: each added in turn to what came
/// before, starting from zero. Absent once a sum is out of range.
pub open spec fn total_of(entries: Seq<Entry>) -> Option<AmountView>
    decreases entries.len(),
{
    if entries.len() == 0 {
        Some(AmountView { mantissa: 0, scale: 0 })
    } else {
        added(total_of(entries.drop_last()), entries.last().amount@)
    }
}

/// The view of an amount that may be absent.
pub open spec fn amount_view(a: Option<Amount>) -> Option<AmountView> {
    match a {
        Some(x) => Some(x@),
        None => None,
    }
}

impl Entry {
    /// The date as a row label: month name and day, or the text as it stands
    /// where it holds no date.
    pub fn day_month_date(&self) -> (r: String)
        ensures
            r@ == day_month_text(self.date@),
    {
        match Date::parse(self.date.as_str()) {
            Some(date) => date.to_month_day(),
            None => self.date.clone(),
        }
    }
}

/// The exact sum of the amounts of `entries`, in units of `10^-28`.
pub open spec fn exact_total(entries: Seq<Entry>) -> int
    decreases entries.len(),
{
    if entries.len() == 0 {
        0
    } else {
        exact_total(entries.drop_last()) + entries.last().amount@.units()
    }
}

/// Whether the sum of `entries` is in range and was not rounded: it stands
/// for the exact sum of the amounts.
pub open spec fn sum_is_exact(entries: Seq<Entry>) -> bool {
    total_of(entries) is Some && total_of(entries)->0.units() == exact_total(entries)
}

/// The exact sum of the amounts of `entries`, each written with `cap` digits
/// after the point.
pub open spec fn exact_at(entries: Seq<Entry>, cap: nat) -> int
    decreases entries.len(),
{
    if entries.len() == 0 {
        0
    } else {
        exact_at(entries.drop_last(), cap) + entries.last().amount@.at_scale(cap)
    }
}

/// The magnitudes of the amounts of `entries` added up, each amount written
/// with `cap` digits after the point.
pub open spec fn weight(entries: Seq<Entry>, cap: nat) -> nat
    decreases entries.len(),
{
    if entries.len() == 0 {
        0
    } else {
        weight(entries.drop_last(), cap) + magnitude(entries.last().amount@.at_scale(cap))
    }
}

/// Whether no amount of `entries` has more than `cap` digits after the point,
/// `cap` being at most 19, and the magnitudes of the amounts, written with
/// `cap` digits, add up to less than `2^64`.
pub open spec fn modest_at(entries: Seq<Entry>, cap: nat) -> bool {
    &&& cap <= SHORT_REACH
    &&& forall|i: int| 0 <= i < entries.len() ==> (#[trigger] entries[i]).amount@.scale <= cap
    &&& weight(entries, cap) <= SHORT_MANTISSA
}

/// Whether the ledger is modest: with some number of digits after the point,
/// its amounts are few and small enough for every sum over them to be exact.
/// With two digits that is a ledger whose amounts, taken without their
/// signs, add up to less than 184 467 440 737 095 516.16.
pub open spec fn modest(entries: Seq<Entry>) -> bool {
    exists|cap: nat| modest_at(entries, cap)
}

/// The sum of a beginning of a ledger is no further from zero than the
/// magnitudes of the whole ledger added up, and neither is any one amount.
pub proof fn lemma_weight_bounds(entries: Seq<Entry>, cap: nat, n: int)
    requires
        0 <= n <= entries.len(),
    ensures
        magnitude(exact_at(entries.take(n), cap)) <= weight(entries.take(n), cap),
        weight(entries.take(n), cap) <= weight(entries, cap),
        n < entries.len() ==> weight(entries.take(n), cap) + magnitude(
            entries[n].amount@.at_scale(cap),
        ) <= weight(entries, cap),
    decreases entries.len(),
{
    if entries.len() == 0 {
        assert(entries.take(n) =~= entries);
    } else if n == entries.len() {
        assert(entries.take(n) =~= entries);
        lemma_weight_bounds(entries.drop_last(), cap, n - 1);
        assert(entries.drop_last().take(n - 1) =~= entries.drop_last());
    } else {
        lemma_weight_bounds(entries.drop_last(), cap, n);
        assert(entries.drop_last().take(n) =~= entries.take(n));
        if n < entries.len() - 1 {
            assert(entries.drop_last()[n] == entries[n]);
        } else {
            assert(entries.take(n) =~= entries.drop_last());
        }
    }
}

/// The exact sum in units is the exact sum at a scale, times the power of ten
/// between that scale and 28.
pub proof fn lemma_exact_total_at(entries: Seq<Entry>, cap: nat)
    requires
        cap <= MAX_SCALE,
        forall|i: int| 0 <= i < entries.len() ==> (#[trigger] entries[i]).amount@.scale <= cap,
    ensures
        exact_total(entries) == exact_at(entries, cap) * pow10((MAX_SCALE - cap) as nat),
    decreases entries.len(),
{
    let p = pow10((MAX_SCALE - cap) as nat);
    if entries.len() == 0 {
        assert(0 * p == 0);
    } else {
        let rest = entries.drop_last();
        let v = entries.last().amount@;
        assert forall|i: int| 0 <= i < rest.len() implies (#[trigger] rest[i]).amount@.scale
            <= cap by {
            assert(rest[i] == entries[i]);
        }
        assert(entries[entries.len() - 1].amount@.scale <= cap);
        lemma_exact_total_at(rest, cap);
        lemma_units_at_scale(v, cap);
        assert((exact_at(rest, cap) + v.at_scale(cap)) * p == exact_at(rest, cap) * p + v.at_scale(
            cap,
        ) * p) by (nonlinear_arith);
    }
}

/// The exact sum of a ledger is the exact sum without one entry, and that
/// entry's amount.
proof fn lemma_exact_total_remove(entries: Seq<Entry>, at: int)
    requires
        0 <= at < entries.len(),
    ensures
        exact_total(entries) == exact_total(entries.remove(at)) + entries[at].amount@.units(),
    decreases entries.len(),
{
    if at == entries.len() - 1 {
        assert(entries.remove(at) =~= entries.drop_last());
    } else {
        lemma_exact_total_remove(entries.drop_last(), at);
        assert(entries.remove(at).drop_last() =~= entries.drop_last().remove(at));
        assert(entries.remove(at).last() == entries.last());
        assert(entries.drop_last()[at] == entries[at]);
    }
}

/// The magnitudes of a ledger added up are those without one entry, and that
/// entry's magnitude.
proof fn lemma_weight_remove(entries: Seq<Entry>, cap: nat, at: int)
    requires
        0 <= at < entries.len(),
    ensures
        weight(entries, cap) == weight(entries.remove(at), cap) + magnitude(
            entries[at].amount@.at_scale(cap),
        ),
    decreases entries.len(),
{
    if at == entries.len() - 1 {
        assert(entries.remove(at) =~= entries.drop_last());
    } else {
        lemma_weight_remove(entries.drop_last(), cap, at);
        assert(entries.remove(at).drop_last() =~= entries.drop_last().remove(at));
        assert(entries.remove(at).last() == entries.last());
        assert(entries.drop_last()[at] == entries[at]);
    }
}

/// The exact sum of a ledger does not depend on the order of its entries: two
/// ledgers that hold the same entries, each as often as the other, have the
/// same exact sum.
pub proof fn lemma_exact_total_any_order(a: Seq<Entry>, b: Seq<Entry>)
    requires
        a.to_multiset() == b.to_multiset(),
    ensures
        exact_total(a) == exact_total(b),
    decreases a.len(),
{
    to_multiset_len(a);
    to_multiset_len(b);
    if a.len() > 0 {
        let last = a.len() - 1;
        let x = a[last];
        to_multiset_contains(a, x);
        to_multiset_contains(b, x);
        assert(a.contains(x));
        let at = choose|at: int| 0 <= at < b.len() && b[at] == x;
        to_multiset_remove(a, last);
        to_multiset_remove(b, at);
        lemma_exact_total_any_order(a.remove(last), b.remove(at));
        lemma_exact_total_remove(a, last);
        lemma_exact_total_remove(b, at);
    }
}

/// Whether a ledger is modest does not depend on the order of its entries.
pub proof fn lemma_modest_any_order(a: Seq<Entry>, b: Seq<Entry>)
    requires
        a.to_multiset() == b.to_multiset(),
        modest(a),
    ensures
        modest(b),
{
    let cap = choose|cap: nat| modest_at(a, cap);
    lemma_weight_any_order(a, b, cap);
    assert forall|i: int| 0 <= i < b.len() implies (#[trigger] b[i]).amount@.scale <= cap by {
        to_multiset_contains(a, b[i]);
        to_multiset_contains(b, b[i]);
        assert(b.contains(b[i]));
        let k = choose|k: int| 0 <= k < a.len() && a[k] == b[i];
        assert(a[k].amount@.scale <= cap);
    }
    assert(modest_at(b, cap));
}

proof fn lemma_weight_any_order(a: Seq<Entry>, b: Seq<Entry>, cap: nat)
    requires
        a.to_multiset() == b.to_multiset(),
    ensures
        weight(a, cap) == weight(b, cap),
    decreases a.len(),
{
    to_multiset_len(a);
    to_multiset_len(b);
    if a.len() > 0 {
        let last = a.len() - 1;
        let x = a[last];
        to_multiset_contains(a, x);
        to_multiset_contains(b, x);
        assert(a.contains(x));
        let at = choose|at: int| 0 <= at < b.len() && b[at] == x;
        to_multiset_remove(a, last);
        to_multiset_remove(b, at);
        lemma_weight_any_order(a.remove(last), b.remove(at), cap);
        lemma_weight_remove(a, cap, last);
        lemma_weight_remove(b, cap, at);
    }
}

/// The total of a ledger does not depend on the order of its entries where
/// it is exact, as it is for every modest ledger: two ledgers that hold the
/// same entries have totals that stand for the same number.
pub proof fn lemma_total_any_order(a: Seq<Entry>, b: Seq<Entry>)
    requires
        a.to_multiset() == b.to_multiset(),
        sum_is_exact(a),
        sum_is_exact(b),
    ensures
        total_of(a)->0.units() == total_of(b)->0.units(),
{
    lemma_exact_total_any_order(a, b);
}

/// In a modest ledger the sum so far and the next amount add exactly.
proof fn lemma_next_adds_exactly(entries: Seq<Entry>, cap: nat, n: int, sum: crate::amount::AmountView)
    requires
        modest_at(entries, cap),
        0 <= n < entries.len(),
        sum.scale <= cap,
        sum.at_scale(cap) == exact_at(entries.take(n), cap),
    ensures
        adds_exactly(sum, entries[n].amount@),
        entries[n].amount@.scale <= cap,
{
    let next = entries[n].amount@;
    let scale = finer(sum.scale, next.scale);
    lemma_weight_bounds(entries, cap, n);
    lemma_weight_bounds(entries, cap, n + 1);
    assert(entries.take(n + 1).drop_last() =~= entries.take(n));
    assert(entries.take(n + 1).last() == entries[n]);
    // Each mantissa is no greater than it is at the greater scale.
    lemma_pow10_positive((cap - sum.scale) as nat);
    lemma_pow10_positive((cap - next.scale) as nat);
    lemma_magnitude_grows(sum.mantissa, pow10((cap - sum.scale) as nat));
    lemma_magnitude_grows(next.mantissa, pow10((cap - next.scale) as nat));
    // The sum at the greater of the two scales, brought to `cap`, is the sum
    // at `cap`.
    lemma_at_scale_step(sum, scale, cap);
    lemma_at_scale_step(next, scale, cap);
    let q = pow10((cap - scale) as nat);
    lemma_pow10_positive((cap - scale) as nat);
    assert((sum.at_scale(scale) + next.at_scale(scale)) * q == sum.at_scale(scale) * q
        + next.at_scale(scale) * q) by (nonlinear_arith);
    lemma_magnitude_grows(sum.at_scale(scale) + next.at_scale(scale), q);
}

/// A sum that is exact in units is exact at a scale that all three amounts
/// can be written at.
proof fn lemma_sum_at_scale(
    a: crate::amount::AmountView,
    b: crate::amount::AmountView,
    r: crate::amount::AmountView,
    cap: nat,
)
    requires
        cap <= MAX_SCALE,
        a.scale <= cap,
        b.scale <= cap,
        r.scale <= cap,
        r.units() == a.units() + b.units(),
    ensures
        r.at_scale(cap) == a.at_scale(cap) + b.at_scale(cap),
{
    let p = pow10((MAX_SCALE - cap) as nat);
    lemma_pow10_positive((MAX_SCALE - cap) as nat);
    lemma_units_at_scale(a, cap);
    lemma_units_at_scale(b, cap);
    lemma_units_at_scale(r, cap);
    assert(r.at_scale(cap) == a.at_scale(cap) + b.at_scale(cap)) by (nonlinear_arith)
        requires
            p >= 1,
            r.at_scale(cap) * p == a.at_scale(cap) * p + b.at_scale(cap) * p,
    ;
}

/// The sum of the amounts of `entries`, or `None` if it is out of range. Of a
/// modest ledger the sum is there and exact.
pub fn sum_amounts(entries: &Vec<Entry>) -> (r: Option<Amount>)
    ensures
        amount_view(r) == total_of(entries@),
        modest(entries@) ==> sum_is_exact(entries@),
{
    let ghost cap = choose|cap: nat| modest_at(entries@, cap);
    let mut sum = Amount::zero();
    let mut i: usize = 0;
    proof {
        assert(sum@.at_scale(cap) == 0) by {
            assert(0 * pow10((cap - 0) as nat) == 0);
        }
    }
    while i < entries.len()
        invariant
            i <= entries.len(),
            Some(sum@) == total_of(entries@.take(i as int)),
            modest(entries@) ==> modest_at(entries@, cap),
            modest_at(entries@, cap) ==> sum@.scale <= cap && sum@.at_scale(cap) == exact_at(
                entries@.take(i as int),
                cap,
            ),
        decreases entries.len() - i,
    {
        proof {
            if modest_at(entries@, cap) {
                lemma_next_adds_exactly(entries@, cap, i as int, sum@);
            }
        }
        let next = sum.checked_add(&entries[i].amount);
        proof {
            assert(entries@.take(i + 1).drop_last() =~= entries@.take(i as int));
            assert(entries@.take(i + 1).last() == entries@[i as int]);
        }
        match next {
            Some(s) => {
                proof {
                    if modest_at(entries@, cap) {
                        lemma_sum_at_scale(sum@, entries@[i as int].amount@, s@, cap);
                    }
                }
                sum = s;
            },
            None => {
                proof {
                    lemma_total_stays_absent(entries@, i + 1);
                }
                return None;
            },
        }
        i = i + 1;
    }
    proof {
        assert(entries@.take(i as int) =~= entries@);
        if modest(entries@) {
            lemma_exact_total_at(entries@, cap);
            lemma_units_at_scale(sum@, cap);
        }
    }
    Some(sum)
}

/// Once the sum of a beginning of `entries` is out of range, so is the sum of
/// all of them.
proof fn lemma_total_stays_absent(entries: Seq<Entry>, n: int)
    requires
        0 <= n <= entries.len(),
        total_of(entries.take(n)) is None,
    ensures
        total_of(entries) is None,
    decreases entries.len() - n,
{
    if n < entries.len() {
        assert(entries.take(n + 1).drop_last() =~= entries.take(n));
        lemma_total_stays_absent(entries, n + 1);
    } else {
        assert(entries.take(n) =~= entries);
    }
}

/// Whether two entries are the same record: the same date text, and amounts
/// that stand for the same number.
pub open spec fn same_record(a: Entry, b: Entry) -> bool {
    a.date@ == b.date@ && a.amount@.units() == b.amount@.units()
}

/// Whether `entries` holds no record that is the same as `wanted`.
pub open spec fn no_record(entries: Seq<Entry>, wanted: Entry) -> bool {
    forall|i: int| 0 <= i < entries.len() ==> !same_record(#[trigger] entries[i], wanted)
}

/// Puts `replacement` in the place of the first entry that is the same record
/// as `target`, and says whether there was one. Entries that are the same
/// record cannot be told apart: it is always the first that is replaced. A
/// ledger whose dates all read as dates stays one if the replacement's does.
pub fn replace_first_match(entries: &mut Vec<Entry>, target: &Entry, replacement: Entry) -> (found:
    bool)
    ensures
        found ==> exists|at: int|
            {
                &&& 0 <= at < old(entries).len()
                &&& same_record(#[trigger] old(entries)[at], *target)
                &&& no_record(old(entries)@.take(at), *target)
                &&& final(entries)@ == old(entries)@.update(at, replacement)
            },
        !found ==> no_record(old(entries)@, *target) && final(entries)@ == old(entries)@,
        all_dated(old(entries)@) && naive_date_from_str(replacement.date@) is Some ==> all_dated(
            final(entries)@,
        ),
{
    let mut i: usize = 0;
    while i < entries.len()
        invariant
            i <= entries.len(),
            entries@ == old(entries)@,
            no_record(entries@.take(i as int), *target),
        decreases entries.len() - i,
    {
        if entries[i].date == target.date && entries[i].amount.same_value(&target.amount) {
            let ghost before = entries@;
            entries.set(i, replacement);
            assert(same_record(before[i as int], *target));
            return true;
        }
        assert(!same_record(entries@[i as int], *target));
        assert forall|k: int| 0 <= k < i + 1 implies !same_record(
            #[trigger] entries@.take(i + 1)[k],
            *target,
        ) by {
            if k < i {
                assert(entries@.take(i as int)[k] == entries@[k]);
            }
        }
        i = i + 1;
    }
    assert(entries@.take(i as int) =~= entries@);
    false
}

/// What adding an entry did to the total of a ledger.
#[derive(Debug)]
pub struct NewEntryInfo {
    pub total_before: Amount,
    pub total_after: Amount,
}

/// Adds an entry of the given date and amount to the end of `entries` and
/// says what that did to the total. The date is written so that it reads back:
/// a ledger whose dates all read as dates stays one.
///
/// Fails with [`AppError::AmountOverflow`], leaving `entries` as it is,
/// exactly when the total before or after is out of range.
pub fn add_entry(entries: &mut Vec<Entry>, date: Date, amount: Amount) -> (r: Result<
    NewEntryInfo,
    AppError,
>)
    ensures
        match r {
            Ok(info) => {
                &&& final(entries).len() == old(entries).len() + 1
                &&& final(entries)@.drop_last() == old(entries)@
                &&& final(entries)@.last().date@ == date@.iso_text()
                &&& final(entries)@.last().amount@ == amount@
                &&& Some(info.total_before@) == total_of(old(entries)@)
                &&& Some(info.total_after@) == total_of(final(entries)@)
                &&& all_dated(old(entries)@) ==> all_dated(final(entries)@)
            },
            Err(error) => {
                &&& error is AmountOverflow
                &&& final(entries)@ == old(entries)@
                &&& added(total_of(old(entries)@), amount@) is None
            },
        },
{
    let total_before = match sum_amounts(entries) {
        Some(total) => total,
        None => {
            return Err(AppError::AmountOverflow);
        },
    };
    let total_after = match total_before.checked_add(&amount) {
        Some(total) => total,
        None => {
            return Err(AppError::AmountOverflow);
        },
    };
    entries.push(Entry { date: date.to_iso(), amount });
    assert(entries@.drop_last() =~= old(entries)@);
    Ok(NewEntryInfo { total_before, total_after })
}

/// One line of a report: a label and a value, each right-aligned in its
/// column, the value's column beginning with a blank.
pub open spec fn report_line(label: Seq<char>, value: Seq<char>, label_width: nat, value_width: nat) -> Seq<
    char,
> {
    padded_left(label, ' ', label_width) + seq![' '] + padded_left(value, ' ', value_width) + seq![
        '\n',
    ]
}

/// The greater of two numbers.
pub open spec fn larger(a: nat, b: nat) -> nat {
    if a >= b {
        a
    } else {
        b
    }
}

/// A [`NewEntryInfo`] together with the options under which it is written
/// out.
#[derive(Debug)]
pub struct NewEntryInfoDisplay<'a> {
    pub info: &'a NewEntryInfo,
    pub options: FormatOptions,
}

impl NewEntryInfo {
    /// The three lines that tell of a new entry, right-aligned to the longest:
    /// the total before, the change, and the total after under the word
    /// `Total:`. Absent where the change is out of range.
    pub open spec fn text(&self, options: FormatOptions) -> Option<Seq<char>> {
        match decimal_checked_sub(
            self.total_after@.mantissa,
            self.total_after@.scale,
            self.total_before@.mantissa,
            self.total_before@.scale,
        ) {
            Some((mantissa, scale)) => {
                let before = formatted_amount(self.total_before@, options);
                let change = formatted_amount(AmountView { mantissa, scale }, options);
                let after = "Total: "@ + formatted_amount(self.total_after@, options);
                let width = larger(larger(before.len(), change.len()), after.len());
                Some(
                    padded_left(before, ' ', width) + seq!['\n'] + padded_left(change, ' ', width)
                        + seq!['\n'] + padded_left(after, ' ', width) + seq!['\n'],
                )
            },
            None => None,
        }
    }

    /// This info, to be written out under `options`.
    pub fn display(&self, options: FormatOptions) -> (r: NewEntryInfoDisplay<'_>)
        ensures
            *r.info == *self,
            r.options == options,
    {
        NewEntryInfoDisplay { info: self, options }
    }
}

impl NewEntryInfoDisplay<'_> {
    /// The three lines that tell of a new entry.
    ///
    /// Fails with [`AppError::AmountOverflow`] exactly when the change is out
    /// of range.
    pub fn render(&self) -> (r: Result<String, AppError>)
        ensures
            match r {
                Ok(text) => Some(text@) == self.info.text(self.options),
                Err(error) => error is AmountOverflow && self.info.text(self.options) is None,
            },
    {
        let change = match self.info.total_after.checked_sub(&self.info.total_before) {
            Some(change) => change,
            None => {
                return Err(AppError::AmountOverflow);
            },
        };
        let before_line = self.info.total_before.format(&self.options);
        let change_line = change.format(&self.options);
        let mut after_line = String::from_str("Total: ");
        after_line.append(self.info.total_after.format(&self.options).as_str());
        let a = before_line.as_str().unicode_len();
        let b = change_line.as_str().unicode_len();
        let c = after_line.as_str().unicode_len();
        let ab = if a >= b { a } else { b };
        let width = if ab >= c { ab } else { c };
        let mut out = pad_left(before_line.as_str(), width);
        out.push('\n');
        out.append(pad_left(change_line.as_str(), width).as_str());
        out.push('\n');
        out.append(pad_left(after_line.as_str(), width).as_str());
        out.push('\n');
        assert(Some(out@) =~= self.info.text(self.options));
        Ok(out)
    }
}

/// Whether the text `text` begins with `prefix`.
pub fn starts_with(text: &str, prefix: &str) -> (r: bool)
    ensures
        r == prefix@.is_prefix_of(text@),
{
    let n = prefix.unicode_len();
    if n > text.unicode_len() {
        return false;
    }
    let mut i: usize = 0;
    while i < n
        invariant
            i <= n,
            n == prefix@.len(),
            n <= text@.len(),
            prefix@.take(i as int) == text@.take(i as int),
        decreases n - i,
    {
        if prefix.get_char(i) != text.get_char(i) {
            assert(prefix@[i as int] != text@.subrange(0, n as int)[i as int]);
            return false;
        }
        assert(prefix@.take(i + 1) =~= prefix@.take(i as int).push(prefix@[i as int]));
        assert(text@.take(i + 1) =~= text@.take(i as int).push(text@[i as int]));
        i = i + 1;
    }
    assert(prefix@.take(n as int) =~= prefix@);
    assert(text@.take(n as int) =~= text@.subrange(0, n as int));
    true
}

/// The entries of `entries` whose date text begins with `prefix`, in their
/// order.
pub open spec fn with_prefix(entries: Seq<Entry>, prefix: Seq<char>) -> Seq<Entry>
    decreases entries.len(),
{
    if entries.len() == 0 {
        Seq::empty()
    } else if prefix.is_prefix_of(entries.last().date@) {
        with_prefix(entries.drop_last(), prefix).push(entries.last())
    } else {
        with_prefix(entries.drop_last(), prefix)
    }
}

/// The entries of a ledger, or of a part of it, in the order of their dates.
#[derive(Debug)]
pub struct Report {
    /// What the dates of the entries begin with, where the report is of a
    /// part of the ledger.
    pub filter: Option<String>,
    pub entries: Vec<Entry>,
}

/// The report of those entries of a ledger whose date begins with
/// `date_filter`, in the order of their dates.
///
/// Fails with [`AppError::FilteredNoEntries`], naming the filter, exactly when
/// there is no such entry.
pub fn generate_report(entries: Vec<Entry>, date_filter: &str) -> (r: Result<Report, AppError>)
    ensures
        match r {
            Ok(report) => {
                &&& with_prefix(entries@, date_filter@).len() > 0
                &&& report.filter is Some
                &&& report.filter->0@ == date_filter@
                &&& is_sorted_ledger(report.entries@, with_prefix(entries@, date_filter@))
            },
            Err(AppError::FilteredNoEntries(named)) => {
                &&& with_prefix(entries@, date_filter@).len() == 0
                &&& named@ == date_filter@
            },
            Err(_) => false,
        },
{
    let mut chosen: Vec<Entry> = Vec::new();
    let mut i: usize = 0;
    while i < entries.len()
        invariant
            i <= entries.len(),
            chosen@ == with_prefix(entries@.take(i as int), date_filter@),
        decreases entries.len() - i,
    {
        proof {
            assert(entries@.take(i + 1).drop_last() =~= entries@.take(i as int));
            assert(entries@.take(i + 1).last() == entries@[i as int]);
        }
        if starts_with(entries[i].date.as_str(), date_filter) {
            chosen.push(entries[i].clone());
        }
        i = i + 1;
    }
    assert(entries@.take(i as int) =~= entries@);
    if chosen.len() == 0 {
        return Err(AppError::FilteredNoEntries(String::from_str(date_filter)));
    }
    Ok(Report { filter: Some(String::from_str(date_filter)), entries: sort_by_date(chosen) })
}

/// The report of all entries of a ledger, in the order of their dates.
///
/// Fails with [`AppError::NoEntries`] exactly when the ledger is empty.
pub fn generate_report_for_all(entries: Vec<Entry>) -> (r: Result<Report, AppError>)
    ensures
        match r {
            Ok(report) => {
                &&& entries.len() > 0
                &&& report.filter is None
                &&& is_sorted_ledger(report.entries@, entries@)
            },
            Err(error) => error is NoEntries && entries.len() == 0,
        },
{
    if entries.len() == 0 {
        return Err(AppError::NoEntries);
    }
    Ok(Report { filter: None, entries: sort_by_date(entries) })
}

/// The label of an entry's line in a report: its date and a colon.
pub open spec fn row_label(entry: Entry) -> Seq<char> {
    entry.date@ + seq![':']
}

/// The label of the last line of a report.
pub open spec fn total_label(filter: Option<String>) -> Seq<char> {
    match filter {
        Some(named) => "Total amount for filter '"@ + named@ + "':"@,
        None => "Total amount:"@,
    }
}

/// The length of the longest label among the lines of `entries`, and at least
/// `least`.
pub open spec fn label_width(entries: Seq<Entry>, least: nat) -> nat
    decreases entries.len(),
{
    if entries.len() == 0 {
        least
    } else {
        larger(label_width(entries.drop_last(), least), row_label(entries.last()).len())
    }
}

/// The length of the longest formatted amount among the lines of `entries`,
/// and at least `least`.
pub open spec fn value_width(entries: Seq<Entry>, options: FormatOptions, least: nat) -> nat
    decreases entries.len(),
{
    if entries.len() == 0 {
        least
    } else {
        larger(
            value_width(entries.drop_last(), options, least),
            formatted_amount(entries.last().amount@, options).len(),
        )
    }
}

/// The lines of `entries` in a report whose columns are `labels` and `values`
/// wide.
pub open spec fn report_rows(entries: Seq<Entry>, options: FormatOptions, labels: nat, values: nat) -> Seq<
    char,
>
    decreases entries.len(),
{
    if entries.len() == 0 {
        Seq::empty()
    } else {
        report_rows(entries.drop_last(), options, labels, values) + report_line(
            row_label(entries.last()),
            formatted_amount(entries.last().amount@, options),
            labels,
            values,
        )
    }
}

impl Report {
    /// The report as text: a line for each entry, with its date and its
    /// formatted amount, and a last line with the total; labels and amounts
    /// right-aligned, each column as wide as its longest text. Absent where
    /// the total is out of range.
    pub open spec fn text(&self, options: FormatOptions) -> Option<Seq<char>> {
        match total_of(self.entries@) {
            Some(total) => {
                let last_label = total_label(self.filter);
                let last_value = formatted_amount(total, options);
                let labels = label_width(self.entries@, last_label.len());
                let values = value_width(self.entries@, options, last_value.len());
                Some(
                    report_rows(self.entries@, options, labels, values) + report_line(
                        last_label,
                        last_value,
                        labels,
                        values,
                    ),
                )
            },
            None => None,
        }
    }

    /// This report, to be written out under `options`.
    pub fn display(&self, options: FormatOptions) -> (r: ReportDisplay<'_>)
        ensures
            *r.report == *self,
            r.options == options,
    {
        ReportDisplay { report: self, options }
    }
}

/// A [`Report`] together with the options under which it is written out.
#[derive(Debug)]
pub struct ReportDisplay<'a> {
    pub report: &'a Report,
    pub options: FormatOptions,
}

impl ReportDisplay<'_> {
    /// The report as text.
    ///
    /// Fails with [`AppError::AmountOverflow`] exactly when the total is out
    /// of range.
    pub fn render(&self) -> (r: Result<String, AppError>)
        ensures
            match r {
                Ok(text) => Some(text@) == self.report.text(self.options),
                Err(error) => error is AmountOverflow && self.report.text(self.options) is None,
            },
    {
        let total = match sum_amounts(&self.report.entries) {
            Some(total) => total,
            None => {
                return Err(AppError::AmountOverflow);
            },
        };
        let last_label = match &self.report.filter {
            Some(named) => {
                let mut label = String::from_str("Total amount for filter '");
                label.append(named.as_str());
                label.append("':");
                label
            },
            None => String::from_str("Total amount:"),
        };
        let last_value = total.format(&self.options);
        let mut labels = last_label.as_str().unicode_len();
        let mut values = last_value.as_str().unicode_len();
        let mut i: usize = 0;
        while i < self.report.entries.len()
            invariant
                i <= self.report.entries.len(),
                labels == label_width(self.report.entries@.take(i as int), last_label@.len()),
                values == value_width(self.report.entries@.take(i as int), self.options, last_value@.len()),
            decreases self.report.entries.len() - i,
        {
            proof {
                assert(self.report.entries@.take(i + 1).drop_last() =~= self.report.entries@.take(i as int));
                assert(self.report.entries@.take(i + 1).last() == self.report.entries@[i as int]);
            }
            let mut label = self.report.entries[i].date.clone();
            label.push(':');
            let label_length = label.as_str().unicode_len();
            let value_length = self.report.entries[i].amount.format(&self.options).as_str().unicode_len();
            if label_length > labels {
                labels = label_length;
            }
            if value_length > values {
                values = value_length;
            }
            i = i + 1;
        }
        assert(self.report.entries@.take(i as int) =~= self.report.entries@);
        let mut out = String::new();
        let mut i: usize = 0;
        while i < self.report.entries.len()
            invariant
                i <= self.report.entries.len(),
                out@ == report_rows(
                    self.report.entries@.take(i as int),
                    self.options,
                    labels as nat,
                    values as nat,
                ),
            decreases self.report.entries.len() - i,
        {
            proof {
                assert(self.report.entries@.take(i + 1).drop_last() =~= self.report.entries@.take(i as int));
                assert(self.report.entries@.take(i + 1).last() == self.report.entries@[i as int]);
            }
            let mut label = self.report.entries[i].date.clone();
            label.push(':');
            push_report_line(
                &mut out,
                label.as_str(),
                self.report.entries[i].amount.format(&self.options).as_str(),
                labels,
                values,
            );
            i = i + 1;
        }
        assert(self.report.entries@.take(i as int) =~= self.report.entries@);
        push_report_line(&mut out, last_label.as_str(), last_value.as_str(), labels, values);
        Ok(out)
    }
}

fn push_report_line(out: &mut String, label: &str, value: &str, labels: usize, values: usize)
    ensures
        final(out)@ == old(out)@ + report_line(label@, value@, labels as nat, values as nat),
{
    out.append(pad_left(label, labels).as_str());
    out.push(' ');
    out.append(pad_left(value, values).as_str());
    out.push('\n');
    assert(out@ =~= old(out)@ + report_line(label@, value@, labels as nat, values as nat));
}

} // verus!

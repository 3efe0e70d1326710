//! The view of one ledger: its entries grouped by year, with the total, the
//! subtotal of each year and a display row for each entry.

use vstd::prelude::*;
use crate::date::naive_date_from_str;
use crate::date::Date;
use crate::number_formatter::formatted_amount;
use crate::number_formatter::FormatOptions;
use crate::number_formatter::NumberFormatter;
use crate::text::i32_text;
use crate::text::int_text;
use crate::all_dated;
use crate::modest;
use crate::modest_at;
use crate::weight;
use crate::exact_total;
use crate::sum_is_exact;
use crate::AppError;
use crate::Entry;
use crate::day_month_text;
use crate::sum_amounts;
use crate::total_of;
use crate::year_of;

verus! {

/// One year of a ledger.
#[derive(Debug)]
pub struct YearReportViewModel {
    /// The year.
    pub year: i32,
    /// The year as text.
    pub title: String,
    /// The formatted sum of the year's amounts.
    pub subtotal_amount: String,
    /// One row for each entry: its day and its formatted amount.
    pub lines: Vec<(String, String)>,
    /// The entries of the year, in the order of the ledger.
    pub entries: Vec<Entry>,
}

/// One ledger, year by year.
#[derive(Debug)]
pub struct ReportViewModel {
    /// The ledger's name.
    pub title: String,
    /// The formatted sum of all amounts.
    pub total: String,
    /// The years that have entries, in ascending order.
    pub year_reports: Vec<YearReportViewModel>,
}

/// The entries of `entries` that lie in `year`, in their order.
pub open spec fn in_year(entries: Seq<Entry>, year: int) -> Seq<Entry>
    decreases entries.len(),
{
    if entries.len() == 0 {
        Seq::empty()
    } else if year_of(entries.last().date@) == Some(year) {
        in_year(entries.drop_last(), year).push(entries.last())
    } else {
        in_year(entries.drop_last(), year)
    }
}

/// Whether the total of `entries` and the subtotal of each of its years are in
/// range.
pub open spec fn sums_in_range(entries: Seq<Entry>) -> bool {
    &&& total_of(entries) is Some
    &&& forall|year: int| (#[trigger] total_of(in_year(entries, year))) is Some
}

impl YearReportViewModel {
    /// Whether this is the report of its year over the ledger `entries`.
    pub open spec fn describes(&self, entries: Seq<Entry>, options: FormatOptions) -> bool {
        &&& self.title@ == int_text(self.year as int)
        &&& self.entries@ == in_year(entries, self.year as int)
        &&& self.entries.len() > 0
        &&& total_of(self.entries@) is Some
        &&& self.subtotal_amount@ == formatted_amount(total_of(self.entries@)->0, options)
        &&& self.rows_match(options)
    }

    /// Whether there is one row for each entry, showing its day and its
    /// formatted amount.
    pub open spec fn rows_match(&self, options: FormatOptions) -> bool {
        &&& self.lines.len() == self.entries.len()
        &&& forall|k: int|
            0 <= k < self.lines.len() ==> {
                &&& (#[trigger] self.lines[k]).0@ == day_month_text(self.entries[k].date@)
                &&& self.lines[k].1@ == formatted_amount(self.entries[k].amount@, options)
            }
    }
}

impl ReportViewModel {
    /// Whether every year has as many rows as entries.
    pub open spec fn well_formed(&self) -> bool {
        forall|i: int|
            0 <= i < self.year_reports.len() ==> (#[trigger] self.year_reports[i]).lines.len()
                == self.year_reports[i].entries.len()
    }

    /// Whether every year has as many rows as entries.
    pub fn is_well_formed(&self) -> (r: bool)
        ensures
            r == self.well_formed(),
    {
        let mut i: usize = 0;
        while i < self.year_reports.len()
            invariant
                i <= self.year_reports.len(),
                forall|k: int|
                    0 <= k < i ==> (#[trigger] self.year_reports[k]).lines.len()
                        == self.year_reports[k].entries.len(),
            decreases self.year_reports.len() - i,
        {
            if self.year_reports[i].lines.len() != self.year_reports[i].entries.len() {
                return false;
            }
            i = i + 1;
        }
        true
    }

    /// Whether the years stand in strictly ascending order.
    pub open spec fn years_ascending(&self) -> bool {
        forall|i: int, j: int|
            0 <= i < j < self.year_reports.len() ==> (#[trigger] self.year_reports[i]).year < (
            #[trigger] self.year_reports[j]).year
    }

    /// Whether the sums of this view of `entries` are what arithmetic gives:
    /// the total stands for the exact sum of all amounts, each subtotal for
    /// the exact sum of its year, and the subtotals add up to the total.
    pub open spec fn adds_up(&self, entries: Seq<Entry>) -> bool {
        &&& sum_is_exact(entries)
        &&& forall|i: int|
            0 <= i < self.year_reports.len() ==> sum_is_exact(
                (#[trigger] self.year_reports[i]).entries@,
            )
        &&& subtotal_units(self.year_reports@) == exact_total(entries)
    }

    /// Whether this is the view of the ledger `entries` under the name `title`:
    /// the formatted total, and the report of each year that has an entry, in
    /// ascending order.
    pub open spec fn describes(&self, title: Seq<char>, entries: Seq<Entry>, options: FormatOptions) -> bool {
        &&& self.title@ == title
        &&& total_of(entries) is Some
        &&& self.total@ == formatted_amount(total_of(entries)->0, options)
        &&& self.years_ascending()
        &&& forall|i: int|
            0 <= i < self.year_reports.len() ==> (#[trigger] self.year_reports[i]).describes(
                entries,
                options,
            )
        &&& forall|k: int|
            0 <= k < entries.len() ==> exists|i: int|
                0 <= i < self.year_reports.len() && Some((#[trigger] self.year_reports[i]).year as int)
                    == year_of(#[trigger] entries[k].date@)
    }
}

impl Default for ReportViewModel {
    /// The view of no ledger: no name, no total, no years.
    fn default() -> (r: Self)
        ensures
            r.title@.len() == 0,
            r.total@.len() == 0,
            r.year_reports.len() == 0,
            r.well_formed(),
    {
        ReportViewModel { title: String::new(), total: String::new(), year_reports: Vec::new() }
    }
}

/// The year and the row label of each entry, or the index of the first entry
/// whose text holds no date.
fn entry_years(entries: &Vec<Entry>) -> (r: Result<(Vec<i32>, Vec<String>), usize>)
    ensures
        match r {
            Ok((years, labels)) => {
                &&& all_dated(entries@)
                &&& dated(entries@, years@, labels@)
            },
            Err(at) => {
                &&& at < entries.len()
                &&& naive_date_from_str(entries[at as int].date@) is None
                &&& all_dated(entries@.take(at as int))
            },
        },
{
    let mut years: Vec<i32> = Vec::new();
    let mut labels: Vec<String> = Vec::new();
    let mut i: usize = 0;
    while i < entries.len()
        invariant
            i <= entries.len(),
            forall|j: int| 0 <= j < i ==> (#[trigger] naive_date_from_str(entries[j].date@)) is Some,
            dated(entries@.take(i as int), years@, labels@),
        decreases entries.len() - i,
    {
        match Date::parse(entries[i].date.as_str()) {
            Some(date) => {
                years.push(date.year());
                labels.push(date.to_month_day());
            },
            None => {
                assert(all_dated(entries@.take(i as int)));
                return Err(i);
            },
        }
        i = i + 1;
    }
    assert(entries@.take(i as int) =~= entries@);
    Ok((years, labels))
}

/// Whether `years` and `labels` hold the year and the row label of each entry.
pub open spec fn dated(entries: Seq<Entry>, years: Seq<i32>, labels: Seq<String>) -> bool {
    &&& years.len() == entries.len()
    &&& labels.len() == entries.len()
    &&& forall|i: int|
        0 <= i < entries.len() ==> Some(#[trigger] years[i] as int) == year_of(entries[i].date@)
    &&& forall|i: int|
        0 <= i < entries.len() ==> (#[trigger] labels[i])@ == day_month_text(entries[i].date@)
}

/// Whether `years` stands in strictly ascending order.
pub open spec fn ascending(years: Seq<i32>) -> bool {
    forall|i: int, j: int| 0 <= i < j < years.len() ==> years[i] < years[j]
}

/// The years of `all`, each once, in ascending order.
fn distinct_years(all: &Vec<i32>) -> (years: Vec<i32>)
    ensures
        ascending(years@),
        forall|k: int| 0 <= k < all.len() ==> years@.contains(#[trigger] all[k]),
        forall|i: int| 0 <= i < years.len() ==> all@.contains(#[trigger] years[i]),
{
    let mut years: Vec<i32> = Vec::new();
    let mut n: usize = 0;
    while n < all.len()
        invariant
            n <= all.len(),
            ascending(years@),
            forall|k: int| 0 <= k < n ==> years@.contains(#[trigger] all[k]),
            forall|i: int| 0 <= i < years.len() ==> all@.contains(#[trigger] years[i]),
        decreases all.len() - n,
    {
        let year = all[n];
        let mut at: usize = 0;
        while at < years.len() && years[at] < year
            invariant
                at <= years.len(),
                forall|i: int| 0 <= i < at ==> years[i] < year,
            decreases years.len() - at,
        {
            at = at + 1;
        }
        let ghost before = years@;
        if at < years.len() && years[at] == year {
            assert(years@.contains(year));
        } else {
            years.insert(at, year);
            assert(years@[at as int] == year);
            assert forall|k: int| 0 <= k < n + 1 implies years@.contains(#[trigger] all[k]) by {
                if k < n {
                    let i = choose|i: int| 0 <= i < before.len() && before[i] == all[k];
                    if i < at {
                        assert(years@[i] == all[k]);
                    } else {
                        assert(years@[i + 1] == all[k]);
                    }
                }
            }
            assert forall|i: int| 0 <= i < years.len() implies all@.contains(#[trigger] years[i]) by {
                if i < at {
                    assert(years@[i] == before[i]);
                } else if i == at {
                    assert(all@[n as int] == year);
                } else {
                    assert(years@[i] == before[i - 1]);
                }
            }
        }
        n = n + 1;
    }
    years
}

/// A ledger with an entry in `year` has something to show for it.
proof fn lemma_in_year_nonempty(entries: Seq<Entry>, year: int, k: int)
    requires
        0 <= k < entries.len(),
        year_of(entries[k].date@) == Some(year),
    ensures
        in_year(entries, year).len() > 0,
    decreases entries.len(),
{
    if k < entries.len() - 1 {
        lemma_in_year_nonempty(entries.drop_last(), year, k);
    }
}

/// A ledger without an entry in `year` has nothing to show for it.
proof fn lemma_in_year_empty(entries: Seq<Entry>, year: int)
    requires
        forall|k: int| 0 <= k < entries.len() ==> year_of(#[trigger] entries[k].date@) != Some(year),
    ensures
        in_year(entries, year).len() == 0,
    decreases entries.len(),
{
    if entries.len() > 0 {
        assert(year_of(entries[entries.len() - 1].date@) != Some(year));
        assert forall|k: int| 0 <= k < entries.drop_last().len() implies year_of(
            #[trigger] entries.drop_last()[k].date@,
        ) != Some(year) by {
            assert(entries.drop_last()[k] == entries[k]);
        }
        lemma_in_year_empty(entries.drop_last(), year);
    }
}

/// The entries of one year of a modest ledger are a modest ledger.
proof fn lemma_in_year_modest(entries: Seq<Entry>, year: int, cap: nat)
    requires
        modest_at(entries, cap),
    ensures
        modest_at(in_year(entries, year), cap),
        weight(in_year(entries, year), cap) <= weight(entries, cap),
    decreases entries.len(),
{
    if entries.len() > 0 {
        let rest = entries.drop_last();
        assert forall|i: int| 0 <= i < rest.len() implies (#[trigger] rest[i]).amount@.scale
            <= cap by {
            assert(rest[i] == entries[i]);
        }
        lemma_in_year_modest(rest, year, cap);
        let picked = in_year(entries, year);
        assert(entries[entries.len() - 1].amount@.scale <= cap);
        if year_of(entries.last().date@) == Some(year) {
            assert(picked.drop_last() =~= in_year(rest, year));
            assert forall|i: int| 0 <= i < picked.len() implies (#[trigger] picked[i]).amount@.scale
                <= cap by {
                if i < picked.len() - 1 {
                    assert(picked[i] == in_year(rest, year)[i]);
                }
            }
        }
    }
}

/// The report of `year` over the ledger `entries`.
fn year_report(
    entries: &Vec<Entry>,
    years: &Vec<i32>,
    labels: &Vec<String>,
    year: i32,
    options: &FormatOptions,
) -> (r: Option<YearReportViewModel>)
    requires
        dated(entries@, years@, labels@),
        years@.contains(year),
    ensures
        r is None <==> total_of(in_year(entries@, year as int)) is None,
        r is Some ==> r->0.year == year && r->0.describes(entries@, *options),
        modest(entries@) ==> r is Some && sum_is_exact(r->0.entries@),
{
    let mut bucket: Vec<Entry> = Vec::new();
    let mut lines: Vec<(String, String)> = Vec::new();
    let mut i: usize = 0;
    while i < entries.len()
        invariant
            i <= entries.len(),
            dated(entries@, years@, labels@),
            bucket@ == in_year(entries@.take(i as int), year as int),
            lines.len() == bucket.len(),
            forall|k: int|
                0 <= k < lines.len() ==> {
                    &&& (#[trigger] lines[k]).0@ == day_month_text(bucket[k].date@)
                    &&& lines[k].1@ == formatted_amount(bucket[k].amount@, *options)
                },
        decreases entries.len() - i,
    {
        proof {
            assert(entries@.take(i + 1).drop_last() =~= entries@.take(i as int));
            assert(entries@.take(i + 1).last() == entries@[i as int]);
            assert(Some(years[i as int] as int) == year_of(entries[i as int].date@));
        }
        if years[i] == year {
            let entry = entries[i].clone();
            let label = labels[i].clone();
            let amount = entry.amount.format(options);
            bucket.push(entry);
            lines.push((label, amount));
        }
        i = i + 1;
    }
    proof {
        assert(entries@.take(i as int) =~= entries@);
        let k = choose|k: int| 0 <= k < years.len() && years[k] == year;
        assert(Some(years[k] as int) == year_of(entries[k].date@));
        lemma_in_year_nonempty(entries@, year as int, k);
        if modest(entries@) {
            let cap = choose|cap: nat| modest_at(entries@, cap);
            lemma_in_year_modest(entries@, year as int, cap);
        }
    }
    match sum_amounts(&bucket) {
        Some(subtotal) => Some(
            YearReportViewModel {
                year,
                title: i32_text(year),
                subtotal_amount: subtotal.format(options),
                lines,
                entries: bucket,
            },
        ),
        None => None,
    }
}

/// Whether `error` is what stands in the way of a view of `entries`: the
/// first date text that holds no date, or, where all hold one, a sum out of
/// range.
pub open spec fn view_refused(entries: Seq<Entry>, error: AppError) -> bool {
    match error {
        AppError::DateParse { input } => exists|at: int|
            {
                &&& 0 <= at < entries.len()
                &&& all_dated(entries.take(at))
                &&& (#[trigger] naive_date_from_str(entries[at].date@)) is None
                &&& input@ == entries[at].date@
            },
        AppError::AmountOverflow => all_dated(entries) && !sums_in_range(entries),
        _ => false,
    }
}

impl ReportViewModel {
    /// The view of the ledger `entries` under the name `title`.
    ///
    /// Fails with [`AppError::DateParse`] exactly when the text of some entry
    /// holds no date, naming the first such text; otherwise with
    /// [`AppError::AmountOverflow`] exactly when the total or the subtotal of
    /// a year is out of range, which is never so in a modest ledger. There
    /// the sums are what arithmetic gives, in whatever way the entries fall
    /// into years.
    pub fn new(title: &str, entries: &Vec<Entry>, options: &FormatOptions) -> (r: Result<Self, AppError>)
        ensures
            match r {
                Ok(report) => {
                    &&& all_dated(entries@)
                    &&& sums_in_range(entries@)
                    &&& report.describes(title@, entries@, *options)
                    &&& report.well_formed()
                },
                Err(error) => view_refused(entries@, error),
            },
            all_dated(entries@) && modest(entries@) ==> r is Ok,
            modest(entries@) ==> match r {
                Ok(report) => report.adds_up(entries@),
                Err(_) => true,
            },
    {
        let (years, labels) = match entry_years(entries) {
            Ok(found) => found,
            Err(at) => {
                return Err(AppError::DateParse { input: entries[at].date.clone() });
            },
        };
        ReportViewModel::from_dated(title, entries, &years, &labels, options)
    }

    /// The view of the ledger `entries` under the name `title`, where the
    /// dates of the entries have been read: `years` holds the year of each
    /// entry and `labels` its row label.
    ///
    /// Fails with [`AppError::AmountOverflow`] exactly when the total or the
    /// subtotal of a year is out of range, which is never so in a modest
    /// ledger: there the sums are what arithmetic gives.
    pub fn from_dated(
        title: &str,
        entries: &Vec<Entry>,
        years: &Vec<i32>,
        labels: &Vec<String>,
        options: &FormatOptions,
    ) -> (r: Result<Self, AppError>)
        requires
            dated(entries@, years@, labels@),
        ensures
            all_dated(entries@),
            match r {
                Ok(report) => {
                    &&& sums_in_range(entries@)
                    &&& report.describes(title@, entries@, *options)
                    &&& report.well_formed()
                },
                Err(error) => error is AmountOverflow && !sums_in_range(entries@),
            },
            modest(entries@) ==> match r {
                Ok(report) => report.adds_up(entries@),
                Err(_) => false,
            },
    {
        assert(all_dated(entries@)) by {
            assert forall|i: int| 0 <= i < entries.len() implies (#[trigger] naive_date_from_str(
                entries[i].date@,
            )) is Some by {
                assert(Some(years[i] as int) == year_of(entries[i].date@));
            }
        }
        let total = match sum_amounts(entries) {
            Some(total) => total,
            None => {
                return Err(AppError::AmountOverflow);
            },
        };
        let distinct = distinct_years(years);
        let mut year_reports: Vec<YearReportViewModel> = Vec::new();
        let mut n: usize = 0;
        while n < distinct.len()
            invariant
                n <= distinct.len(),
                all_dated(entries@),
                dated(entries@, years@, labels@),
                forall|i: int| 0 <= i < distinct.len() ==> years@.contains(#[trigger] distinct[i]),
                year_reports.len() == n,
                forall|i: int| 0 <= i < n ==> (#[trigger] year_reports[i]).year == distinct[i],
                forall|i: int|
                    0 <= i < n ==> (#[trigger] year_reports[i]).describes(entries@, *options),
                modest(entries@) ==> forall|i: int|
                    0 <= i < n ==> sum_is_exact((#[trigger] year_reports[i]).entries@),
            decreases distinct.len() - n,
        {
            match year_report(entries, years, labels, distinct[n], options) {
                Some(report) => {
                    year_reports.push(report);
                },
                None => {
                    assert(total_of(in_year(entries@, distinct[n as int] as int)) is None);
                    return Err(AppError::AmountOverflow);
                },
            }
            n = n + 1;
        }
        let report = ReportViewModel {
            title: String::from_str(title),
            total: total.format(options),
            year_reports,
        };
        proof {
            assert forall|year: int| (#[trigger] total_of(in_year(entries@, year))) is Some by {
                if exists|i: int| 0 <= i < distinct.len() && distinct[i] == year {
                    let i = choose|i: int| 0 <= i < distinct.len() && distinct[i] == year;
                    assert(report.year_reports[i].describes(entries@, *options));
                } else {
                    assert forall|k: int| 0 <= k < entries.len() implies year_of(
                        #[trigger] entries[k].date@,
                    ) != Some(year) by {
                        assert(Some(years[k] as int) == year_of(entries[k].date@));
                        assert(distinct@.contains(years[k]));
                    }
                    lemma_in_year_empty(entries@, year);
                }
            }
            assert forall|k: int| 0 <= k < entries.len() implies exists|i: int|
                0 <= i < report.year_reports.len() && Some(
                    (#[trigger] report.year_reports[i]).year as int,
                ) == year_of(#[trigger] entries[k].date@) by {
                assert(Some(years[k] as int) == year_of(entries[k].date@));
                assert(distinct@.contains(years[k]));
                let i = choose|i: int| 0 <= i < distinct.len() && distinct[i] == years[k];
                assert(report.year_reports[i].year == distinct[i]);
            }
            assert(report.years_ascending()) by {
                assert forall|i: int, j: int| 0 <= i < j < report.year_reports.len() implies (
                #[trigger] report.year_reports[i]).year < (#[trigger] report.year_reports[j]).year by {
                    assert(distinct[i] < distinct[j]);
                }
            }
            if modest(entries@) {
                lemma_subtotals_add_up(report, title@, entries@, *options);
            }
        }
        Ok(report)
    }
}

/// The subtotals of `reports` added up, in units of `10^-28`.
pub open spec fn subtotal_units(reports: Seq<YearReportViewModel>) -> int
    decreases reports.len(),
{
    if reports.len() == 0 {
        0
    } else {
        subtotal_units(reports.drop_last()) + total_of(reports.last().entries@)->0.units()
    }
}

/// The exact sums of the entries of each of `years`, added up.
spec fn grouped_total(entries: Seq<Entry>, years: Seq<int>) -> int
    decreases years.len(),
{
    if years.len() == 0 {
        0
    } else {
        grouped_total(entries, years.drop_last()) + exact_total(in_year(entries, years.last()))
    }
}

spec fn distinct(years: Seq<int>) -> bool {
    forall|i: int, j: int| 0 <= i < j < years.len() ==> years[i] != years[j]
}

/// What an entry adds to the years' sums: its amount if its year is among
/// them, else nothing.
spec fn share(e: Entry, years: Seq<int>) -> int {
    if year_of(e.date@) is Some && years.contains(year_of(e.date@)->0) {
        e.amount@.units()
    } else {
        0
    }
}

proof fn lemma_grouped_step(rest: Seq<Entry>, e: Entry, years: Seq<int>)
    requires
        distinct(years),
    ensures
        grouped_total(rest.push(e), years) == grouped_total(rest, years) + share(e, years),
    decreases years.len(),
{
    if years.len() > 0 {
        let head = years.drop_last();
        let y = years.last();
        lemma_grouped_step(rest, e, head);
        assert(rest.push(e).drop_last() =~= rest);
        assert(rest.push(e).last() == e);
        if year_of(e.date@) == Some(y) {
            assert(in_year(rest.push(e), y) == in_year(rest, y).push(e));
            assert(in_year(rest, y).push(e).drop_last() =~= in_year(rest, y));
            assert(years[years.len() - 1] == y);
            assert(years.contains(y));
            if head.contains(y) {
                let i = choose|i: int| 0 <= i < head.len() && head[i] == y;
                assert(years[i] == y);
            }
            assert(share(e, head) == 0);
        } else {
            assert(in_year(rest.push(e), y) == in_year(rest, y));
            if year_of(e.date@) is Some {
                let v = year_of(e.date@)->0;
                if years.contains(v) {
                    let i = choose|i: int| 0 <= i < years.len() && years[i] == v;
                    assert(head[i] == v);
                }
                if head.contains(v) {
                    let i = choose|i: int| 0 <= i < head.len() && head[i] == v;
                    assert(years[i] == v);
                }
            }
            assert(share(e, head) == share(e, years));
        }
    }
}

proof fn lemma_grouped_total(entries: Seq<Entry>, years: Seq<int>)
    requires
        distinct(years),
        forall|k: int|
            0 <= k < entries.len() ==> year_of(#[trigger] entries[k].date@) is Some
                && years.contains(year_of(entries[k].date@)->0),
    ensures
        grouped_total(entries, years) == exact_total(entries),
    decreases entries.len(), years.len(),
{
    if entries.len() == 0 {
        if years.len() > 0 {
            lemma_grouped_total(entries, years.drop_last());
        }
    } else {
        let rest = entries.drop_last();
        let e = entries.last();
        assert forall|k: int| 0 <= k < rest.len() implies year_of(#[trigger] rest[k].date@) is Some
            && years.contains(year_of(rest[k].date@)->0) by {
            assert(rest[k] == entries[k]);
        }
        lemma_grouped_total(rest, years);
        lemma_grouped_step(rest, e, years);
        assert(rest.push(e) =~= entries);
        assert(year_of(entries[entries.len() - 1].date@) is Some);
    }
}

/// The subtotals of the first `n` years, where none was rounded, are the
/// exact sums of those years' entries.
proof fn lemma_subtotals_grouped(
    reports: Seq<YearReportViewModel>,
    entries: Seq<Entry>,
    years: Seq<int>,
)
    requires
        years.len() == reports.len(),
        forall|i: int|
            0 <= i < reports.len() ==> (#[trigger] reports[i]).entries@ == in_year(
                entries,
                years[i],
            ),
        forall|i: int| 0 <= i < reports.len() ==> sum_is_exact((#[trigger] reports[i]).entries@),
    ensures
        subtotal_units(reports) == grouped_total(entries, years),
    decreases reports.len(),
{
    if reports.len() > 0 {
        let head = reports.drop_last();
        assert forall|i: int| 0 <= i < head.len() implies (#[trigger] head[i]).entries@ == in_year(
            entries,
            years.drop_last()[i],
        ) by {
            assert(head[i] == reports[i]);
        }
        assert forall|i: int| 0 <= i < head.len() implies sum_is_exact(
            (#[trigger] head[i]).entries@,
        ) by {
            assert(head[i] == reports[i]);
        }
        lemma_subtotals_grouped(head, entries, years.drop_last());
        assert(sum_is_exact(reports[reports.len() - 1].entries@));
    }
}

/// The subtotals of the years add up to the total, however the entries fall
/// into years: this holds where neither the total nor a subtotal was rounded
/// on the way, that is, where each stands for the exact sum of its amounts.
pub proof fn lemma_subtotals_add_up(
    report: ReportViewModel,
    title: Seq<char>,
    entries: Seq<Entry>,
    options: FormatOptions,
)
    requires
        report.describes(title, entries, options),
        sum_is_exact(entries),
        forall|i: int|
            0 <= i < report.year_reports.len() ==> sum_is_exact(
                (#[trigger] report.year_reports[i]).entries@,
            ),
    ensures
        subtotal_units(report.year_reports@) == total_of(entries)->0.units(),
{
    let reports = report.year_reports@;
    let years = Seq::new(reports.len(), |i: int| reports[i].year as int);
    assert(distinct(years)) by {
        assert forall|i: int, j: int| 0 <= i < j < years.len() implies years[i] != years[j] by {
            assert(report.year_reports[i].year < report.year_reports[j].year);
        }
    }
    assert forall|k: int| 0 <= k < entries.len() implies year_of(#[trigger] entries[k].date@) is Some
        && years.contains(year_of(entries[k].date@)->0) by {
        let i = choose|i: int|
            0 <= i < report.year_reports.len() && Some(
                (#[trigger] report.year_reports[i]).year as int,
            ) == year_of(entries[k].date@);
        assert(years[i] == report.year_reports[i].year);
    }
    assert forall|i: int| 0 <= i < reports.len() implies (#[trigger] reports[i]).entries@ == in_year(
        entries,
        years[i],
    ) by {
        assert(report.year_reports[i].describes(entries, options));
    }
    lemma_subtotals_grouped(reports, entries, years);
    lemma_grouped_total(entries, years);
}

impl YearReportViewModel {
    /// Whether two reports of a year show the same.
    pub open spec fn same_view(&self, other: &YearReportViewModel) -> bool {
        &&& self.year == other.year
        &&& self.title@ == other.title@
        &&& self.subtotal_amount@ == other.subtotal_amount@
        &&& self.entries@ == other.entries@
        &&& self.lines.len() == other.lines.len()
        &&& forall|k: int|
            0 <= k < self.lines.len() ==> {
                &&& (#[trigger] self.lines[k]).0@ == other.lines[k].0@
                &&& self.lines[k].1@ == other.lines[k].1@
            }
    }
}

impl ReportViewModel {
    /// Whether two views show the same.
    pub open spec fn same_view(&self, other: &ReportViewModel) -> bool {
        &&& self.title@ == other.title@
        &&& self.total@ == other.total@
        &&& self.year_reports.len() == other.year_reports.len()
        &&& forall|i: int|
            0 <= i < self.year_reports.len() ==> (#[trigger] self.year_reports[i]).same_view(
                &other.year_reports[i],
            )
    }
}

spec fn strictly_ascending(s: Seq<int>) -> bool {
    forall|i: int, j: int| 0 <= i < j < s.len() ==> s[i] < s[j]
}

/// Two strictly ascending sequences of the same numbers are the same.
proof fn lemma_ascending_unique(s: Seq<int>, t: Seq<int>)
    requires
        strictly_ascending(s),
        strictly_ascending(t),
        forall|x: int| s.contains(x) <==> t.contains(x),
    ensures
        s == t,
    decreases s.len(),
{
    if s.len() == 0 {
        if t.len() > 0 {
            assert(t.contains(t[0]));
        }
        assert(s =~= t);
    } else {
        let m = s.last();
        assert(s.contains(s[s.len() - 1]));
        assert(t.contains(m));
        let j = choose|j: int| 0 <= j < t.len() && t[j] == m;
        if j < t.len() - 1 {
            let top = t[t.len() - 1];
            assert(t.contains(top));
            let i = choose|i: int| 0 <= i < s.len() && s[i] == top;
            if i < s.len() - 1 {
                assert(s[i] < s[s.len() - 1]);
            }
            assert(t[j] < t[t.len() - 1]);
        }
        assert(t.last() == m);
        let s1 = s.drop_last();
        let t1 = t.drop_last();
        assert forall|x: int| s1.contains(x) <==> t1.contains(x) by {
            if s1.contains(x) {
                let i = choose|i: int| 0 <= i < s1.len() && s1[i] == x;
                assert(s[i] == x && s[i] < s[s.len() - 1]);
                assert(s.contains(x));
                let k = choose|k: int| 0 <= k < t.len() && t[k] == x;
                assert(t1[k] == x);
            }
            if t1.contains(x) {
                let i = choose|i: int| 0 <= i < t1.len() && t1[i] == x;
                assert(t[i] == x && t[i] < t[t.len() - 1]);
                assert(t.contains(x));
                let k = choose|k: int| 0 <= k < s.len() && s[k] == x;
                assert(s1[k] == x);
            }
        }
        assert(strictly_ascending(s1)) by {
            assert forall|i: int, k: int| 0 <= i < k < s1.len() implies s1[i] < s1[k] by {
                assert(s[i] < s[k]);
            }
        }
        assert(strictly_ascending(t1)) by {
            assert forall|i: int, k: int| 0 <= i < k < t1.len() implies t1[i] < t1[k] by {
                assert(t[i] < t[k]);
            }
        }
        lemma_ascending_unique(s1, t1);
        assert(s =~= s1.push(m));
        assert(t =~= t1.push(m));
    }
}

/// Where a ledger has something to show for `year`, one of its entries lies
/// in it.
proof fn lemma_in_year_witness(entries: Seq<Entry>, year: int) -> (k: int)
    requires
        in_year(entries, year).len() > 0,
    ensures
        0 <= k < entries.len(),
        year_of(entries[k].date@) == Some(year),
    decreases entries.len(),
{
    if year_of(entries.last().date@) == Some(year) {
        entries.len() - 1
    } else {
        lemma_in_year_witness(entries.drop_last(), year)
    }
}

/// The years of a view are the years of its ledger.
proof fn lemma_years_of_view(
    report: ReportViewModel,
    title: Seq<char>,
    entries: Seq<Entry>,
    options: FormatOptions,
    year: int,
)
    requires
        report.describes(title, entries, options),
    ensures
        (exists|i: int| 0 <= i < report.year_reports.len() && report.year_reports[i].year == year)
            <==> (exists|k: int| 0 <= k < entries.len() && year_of(entries[k].date@) == Some(year)),
{
    if exists|i: int| 0 <= i < report.year_reports.len() && report.year_reports[i].year == year {
        let i = choose|i: int| 0 <= i < report.year_reports.len() && report.year_reports[i].year == year;
        assert(report.year_reports[i].describes(entries, options));
        let k = lemma_in_year_witness(entries, year);
    }
    if exists|k: int| 0 <= k < entries.len() && year_of(entries[k].date@) == Some(year) {
        let k = choose|k: int| 0 <= k < entries.len() && year_of(entries[k].date@) == Some(year);
        let i = choose|i: int|
            0 <= i < report.year_reports.len() && Some(
                (#[trigger] report.year_reports[i]).year as int,
            ) == year_of(entries[k].date@);
        assert(report.year_reports[i].year == year);
    }
}

/// A ledger has one view: two views of the same entries, under the same name
/// and the same options, show the same. Making the view again changes
/// nothing.
pub proof fn lemma_view_determined(
    first: ReportViewModel,
    second: ReportViewModel,
    title: Seq<char>,
    entries: Seq<Entry>,
    options: FormatOptions,
)
    requires
        first.describes(title, entries, options),
        second.describes(title, entries, options),
    ensures
        first.same_view(&second),
{
    let a = Seq::new(first.year_reports.len() as nat, |i: int| first.year_reports[i].year as int);
    let b = Seq::new(second.year_reports.len() as nat, |i: int| second.year_reports[i].year as int);
    assert(strictly_ascending(a)) by {
        assert forall|i: int, j: int| 0 <= i < j < a.len() implies a[i] < a[j] by {
            assert(first.year_reports[i].year < first.year_reports[j].year);
        }
    }
    assert(strictly_ascending(b)) by {
        assert forall|i: int, j: int| 0 <= i < j < b.len() implies b[i] < b[j] by {
            assert(second.year_reports[i].year < second.year_reports[j].year);
        }
    }
    assert forall|x: int| a.contains(x) <==> b.contains(x) by {
        lemma_years_of_view(first, title, entries, options, x);
        lemma_years_of_view(second, title, entries, options, x);
        if a.contains(x) {
            let i = choose|i: int| 0 <= i < a.len() && a[i] == x;
            assert(first.year_reports[i].year == x);
            let j = choose|j: int|
                0 <= j < second.year_reports.len() && second.year_reports[j].year == x;
            assert(b[j] == x);
        }
        if b.contains(x) {
            let i = choose|i: int| 0 <= i < b.len() && b[i] == x;
            assert(second.year_reports[i].year == x);
            let j = choose|j: int|
                0 <= j < first.year_reports.len() && first.year_reports[j].year == x;
            assert(a[j] == x);
        }
    }
    lemma_ascending_unique(a, b);
    assert forall|i: int| 0 <= i < first.year_reports.len() implies (
    #[trigger] first.year_reports[i]).same_view(&second.year_reports[i]) by {
        assert(a[i] == b[i]);
        assert(first.year_reports[i].describes(entries, options));
        assert(second.year_reports[i].describes(entries, options));
        let x = first.year_reports[i];
        let y = second.year_reports[i];
        assert forall|k: int| 0 <= k < x.lines.len() implies {
            &&& (#[trigger] x.lines[k]).0@ == y.lines[k].0@
            &&& x.lines[k].1@ == y.lines[k].1@
        } by {
            assert(x.lines[k].0@ == day_month_text(x.entries[k].date@));
            assert(y.lines[k].0@ == day_month_text(y.entries[k].date@));
        }
    }
}

} // verus!

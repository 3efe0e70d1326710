//! The order of a ledger: entries by date, as the texts of the dates
//! compare, those of one date in the order they came in.

use vstd::prelude::*;
use crate::Entry;

verus! {

/// Whether the text `a` comes before `b` or is `b`: at the first place where
/// they differ `a` has the lesser character, or `a` ends there.
pub open spec fn text_le(a: Seq<char>, b: Seq<char>) -> bool
    decreases a.len(),
{
    if a.len() == 0 {
        true
    } else if b.len() == 0 {
        false
    } else if a[0] == b[0] {
        text_le(a.skip(1), b.skip(1))
    } else {
        (a[0] as int) < (b[0] as int)
    }
}

/// Of two texts one comes before the other, or they are the same.
pub proof fn lemma_text_le_total(a: Seq<char>, b: Seq<char>)
    ensures
        text_le(a, b) || text_le(b, a),
    decreases a.len(),
{
    if a.len() > 0 && b.len() > 0 && a[0] == b[0] {
        lemma_text_le_total(a.skip(1), b.skip(1));
    }
}

/// What comes before a text comes before all that the text comes before.
pub proof fn lemma_text_le_transitive(a: Seq<char>, b: Seq<char>, c: Seq<char>)
    requires
        text_le(a, b),
        text_le(b, c),
    ensures
        text_le(a, c),
    decreases a.len(),
{
    if a.len() > 0 && b.len() > 0 && c.len() > 0 && a[0] == b[0] && b[0] == c[0] {
        lemma_text_le_transitive(a.skip(1), b.skip(1), c.skip(1));
    }
}

/// Whether the text `a` comes before `b` or is `b`.
pub fn text_less_or_equal(a: &str, b: &str) -> (r: bool)
    ensures
        r == text_le(a@, b@),
{
    let n = a.unicode_len();
    let m = b.unicode_len();
    let mut i: usize = 0;
    proof {
        assert(a@.skip(0) =~= a@);
        assert(b@.skip(0) =~= b@);
    }
    while i < n && i < m
        invariant
            n == a@.len(),
            m == b@.len(),
            i <= n,
            i <= m,
            text_le(a@, b@) == text_le(a@.skip(i as int), b@.skip(i as int)),
        decreases n - i,
    {
        let x = a.get_char(i);
        let y = b.get_char(i);
        proof {
            assert(a@.skip(i as int)[0] == x);
            assert(b@.skip(i as int)[0] == y);
            assert(a@.skip(i as int).skip(1) =~= a@.skip(i + 1));
            assert(b@.skip(i as int).skip(1) =~= b@.skip(i + 1));
        }
        if x != y {
            return x < y;
        }
        i = i + 1;
    }
    i >= n
}

/// Whether `entries` stands in the order of its dates.
pub open spec fn sorted_by_date(entries: Seq<Entry>) -> bool {
    forall|i: int, j: int|
        0 <= i < j < entries.len() ==> text_le(
            (#[trigger] entries[i]).date@,
            (#[trigger] entries[j]).date@,
        )
}

/// The entries of `entries` whose date text is `date`, in their order.
pub open spec fn with_date(entries: Seq<Entry>, date: Seq<char>) -> Seq<Entry>
    decreases entries.len(),
{
    if entries.len() == 0 {
        Seq::empty()
    } else if entries.last().date@ == date {
        with_date(entries.drop_last(), date).push(entries.last())
    } else {
        with_date(entries.drop_last(), date)
    }
}

/// Whether `sorted` is `entries` brought into the order of its dates without
/// changing the order among entries of one date.
pub open spec fn is_sorted_ledger(sorted: Seq<Entry>, entries: Seq<Entry>) -> bool {
    &&& sorted.len() == entries.len()
    &&& sorted_by_date(sorted)
    &&& forall|date: Seq<char>| #[trigger] with_date(sorted, date) == with_date(entries, date)
}

proof fn lemma_with_date_concat(a: Seq<Entry>, b: Seq<Entry>, date: Seq<char>)
    ensures
        with_date(a + b, date) == with_date(a, date) + with_date(b, date),
    decreases b.len(),
{
    if b.len() == 0 {
        assert(a + b =~= a);
        assert(with_date(a, date) + with_date(b, date) =~= with_date(a, date));
    } else {
        assert((a + b).drop_last() =~= a + b.drop_last());
        assert((a + b).last() == b.last());
        lemma_with_date_concat(a, b.drop_last(), date);
        if b.last().date@ == date {
            assert((with_date(a, date) + with_date(b.drop_last(), date)).push(b.last())
                =~= with_date(a, date) + with_date(b.drop_last(), date).push(b.last()));
        }
    }
}

proof fn lemma_with_date_none(entries: Seq<Entry>, date: Seq<char>)
    requires
        forall|i: int| 0 <= i < entries.len() ==> (#[trigger] entries[i]).date@ != date,
    ensures
        with_date(entries, date).len() == 0,
    decreases entries.len(),
{
    if entries.len() > 0 {
        assert(entries[entries.len() - 1].date@ != date);
        assert forall|i: int| 0 <= i < entries.drop_last().len() implies (
        #[trigger] entries.drop_last()[i]).date@ != date by {
            assert(entries.drop_last()[i] == entries[i]);
        }
        lemma_with_date_none(entries.drop_last(), date);
    }
}

/// Setting `x` into a sorted ledger behind all that does not come after it
/// gives the sorted ledger of the old entries followed by `x`.
proof fn lemma_insert_keeps_order(
    sorted: Seq<Entry>,
    entries: Seq<Entry>,
    x: Entry,
    at: int,
)
    requires
        is_sorted_ledger(sorted, entries),
        0 <= at <= sorted.len(),
        forall|j: int| 0 <= j < at ==> text_le((#[trigger] sorted[j]).date@, x.date@),
        at < sorted.len() ==> !text_le(sorted[at].date@, x.date@),
    ensures
        is_sorted_ledger(sorted.insert(at, x), entries.push(x)),
{
    let next = sorted.insert(at, x);
    assert forall|j: int| at <= j < sorted.len() implies text_le(x.date@, (#[trigger] sorted[j]).date@)
        && sorted[j].date@ != x.date@ by {
        lemma_text_le_total(sorted[at].date@, x.date@);
        if at < j {
            assert(text_le(sorted[at].date@, sorted[j].date@));
        }
        if !text_le(sorted[at].date@, sorted[j].date@) {
            assert(at == j);
            lemma_text_le_total(sorted[at].date@, sorted[at].date@);
        }
        lemma_text_le_transitive(x.date@, sorted[at].date@, sorted[j].date@);
        if sorted[j].date@ == x.date@ {
            assert(text_le(sorted[at].date@, x.date@));
        }
    }
    assert forall|i: int, j: int| 0 <= i < j < next.len() implies text_le(
        (#[trigger] next[i]).date@,
        (#[trigger] next[j]).date@,
    ) by {
        if j < at {
            assert(next[i] == sorted[i] && next[j] == sorted[j]);
        } else if j == at {
            assert(next[i] == sorted[i]);
        } else if i < at {
            assert(next[i] == sorted[i] && next[j] == sorted[j - 1]);
            if j - 1 == i {
            }
            lemma_text_le_transitive(sorted[i].date@, x.date@, sorted[j - 1].date@);
        } else if i == at {
            assert(next[j] == sorted[j - 1]);
        } else {
            assert(next[i] == sorted[i - 1] && next[j] == sorted[j - 1]);
        }
    }
    assert forall|date: Seq<char>| #[trigger] with_date(next, date) == with_date(
        entries.push(x),
        date,
    ) by {
        let head = sorted.take(at);
        let tail = sorted.skip(at);
        assert(sorted =~= head + tail);
        assert(next =~= head.push(x) + tail);
        lemma_with_date_concat(head, tail, date);
        lemma_with_date_concat(head.push(x), tail, date);
        assert(head.push(x).drop_last() =~= head);
        assert(entries.push(x).drop_last() =~= entries);
        assert(with_date(sorted, date) == with_date(entries, date));
        if x.date@ == date {
            assert forall|i: int| 0 <= i < tail.len() implies (#[trigger] tail[i]).date@ != date by {
                assert(tail[i] == sorted[at + i]);
            }
            lemma_with_date_none(tail, date);
            assert(with_date(head, date) + with_date(tail, date) =~= with_date(head, date));
            assert(with_date(head.push(x), date) + with_date(tail, date) =~= with_date(
                head,
                date,
            ).push(x));
        }
    }
}

/// The entries in the order of their dates; those of one date keep the order
/// they came in.
pub fn sort_by_date(entries: Vec<Entry>) -> (sorted: Vec<Entry>)
    ensures
        is_sorted_ledger(sorted@, entries@),
{
    let mut sorted: Vec<Entry> = Vec::new();
    let mut n: usize = 0;
    while n < entries.len()
        invariant
            n <= entries.len(),
            is_sorted_ledger(sorted@, entries@.take(n as int)),
        decreases entries.len() - n,
    {
        let x = entries[n].clone();
        let mut at: usize = 0;
        while at < sorted.len() && text_less_or_equal(
            sorted[at].date.as_str(),
            x.date.as_str(),
        )
            invariant
                at <= sorted.len(),
                forall|j: int| 0 <= j < at ==> text_le((#[trigger] sorted[j]).date@, x.date@),
            decreases sorted.len() - at,
        {
            at = at + 1;
        }
        proof {
            lemma_insert_keeps_order(sorted@, entries@.take(n as int), x, at as int);
            assert(entries@.take(n as int).push(x) =~= entries@.take(n + 1));
        }
        sorted.insert(at, x);
        n = n + 1;
    }
    assert(entries@.take(n as int) =~= entries@);
    sorted
}

/// Two texts that each come before the other, or are it, are the same.
pub proof fn lemma_text_le_antisymmetric(a: Seq<char>, b: Seq<char>)
    requires
        text_le(a, b),
        text_le(b, a),
    ensures
        a == b,
    decreases a.len(),
{
    if a.len() == 0 || b.len() == 0 {
        assert(a =~= b);
    } else {
        lemma_text_le_antisymmetric(a.skip(1), b.skip(1));
        assert(a =~= seq![a[0]] + a.skip(1));
        assert(b =~= seq![b[0]] + b.skip(1));
    }
}

/// Where a ledger has entries of `date`, one of its entries has that date.
proof fn lemma_with_date_witness(entries: Seq<Entry>, date: Seq<char>) -> (k: int)
    requires
        with_date(entries, date).len() > 0,
    ensures
        0 <= k < entries.len(),
        entries[k].date@ == date,
    decreases entries.len(),
{
    if entries.last().date@ == date {
        entries.len() - 1
    } else {
        lemma_with_date_witness(entries.drop_last(), date)
    }
}

/// The last entry of a sorted ledger has a date that none of another sorting
/// of the same entries comes after.
proof fn lemma_last_date_bounds(a: Seq<Entry>, b: Seq<Entry>, entries: Seq<Entry>)
    requires
        is_sorted_ledger(a, entries),
        is_sorted_ledger(b, entries),
        a.len() > 0,
    ensures
        text_le(b.last().date@, a.last().date@),
{
    let date = b.last().date@;
    assert(with_date(b, date) == with_date(b.drop_last(), date).push(b.last()));
    assert(with_date(a, date) == with_date(entries, date));
    assert(with_date(b, date) == with_date(entries, date));
    let k = lemma_with_date_witness(a, date);
    if k < a.len() - 1 {
        assert(text_le(a[k].date@, a[a.len() - 1].date@));
    } else {
        lemma_text_le_total(date, date);
    }
}

/// A ledger has one sorting: two orderings of the same entries by date, each
/// keeping the order among entries of one date, are the same.
pub proof fn lemma_sorting_determined(a: Seq<Entry>, b: Seq<Entry>, entries: Seq<Entry>)
    requires
        is_sorted_ledger(a, entries),
        is_sorted_ledger(b, entries),
    ensures
        a == b,
    decreases a.len(),
{
    if a.len() == 0 {
        assert(a =~= b);
    } else {
        let x = a.last();
        let y = b.last();
        let a1 = a.drop_last();
        let b1 = b.drop_last();
        lemma_last_date_bounds(a, b, entries);
        lemma_last_date_bounds(b, a, entries);
        lemma_text_le_antisymmetric(x.date@, y.date@);
        let date = x.date@;
        assert(with_date(a, date) == with_date(a1, date).push(x));
        assert(with_date(b, date) == with_date(b1, date).push(y));
        assert(with_date(a, date) == with_date(entries, date));
        assert(with_date(b, date) == with_date(entries, date));
        assert(with_date(a1, date).push(x).last() == x);
        assert(with_date(b1, date).push(y).last() == y);
        assert(x == y);
        assert(sorted_by_date(a1)) by {
            assert forall|i: int, j: int| 0 <= i < j < a1.len() implies text_le(
                (#[trigger] a1[i]).date@,
                (#[trigger] a1[j]).date@,
            ) by {
                assert(a1[i] == a[i] && a1[j] == a[j]);
            }
        }
        assert(sorted_by_date(b1)) by {
            assert forall|i: int, j: int| 0 <= i < j < b1.len() implies text_le(
                (#[trigger] b1[i]).date@,
                (#[trigger] b1[j]).date@,
            ) by {
                assert(b1[i] == b[i] && b1[j] == b[j]);
            }
        }
        assert forall|other: Seq<char>| #[trigger] with_date(b1, other) == with_date(a1, other) by {
            assert(with_date(a, other) == with_date(entries, other));
            assert(with_date(b, other) == with_date(entries, other));
            if other == date {
                assert(with_date(a1, date).push(x).drop_last() =~= with_date(a1, date));
                assert(with_date(b1, date).push(y).drop_last() =~= with_date(b1, date));
            }
        }
        lemma_sorting_determined(b1, a1, a1);
        assert(a =~= a1.push(x));
        assert(b =~= b1.push(y));
    }
}

} // verus!

//! Publisher aggregation: per-publisher counts, publisher groups and the
//! footer's total size.

use vstd::prelude::*;

use crate::chars::{chars_lt, lemma_chars_lt_irreflexive, lower_chars, lowercase, str_eq};
use crate::model::LibraryItem;
use crate::order::{index_covered, is_sort_witness, key_le, stable_sort, KeyView, SortKey};

verus! {

/// A publisher with the number of its items in the current result set.
#[derive(Debug, Clone)]
pub struct PublisherEntry {
    pub name: String,
    pub count: usize,
}

/// A collection with the number of catalog items in it.
#[derive(Debug, Clone)]
pub struct CollectionEntry {
    pub name: String,
    pub count: usize,
}

/// A publisher and its items, in catalog order.
#[derive(Debug)]
pub struct PublisherGroup {
    pub publisher: String,
    pub items: Vec<LibraryItem>,
}

/// The item is published by `name`.
pub open spec fn published_by(name: Seq<char>) -> spec_fn(LibraryItem) -> bool {
    |item: LibraryItem| item.publisher@ == name
}

/// Number of items published by `name`.
pub open spec fn publisher_count(items: Seq<LibraryItem>, name: Seq<char>) -> nat {
    items.filter(published_by(name)).len()
}

/// Some entry is named `name`.
pub open spec fn lists_publisher(entries: Seq<PublisherEntry>, name: Seq<char>) -> bool {
    exists|k: int| 0 <= k < entries.len() && (#[trigger] entries[k]).name@ == name
}

/// `entries` holds each publisher of `items` exactly once with its item
/// count, ordered by case-insensitive name.
pub open spec fn is_publisher_index(entries: Seq<PublisherEntry>, items: Seq<LibraryItem>) -> bool {
    &&& forall|k: int|
        0 <= k < entries.len() ==> (#[trigger] entries[k]).count == publisher_count(
            items,
            entries[k].name@,
        ) && entries[k].count > 0
    &&& forall|k1: int, k2: int|
        0 <= k1 < k2 < entries.len() ==> (#[trigger] entries[k1]).name@ != (#[trigger] entries[k2]).name@
    &&& forall|i: int| 0 <= i < items.len() ==> lists_publisher(entries, (#[trigger] items[i]).publisher@)
    &&& forall|k1: int, k2: int|
        0 <= k1 < k2 < entries.len() ==> !chars_lt(
            lowercase((#[trigger] entries[k2]).name@),
            lowercase((#[trigger] entries[k1]).name@),
        )
}

proof fn lemma_count_step(items: Seq<LibraryItem>, i: int, name: Seq<char>)
    requires
        0 <= i < items.len(),
    ensures
        publisher_count(items.take(i + 1), name) == publisher_count(items.take(i), name) + (if items[i].publisher@ == name { 1int } else { 0int }),
{
    let after = items.take(i + 1);
    assert(after.drop_last() =~= items.take(i));
    assert(after.last() == items[i]);
    reveal(Seq::filter);
}

proof fn lemma_count_absent(items: Seq<LibraryItem>, name: Seq<char>)
    requires
        forall|j: int| 0 <= j < items.len() ==> (#[trigger] items[j]).publisher@ != name,
    ensures
        publisher_count(items, name) == 0,
    decreases items.len(),
{
    reveal(Seq::filter);
    if items.len() > 0 {
        let rest = items.drop_last();
        assert forall|j: int| 0 <= j < rest.len() implies (#[trigger] rest[j]).publisher@ != name by {
            assert(rest[j] == items[j]);
        }
        lemma_count_absent(rest, name);
    }
}

/// Returns one entry per publisher of `items` with the number of its items,
/// sorted by name, case-insensitively. The order of two publishers whose
/// names differ only in case is not fixed.
pub fn publisher_entries(items: &[LibraryItem]) -> (entries: Vec<PublisherEntry>)
    ensures
        is_publisher_index(entries@, items@),
{
    let mut names: Vec<String> = Vec::new();
    let mut counts: Vec<usize> = Vec::new();
    let mut i: usize = 0;
    while i < items.len()
        invariant
            i <= items.len(),
            names.len() == counts.len(),
            forall|k: int|
                0 <= k < names.len() ==> #[trigger] counts@[k] == publisher_count(
                    items@.take(i as int),
                    names@[k]@,
                ) && counts@[k] > 0 && counts@[k] <= i,
            forall|k1: int, k2: int|
                0 <= k1 < k2 < names.len() ==> (#[trigger] names@[k1])@ != (#[trigger] names@[k2])@,
            forall|j: int|
                0 <= j < i ==> exists|k: int|
                    0 <= k < names.len() && (#[trigger] names@[k])@ == (#[trigger] items@[j]).publisher@,
        decreases items.len() - i,
    {
        let publisher = &items[i].publisher;
        let mut k: usize = 0;
        while k < names.len() && !str_eq(names[k].as_str(), publisher.as_str())
            invariant
                k <= names.len(),
                forall|q: int| 0 <= q < k ==> (#[trigger] names@[q])@ != publisher@,
            decreases names.len() - k,
        {
            k = k + 1;
        }
        let found = k < names.len();
        proof {
            assert forall|q: int| 0 <= q < names.len() implies #[trigger] counts@[q]
                + (if items@[i as int].publisher@ == names@[q]@ { 1int } else { 0int })
                == publisher_count(items@.take(i + 1), names@[q]@) by {
                lemma_count_step(items@, i as int, names@[q]@);
            }
        }
        let ghost old_names = names@;
        let ghost old_counts = counts@;
        if found {
            let c = counts[k];
            counts.set(k, c + 1);
            proof {
                assert forall|q: int| 0 <= q < names.len() && q != k implies names@[q]@ != publisher@ by {
                    if q < k {
                        assert(names@[q]@ != names@[k as int]@);
                    } else {
                        assert(names@[k as int]@ != names@[q]@);
                    }
                }
            }
        } else {
            names.push(publisher.clone());
            counts.push(1);
            proof {
                lemma_count_step(items@, i as int, publisher@);
                let t = items@.take(i as int);
                assert forall|j: int| 0 <= j < t.len() implies (#[trigger] t[j]).publisher@
                    != publisher@ by {
                    assert(t[j] == items@[j]);
                    let kk = choose|kk: int|
                        0 <= kk < old_names.len() && (#[trigger] old_names[kk])@
                            == (#[trigger] items@[j]).publisher@;
                }
                lemma_count_absent(t, publisher@);
            }
        }
        i = i + 1;
        proof {
            assert forall|j: int| 0 <= j < i implies exists|q: int|
                0 <= q < names.len() && (#[trigger] names@[q])@ == (#[trigger] items@[j]).publisher@ by {
                if j == i - 1 {
                    assert(names@[k as int]@ == items@[j].publisher@);
                } else {
                    let q = choose|q: int|
                        0 <= q < old_names.len() && (#[trigger] old_names[q])@
                            == (#[trigger] items@[j]).publisher@;
                    assert(names@[q]@ == items@[j].publisher@);
                }
            }
        }
    }
    assert(items@.take(i as int) =~= items@);
    let mut unsorted: Vec<PublisherEntry> = Vec::new();
    let mut keys: Vec<SortKey> = Vec::new();
    let mut k: usize = 0;
    while k < names.len()
        invariant
            k <= names.len(),
            names.len() == counts.len(),
            unsorted.len() == k,
            keys.len() == k,
            forall|q: int|
                0 <= q < k ==> (#[trigger] unsorted@[q]).name@ == names@[q]@ && unsorted@[q].count
                    == counts@[q],
            forall|q: int|
                0 <= q < k ==> #[trigger] keys@[q]@ == (
                    0int,
                    lowercase(unsorted@[q].name@),
                    Seq::<char>::empty(),
                ),
        decreases names.len() - k,
    {
        let name = names[k].clone();
        let key = SortKey { rank: 0, primary: lower_chars(name.as_str()), secondary: Vec::new() };
        unsorted.push(PublisherEntry { name, count: counts[k] });
        keys.push(key);
        k = k + 1;
    }
    let ghost inp = unsorted@;
    let ghost key = |e: PublisherEntry| (0int, lowercase(e.name@), Seq::<char>::empty());
    let sorted = stable_sort(unsorted, keys, Ghost(key));
    proof {
        let p = choose|p: Seq<int>| is_sort_witness(sorted@, inp, key, p);
        let out = sorted@;
        assert forall|k1: int, k2: int| 0 <= k1 < k2 < out.len() implies (#[trigger] out[k1]).name@
            != (#[trigger] out[k2]).name@ by {
            assert(p[k1] != p[k2]);
            if p[k1] < p[k2] {
                assert(names@[p[k1]]@ != names@[p[k2]]@);
            } else {
                assert(names@[p[k2]]@ != names@[p[k1]]@);
            }
        }
        assert forall|ii: int| 0 <= ii < items@.len() implies lists_publisher(
            out,
            (#[trigger] items@[ii]).publisher@,
        ) by {
            let q = choose|q: int|
                0 <= q < names.len() && (#[trigger] names@[q])@ == (#[trigger] items@[ii]).publisher@;
            assert(index_covered(p, q));
            let kk = choose|kk: int| 0 <= kk < p.len() && #[trigger] p[kk] == q;
            assert(out[kk].name@ == items@[ii].publisher@);
        }
        assert forall|k1: int, k2: int| 0 <= k1 < k2 < out.len() implies !chars_lt(
            lowercase((#[trigger] out[k2]).name@),
            lowercase((#[trigger] out[k1]).name@),
        ) by {
            assert(key_le(key(out[k1]), key(out[k2])));
            lemma_chars_lt_irreflexive(Seq::<char>::empty());
        }
    }
    sorted
}

proof fn lemma_filter_take_step<T>(s: Seq<T>, i: int, pred: spec_fn(T) -> bool)
    requires
        0 <= i < s.len(),
    ensures
        s.take(i + 1).filter(pred) == (if pred(s[i]) {
            s.take(i).filter(pred).push(s[i])
        } else {
            s.take(i).filter(pred)
        }),
{
    let after = s.take(i + 1);
    assert(after.drop_last() =~= s.take(i));
    assert(after.last() == s[i]);
    reveal(Seq::filter);
}

proof fn lemma_filter_filter<T>(s: Seq<T>, p: spec_fn(T) -> bool, q: spec_fn(T) -> bool)
    ensures
        s.filter(p).filter(q) == s.filter(|x: T| p(x) && q(x)),
    decreases s.len(),
{
    reveal(Seq::filter);
    if s.len() > 0 {
        let d = s.drop_last();
        let x = s.last();
        lemma_filter_filter(d, p, q);
        let a = d.filter(p);
        assert(a.push(x).drop_last() =~= a);
        assert(a.push(x).last() == x);
    }
}

/// The item's publisher is not among the first `k` entries.
pub open spec fn unclaimed(entries: Seq<PublisherEntry>, k: int) -> spec_fn(LibraryItem) -> bool {
    |item: LibraryItem| forall|q: int| 0 <= q < k ==> item.publisher@ != (#[trigger] entries[q]).name@
}

fn split_by_publisher(rest: Vec<LibraryItem>, name: &str) -> (r: (Vec<LibraryItem>, Vec<LibraryItem>))
    ensures
        r.0@ == rest@.filter(published_by(name@)),
        r.1@ == rest@.filter(|item: LibraryItem| !published_by(name@)(item)),
{
    let ghost orig = rest@;
    let ghost yes = published_by(name@);
    let ghost no = |item: LibraryItem| !published_by(name@)(item);
    let mut rest = rest;
    let mut mine: Vec<LibraryItem> = Vec::new();
    let mut others: Vec<LibraryItem> = Vec::new();
    let ghost mut c: int = 0;
    while rest.len() > 0
        invariant
            0 <= c <= orig.len(),
            rest@ == orig.skip(c),
            mine@ == orig.take(c).filter(yes),
            others@ == orig.take(c).filter(no),
            yes == published_by(name@),
            no == (|item: LibraryItem| !published_by(name@)(item)),
        decreases rest.len(),
    {
        let x = rest.remove(0);
        proof {
            assert(x == orig[c]);
            lemma_filter_take_step(orig, c, yes);
            lemma_filter_take_step(orig, c, no);
        }
        if str_eq(x.publisher.as_str(), name) {
            mine.push(x);
        } else {
            others.push(x);
        }
        proof {
            c = c + 1;
            assert(rest@ =~= orig.skip(c));
        }
    }
    assert(orig.take(c) =~= orig);
    (mine, others)
}

/// `groups` partitions `items` by publisher, in the order of `entries`.
pub open spec fn groups_follow(
    groups: Seq<PublisherGroup>,
    entries: Seq<PublisherEntry>,
    items: Seq<LibraryItem>,
) -> bool {
    &&& groups.len() == entries.len()
    &&& forall|k: int|
        0 <= k < groups.len() ==> (#[trigger] groups[k]).publisher@ == entries[k].name@
            && groups[k].items@ == items.filter(published_by(entries[k].name@))
}

/// Partitions `items` into publisher groups, in the same order as
/// `publisher_entries`; each group keeps its items in catalog order.
pub fn group_by_publisher(items: Vec<LibraryItem>) -> (groups: Vec<PublisherGroup>)
    ensures
        exists|entries: Seq<PublisherEntry>|
            is_publisher_index(entries, items@) && groups_follow(groups@, entries, items@),
{
    let entries = publisher_entries(items.as_slice());
    let ghost all = items@;
    let mut rest = items;
    let mut groups: Vec<PublisherGroup> = Vec::new();
    let mut k: usize = 0;
    assert(all.filter(unclaimed(entries@, 0)) =~= all) by {
        let f = unclaimed(entries@, 0);
        assert(f =~= (|item: LibraryItem| true));
        lemma_filter_all(all, f);
    }
    while k < entries.len()
        invariant
            k <= entries.len(),
            is_publisher_index(entries@, all),
            rest@ == all.filter(unclaimed(entries@, k as int)),
            groups.len() == k,
            forall|q: int|
                0 <= q < k ==> (#[trigger] groups@[q]).publisher@ == entries@[q].name@
                    && groups@[q].items@ == all.filter(published_by(entries@[q].name@)),
        decreases entries.len() - k,
    {
        let name = entries[k].name.clone();
        let (mine, others) = split_by_publisher(rest, name.as_str());
        proof {
            let p = unclaimed(entries@, k as int);
            let yes = published_by(name@);
            let no = |item: LibraryItem| !published_by(name@)(item);
            lemma_filter_filter(all, p, yes);
            lemma_filter_filter(all, p, no);
            assert((|x: LibraryItem| p(x) && yes(x)) =~= yes) by {
                assert forall|x: LibraryItem| #[trigger] yes(x) implies p(x) by {
                    assert forall|q: int| 0 <= q < k implies x.publisher@
                        != (#[trigger] entries@[q]).name@ by {
                        assert(entries@[q].name@ != entries@[k as int].name@);
                    }
                }
            }
            assert((|x: LibraryItem| p(x) && no(x)) =~= unclaimed(entries@, k + 1));
        }
        groups.push(PublisherGroup { publisher: name, items: mine });
        rest = others;
        k = k + 1;
    }
    groups
}

/// A row of the grouped catalog list: a publisher header with the size of
/// its group, or one item.
#[derive(Debug)]
pub enum GroupedRow {
    Header { publisher: String, count: usize },
    Item(Box<LibraryItem>),
}

/// The item rows of `items`, in order.
pub open spec fn item_rows(items: Seq<LibraryItem>) -> Seq<GroupedRow> {
    items.map_values(|it: LibraryItem| GroupedRow::Item(Box::new(it)))
}

/// The groups flattened into rows: each group's header, then its items.
pub open spec fn flattened(groups: Seq<PublisherGroup>) -> Seq<GroupedRow>
    decreases groups.len(),
{
    if groups.len() == 0 {
        Seq::empty()
    } else {
        let g = groups.last();
        flattened(groups.drop_last()) + seq![
            GroupedRow::Header { publisher: g.publisher, count: g.items@.len() as usize },
        ] + item_rows(g.items@)
    }
}

/// Flattens publisher groups into the grouped list's rows: a header carrying
/// the publisher and its item count, then that publisher's items.
pub fn grouped_rows(groups: Vec<PublisherGroup>) -> (rows: Vec<GroupedRow>)
    ensures
        rows@ == flattened(groups@),
{
    let ghost all = groups@;
    assert(all.len() == groups.len());
    let mut rest = groups;
    let mut rows: Vec<GroupedRow> = Vec::new();
    let mut k: usize = 0;
    while rest.len() > 0
        invariant
            k + rest@.len() == all.len(),
            all.len() <= usize::MAX,
            rest@ == all.skip(k as int),
            rows@ == flattened(all.take(k as int)),
        decreases rest@.len(),
    {
        let g = rest.remove(0);
        assert(g == all[k as int]);
        let ghost base = rows@;
        let PublisherGroup { publisher, items } = g;
        let n = items.len();
        rows.push(GroupedRow::Header { publisher, count: n });
        let ghost with_header = rows@;
        let ghost group_items = items@;
        let mut left = items;
        let mut j: usize = 0;
        while left.len() > 0
            invariant
                j + left@.len() == group_items.len(),
                group_items.len() == n,
                left@ == group_items.skip(j as int),
                rows@ == with_header + item_rows(group_items.take(j as int)),
            decreases left@.len(),
        {
            let it = left.remove(0);
            assert(it == group_items[j as int]);
            rows.push(GroupedRow::Item(Box::new(it)));
            assert(group_items.take(j + 1) =~= group_items.take(j as int).push(group_items[j as int]));
            assert(item_rows(group_items.take(j + 1)) =~= item_rows(group_items.take(j as int)).push(
                GroupedRow::Item(Box::new(group_items[j as int])),
            ));
            assert(rows@ =~= with_header + item_rows(group_items.take(j + 1)));
            assert(left@ =~= group_items.skip(j + 1));
            j = j + 1;
        }
        assert(group_items.take(j as int) =~= group_items);
        assert(all.take(k + 1).drop_last() =~= all.take(k as int));
        assert(all.take(k + 1).last() == all[k as int]);
        assert(rows@ =~= flattened(all.take(k + 1)));
        assert(rest@ =~= all.skip(k + 1));
        k = k + 1;
    }
    assert(all.take(k as int) =~= all);
    rows
}

proof fn lemma_filter_all<T>(s: Seq<T>, p: spec_fn(T) -> bool)
    requires
        forall|x: T| #[trigger] p(x),
    ensures
        s.filter(p) == s,
    decreases s.len(),
{
    reveal(Seq::filter);
    if s.len() > 0 {
        lemma_filter_all(s.drop_last(), p);
        assert(s.drop_last().push(s.last()) =~= s);
    }
}

/// The sum of `publisher_count` over the entries' names.
pub open spec fn counted(entries: Seq<PublisherEntry>, items: Seq<LibraryItem>) -> nat
    decreases entries.len(),
{
    if entries.len() == 0 {
        0
    } else {
        counted(entries.drop_last(), items) + publisher_count(items, entries.last().name@)
    }
}

/// How many entries are named `name`.
pub open spec fn name_occurrences(entries: Seq<PublisherEntry>, name: Seq<char>) -> nat
    decreases entries.len(),
{
    if entries.len() == 0 {
        0
    } else {
        name_occurrences(entries.drop_last(), name) + if entries.last().name@ == name {
            1nat
        } else {
            0nat
        }
    }
}

proof fn lemma_count_push(items: Seq<LibraryItem>, x: LibraryItem, name: Seq<char>)
    ensures
        publisher_count(items.push(x), name) == publisher_count(items, name) + if x.publisher@
            == name {
            1nat
        } else {
            0nat
        },
{
    let after = items.push(x);
    assert(after.drop_last() =~= items);
    reveal(Seq::filter);
}

proof fn lemma_counted_push(entries: Seq<PublisherEntry>, items: Seq<LibraryItem>, x: LibraryItem)
    ensures
        counted(entries, items.push(x)) == counted(entries, items) + name_occurrences(
            entries,
            x.publisher@,
        ),
    decreases entries.len(),
{
    if entries.len() > 0 {
        lemma_counted_push(entries.drop_last(), items, x);
        lemma_count_push(items, x, entries.last().name@);
    }
}

proof fn lemma_counted_empty(entries: Seq<PublisherEntry>)
    ensures
        counted(entries, Seq::<LibraryItem>::empty()) == 0,
    decreases entries.len(),
{
    if entries.len() > 0 {
        lemma_counted_empty(entries.drop_last());
        reveal(Seq::filter);
        assert(Seq::<LibraryItem>::empty().filter(published_by(entries.last().name@)) =~= Seq::<
            LibraryItem,
        >::empty());
    }
}

proof fn lemma_listed_once(entries: Seq<PublisherEntry>, name: Seq<char>)
    requires
        lists_publisher(entries, name),
        forall|k1: int, k2: int|
            0 <= k1 < k2 < entries.len() ==> (#[trigger] entries[k1]).name@ != (
            #[trigger] entries[k2]).name@,
    ensures
        name_occurrences(entries, name) == 1,
    decreases entries.len(),
{
    let rest = entries.drop_last();
    if entries.last().name@ == name {
        assert forall|k: int| 0 <= k < rest.len() implies (#[trigger] rest[k]).name@ != name by {
            assert(entries[k] == rest[k]);
            assert(entries[k].name@ != entries[entries.len() - 1].name@);
        }
        lemma_absent_never_occurs(rest, name);
    } else {
        let k = choose|k: int| 0 <= k < entries.len() && (#[trigger] entries[k]).name@ == name;
        assert(k < entries.len() - 1);
        assert(rest[k] == entries[k]);
        assert(lists_publisher(rest, name));
        assert forall|k1: int, k2: int| 0 <= k1 < k2 < rest.len() implies (#[trigger] rest[k1]).name@
            != (#[trigger] rest[k2]).name@ by {
            assert(rest[k1] == entries[k1] && rest[k2] == entries[k2]);
        }
        lemma_listed_once(rest, name);
    }
}

proof fn lemma_absent_never_occurs(entries: Seq<PublisherEntry>, name: Seq<char>)
    requires
        forall|k: int| 0 <= k < entries.len() ==> (#[trigger] entries[k]).name@ != name,
    ensures
        name_occurrences(entries, name) == 0,
    decreases entries.len(),
{
    if entries.len() > 0 {
        let rest = entries.drop_last();
        assert forall|k: int| 0 <= k < rest.len() implies (#[trigger] rest[k]).name@ != name by {
            assert(rest[k] == entries[k]);
        }
        lemma_absent_never_occurs(rest, name);
        assert(entries[entries.len() - 1].name@ != name);
    }
}

proof fn lemma_counted_covers(entries: Seq<PublisherEntry>, items: Seq<LibraryItem>)
    requires
        forall|k1: int, k2: int|
            0 <= k1 < k2 < entries.len() ==> (#[trigger] entries[k1]).name@ != (
            #[trigger] entries[k2]).name@,
        forall|i: int| 0 <= i < items.len() ==> lists_publisher(entries, (#[trigger] items[i]).publisher@),
    ensures
        counted(entries, items) == items.len(),
    decreases items.len(),
{
    if items.len() == 0 {
        assert(items =~= Seq::<LibraryItem>::empty());
        lemma_counted_empty(entries);
    } else {
        let rest = items.drop_last();
        let x = items.last();
        assert forall|i: int| 0 <= i < rest.len() implies lists_publisher(entries, (#[trigger] rest[i]).publisher@) by {
            assert(rest[i] == items[i]);
        }
        lemma_counted_covers(entries, rest);
        assert(rest.push(x) =~= items);
        lemma_counted_push(entries, rest, x);
        assert(lists_publisher(entries, items[items.len() - 1].publisher@));
        lemma_listed_once(entries, x.publisher@);
    }
}

/// The publisher index accounts for every item once: the counts of its
/// entries add up to the number of items, so the publisher groups built from
/// it hold every item exactly once between them.
pub proof fn lemma_publisher_counts_sum_to_total(entries: Seq<PublisherEntry>, items: Seq<LibraryItem>)
    requires
        is_publisher_index(entries, items),
    ensures
        counted(entries, items) == items.len(),
{
    lemma_counted_covers(entries, items);
}

/// Each publisher group holds as many items as its sidebar entry counts.
pub proof fn lemma_group_sizes_match_counts(
    groups: Seq<PublisherGroup>,
    entries: Seq<PublisherEntry>,
    items: Seq<LibraryItem>,
)
    requires
        is_publisher_index(entries, items),
        groups_follow(groups, entries, items),
    ensures
        groups.len() == entries.len(),
        forall|k: int| 0 <= k < groups.len() ==> (#[trigger] groups[k]).items@.len() == entries[k].count,
{
    assert forall|k: int| 0 <= k < groups.len() implies (#[trigger] groups[k]).items@.len() == entries[k].count by {
        assert(groups[k].items@ == items.filter(published_by(entries[k].name@)));
    }
}

/// Some group carries `item`'s publisher and holds `item`.
pub open spec fn in_its_group(groups: Seq<PublisherGroup>, item: LibraryItem) -> bool {
    exists|k: int|
        0 <= k < groups.len() && (#[trigger] groups[k]).publisher@ == item.publisher@
            && groups[k].items@.contains(item)
}

/// Grouping puts every item in the group of its publisher: for each item
/// there is a group with its publisher's name, and that group holds it.
pub proof fn lemma_every_item_in_its_group(
    groups: Seq<PublisherGroup>,
    entries: Seq<PublisherEntry>,
    items: Seq<LibraryItem>,
)
    requires
        is_publisher_index(entries, items),
        groups_follow(groups, entries, items),
    ensures
        forall|i: int| 0 <= i < items.len() ==> in_its_group(groups, #[trigger] items[i]),
{
    assert forall|i: int| 0 <= i < items.len() implies in_its_group(groups, #[trigger] items[i]) by {
        assert(lists_publisher(entries, items[i].publisher@));
        let k = choose|k: int| 0 <= k < entries.len() && (#[trigger] entries[k]).name@ == items[i].publisher@;
        let f = published_by(entries[k].name@);
        assert(groups[k].items@ == items.filter(f));
        assert(f(items[i]));
        items.lemma_filter_contains(f, i);
        assert(groups[k].publisher@ == items[i].publisher@);
    }
}

/// The groups' items one after another.
pub open spec fn concat_items(groups: Seq<PublisherGroup>) -> Seq<LibraryItem>
    decreases groups.len(),
{
    if groups.len() == 0 {
        Seq::empty()
    } else {
        concat_items(groups.drop_last()) + groups.last().items@
    }
}

proof fn lemma_filter_count(s: Seq<LibraryItem>, p: spec_fn(LibraryItem) -> bool, x: LibraryItem)
    ensures
        s.filter(p).to_multiset().count(x) == if p(x) {
            s.to_multiset().count(x)
        } else {
            0
        },
    decreases s.len(),
{
    broadcast use vstd::multiset::group_multiset_axioms;
    reveal(Seq::filter);
    if s.len() == 0 {
        assert(s.filter(p) =~= Seq::<LibraryItem>::empty());
        s.to_multiset_ensures();
        s.filter(p).to_multiset_ensures();
    } else {
        let rest = s.drop_last();
        let last = s.last();
        lemma_filter_count(rest, p, x);
        assert(rest.push(last) =~= s);
        vstd::seq_lib::to_multiset_build(rest, last);
        if p(last) {
            assert(s.filter(p) =~= rest.filter(p).push(last));
            vstd::seq_lib::to_multiset_build(rest.filter(p), last);
        } else {
            assert(s.filter(p) =~= rest.filter(p));
        }
    }
}

proof fn lemma_concat_count(
    groups: Seq<PublisherGroup>,
    entries: Seq<PublisherEntry>,
    items: Seq<LibraryItem>,
    x: LibraryItem,
    n: int,
)
    requires
        is_publisher_index(entries, items),
        groups_follow(groups, entries, items),
        0 <= n <= groups.len(),
    ensures
        concat_items(groups.take(n)).to_multiset().count(x) == if exists|k: int|
            0 <= k < n && (#[trigger] entries[k]).name@ == x.publisher@ {
            items.to_multiset().count(x)
        } else {
            0
        },
    decreases n,
{
    broadcast use vstd::multiset::group_multiset_axioms;
    if n == 0 {
        assert(groups.take(0) =~= Seq::<PublisherGroup>::empty());
        assert(concat_items(groups.take(0)) =~= Seq::<LibraryItem>::empty());
        concat_items(groups.take(0)).to_multiset_ensures();
    } else {
        lemma_concat_count(groups, entries, items, x, n - 1);
        assert(groups.take(n).drop_last() =~= groups.take(n - 1));
        assert(groups.take(n).last() == groups[n - 1]);
        let g = groups[n - 1];
        vstd::seq_lib::lemma_multiset_commutative(concat_items(groups.take(n - 1)), g.items@);
        let f = published_by(entries[n - 1].name@);
        assert(g.items@ == items.filter(f));
        lemma_filter_count(items, f, x);
        if entries[n - 1].name@ == x.publisher@ {
            assert(!exists|k: int| 0 <= k < n - 1 && (#[trigger] entries[k]).name@ == x.publisher@) by {
                if exists|k: int| 0 <= k < n - 1 && (#[trigger] entries[k]).name@ == x.publisher@ {
                    let k = choose|k: int| 0 <= k < n - 1 && (#[trigger] entries[k]).name@ == x.publisher@;
                    assert(entries[k].name@ != entries[n - 1].name@);
                }
            }
        } else {
            assert((exists|k: int| 0 <= k < n && (#[trigger] entries[k]).name@ == x.publisher@) == (
            exists|k: int| 0 <= k < n - 1 && (#[trigger] entries[k]).name@ == x.publisher@));
        }
    }
}

/// Grouping neither loses nor duplicates an item: the groups' items, one
/// group after another, are a rearrangement of the input items (the same
/// multiset).
pub proof fn lemma_groups_permute_items(
    groups: Seq<PublisherGroup>,
    entries: Seq<PublisherEntry>,
    items: Seq<LibraryItem>,
)
    requires
        is_publisher_index(entries, items),
        groups_follow(groups, entries, items),
    ensures
        concat_items(groups).to_multiset() == items.to_multiset(),
{
    broadcast use vstd::multiset::group_multiset_axioms;
    assert forall|x: LibraryItem| #[trigger] concat_items(groups).to_multiset().count(x)
        == items.to_multiset().count(x) by {
        lemma_concat_count(groups, entries, items, x, groups.len() as int);
        assert(groups.take(groups.len() as int) =~= groups);
        if items.to_multiset().count(x) > 0 {
            vstd::seq_lib::to_multiset_contains(items, x);
            let i = choose|i: int| 0 <= i < items.len() && items[i] == x;
            assert(lists_publisher(entries, items[i].publisher@));
            let k = choose|k: int| 0 <= k < entries.len() && (#[trigger] entries[k]).name@ == items[i].publisher@;
            assert(entries[k].name@ == x.publisher@);
        }
    }
    assert(concat_items(groups).to_multiset() =~= items.to_multiset());
}

} // verus!

//! Catalog and collection sorting.

use std::collections::HashSet;

use vstd::prelude::*;

use crate::chars::{chars_lt, chars_of, str_eq};
use crate::model::{CollectionEntry, LibraryItem};
use crate::order::{
    is_sort_witness, is_stable_sort, key_le, lemma_stable_sort_idempotent, lemma_stable_sort_unique,
    reversed, stable_sort,
    KeyView, SortKey,
};

verus! {

broadcast use vstd::std_specs::hash::group_hash_axioms;

/// Field used to sort the catalog.
#[derive(Debug, Clone, Copy, PartialEq, Eq)]
pub enum SortMethod {
    Title,
    Publisher,
    DateAdded,
    PageCount,
    /// Sort driven by a column header click; carries the column key.
    Custom { col_key: &'static str },
}

/// Direction for sorting.
#[derive(Debug, Clone, Copy, PartialEq, Eq, Structural)]
pub enum SortDirection {
    Ascending,
    Descending,
}

/// Field used to sort the sidebar's collections list.
#[derive(Debug, Clone, Copy, PartialEq, Eq, Structural)]
pub enum CollectionSortMethod {
    Name,
    DateCreated,
    ItemCount,
}

impl Default for SortMethod {
    fn default() -> (m: Self)
        ensures
            m == SortMethod::Title,
    {
        SortMethod::Title
    }
}

impl Default for SortDirection {
    fn default() -> (d: Self)
        ensures
            d == SortDirection::Ascending,
    {
        SortDirection::Ascending
    }
}

impl Default for CollectionSortMethod {
    fn default() -> (m: Self)
        ensures
            m == CollectionSortMethod::Name,
    {
        CollectionSortMethod::Name
    }
}

/// What a catalog sort compares, once column keys are resolved.
#[derive(Clone, Copy, PartialEq, Eq, Structural, Debug)]
pub enum ItemOrder {
    /// Title.
    Title,
    /// Publisher, then title.
    PublisherTitle,
    /// Catalog insertion order.
    AddedOrder,
    /// Page count, then title.
    PagesTitle,
    /// Game line, then title.
    LineTitle,
    /// Size, then title.
    SizeTitle,
}

/// Resolves a sort method: the named methods and the column keys
/// `publisher`, `system`, `pages`, `size` and `added`; any other column key
/// sorts by title.
pub open spec fn item_order(method: SortMethod) -> ItemOrder {
    match method {
        SortMethod::Title => ItemOrder::Title,
        SortMethod::Publisher => ItemOrder::PublisherTitle,
        SortMethod::DateAdded => ItemOrder::AddedOrder,
        SortMethod::PageCount => ItemOrder::PagesTitle,
        SortMethod::Custom { col_key } => {
            if col_key@ == "publisher"@ {
                ItemOrder::PublisherTitle
            } else if col_key@ == "system"@ {
                ItemOrder::LineTitle
            } else if col_key@ == "pages"@ {
                ItemOrder::PagesTitle
            } else if col_key@ == "size"@ {
                ItemOrder::SizeTitle
            } else if col_key@ == "added"@ {
                ItemOrder::AddedOrder
            } else {
                ItemOrder::Title
            }
        },
    }
}

/// The key an item sorts by under `order`.
pub open spec fn item_key(order: ItemOrder, item: LibraryItem) -> KeyView {
    match order {
        ItemOrder::Title => (0, item.title@, Seq::empty()),
        ItemOrder::PublisherTitle => (0, item.publisher@, item.title@),
        ItemOrder::AddedOrder => (item.added_order as int, Seq::empty(), Seq::empty()),
        ItemOrder::PagesTitle => (item.pages as int, item.title@, Seq::empty()),
        ItemOrder::LineTitle => (0, item.line@, item.title@),
        ItemOrder::SizeTitle => (item.size_kb as int, item.title@, Seq::empty()),
    }
}

/// `asc` laid out in `direction`: descending is the ascending result reversed.
pub open spec fn oriented<T>(asc: Seq<T>, direction: SortDirection) -> Seq<T> {
    match direction {
        SortDirection::Ascending => asc,
        SortDirection::Descending => asc.reverse(),
    }
}

/// `after` is `before` stably sorted by `key`, then laid out in `direction`.
pub open spec fn sorted_by<T>(
    before: Seq<T>,
    key: spec_fn(T) -> KeyView,
    direction: SortDirection,
    after: Seq<T>,
) -> bool {
    exists|asc: Seq<T>| is_stable_sort(asc, before, key) && after == oriented(asc, direction)
}

/// The key a catalog sort by `method` compares.
pub open spec fn item_sort_order(method: SortMethod) -> spec_fn(LibraryItem) -> KeyView {
    |it: LibraryItem| item_key(item_order(method), it)
}

/// The key a collection sort by `method` compares.
pub open spec fn collection_sort_order(method: CollectionSortMethod, catalog_ids: Set<u64>) -> spec_fn(
    CollectionEntry,
) -> KeyView {
    |e: CollectionEntry| collection_key(method, e, catalog_ids)
}

fn resolve_order(method: SortMethod) -> (o: ItemOrder)
    ensures
        o == item_order(method),
{
    match method {
        SortMethod::Title => ItemOrder::Title,
        SortMethod::Publisher => ItemOrder::PublisherTitle,
        SortMethod::DateAdded => ItemOrder::AddedOrder,
        SortMethod::PageCount => ItemOrder::PagesTitle,
        SortMethod::Custom { col_key } => {
            proof {
                reveal_strlit("publisher");
                reveal_strlit("system");
                reveal_strlit("pages");
                reveal_strlit("size");
                reveal_strlit("added");
            }
            if str_eq(col_key, "publisher") {
                ItemOrder::PublisherTitle
            } else if str_eq(col_key, "system") {
                ItemOrder::LineTitle
            } else if str_eq(col_key, "pages") {
                ItemOrder::PagesTitle
            } else if str_eq(col_key, "size") {
                ItemOrder::SizeTitle
            } else if str_eq(col_key, "added") {
                ItemOrder::AddedOrder
            } else {
                ItemOrder::Title
            }
        },
    }
}

fn item_sort_key(order: ItemOrder, item: &LibraryItem) -> (k: SortKey)
    ensures
        k@ == item_key(order, *item),
{
    match order {
        ItemOrder::Title => SortKey {
            rank: 0,
            primary: chars_of(item.title.as_str()),
            secondary: Vec::new(),
        },
        ItemOrder::PublisherTitle => SortKey {
            rank: 0,
            primary: chars_of(item.publisher.as_str()),
            secondary: chars_of(item.title.as_str()),
        },
        ItemOrder::AddedOrder => SortKey {
            rank: item.added_order as i128,
            primary: Vec::new(),
            secondary: Vec::new(),
        },
        ItemOrder::PagesTitle => SortKey {
            rank: item.pages as i128,
            primary: chars_of(item.title.as_str()),
            secondary: Vec::new(),
        },
        ItemOrder::LineTitle => SortKey {
            rank: 0,
            primary: chars_of(item.line.as_str()),
            secondary: chars_of(item.title.as_str()),
        },
        ItemOrder::SizeTitle => SortKey {
            rank: item.size_kb as i128,
            primary: chars_of(item.title.as_str()),
            secondary: Vec::new(),
        },
    }
}

/// Sorts `items` in place by `method`, stably, then reverses the result when
/// `direction` is descending.
pub fn sort_items(items: &mut Vec<LibraryItem>, method: SortMethod, direction: SortDirection)
    ensures
        sorted_by(old(items)@, item_sort_order(method), direction, final(items)@),
{
    let order = resolve_order(method);
    let mut taken: Vec<LibraryItem> = Vec::new();
    std::mem::swap(items, &mut taken);
    let mut keys: Vec<SortKey> = Vec::new();
    let mut i: usize = 0;
    while i < taken.len()
        invariant
            i <= taken.len(),
            keys.len() == i,
            forall|k: int| 0 <= k < i ==> #[trigger] keys@[k]@ == item_key(order, taken@[k]),
        decreases taken.len() - i,
    {
        keys.push(item_sort_key(order, &taken[i]));
        i = i + 1;
    }
    let ghost inp = taken@;
    let ghost key = |it: LibraryItem| item_key(order, it);
    let asc = stable_sort(taken, keys, Ghost(key));
    let ghost asc_view = asc@;
    let result = match direction {
        SortDirection::Ascending => asc,
        SortDirection::Descending => reversed(asc),
    };
    *items = result;
    proof {
        let spec_key = |it: LibraryItem| item_key(item_order(method), it);
        assert(key =~= spec_key);
        assert(is_stable_sort(asc_view, inp, spec_key));
        assert(items@ == oriented(asc_view, direction));
    }
}

/// Number of `member_ids` that are in the catalog.
pub open spec fn catalog_count(entry: CollectionEntry, catalog_ids: Set<u64>) -> nat {
    entry.member_ids@.filter(|id: u64| catalog_ids.contains(id)).len()
}

/// The key a collection sorts by: name; creation time then name; or
/// catalog-intersected member count then name.
pub open spec fn collection_key(
    method: CollectionSortMethod,
    entry: CollectionEntry,
    catalog_ids: Set<u64>,
) -> KeyView {
    match method {
        CollectionSortMethod::Name => (0, entry.name@, Seq::empty()),
        CollectionSortMethod::DateCreated => (entry.created_at as int, entry.name@, Seq::empty()),
        CollectionSortMethod::ItemCount => (
            catalog_count(entry, catalog_ids) as int,
            entry.name@,
            Seq::empty(),
        ),
    }
}

fn count_in_catalog(entry: &CollectionEntry, catalog_ids: &HashSet<u64>) -> (n: u64)
    ensures
        n == catalog_count(*entry, catalog_ids@),
{
    let ghost pred = |id: u64| catalog_ids@.contains(id);
    let mut n: u64 = 0;
    let mut i: usize = 0;
    while i < entry.member_ids.len()
        invariant
            i <= entry.member_ids.len(),
            n <= i,
            n == entry.member_ids@.take(i as int).filter(pred).len(),
            pred == (|id: u64| catalog_ids@.contains(id)),
        decreases entry.member_ids.len() - i,
    {
        let id = entry.member_ids[i];
        let ghost before = entry.member_ids@.take(i as int);
        let ghost after = entry.member_ids@.take(i + 1);
        assert(after.drop_last() =~= before);
        assert(after.last() == id);
        assert(after.filter(pred) == if pred(id) {
            before.filter(pred).push(id)
        } else {
            before.filter(pred)
        }) by {
            reveal(Seq::filter);
        }
        let present = catalog_ids.contains(&id);
        proof {
            vstd::std_specs::hash::axiom_set_contains_deref_key(catalog_ids@, &id);
        }
        assert(present == pred(id));
        if present {
            n = n + 1;
        }
        i = i + 1;
    }
    assert(entry.member_ids@.take(i as int) =~= entry.member_ids@);
    assert(pred =~= (|id: u64| catalog_ids@.contains(id)));
    n
}

/// Sorts `entries` in place by `method`, stably, then reverses the result
/// when `direction` is descending. `ItemCount` counts only the members that
/// are in `catalog_ids`, as the sidebar displays them.
pub fn sort_collections(
    entries: &mut Vec<CollectionEntry>,
    method: CollectionSortMethod,
    direction: SortDirection,
    catalog_ids: &HashSet<u64>,
)
    ensures
        sorted_by(old(entries)@, collection_sort_order(method, catalog_ids@), direction, final(entries)@),
{
    let mut taken: Vec<CollectionEntry> = Vec::new();
    std::mem::swap(entries, &mut taken);
    let mut keys: Vec<SortKey> = Vec::new();
    let mut i: usize = 0;
    while i < taken.len()
        invariant
            i <= taken.len(),
            keys.len() == i,
            forall|k: int|
                0 <= k < i ==> #[trigger] keys@[k]@ == collection_key(
                    method,
                    taken@[k],
                    catalog_ids@,
                ),
        decreases taken.len() - i,
    {
        let e = &taken[i];
        let key = match method {
            CollectionSortMethod::Name => SortKey {
                rank: 0,
                primary: chars_of(e.name.as_str()),
                secondary: Vec::new(),
            },
            CollectionSortMethod::DateCreated => SortKey {
                rank: e.created_at as i128,
                primary: chars_of(e.name.as_str()),
                secondary: Vec::new(),
            },
            CollectionSortMethod::ItemCount => SortKey {
                rank: count_in_catalog(e, catalog_ids) as i128,
                primary: chars_of(e.name.as_str()),
                secondary: Vec::new(),
            },
        };
        keys.push(key);
        i = i + 1;
    }
    let ghost inp = taken@;
    let ghost key = |e: CollectionEntry| collection_key(method, e, catalog_ids@);
    let asc = stable_sort(taken, keys, Ghost(key));
    let ghost asc_view = asc@;
    let result = match direction {
        SortDirection::Ascending => asc,
        SortDirection::Descending => reversed(asc),
    };
    *entries = result;
    proof {
        assert(is_stable_sort(asc_view, inp, key));
        assert(entries@ == oriented(asc_view, direction));
    }
}

/// A column header's sort state, as the catalog table reports a click.
#[derive(Debug, Clone, Copy, PartialEq, Eq, Structural)]
pub enum ColumnSort {
    Ascending,
    Descending,
    Default,
}

/// The sort a click on column `col_ix` of the catalog table asks for:
/// columns title, publisher, system, pages, size and added, in that order;
/// the unsorted state goes back to title ascending. Other columns ask for
/// nothing.
pub open spec fn column_sort_request(col_ix: nat, sort: ColumnSort) -> Option<(SortMethod, SortDirection)> {
    if col_ix >= 6 {
        None
    } else {
        let method = if col_ix == 0 {
            SortMethod::Title
        } else if col_ix == 1 {
            SortMethod::Custom { col_key: "publisher" }
        } else if col_ix == 2 {
            SortMethod::Custom { col_key: "system" }
        } else if col_ix == 3 {
            SortMethod::Custom { col_key: "pages" }
        } else if col_ix == 4 {
            SortMethod::Custom { col_key: "size" }
        } else {
            SortMethod::Custom { col_key: "added" }
        };
        match sort {
            ColumnSort::Ascending => Some((method, SortDirection::Ascending)),
            ColumnSort::Descending => Some((method, SortDirection::Descending)),
            ColumnSort::Default => Some((SortMethod::Title, SortDirection::Ascending)),
        }
    }
}

/// Maps a catalog table header click to the sort method and direction to
/// apply, or `None` for a column that does not sort.
pub fn column_sort(col_ix: usize, sort: ColumnSort) -> (r: Option<(SortMethod, SortDirection)>)
    ensures
        r == column_sort_request(col_ix as nat, sort),
{
    if col_ix >= 6 {
        return None;
    }
    let method = if col_ix == 0 {
        SortMethod::Title
    } else if col_ix == 1 {
        SortMethod::Custom { col_key: "publisher" }
    } else if col_ix == 2 {
        SortMethod::Custom { col_key: "system" }
    } else if col_ix == 3 {
        SortMethod::Custom { col_key: "pages" }
    } else if col_ix == 4 {
        SortMethod::Custom { col_key: "size" }
    } else {
        SortMethod::Custom { col_key: "added" }
    };
    match sort {
        ColumnSort::Ascending => Some((method, SortDirection::Ascending)),
        ColumnSort::Descending => Some((method, SortDirection::Descending)),
        ColumnSort::Default => Some((SortMethod::Title, SortDirection::Ascending)),
    }
}

/// A sort's result is determined by its input, key and direction: any two
/// results it could give are the same sequence.
pub proof fn lemma_sort_result_unique<T>(
    before: Seq<T>,
    key: spec_fn(T) -> KeyView,
    direction: SortDirection,
    after1: Seq<T>,
    after2: Seq<T>,
)
    requires
        sorted_by(before, key, direction, after1),
        sorted_by(before, key, direction, after2),
    ensures
        after1 == after2,
{
    let a1 = choose|asc: Seq<T>| is_stable_sort(asc, before, key) && after1 == oriented(asc, direction);
    let a2 = choose|asc: Seq<T>| is_stable_sort(asc, before, key) && after2 == oriented(asc, direction);
    lemma_stable_sort_unique(a1, a2, before, key);
}

/// Sorting ascending twice by the same key gives what sorting once gave.
pub proof fn lemma_ascending_sort_idempotent<T>(
    before: Seq<T>,
    key: spec_fn(T) -> KeyView,
    once: Seq<T>,
    twice: Seq<T>,
)
    requires
        sorted_by(before, key, SortDirection::Ascending, once),
        sorted_by(once, key, SortDirection::Ascending, twice),
    ensures
        twice == once,
{
    let a1 = choose|asc: Seq<T>| is_stable_sort(asc, before, key) && once == oriented(asc, SortDirection::Ascending);
    let a2 = choose|asc: Seq<T>| is_stable_sort(asc, once, key) && twice == oriented(asc, SortDirection::Ascending);
    lemma_stable_sort_idempotent(once, before, key, twice);
}

/// The descending result is the ascending result reversed.
pub proof fn lemma_descending_reverses_ascending<T>(
    before: Seq<T>,
    key: spec_fn(T) -> KeyView,
    asc_result: Seq<T>,
    desc_result: Seq<T>,
)
    requires
        sorted_by(before, key, SortDirection::Ascending, asc_result),
        sorted_by(before, key, SortDirection::Descending, desc_result),
    ensures
        desc_result == asc_result.reverse(),
{
    let a1 = choose|asc: Seq<T>| is_stable_sort(asc, before, key) && asc_result == oriented(asc, SortDirection::Ascending);
    let a2 = choose|asc: Seq<T>| is_stable_sort(asc, before, key) && desc_result == oriented(asc, SortDirection::Descending);
    lemma_stable_sort_unique(a1, a2, before, key);
}

/// An ascending sort result is a reordering of its input (each input element
/// lands at some position, and each position holds an input element) whose
/// keys never decrease.
pub proof fn lemma_ascending_sort_orders_by_key<T>(
    before: Seq<T>,
    key: spec_fn(T) -> KeyView,
    after: Seq<T>,
)
    requires
        sorted_by(before, key, SortDirection::Ascending, after),
    ensures
        after.len() == before.len(),
        forall|i: int, j: int|
            0 <= i < j < after.len() ==> key_le(key(#[trigger] after[i]), key(#[trigger] after[j])),
        forall|i: int| 0 <= i < before.len() ==> after.contains(#[trigger] before[i]),
        forall|j: int| 0 <= j < after.len() ==> before.contains(#[trigger] after[j]),
{
    let asc = choose|asc: Seq<T>| is_stable_sort(asc, before, key) && after == oriented(asc, SortDirection::Ascending);
    let p = choose|p: Seq<int>| is_sort_witness(asc, before, key, p);
    assert forall|i: int| 0 <= i < before.len() implies after.contains(#[trigger] before[i]) by {
        assert(crate::order::index_covered(p, i));
        let k = choose|k: int| 0 <= k < p.len() && #[trigger] p[k] == i;
        assert(after[k] == before[p[k]]);
    }
    assert forall|j: int| 0 <= j < after.len() implies before.contains(#[trigger] after[j]) by {
        assert(after[j] == before[p[j]]);
    }
}

proof fn lemma_column_keys_distinct()
    ensures
        "publisher"@ != "system"@,
        "publisher"@ != "pages"@,
        "publisher"@ != "size"@,
        "publisher"@ != "added"@,
        "system"@ != "pages"@,
        "system"@ != "size"@,
        "system"@ != "added"@,
        "pages"@ != "size"@,
        "pages"@ != "added"@,
        "size"@ != "added"@,
{
    reveal_strlit("publisher");
    reveal_strlit("system");
    reveal_strlit("pages");
    reveal_strlit("size");
    reveal_strlit("added");
    assert("publisher"@.len() == 9);
    assert("system"@.len() == 6);
    assert("pages"@.len() == 5);
    assert("size"@.len() == 4);
    assert("added"@.len() == 5);
    assert("pages"@[0] == 'p');
    assert("added"@[0] == 'a');
}

/// Sorting by publisher (the menu's publisher sort or the publisher column)
/// puts publishers in non-decreasing order, and orders by title only among
/// items of the same publisher.
pub proof fn lemma_publisher_sort_orders_by_publisher_then_title(before: Seq<LibraryItem>, method: SortMethod, after: Seq<LibraryItem>)
    requires
        method == SortMethod::Publisher || (method matches SortMethod::Custom { col_key } && col_key@
            == "publisher"@),
        sorted_by(before, item_sort_order(method), SortDirection::Ascending, after),
    ensures
        after.len() == before.len(),
        forall|i: int, j: int|
            0 <= i < j < after.len() ==> !chars_lt((#[trigger] after[j]).publisher@, (#[trigger] after[i]).publisher@) && (after[i].publisher@
                == after[j].publisher@ ==> !chars_lt(after[j].title@, after[i].title@)),
{
    lemma_column_keys_distinct();
    lemma_ascending_sort_orders_by_key(before, item_sort_order(method), after);
    assert forall|i: int, j: int| 0 <= i < j < after.len() implies !chars_lt((#[trigger] after[j]).publisher@, (#[trigger] after[i]).publisher@) && (after[i].publisher@
                == after[j].publisher@ ==> !chars_lt(after[j].title@, after[i].title@)) by {
        assert(key_le(item_sort_order(method)(after[i]), item_sort_order(method)(after[j])));
    }
}

/// Sorting by title puts titles in non-decreasing order.
pub proof fn lemma_title_sort_orders_by_title(before: Seq<LibraryItem>, method: SortMethod, after: Seq<LibraryItem>)
    requires
        method == SortMethod::Title,
        sorted_by(before, item_sort_order(method), SortDirection::Ascending, after),
    ensures
        after.len() == before.len(),
        forall|i: int, j: int|
            0 <= i < j < after.len() ==> !chars_lt((#[trigger] after[j]).title@, (#[trigger] after[i]).title@),
{
    lemma_column_keys_distinct();
    lemma_ascending_sort_orders_by_key(before, item_sort_order(method), after);
    assert forall|i: int, j: int| 0 <= i < j < after.len() implies !chars_lt((#[trigger] after[j]).title@, (#[trigger] after[i]).title@) by {
        assert(key_le(item_sort_order(method)(after[i]), item_sort_order(method)(after[j])));
    }
}

/// Sorting by page count (menu or pages column) puts page counts in
/// non-decreasing order, and orders by title only among equal page counts.
pub proof fn lemma_page_sort_orders_by_pages_then_title(before: Seq<LibraryItem>, method: SortMethod, after: Seq<LibraryItem>)
    requires
        method == SortMethod::PageCount || (method matches SortMethod::Custom { col_key } && col_key@
            == "pages"@),
        sorted_by(before, item_sort_order(method), SortDirection::Ascending, after),
    ensures
        after.len() == before.len(),
        forall|i: int, j: int|
            0 <= i < j < after.len() ==> (#[trigger] after[i]).pages <= (#[trigger] after[j]).pages && (after[i].pages == after[j].pages
                ==> !chars_lt(after[j].title@, after[i].title@)),
{
    lemma_column_keys_distinct();
    lemma_ascending_sort_orders_by_key(before, item_sort_order(method), after);
    assert forall|i: int, j: int| 0 <= i < j < after.len() implies (#[trigger] after[i]).pages <= (#[trigger] after[j]).pages && (after[i].pages == after[j].pages
                ==> !chars_lt(after[j].title@, after[i].title@)) by {
        assert(key_le(item_sort_order(method)(after[i]), item_sort_order(method)(after[j])));
    }
}

/// Sorting by date added (menu or added column) puts the catalog insertion
/// order in non-decreasing order.
pub proof fn lemma_added_sort_orders_by_insertion(before: Seq<LibraryItem>, method: SortMethod, after: Seq<LibraryItem>)
    requires
        method == SortMethod::DateAdded || (method matches SortMethod::Custom { col_key } && col_key@
            == "added"@),
        sorted_by(before, item_sort_order(method), SortDirection::Ascending, after),
    ensures
        after.len() == before.len(),
        forall|i: int, j: int|
            0 <= i < j < after.len() ==> (#[trigger] after[i]).added_order <= (#[trigger] after[j]).added_order,
{
    lemma_column_keys_distinct();
    lemma_ascending_sort_orders_by_key(before, item_sort_order(method), after);
    assert forall|i: int, j: int| 0 <= i < j < after.len() implies (#[trigger] after[i]).added_order <= (#[trigger] after[j]).added_order by {
        assert(key_le(item_sort_order(method)(after[i]), item_sort_order(method)(after[j])));
    }
}

/// Sorting by the system column puts game lines in non-decreasing order, and
/// orders by title only within a game line.
pub proof fn lemma_system_sort_orders_by_line_then_title(before: Seq<LibraryItem>, method: SortMethod, after: Seq<LibraryItem>)
    requires
        method matches SortMethod::Custom { col_key } && col_key@ == "system"@,
        sorted_by(before, item_sort_order(method), SortDirection::Ascending, after),
    ensures
        after.len() == before.len(),
        forall|i: int, j: int|
            0 <= i < j < after.len() ==> !chars_lt((#[trigger] after[j]).line@, (#[trigger] after[i]).line@) && (after[i].line@
                == after[j].line@ ==> !chars_lt(after[j].title@, after[i].title@)),
{
    lemma_column_keys_distinct();
    lemma_ascending_sort_orders_by_key(before, item_sort_order(method), after);
    assert forall|i: int, j: int| 0 <= i < j < after.len() implies !chars_lt((#[trigger] after[j]).line@, (#[trigger] after[i]).line@) && (after[i].line@
                == after[j].line@ ==> !chars_lt(after[j].title@, after[i].title@)) by {
        assert(key_le(item_sort_order(method)(after[i]), item_sort_order(method)(after[j])));
    }
}

/// Sorting by the size column puts sizes in non-decreasing order, and orders
/// by title only among equal sizes.
pub proof fn lemma_size_sort_orders_by_size_then_title(before: Seq<LibraryItem>, method: SortMethod, after: Seq<LibraryItem>)
    requires
        method matches SortMethod::Custom { col_key } && col_key@ == "size"@,
        sorted_by(before, item_sort_order(method), SortDirection::Ascending, after),
    ensures
        after.len() == before.len(),
        forall|i: int, j: int|
            0 <= i < j < after.len() ==> (#[trigger] after[i]).size_kb <= (#[trigger] after[j]).size_kb && (after[i].size_kb
                == after[j].size_kb ==> !chars_lt(after[j].title@, after[i].title@)),
{
    lemma_column_keys_distinct();
    lemma_ascending_sort_orders_by_key(before, item_sort_order(method), after);
    assert forall|i: int, j: int| 0 <= i < j < after.len() implies (#[trigger] after[i]).size_kb <= (#[trigger] after[j]).size_kb && (after[i].size_kb
                == after[j].size_kb ==> !chars_lt(after[j].title@, after[i].title@)) by {
        assert(key_le(item_sort_order(method)(after[i]), item_sort_order(method)(after[j])));
    }
}

/// Sorting collections by name puts names in non-decreasing order.
pub proof fn lemma_collection_name_sort_orders_by_name(
    before: Seq<CollectionEntry>,
    catalog_ids: Set<u64>,
    after: Seq<CollectionEntry>,
)
    requires
        sorted_by(before, collection_sort_order(CollectionSortMethod::Name, catalog_ids), SortDirection::Ascending, after),
    ensures
        after.len() == before.len(),
        forall|i: int, j: int|
            0 <= i < j < after.len() ==> !chars_lt((#[trigger] after[j]).name@, (#[trigger] after[i]).name@),
{
    let key = collection_sort_order(CollectionSortMethod::Name, catalog_ids);
    lemma_ascending_sort_orders_by_key(before, key, after);
    assert forall|i: int, j: int| 0 <= i < j < after.len() implies !chars_lt((#[trigger] after[j]).name@, (#[trigger] after[i]).name@) by {
        assert(key_le(key(after[i]), key(after[j])));
    }
}

/// Sorting collections by creation date puts creation times in
/// non-decreasing order, and orders by name only among equal times.
pub proof fn lemma_collection_date_sort_orders_by_creation_then_name(
    before: Seq<CollectionEntry>,
    catalog_ids: Set<u64>,
    after: Seq<CollectionEntry>,
)
    requires
        sorted_by(before, collection_sort_order(CollectionSortMethod::DateCreated, catalog_ids), SortDirection::Ascending, after),
    ensures
        after.len() == before.len(),
        forall|i: int, j: int|
            0 <= i < j < after.len() ==> (#[trigger] after[i]).created_at <= (#[trigger] after[j]).created_at && (after[i].created_at
                == after[j].created_at ==> !chars_lt(after[j].name@, after[i].name@)),
{
    let key = collection_sort_order(CollectionSortMethod::DateCreated, catalog_ids);
    lemma_ascending_sort_orders_by_key(before, key, after);
    assert forall|i: int, j: int| 0 <= i < j < after.len() implies (#[trigger] after[i]).created_at <= (#[trigger] after[j]).created_at && (after[i].created_at
                == after[j].created_at ==> !chars_lt(after[j].name@, after[i].name@)) by {
        assert(key_le(key(after[i]), key(after[j])));
    }
}

/// Sorting collections by item count puts the number of their members that
/// are in the catalog in non-decreasing order, and orders by name only among
/// equal counts.
pub proof fn lemma_collection_count_sort_orders_by_catalog_count_then_name(
    before: Seq<CollectionEntry>,
    catalog_ids: Set<u64>,
    after: Seq<CollectionEntry>,
)
    requires
        sorted_by(before, collection_sort_order(CollectionSortMethod::ItemCount, catalog_ids), SortDirection::Ascending, after),
    ensures
        after.len() == before.len(),
        forall|i: int, j: int|
            0 <= i < j < after.len() ==> catalog_count(#[trigger] after[i], catalog_ids) <= catalog_count(#[trigger] after[j], catalog_ids)
                && (catalog_count(after[i], catalog_ids) == catalog_count(after[j], catalog_ids)
                ==> !chars_lt(after[j].name@, after[i].name@)),
{
    let key = collection_sort_order(CollectionSortMethod::ItemCount, catalog_ids);
    lemma_ascending_sort_orders_by_key(before, key, after);
    assert forall|i: int, j: int| 0 <= i < j < after.len() implies catalog_count(#[trigger] after[i], catalog_ids) <= catalog_count(#[trigger] after[j], catalog_ids)
                && (catalog_count(after[i], catalog_ids) == catalog_count(after[j], catalog_ids)
                ==> !chars_lt(after[j].name@, after[i].name@)) by {
        assert(key_le(key(after[i]), key(after[j])));
    }
}

} // verus!

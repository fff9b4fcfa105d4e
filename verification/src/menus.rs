//! What the native menu bar shows: the View menu's checkmarks and the Window
//! menu's ten tab-selection items.

use vstd::prelude::*;
use vstd::string::StringExecFns;

use crate::chars::str_eq;
use crate::sort::{SortDirection, SortMethod};
use crate::tabs::{same_target, TabTarget, TabsSnapshot};
use crate::text::{truncate_with_ellipsis, truncated};

verus! {

/// The longest detail-tab title a Window menu item shows before it is cut
/// off with an ellipsis.
pub const DETAIL_TAB_TITLE_MAX_CHARS: usize = 40;

/// How the catalog is presented.
#[derive(Debug, Clone, Copy, PartialEq, Eq, Structural)]
pub enum CatalogPresentation {
    List,
    Thumbs,
    Grid,
}

/// The catalog state the View menu reflects.
#[derive(Debug, Clone, Copy)]
pub struct ViewMenuState {
    pub presentation: CatalogPresentation,
    pub sort: SortMethod,
    pub sort_direction: SortDirection,
    pub grouped: bool,
}

/// The menu item a sort corresponds to. Column-header clicks give
/// `Custom { col_key }`; the publisher, added and pages columns map to the
/// named methods, any other column to no menu item.
pub open spec fn menu_sort(m: SortMethod) -> Option<SortMethod> {
    match m {
        SortMethod::Custom { col_key } => if col_key@ == "publisher"@ {
            Some(SortMethod::Publisher)
        } else if col_key@ == "added"@ {
            Some(SortMethod::DateAdded)
        } else if col_key@ == "pages"@ {
            Some(SortMethod::PageCount)
        } else {
            None
        },
        _ => Some(m),
    }
}

/// Whether the View menu's item for `target` is checked while the catalog
/// is sorted by `sort`.
pub fn menu_sort_checked(sort: SortMethod, target: SortMethod) -> (r: bool)
    ensures
        r == (menu_sort(sort) == Some(target)),
{
    let normalized = match sort {
        SortMethod::Custom { col_key } => {
            proof {
                reveal_strlit("publisher");
                reveal_strlit("added");
                reveal_strlit("pages");
            }
            if str_eq(col_key, "publisher") {
                Some(SortMethod::Publisher)
            } else if str_eq(col_key, "added") {
                Some(SortMethod::DateAdded)
            } else if str_eq(col_key, "pages") {
                Some(SortMethod::PageCount)
            } else {
                None
            }
        },
        other => Some(other),
    };
    match (normalized, target) {
        (Some(SortMethod::Title), SortMethod::Title) => true,
        (Some(SortMethod::Publisher), SortMethod::Publisher) => true,
        (Some(SortMethod::DateAdded), SortMethod::DateAdded) => true,
        (Some(SortMethod::PageCount), SortMethod::PageCount) => true,
        _ => false,
    }
}

/// The View menu's checkmarks.
#[derive(Debug, Clone, Copy, PartialEq, Eq, Structural)]
pub struct ViewMenuChecks {
    pub as_list: bool,
    pub as_thumbs: bool,
    pub as_grid: bool,
    pub by_title: bool,
    pub by_publisher: bool,
    pub by_date_added: bool,
    pub by_pages: bool,
    pub ascending: bool,
    pub descending: bool,
    pub grouped: bool,
}

/// The checkmarks the View menu shows for `state`.
pub open spec fn menu_checks(state: ViewMenuState) -> ViewMenuChecks {
    ViewMenuChecks {
        as_list: state.presentation == CatalogPresentation::List,
        as_thumbs: state.presentation == CatalogPresentation::Thumbs,
        as_grid: state.presentation == CatalogPresentation::Grid,
        by_title: menu_sort(state.sort) == Some(SortMethod::Title),
        by_publisher: menu_sort(state.sort) == Some(SortMethod::Publisher),
        by_date_added: menu_sort(state.sort) == Some(SortMethod::DateAdded),
        by_pages: menu_sort(state.sort) == Some(SortMethod::PageCount),
        ascending: state.sort_direction == SortDirection::Ascending,
        descending: state.sort_direction == SortDirection::Descending,
        grouped: state.grouped,
    }
}

/// Computes the View menu's checkmarks for `state`.
pub fn view_menu_checks(state: &ViewMenuState) -> (c: ViewMenuChecks)
    ensures
        c == menu_checks(*state),
{
    ViewMenuChecks {
        as_list: state.presentation == CatalogPresentation::List,
        as_thumbs: state.presentation == CatalogPresentation::Thumbs,
        as_grid: state.presentation == CatalogPresentation::Grid,
        by_title: menu_sort_checked(state.sort, SortMethod::Title),
        by_publisher: menu_sort_checked(state.sort, SortMethod::Publisher),
        by_date_added: menu_sort_checked(state.sort, SortMethod::DateAdded),
        by_pages: menu_sort_checked(state.sort, SortMethod::PageCount),
        ascending: state.sort_direction == SortDirection::Ascending,
        descending: state.sort_direction == SortDirection::Descending,
        grouped: state.grouped,
    }
}

/// The title recorded for the detail tab of item `id`: the first
/// `(id, title)` pair with that id.
pub open spec fn title_for(titles: Seq<(String, String)>, id: Seq<char>) -> Option<Seq<char>>
    decreases titles.len(),
{
    if titles.len() == 0 {
        None
    } else if titles[0].0@ == id {
        Some(titles[0].1@)
    } else {
        title_for(titles.drop_first(), id)
    }
}

/// The Window menu's item for tab `position`: its label, whether it is
/// enabled (a tab is open there) and whether it is checked (that tab is
/// active). A detail tab shows its item's title, or `fallback`, cut to
/// `DETAIL_TAB_TITLE_MAX_CHARS` characters.
pub open spec fn tab_slot_view(
    tabs: TabsSnapshot,
    titles: Seq<(String, String)>,
    position: int,
    catalog_label: Seq<char>,
    fallback: Seq<char>,
    empty_label: Seq<char>,
) -> (Seq<char>, bool, bool) {
    if 0 <= position < tabs.open_tabs@.len() {
        let target = tabs.open_tabs@[position];
        let label = match target {
            TabTarget::Catalog => catalog_label,
            TabTarget::Detail(id) => truncated(
                match title_for(titles, id@) {
                    Some(t) => t,
                    None => fallback,
                },
                DETAIL_TAB_TITLE_MAX_CHARS as nat,
            ),
        };
        (label, true, same_target(target, tabs.active))
    } else {
        (empty_label, false, false)
    }
}

fn targets_equal(a: &TabTarget, b: &TabTarget) -> (r: bool)
    ensures
        r == same_target(*a, *b),
{
    match (a, b) {
        (TabTarget::Catalog, TabTarget::Catalog) => true,
        (TabTarget::Detail(x), TabTarget::Detail(y)) => str_eq(x.as_str(), y.as_str()),
        _ => false,
    }
}

fn find_title<'a>(titles: &'a [(String, String)], id: &str) -> (r: Option<&'a str>)
    ensures
        match title_for(titles@, id@) {
            Some(t) => r matches Some(s) && s@ == t,
            None => r.is_none(),
        },
{
    let mut i: usize = 0;
    assert(titles@.skip(0) =~= titles@);
    while i < titles.len()
        invariant
            i <= titles@.len(),
            title_for(titles@, id@) == title_for(titles@.skip(i as int), id@),
        decreases titles@.len() - i,
    {
        assert(titles@.skip(i as int)[0] == titles@[i as int]);
        if str_eq(titles[i].0.as_str(), id) {
            return Some(titles[i].1.as_str());
        }
        assert(titles@.skip(i as int).drop_first() =~= titles@.skip(i + 1));
        i = i + 1;
    }
    None
}

/// Builds the Window menu's item for tab `position` (`cmd-0` is the
/// catalog tab, `cmd-1` to `cmd-9` the open detail tabs): its label, whether
/// it is enabled and whether it is checked.
pub fn tab_slot(
    tabs: &TabsSnapshot,
    titles: &[(String, String)],
    position: usize,
    catalog_label: &str,
    fallback: &str,
    empty_label: &str,
) -> (r: (String, bool, bool))
    ensures
        r.0@ == tab_slot_view(*tabs, titles@, position as int, catalog_label@, fallback@, empty_label@).0,
        r.1 == tab_slot_view(*tabs, titles@, position as int, catalog_label@, fallback@, empty_label@).1,
        r.2 == tab_slot_view(*tabs, titles@, position as int, catalog_label@, fallback@, empty_label@).2,
{
    if position < tabs.open_tabs.len() {
        let target = &tabs.open_tabs[position];
        let checked = targets_equal(target, &tabs.active);
        let label = match target {
            TabTarget::Catalog => String::from_str(catalog_label),
            TabTarget::Detail(id) => {
                let title = match find_title(titles, id.as_str()) {
                    Some(t) => t,
                    None => fallback,
                };
                truncate_with_ellipsis(title, DETAIL_TAB_TITLE_MAX_CHARS)
            },
        };
        (label, true, checked)
    } else {
        (String::from_str(empty_label), false, false)
    }
}

/// The Window menu's ten tab-selection items, for positions 0 through 9.
pub fn window_tab_slots(
    tabs: &TabsSnapshot,
    titles: &[(String, String)],
    catalog_label: &str,
    fallback: &str,
    empty_label: &str,
) -> (slots: Vec<(String, bool, bool)>)
    ensures
        slots@.len() == 10,
        forall|p: int|
            0 <= p < 10 ==> {
                let v = tab_slot_view(*tabs, titles@, p, catalog_label@, fallback@, empty_label@);
                &&& (#[trigger] slots@[p]).0@ == v.0
                &&& slots@[p].1 == v.1
                &&& slots@[p].2 == v.2
            },
{
    let mut slots: Vec<(String, bool, bool)> = Vec::new();
    let mut p: usize = 0;
    while p < 10
        invariant
            p <= 10,
            slots@.len() == p,
            forall|q: int|
                0 <= q < p ==> {
                    let v = tab_slot_view(*tabs, titles@, q, catalog_label@, fallback@, empty_label@);
                    &&& (#[trigger] slots@[q]).0@ == v.0
                    &&& slots@[q].1 == v.1
                    &&& slots@[q].2 == v.2
                },
        decreases 10 - p,
    {
        let slot = tab_slot(tabs, titles, p, catalog_label, fallback, empty_label);
        slots.push(slot);
        p = p + 1;
    }
    slots
}

} // verus!

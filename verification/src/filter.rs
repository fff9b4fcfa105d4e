//! The sidebar filter applied to the catalog.

use vstd::prelude::*;

use crate::chars::str_eq;

verus! {

/// Active filter applied in the sidebar.
#[derive(Debug, Clone)]
pub enum SidebarFilter {
    AllTitles,
    RecentlyUpdated,
    OnDevice,
    InCloud,
    Publisher(String),
    /// Items belonging to the product list with this id and display name.
    Collection(u64, String),
}

/// Filter equality: publishers compare by name, collections by id alone (the
/// name is derived from the id).
pub open spec fn same_filter(a: SidebarFilter, b: SidebarFilter) -> bool {
    match (a, b) {
        (SidebarFilter::AllTitles, SidebarFilter::AllTitles) => true,
        (SidebarFilter::RecentlyUpdated, SidebarFilter::RecentlyUpdated) => true,
        (SidebarFilter::OnDevice, SidebarFilter::OnDevice) => true,
        (SidebarFilter::InCloud, SidebarFilter::InCloud) => true,
        (SidebarFilter::Publisher(x), SidebarFilter::Publisher(y)) => x@ == y@,
        (SidebarFilter::Collection(x, _), SidebarFilter::Collection(y, _)) => x == y,
        _ => false,
    }
}

impl PartialEq for SidebarFilter {
    fn eq(&self, other: &Self) -> (r: bool) {
        match (self, other) {
            (SidebarFilter::AllTitles, SidebarFilter::AllTitles) => true,
            (SidebarFilter::RecentlyUpdated, SidebarFilter::RecentlyUpdated) => true,
            (SidebarFilter::OnDevice, SidebarFilter::OnDevice) => true,
            (SidebarFilter::InCloud, SidebarFilter::InCloud) => true,
            (SidebarFilter::Publisher(a), SidebarFilter::Publisher(b)) => str_eq(a.as_str(), b.as_str()),
            (SidebarFilter::Collection(a, _), SidebarFilter::Collection(b, _)) => *a == *b,
            _ => false,
        }
    }
}

impl vstd::std_specs::cmp::PartialEqSpecImpl for SidebarFilter {
    open spec fn obeys_eq_spec() -> bool {
        true
    }

    open spec fn eq_spec(&self, other: &Self) -> bool {
        same_filter(*self, *other)
    }
}

impl Eq for SidebarFilter {
}

impl Default for SidebarFilter {
    fn default() -> (f: Self)
        ensures
            f == SidebarFilter::AllTitles,
    {
        SidebarFilter::AllTitles
    }
}

/// Filter equality is an equivalence relation.
pub proof fn lemma_same_filter_equivalence(a: SidebarFilter, b: SidebarFilter, c: SidebarFilter)
    ensures
        same_filter(a, a),
        same_filter(a, b) ==> same_filter(b, a),
        same_filter(a, b) && same_filter(b, c) ==> same_filter(a, c),
{
}

/// Two collection filters with the same id are equal whatever their names.
pub proof fn lemma_collection_filters_compare_by_id(id: u64, name_a: String, name_b: String)
    ensures
        same_filter(SidebarFilter::Collection(id, name_a), SidebarFilter::Collection(id, name_b)),
{
}

} // verus!

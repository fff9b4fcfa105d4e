//! The main window's tab strip: which tabs are open, and resolving a
//! `cmd-<n>` position to the tab open there.

use vstd::prelude::*;
use vstd::string::StringExecFns;

verus! {

/// What a tab shows: the catalog, or the detail view of one item.
#[derive(Debug)]
pub enum TabTarget {
    Catalog,
    /// The detail tab of the item with this id.
    Detail(String),
}

/// Two targets name the same tab.
pub open spec fn same_target(a: TabTarget, b: TabTarget) -> bool {
    match (a, b) {
        (TabTarget::Catalog, TabTarget::Catalog) => true,
        (TabTarget::Detail(x), TabTarget::Detail(y)) => x@ == y@,
        _ => false,
    }
}

/// Returns a copy of `target`.
pub fn copy_target(target: &TabTarget) -> (r: TabTarget)
    ensures
        same_target(r, *target),
{
    match target {
        TabTarget::Catalog => TabTarget::Catalog,
        TabTarget::Detail(id) => TabTarget::Detail(String::from_str(id.as_str())),
    }
}

/// The open tabs, in strip order (the catalog tab first), and the active one.
#[derive(Debug)]
pub struct TabsSnapshot {
    pub open_tabs: Vec<TabTarget>,
    pub active: TabTarget,
}

/// Resolves a Window-menu/`cmd-<n>` tab position to the tab currently open
/// there, if any. Position `0` is the catalog tab; `1..=9` are the first
/// through ninth detail tabs.
pub fn tab_target_at(snapshot: &TabsSnapshot, position: usize) -> (r: Option<TabTarget>)
    ensures
        match r {
            Some(t) => position < snapshot.open_tabs@.len() && same_target(
                t,
                snapshot.open_tabs@[position as int],
            ),
            None => position >= snapshot.open_tabs@.len(),
        },
{
    if position < snapshot.open_tabs.len() {
        Some(copy_target(&snapshot.open_tabs[position]))
    } else {
        None
    }
}

} // verus!

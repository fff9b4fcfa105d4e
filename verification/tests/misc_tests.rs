use dtrpg_ui::actions::{DeleteCollection, ReloadCollection};
use dtrpg_ui::filter::SidebarFilter;
use dtrpg_ui::fonts::resolve_installed_font;
use dtrpg_ui::tabs::{tab_target_at, TabTarget, TabsSnapshot};

#[test]
fn collection_filters_compare_by_id_only() {
    assert_eq!(SidebarFilter::Collection(1, "A".into()), SidebarFilter::Collection(1, "B".into()));
    assert_ne!(SidebarFilter::Collection(1, "A".into()), SidebarFilter::Collection(2, "A".into()));
    assert_eq!(SidebarFilter::Publisher("Paizo".into()), SidebarFilter::Publisher("Paizo".into()));
    assert_ne!(SidebarFilter::Publisher("Paizo".into()), SidebarFilter::Publisher("paizo".into()));
    assert_ne!(SidebarFilter::AllTitles, SidebarFilter::InCloud);
    assert_eq!(SidebarFilter::default(), SidebarFilter::AllTitles);
}

#[test]
fn tab_positions_resolve_to_open_tabs() {
    let snap = TabsSnapshot {
        open_tabs: vec![TabTarget::Catalog, TabTarget::Detail("b1".into()), TabTarget::Detail("b2".into())],
        active: TabTarget::Catalog,
    };
    assert!(matches!(tab_target_at(&snap, 0), Some(TabTarget::Catalog)));
    assert!(matches!(tab_target_at(&snap, 2), Some(TabTarget::Detail(ref id)) if id == "b2"));
    assert!(tab_target_at(&snap, 3).is_none());
    assert!(tab_target_at(&snap, 9).is_none());
}

#[test]
fn collection_actions_carry_their_id() {
    assert_eq!(ReloadCollection { id: 7 }.id, 7);
    assert_eq!(DeleteCollection { id: 9 }, DeleteCollection { id: 9 });
}

#[test]
fn persisted_font_is_kept_only_while_installed() {
    let installed = vec!["Inter".to_string(), "Fira Code".to_string()];
    assert_eq!(resolve_installed_font(&installed, Some("Fira Code"), "Menlo"), "Fira Code");
    assert_eq!(resolve_installed_font(&installed, Some("Comic Sans"), "Menlo"), "Menlo");
    assert_eq!(resolve_installed_font(&installed, None, "Menlo"), "Menlo");
    assert_eq!(resolve_installed_font(&[], Some("Inter"), "Menlo"), "Menlo");
}

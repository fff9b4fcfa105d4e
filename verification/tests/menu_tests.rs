use dtrpg_ui::menus::{
    menu_sort_checked, tab_slot, view_menu_checks, window_tab_slots, CatalogPresentation, ViewMenuState,
};
use dtrpg_ui::sort::{SortDirection, SortMethod};
use dtrpg_ui::tabs::{TabTarget, TabsSnapshot};

#[test]
fn column_sorts_check_the_matching_menu_item() {
    assert!(menu_sort_checked(SortMethod::Custom { col_key: "publisher" }, SortMethod::Publisher));
    assert!(menu_sort_checked(SortMethod::Custom { col_key: "added" }, SortMethod::DateAdded));
    assert!(menu_sort_checked(SortMethod::Custom { col_key: "pages" }, SortMethod::PageCount));
    assert!(!menu_sort_checked(SortMethod::Custom { col_key: "size" }, SortMethod::Title));
    assert!(!menu_sort_checked(SortMethod::Custom { col_key: "system" }, SortMethod::Publisher));
    assert!(menu_sort_checked(SortMethod::Title, SortMethod::Title));
    assert!(!menu_sort_checked(SortMethod::Title, SortMethod::PageCount));
}

#[test]
fn view_menu_checks_follow_state() {
    let state = ViewMenuState {
        presentation: CatalogPresentation::Grid,
        sort: SortMethod::Custom { col_key: "added" },
        sort_direction: SortDirection::Descending,
        grouped: true,
    };
    let c = view_menu_checks(&state);
    assert!(c.as_grid && !c.as_list && !c.as_thumbs);
    assert!(c.by_date_added && !c.by_title && !c.by_publisher && !c.by_pages);
    assert!(c.descending && !c.ascending);
    assert!(c.grouped);
}

fn snapshot() -> TabsSnapshot {
    TabsSnapshot {
        open_tabs: vec![TabTarget::Catalog, TabTarget::Detail("b1".into()), TabTarget::Detail("b2".into())],
        active: TabTarget::Detail("b1".into()),
    }
}

#[test]
fn tab_slots_label_enable_and_check() {
    let titles = vec![("b1".to_string(), "A Very Long Sourcebook Title That Goes On And On Forever".to_string())];
    let tabs = snapshot();
    assert_eq!(tab_slot(&tabs, &titles, 0, "Catalog", "Detail", "Empty"), ("Catalog".to_string(), true, false));
    assert_eq!(
        tab_slot(&tabs, &titles, 1, "Catalog", "Detail", "Empty"),
        ("A Very Long Sourcebook Title That Goes O\u{2026}".to_string(), true, true)
    );
    assert_eq!(tab_slot(&tabs, &titles, 2, "Catalog", "Detail", "Empty"), ("Detail".to_string(), true, false));
    assert_eq!(tab_slot(&tabs, &titles, 3, "Catalog", "Detail", "Empty"), ("Empty".to_string(), false, false));
    let slots = window_tab_slots(&tabs, &titles, "Catalog", "Detail", "Empty");
    assert_eq!(slots.len(), 10);
    assert_eq!(slots[2].0, "Detail");
    assert!(slots[3..].iter().all(|s| s.0 == "Empty" && !s.1 && !s.2));
}

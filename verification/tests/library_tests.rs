use dtrpg_ui::library::{is_needs_reauth, LibraryService, LibraryPaneState, LibraryServiceError, LibraryServiceErrorKind, LibraryViewModel};
use dtrpg_ui::stubs::{stub_catalog, StubLibraryService, StubMode};

#[test]
fn load_list_enters_loaded_with_seeded_stub_data() {
    let mut vm = LibraryViewModel::new(StubLibraryService::new(StubMode::Seeded));
    vm.load_list();
    assert_eq!(vm.pane_state(), &LibraryPaneState::Loaded);
    assert!(!vm.items().is_empty());
    assert!(vm.last_error().is_none());
}

#[test]
fn load_list_enters_empty_with_empty_stub_mode() {
    let mut vm = LibraryViewModel::new(StubLibraryService::new(StubMode::Empty));
    vm.load_list();
    assert_eq!(vm.pane_state(), &LibraryPaneState::Empty);
    assert!(vm.items().is_empty());
    assert!(vm.last_error().is_none());
}

#[test]
fn load_list_enters_error_with_network_stub_mode() {
    let mut vm = LibraryViewModel::new(StubLibraryService::new(StubMode::NetworkError));
    vm.load_list();
    assert_eq!(vm.pane_state(), &LibraryPaneState::Error);
    assert!(vm.items().is_empty());
    assert!(vm.last_error().is_some());
    assert_eq!(vm.last_error().map(|e| e.kind), Some(LibraryServiceErrorKind::Network));
}

#[test]
fn select_item_loads_detail_after_list_load() {
    let mut vm = LibraryViewModel::new(StubLibraryService::new(StubMode::Seeded));
    vm.load_list();
    let numeric_id = vm.items()[0].numeric_id;
    vm.select_item(numeric_id);
    assert_eq!(vm.pane_state(), &LibraryPaneState::Loaded);
    assert_eq!(vm.selected().map(|i| i.numeric_id), Some(numeric_id));
    assert!(vm.last_error().is_none());
}

#[test]
fn new_view_model_starts_loading_with_nothing() {
    let vm = LibraryViewModel::new(StubLibraryService::new(StubMode::Seeded));
    assert_eq!(vm.pane_state(), &LibraryPaneState::Loading);
    assert!(vm.items().is_empty());
    assert!(vm.selected().is_none());
    assert!(vm.last_error().is_none());
}

#[test]
fn selecting_an_unknown_id_keeps_the_list_visible() {
    let mut vm = LibraryViewModel::new(StubLibraryService::new(StubMode::Seeded));
    vm.load_list();
    vm.select_item(999_999);
    assert_eq!(vm.pane_state(), &LibraryPaneState::Loaded);
    assert_eq!(vm.last_error().map(|e| e.kind), Some(LibraryServiceErrorKind::NotFound));
}

#[test]
fn selecting_before_any_list_is_an_error() {
    let mut vm = LibraryViewModel::new(StubLibraryService::new(StubMode::Seeded));
    vm.select_item(999_999);
    assert_eq!(vm.pane_state(), &LibraryPaneState::Error);
}

#[test]
fn refresh_after_switching_to_an_empty_service() {
    let mut vm = LibraryViewModel::new(StubLibraryService::new(StubMode::Seeded));
    vm.load_list();
    vm.replace_service(StubLibraryService::new(StubMode::Empty));
    vm.refresh();
    assert_eq!(vm.pane_state(), &LibraryPaneState::Empty);
    assert!(vm.items().is_empty());
}

#[test]
fn stub_catalog_has_expected_count() {
    assert_eq!(stub_catalog().len(), 46);
}

#[test]
fn reauth_errors_are_recognised() {
    let e = LibraryServiceError { kind: LibraryServiceErrorKind::NeedsReauth, message: "expired".into() };
    assert!(is_needs_reauth(&e));
    let e = LibraryServiceError { kind: LibraryServiceErrorKind::Network, message: "down".into() };
    assert!(!is_needs_reauth(&e));
}

#[test]
fn service_arc_hands_out_the_current_service() {
    let vm = LibraryViewModel::new(StubLibraryService::new(StubMode::Empty));
    let service = vm.service_arc();
    assert_eq!(service.list_items().map(|items| items.len()).ok(), Some(0));
    let vm = LibraryViewModel::new(StubLibraryService::new(StubMode::NetworkError));
    assert_eq!(vm.service_arc().get_item(1).err().map(|e| e.kind), Some(LibraryServiceErrorKind::Network));
}

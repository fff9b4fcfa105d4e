use dtrpg_ui::file_presence::{apply_presence, resolved_file_path, verify_item_downloads, StorageConfig};
use dtrpg_ui::model::{ItemStatus, LibraryItem, LibraryItemFile};

fn make_item(publisher: &str) -> LibraryItem {
    LibraryItem::new("verify-1", "Test Title", publisher, "", "Core", "PDF", 100, 10_240, 2024, 1, ItemStatus::Cloud, "#1C2A44", "Desc.", None)
}

fn make_file(id: &str, name: &str, downloaded: bool) -> LibraryItemFile {
    LibraryItemFile { id: id.into(), index: 0, name: name.into(), format: "PDF".into(), size_kb: 1024, downloaded }
}

#[test]
fn resolved_file_path_matches_path_for_publisher_join_name() {
    let storage = StorageConfig::new("/data/library");
    let it = make_item("Test Publisher");
    let file = make_file("f1", "Book.pdf", false);
    let expected = format!("{}/Book.pdf", storage.path_for_publisher(&it.publisher));
    assert_eq!(resolved_file_path(&storage, &it, &file), expected);
    assert_eq!(expected, "/data/library/Test Publisher/Book.pdf");
}

#[test]
fn verify_item_downloads_marks_missing_file_not_downloaded() {
    let storage = StorageConfig::new("/nonexistent_dtrpg_presence_root");
    let mut it = make_item("Presence Publisher");
    it.files = vec![make_file("f1", "Missing.pdf", true)];
    let changed = verify_item_downloads(&mut it, &storage);
    assert!(changed);
    assert!(!it.files[0].downloaded);
    assert_eq!(it.status, ItemStatus::Cloud);
}

#[test]
fn verify_item_downloads_reports_no_change_when_already_consistent() {
    let storage = StorageConfig::new("/nonexistent_dtrpg_presence_root");
    let mut it = make_item("Presence Publisher");
    it.files = vec![make_file("f1", "Missing.pdf", false)];
    assert!(!verify_item_downloads(&mut it, &storage));
    assert_eq!(it.status, ItemStatus::Cloud);
}

#[test]
fn applying_presence_sets_flags_and_status() {
    let mut it = make_item("P");
    it.files = vec![make_file("f1", "Present.pdf", false), make_file("f2", "Missing.pdf", true)];
    assert!(apply_presence(&mut it, &vec![true, false]));
    assert!(it.files[0].downloaded);
    assert!(!it.files[1].downloaded);
    assert_eq!(it.status, ItemStatus::Cloud);

    assert!(apply_presence(&mut it, &vec![true, true]));
    assert_eq!(it.status, ItemStatus::Downloaded);
    // The same presence again changes nothing.
    assert!(!apply_presence(&mut it, &vec![true, true]));
    assert_eq!(it.status, ItemStatus::Downloaded);
}

#[test]
fn status_change_alone_counts_as_a_change() {
    let mut it = make_item("P");
    it.files = vec![make_file("f1", "A.pdf", true)];
    assert_eq!(it.status, ItemStatus::Cloud);
    assert!(apply_presence(&mut it, &vec![true]));
    assert_eq!(it.status, ItemStatus::Downloaded);
}

#[test]
fn item_without_files_keeps_its_status() {
    let mut it = make_item("P");
    it.status = ItemStatus::Downloaded;
    assert!(!apply_presence(&mut it, &vec![]));
    assert_eq!(it.status, ItemStatus::Downloaded);
}

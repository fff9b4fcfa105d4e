use dtrpg_ui::item_opener::{classify_launch_error, ItemOpener, OpenError};
use dtrpg_ui::model::LibraryItemFile;

fn make_file(name: &str) -> LibraryItemFile {
    LibraryItemFile {
        id: name.into(),
        index: 0,
        name: name.into(),
        format: "PDF".into(),
        size_kb: 1024,
        downloaded: false,
    }
}

#[test]
fn test_open_nonexistent_file() {
    let result = ItemOpener::open("/tmp/nonexistent_file_that_should_not_exist.txt");
    assert!(matches!(result, Err(OpenError::FileNotFound(_))));
}

#[test]
fn test_error_types_are_cloneable() {
    let err = OpenError::FileNotFound("test.txt".to_string());
    let _cloned = err.clone();
}

#[test]
fn test_error_types_are_comparable() {
    let err1 = OpenError::NoDefaultApp;
    let err2 = OpenError::NoDefaultApp;
    assert_eq!(err1, err2);
}

#[test]
fn open_item_returns_multiple_files_require_selection_for_more_than_one_file() {
    let files = vec![make_file("book.pdf"), make_file("map.pdf")];
    let result = ItemOpener::open_item("/tmp/does-not-matter", &files);
    assert_eq!(result, Err(OpenError::MultipleFilesRequireSelection));
}

#[test]
fn open_item_falls_back_to_directory_when_no_files_known() {
    let result = ItemOpener::open_item("/tmp/nonexistent_entry_dir_stub", &[]);
    assert!(matches!(result, Err(OpenError::FileNotFound(_))));
}

#[test]
fn missing_file_error_names_the_path() {
    let path = "/tmp/nonexistent_file_that_should_not_exist.txt";
    assert_eq!(ItemOpener::open(path), Err(OpenError::FileNotFound(path.to_string())));
}

#[test]
fn item_target_resolves_single_file_inside_entry_dir() {
    assert_eq!(
        ItemOpener::item_target("/tmp/entry", &[make_file("book.pdf")]),
        Ok("/tmp/entry/book.pdf".to_string())
    );
    assert_eq!(ItemOpener::item_target("/tmp/entry", &[]), Ok("/tmp/entry".to_string()));
    assert_eq!(
        ItemOpener::item_target("/tmp/entry", &[make_file("a"), make_file("b")]),
        Err(OpenError::MultipleFilesRequireSelection)
    );
}

#[test]
fn launch_failures_are_classified() {
    assert_eq!(
        classify_launch_error("there is no default application for this".to_string()),
        OpenError::NoDefaultApp
    );
    assert_eq!(
        classify_launch_error("no associated application found".to_string()),
        OpenError::NoDefaultApp
    );
    assert_eq!(
        classify_launch_error("No associated application found".to_string()),
        OpenError::OsFailed("No associated application found".to_string())
    );
    assert_eq!(
        classify_launch_error("permission denied".to_string()),
        OpenError::OsFailed("permission denied".to_string())
    );
    assert_eq!(ItemOpener::finish_open(Ok(())), Ok(()));
}

#[test]
fn error_messages_read_as_displayed() {
    assert_eq!(OpenError::FileNotFound("a.pdf".into()).message(), "File not found: a.pdf");
    assert_eq!(OpenError::OsFailed("boom".into()).message(), "Failed to open file: boom");
    assert_eq!(
        OpenError::NoDefaultApp.message(),
        "No default application configured for this file type"
    );
}

#[test]
fn open_outcome_reports_missing_paths_and_classifies_launches() {
    assert_eq!(
        ItemOpener::open_outcome("/books/a.pdf", false, None),
        Err(OpenError::FileNotFound("/books/a.pdf".to_string()))
    );
    assert_eq!(ItemOpener::open_outcome("/books/a.pdf", true, Some(Ok(()))), Ok(()));
    assert_eq!(
        ItemOpener::open_outcome("/books/a.pdf", true, Some(Err("no default application found".to_string()))),
        Err(OpenError::NoDefaultApp)
    );
    assert_eq!(
        ItemOpener::open_outcome("/books/a.pdf", true, Some(Err("denied".to_string()))),
        Err(OpenError::OsFailed("denied".to_string()))
    );
}

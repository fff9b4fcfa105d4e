use dtrpg_ui::filter::SidebarFilter;
use dtrpg_ui::labels::{count_label_for, format_duration, format_static_duration, pluralize, section_title_for, tr};

#[test]
fn formats_seconds_under_a_minute() {
    assert_eq!(format_static_duration(60), "1 minute");
    assert_eq!(format_static_duration(45), "45 seconds");
    assert_eq!(format_static_duration(1), "1 second");
}

#[test]
fn formats_minutes() {
    assert_eq!(format_static_duration(300), "5 minutes");
    assert_eq!(format_static_duration(900), "15 minutes");
}

#[test]
fn formats_days() {
    assert_eq!(format_static_duration(7 * 24 * 60 * 60), "7 days");
    assert_eq!(format_static_duration(24 * 60 * 60), "1 day");
}

#[test]
fn static_duration_uses_hours_and_zero_seconds() {
    assert_eq!(format_static_duration(7200), "2 hours");
    assert_eq!(format_static_duration(3600), "1 hour");
    assert_eq!(format_static_duration(90), "90 seconds");
    assert_eq!(format_static_duration(0), "0 seconds");
}

#[test]
fn elapsed_duration_formats() {
    assert_eq!(format_duration(0), "0s");
    assert_eq!(format_duration(59), "59s");
    assert_eq!(format_duration(60), "1m 0s");
    assert_eq!(format_duration(125), "2m 5s");
}

#[test]
fn zero_uses_plural() {
    assert_eq!(pluralize(0, "count.item", "count.items"), "0 items");
}

#[test]
fn one_uses_singular() {
    assert_eq!(pluralize(1, "count.item", "count.items"), "1 item");
}

#[test]
fn many_uses_plural() {
    assert_eq!(pluralize(42, "count.title", "count.titles"), "42 titles");
}

#[test]
fn irregular_plural_key_pair() {
    assert_eq!(pluralize(1, "count.publisher_item", "count.publisher_items"), "1 publisher item");
    assert_eq!(pluralize(3, "count.publisher_item", "count.publisher_items"), "3 publisher items");
}

#[test]
fn missing_key_falls_back_to_key_string() {
    assert_eq!(pluralize(1, "count.nonexistent", "count.nonexistent_plural"), "1 count.nonexistent");
}

#[test]
fn translation_of_known_and_unknown_keys() {
    assert_eq!(tr("sidebar.all_titles"), "All Titles");
    assert_eq!(tr("no.such.key"), "no.such.key");
}

#[test]
fn publisher_filter_includes_name() {
    let title = section_title_for(&SidebarFilter::Publisher("Kobold Press".into()));
    assert!(title.contains("Kobold Press"), "publisher name must appear in label");
    assert_eq!(title, "Publisher: Kobold Press");
}

#[test]
fn collection_filter_includes_name() {
    let title = section_title_for(&SidebarFilter::Collection(42, "My Shelf".into()));
    assert!(title.contains("My Shelf"), "collection name must appear in label");
}

#[test]
fn collection_filter_count_reflects_filter_count_not_total() {
    let filter = SidebarFilter::Collection(42, "My Shelf".into());
    let label = count_label_for(&filter, 3, 3, 500, false);
    assert!(label.contains('3'), "expected collection filter count (3) in label, got: {label}");
    assert!(!label.contains("500"), "collection label must not show the whole-catalog total, got: {label}");
}

#[test]
fn smart_section_filter_count_reflects_filter_count_not_total() {
    let filter = SidebarFilter::OnDevice;
    let label = count_label_for(&filter, 7, 7, 500, false);
    assert!(label.contains('7'));
    assert!(!label.contains("500"));
}

#[test]
fn all_titles_filter_count_shows_total() {
    let label = count_label_for(&SidebarFilter::AllTitles, 500, 500, 500, false);
    assert!(label.contains("500"));
}

#[test]
fn collection_filter_with_search_shows_matched_count() {
    let filter = SidebarFilter::Collection(42, "My Shelf".into());
    let label = count_label_for(&filter, 10, 2, 500, true);
    assert!(label.contains("2 filtered"));
}

#[test]
fn non_dynamic_filters_return_nonempty_string() {
    for filter in [
        SidebarFilter::AllTitles,
        SidebarFilter::RecentlyUpdated,
        SidebarFilter::OnDevice,
        SidebarFilter::InCloud,
    ] {
        assert!(!section_title_for(&filter).is_empty());
    }
}

#[test]
fn count_labels_read_exactly() {
    assert_eq!(count_label_for(&SidebarFilter::AllTitles, 3, 3, 1, false), "1 item");
    assert_eq!(
        count_label_for(&SidebarFilter::Publisher("Paizo".into()), 1, 1, 12, false),
        "1 publisher item, 12 total items"
    );
    assert_eq!(
        count_label_for(&SidebarFilter::Publisher("Paizo".into()), 4, 2, 12, true),
        "4 publisher items, 12 total items (2 filtered)"
    );
    assert_eq!(count_label_for(&SidebarFilter::InCloud, 0, 0, 9, true), "0 items (0 filtered)");
}

#[test]
fn section_titles_read_exactly() {
    assert_eq!(section_title_for(&SidebarFilter::AllTitles), "All Titles");
    assert_eq!(section_title_for(&SidebarFilter::RecentlyUpdated), "Recently Updated");
    assert_eq!(section_title_for(&SidebarFilter::OnDevice), "On This Device");
    assert_eq!(section_title_for(&SidebarFilter::InCloud), "In the Cloud");
    assert_eq!(section_title_for(&SidebarFilter::Collection(7, "Shelf".into())), "Collection: Shelf");
}

use dtrpg_ui::model::{ItemStatus, LibraryItem};
use dtrpg_ui::publisher::{group_by_publisher, grouped_rows, publisher_entries, GroupedRow};

fn item(publisher: &str) -> LibraryItem {
    LibraryItem::new("id", "Title", publisher, "", "", "PDF", 0, 0, 2020, 0, ItemStatus::Cloud, "#000000", "", None)
}

fn titled(title: &str, publisher: &str) -> LibraryItem {
    LibraryItem::new(title, title, publisher, "", "", "PDF", 0, 0, 2020, 0, ItemStatus::Cloud, "#000000", "", None)
}

#[test]
fn single_publisher_returns_one_entry() {
    let items = vec![item("Paizo"), item("Paizo")];
    let entries = publisher_entries(&items);
    assert_eq!(entries.len(), 1);
    assert_eq!(entries[0].name.as_str(), "Paizo");
}

#[test]
fn multiple_publishers_sorted_alphabetically() {
    let items = vec![item("Wizards of the Coast"), item("Paizo"), item("Kobold Press")];
    let entries = publisher_entries(&items);
    let names: Vec<&str> = entries.iter().map(|e| e.name.as_str()).collect();
    assert_eq!(names, ["Kobold Press", "Paizo", "Wizards of the Coast"]);
}

#[test]
fn sort_is_case_insensitive() {
    let items = vec![item("B Publisher"), item("a publisher")];
    let entries = publisher_entries(&items);
    assert_eq!(entries[0].name.as_str(), "a publisher");
    assert_eq!(entries[1].name.as_str(), "B Publisher");
}

#[test]
fn alphabetical_order_is_independent_of_count() {
    let mut items = Vec::new();
    for _ in 0..50 {
        items.push(item("Zyborg Games"));
    }
    items.push(item("Aaeon Press"));
    let entries = publisher_entries(&items);
    assert_eq!(entries[0].name.as_str(), "Aaeon Press");
    assert_eq!(entries[1].name.as_str(), "Zyborg Games");
}

#[test]
fn entries_count_each_publishers_items() {
    let items = vec![item("Paizo"), item("Kobold Press"), item("Paizo")];
    let entries = publisher_entries(&items);
    assert_eq!(entries.len(), 2);
    assert_eq!((entries[0].name.as_str(), entries[0].count), ("Kobold Press", 1));
    assert_eq!((entries[1].name.as_str(), entries[1].count), ("Paizo", 2));
    assert!(publisher_entries(&[]).is_empty());
}

#[test]
fn groups_follow_entry_order_and_keep_catalog_order() {
    let items = vec![titled("b1", "Paizo"), titled("k1", "Kobold Press"), titled("b2", "Paizo")];
    let groups = group_by_publisher(items);
    assert_eq!(groups.len(), 2);
    assert_eq!(groups[0].publisher, "Kobold Press");
    assert_eq!(groups[1].publisher, "Paizo");
    let titles: Vec<&str> = groups[1].items.iter().map(|i| i.title.as_str()).collect();
    assert_eq!(titles, ["b1", "b2"]);
    assert_eq!(groups[0].items.len(), 1);
}

#[test]
fn grouped_rows_put_a_header_before_each_group() {
    let items = vec![titled("b1", "Paizo"), titled("k1", "Kobold Press"), titled("b2", "Paizo")];
    let rows = grouped_rows(group_by_publisher(items));
    let shape: Vec<String> = rows
        .iter()
        .map(|r| match r {
            GroupedRow::Header { publisher, count } => format!("# {publisher} ({count})"),
            GroupedRow::Item(item) => item.title.clone(),
        })
        .collect();
    assert_eq!(shape, ["# Kobold Press (1)", "k1", "# Paizo (2)", "b1", "b2"]);
    assert!(grouped_rows(Vec::new()).is_empty());
}

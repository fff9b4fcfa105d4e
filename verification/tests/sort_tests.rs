use std::collections::HashSet;

use dtrpg_ui::model::{CollectionEntry, ItemStatus, LibraryItem};
use dtrpg_ui::sort::{column_sort, sort_collections, sort_items, CollectionSortMethod, ColumnSort, SortDirection, SortMethod};

fn entry(id: u64, name: &str, created_at: i64, member_ids: &[u64]) -> CollectionEntry {
    CollectionEntry { id, name: name.to_string(), member_ids: member_ids.to_vec(), created_at }
}

fn names(entries: &[CollectionEntry]) -> Vec<&str> {
    entries.iter().map(|e| e.name.as_str()).collect()
}

#[test]
fn sorts_by_name_ascending() {
    let mut entries = vec![entry(1, "Zeta", 10, &[]), entry(2, "Alpha", 20, &[])];
    sort_collections(&mut entries, CollectionSortMethod::Name, SortDirection::Ascending, &HashSet::new());
    assert_eq!(names(&entries), vec!["Alpha", "Zeta"]);
}

#[test]
fn sorts_by_name_descending() {
    let mut entries = vec![entry(1, "Zeta", 10, &[]), entry(2, "Alpha", 20, &[])];
    sort_collections(&mut entries, CollectionSortMethod::Name, SortDirection::Descending, &HashSet::new());
    assert_eq!(names(&entries), vec!["Zeta", "Alpha"]);
}

#[test]
fn sorts_by_date_created_ascending() {
    let mut entries = vec![entry(1, "Newer", 200, &[]), entry(2, "Older", 100, &[])];
    sort_collections(&mut entries, CollectionSortMethod::DateCreated, SortDirection::Ascending, &HashSet::new());
    assert_eq!(names(&entries), vec!["Older", "Newer"]);
}

#[test]
fn sorts_by_date_created_descending() {
    let mut entries = vec![entry(1, "Newer", 200, &[]), entry(2, "Older", 100, &[])];
    sort_collections(&mut entries, CollectionSortMethod::DateCreated, SortDirection::Descending, &HashSet::new());
    assert_eq!(names(&entries), vec!["Newer", "Older"]);
}

#[test]
fn date_created_tie_breaks_by_name() {
    let mut entries = vec![entry(1, "Zeta", 100, &[]), entry(2, "Alpha", 100, &[])];
    sort_collections(&mut entries, CollectionSortMethod::DateCreated, SortDirection::Ascending, &HashSet::new());
    assert_eq!(names(&entries), vec!["Alpha", "Zeta"]);
}

#[test]
fn sorts_by_item_count_using_catalog_intersection_ascending() {
    let mut entries = vec![entry(1, "Big", 10, &[1, 2, 3]), entry(2, "Small", 20, &[4, 5])];
    let catalog_ids: HashSet<u64> = [1u64, 4, 5].into_iter().collect();
    sort_collections(&mut entries, CollectionSortMethod::ItemCount, SortDirection::Ascending, &catalog_ids);
    assert_eq!(names(&entries), vec!["Big", "Small"]);
}

#[test]
fn sorts_by_item_count_descending() {
    let mut entries = vec![entry(1, "Big", 10, &[1, 2, 3]), entry(2, "Small", 20, &[4, 5])];
    let catalog_ids: HashSet<u64> = [1u64, 2, 3, 4, 5].into_iter().collect();
    sort_collections(&mut entries, CollectionSortMethod::ItemCount, SortDirection::Descending, &catalog_ids);
    assert_eq!(names(&entries), vec!["Big", "Small"]);
}

#[test]
fn item_count_tie_breaks_by_name() {
    let mut entries = vec![entry(1, "Zeta", 10, &[1]), entry(2, "Alpha", 20, &[2])];
    let catalog_ids: HashSet<u64> = [1u64, 2].into_iter().collect();
    sort_collections(&mut entries, CollectionSortMethod::ItemCount, SortDirection::Ascending, &catalog_ids);
    assert_eq!(names(&entries), vec!["Alpha", "Zeta"]);
}

#[test]
fn equal_keys_keep_their_order_and_descending_reverses_it() {
    let mut entries = vec![entry(1, "Same", 5, &[]), entry(2, "Same", 5, &[]), entry(3, "Same", 5, &[])];
    sort_collections(&mut entries, CollectionSortMethod::DateCreated, SortDirection::Ascending, &HashSet::new());
    assert_eq!(entries.iter().map(|e| e.id).collect::<Vec<_>>(), vec![1, 2, 3]);
    sort_collections(&mut entries, CollectionSortMethod::DateCreated, SortDirection::Descending, &HashSet::new());
    assert_eq!(entries.iter().map(|e| e.id).collect::<Vec<_>>(), vec![3, 2, 1]);
}

fn book(title: &str, publisher: &str, pages: u32, added_order: u32) -> LibraryItem {
    LibraryItem::new(title, title, publisher, "", "", "PDF", pages, 0, 2020, added_order, ItemStatus::Cloud, "#000000", "", None)
}

fn titles(items: &[LibraryItem]) -> Vec<&str> {
    items.iter().map(|i| i.title.as_str()).collect()
}

#[test]
fn sort_items_by_title_and_pages() {
    let mut items = vec![book("Beta", "P", 300, 1), book("alpha", "Q", 100, 2), book("Gamma", "P", 200, 3)];
    sort_items(&mut items, SortMethod::Title, SortDirection::Ascending);
    // Titles compare by code point, so lower case sorts after upper case.
    assert_eq!(titles(&items), vec!["Beta", "Gamma", "alpha"]);
    sort_items(&mut items, SortMethod::Custom { col_key: "pages" }, SortDirection::Ascending);
    assert_eq!(titles(&items), vec!["alpha", "Gamma", "Beta"]);
    sort_items(&mut items, SortMethod::Custom { col_key: "pages" }, SortDirection::Descending);
    assert_eq!(titles(&items), vec!["Beta", "Gamma", "alpha"]);
}

#[test]
fn header_clicks_map_to_sorts() {
    assert_eq!(column_sort(0, ColumnSort::Descending), Some((SortMethod::Title, SortDirection::Descending)));
    assert_eq!(
        column_sort(1, ColumnSort::Ascending),
        Some((SortMethod::Custom { col_key: "publisher" }, SortDirection::Ascending))
    );
    assert_eq!(
        column_sort(5, ColumnSort::Descending),
        Some((SortMethod::Custom { col_key: "added" }, SortDirection::Descending))
    );
    assert_eq!(column_sort(3, ColumnSort::Default), Some((SortMethod::Title, SortDirection::Ascending)));
    assert_eq!(column_sort(6, ColumnSort::Ascending), None);
}

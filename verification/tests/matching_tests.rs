use std::collections::HashSet;

use dtrpg_ui::filter::SidebarFilter;
use dtrpg_ui::matching::{
    collection_member_id, item_matches_filter, item_matches_query, item_recently_updated, member_ids_contain,
    name_matches_query,
};
use dtrpg_ui::model::{ItemStatus, LibraryItem};
use dtrpg_ui::stubs::stub_catalog;

const DAY_SECS: i64 = 24 * 60 * 60;

fn item(date_added: Option<i64>, date_updated: Option<i64>) -> LibraryItem {
    let mut item = LibraryItem::new(
        "e1",
        "Moria",
        "Free League",
        "",
        "",
        "",
        0,
        0,
        0,
        0,
        ItemStatus::Cloud,
        "#000000",
        "",
        date_added,
    );
    item.date_updated = date_updated;
    item
}

#[test]
fn member_ids_contain_matches_on_order_product_id() {
    assert!(member_ids_contain(&[42], 42, 99));
}

#[test]
fn member_ids_contain_matches_on_product_id() {
    assert!(member_ids_contain(&[99], 42, 99));
}

#[test]
fn member_ids_contain_matches_when_ids_differ_and_only_product_id_is_cached() {
    assert!(member_ids_contain(&[144_239], 22_654_728, 144_239));
}

#[test]
fn member_ids_contain_ignores_zero_ids() {
    assert!(!member_ids_contain(&[0], 0, 0));
}

#[test]
fn member_ids_contain_returns_false_when_neither_id_present() {
    assert!(!member_ids_contain(&[1, 2, 3], 42, 99));
}

#[test]
fn item_recently_updated_matches_within_30_days_via_date_updated() {
    let now = 1_800_000_000;
    assert!(item_recently_updated(&item(None, Some(now - 10 * DAY_SECS)), now));
}

#[test]
fn item_recently_updated_falls_back_to_date_added_when_no_date_updated() {
    let now = 1_800_000_000;
    assert!(item_recently_updated(&item(Some(now - 10 * DAY_SECS), None), now));
}

#[test]
fn item_recently_updated_excludes_just_past_the_30_day_window() {
    let now = 1_800_000_000;
    assert!(!item_recently_updated(&item(None, Some(now - 30 * DAY_SECS - 1)), now));
}

#[test]
fn item_recently_updated_false_when_no_timestamps() {
    let now = 1_800_000_000;
    assert!(!item_recently_updated(&item(None, None), now));
}

#[test]
fn item_matches_filter_delegates_to_item_recently_updated() {
    let now = 1_800_000_000;
    let recent = item(None, Some(now - 10 * DAY_SECS));
    let stale = item(None, Some(now - 40 * DAY_SECS));
    let members = HashSet::new();
    assert!(item_matches_filter(&recent, &SidebarFilter::RecentlyUpdated, &members, now));
    assert!(!item_matches_filter(&stale, &SidebarFilter::RecentlyUpdated, &members, now));
}

#[test]
fn item_recently_updated_includes_exactly_the_window_edge() {
    let now = 1_800_000_000;
    assert!(item_recently_updated(&item(None, Some(now - 30 * DAY_SECS)), now));
    // An update timestamp wins over an old added timestamp.
    assert!(!item_recently_updated(&item(Some(now), Some(now - 40 * DAY_SECS)), now));
}

#[test]
fn collection_filter_matches_either_id() {
    let mut it = item(None, None);
    it.order_product_id = 5;
    it.product_id = 9;
    let members: HashSet<u64> = [9u64].into_iter().collect();
    let filter = SidebarFilter::Collection(1, "Shelf".into());
    assert!(item_matches_filter(&it, &filter, &members, 0));
    let others: HashSet<u64> = [7u64].into_iter().collect();
    assert!(!item_matches_filter(&it, &filter, &others, 0));
    assert_eq!(collection_member_id(&it), 5);
    it.order_product_id = 0;
    assert_eq!(collection_member_id(&it), 9);
}

#[test]
fn status_and_publisher_filters() {
    let mut it = item(None, None);
    let members = HashSet::new();
    assert!(item_matches_filter(&it, &SidebarFilter::InCloud, &members, 0));
    assert!(!item_matches_filter(&it, &SidebarFilter::OnDevice, &members, 0));
    it.status = ItemStatus::Downloaded;
    assert!(item_matches_filter(&it, &SidebarFilter::OnDevice, &members, 0));
    assert!(item_matches_filter(&it, &SidebarFilter::Publisher("Free League".into()), &members, 0));
    assert!(!item_matches_filter(&it, &SidebarFilter::Publisher("Paizo".into()), &members, 0));
    assert!(item_matches_filter(&it, &SidebarFilter::AllTitles, &members, 0));
}

#[test]
fn item_matches_query_case_insensitive() {
    let item = stub_catalog().remove(0);
    assert!(item_matches_query(&item, "player"));
    assert!(item_matches_query(&item, "PLAYER"));
    assert!(!item_matches_query(&item, "starfinder"));
}

#[test]
fn query_searches_title_publisher_and_line() {
    let it = item(None, None);
    assert!(item_matches_query(&it, "moria"));
    assert!(item_matches_query(&it, "FREE"));
    assert!(item_matches_query(&it, ""));
    assert!(!item_matches_query(&it, "paizo"));
}

#[test]
fn name_queries_ignore_case() {
    assert!(name_matches_query("Kobold Press", "kobold"));
    assert!(name_matches_query("Kobold Press", ""));
    assert!(!name_matches_query("Kobold Press", "paizo"));
}

//! Item filtering and text matching predicates.

use std::collections::HashSet;

use vstd::prelude::*;

use crate::chars::{contains_chars, lower_chars, lowercase, occurs_in};
use crate::filter::SidebarFilter;
use crate::model::{ItemStatus, LibraryItem};

verus! {

broadcast use vstd::std_specs::hash::group_hash_axioms;

/// Length of the "recently updated" window: thirty days, in seconds.
pub const RECENTLY_UPDATED_WINDOW_SECS: i64 = 2_592_000;

/// The timestamp an item's recency is judged by: `date_updated`, falling back
/// to `date_added`.
pub open spec fn recency_timestamp(item: LibraryItem) -> Option<i64> {
    match item.date_updated {
        Some(ts) => Some(ts),
        None => item.date_added,
    }
}

/// The item was updated (or added) within the window ending at `now_secs`.
pub open spec fn recently_updated(item: LibraryItem, now_secs: int) -> bool {
    match recency_timestamp(item) {
        Some(ts) => ts >= now_secs - RECENTLY_UPDATED_WINDOW_SECS,
        None => false,
    }
}

/// Returns `true` if `item`'s most recent timestamp (`date_updated`, falling
/// back to `date_added`) lies within the last thirty days before `now_secs`;
/// `false` when neither timestamp is set.
pub fn item_recently_updated(item: &LibraryItem, now_secs: i64) -> (r: bool)
    requires
        now_secs >= i64::MIN + RECENTLY_UPDATED_WINDOW_SECS,
    ensures
        r == recently_updated(*item, now_secs as int),
{
    let ts = match item.date_updated {
        Some(ts) => ts,
        None => match item.date_added {
            Some(ts) => ts,
            None => {
                return false;
            },
        },
    };
    ts >= now_secs - RECENTLY_UPDATED_WINDOW_SECS
}

/// Whether a product-id list holds either id; a zero id stands for "absent".
pub open spec fn ids_contain(member_ids: Seq<u64>, order_product_id: u64, product_id: u64) -> bool {
    ||| order_product_id > 0 && member_ids.contains(order_product_id)
    ||| product_id > 0 && member_ids.contains(product_id)
}

/// Whether a product-id set holds either id; a zero id stands for "absent".
pub open spec fn set_contains_either(members: Set<u64>, order_product_id: u64, product_id: u64) -> bool {
    ||| order_product_id > 0 && members.contains(order_product_id)
    ||| product_id > 0 && members.contains(product_id)
}

/// Whether `item` passes `filter`.
pub open spec fn matches_filter(
    item: LibraryItem,
    filter: SidebarFilter,
    members: Set<u64>,
    now_secs: int,
) -> bool {
    match filter {
        SidebarFilter::AllTitles => true,
        SidebarFilter::RecentlyUpdated => recently_updated(item, now_secs),
        SidebarFilter::OnDevice => item.status == ItemStatus::Downloaded,
        SidebarFilter::InCloud => item.status == ItemStatus::Cloud,
        SidebarFilter::Publisher(name) => item.publisher@ == name@,
        SidebarFilter::Collection(_, _) => set_contains_either(
            members,
            item.order_product_id,
            item.product_id,
        ),
    }
}

fn set_has(members: &HashSet<u64>, id: u64) -> (r: bool)
    ensures
        r == members@.contains(id),
{
    let r = members.contains(&id);
    proof {
        vstd::std_specs::hash::axiom_set_contains_deref_key(members@, &id);
    }
    r
}

/// Returns `true` if `item` passes the sidebar filter. For collection filters,
/// `collection_members` holds `productId`s; the item passes if either its
/// `order_product_id` or its `product_id` is there.
pub fn item_matches_filter(
    item: &LibraryItem,
    filter: &SidebarFilter,
    collection_members: &HashSet<u64>,
    now_secs: i64,
) -> (r: bool)
    requires
        now_secs >= i64::MIN + RECENTLY_UPDATED_WINDOW_SECS,
    ensures
        r == matches_filter(*item, *filter, collection_members@, now_secs as int),
{
    match filter {
        SidebarFilter::AllTitles => true,
        SidebarFilter::RecentlyUpdated => item_recently_updated(item, now_secs),
        SidebarFilter::OnDevice => item.status == ItemStatus::Downloaded,
        SidebarFilter::InCloud => item.status == ItemStatus::Cloud,
        SidebarFilter::Publisher(name) => crate::chars::str_eq(
            item.publisher.as_str(),
            name.as_str(),
        ),
        SidebarFilter::Collection(_, _) => {
            (item.order_product_id > 0 && set_has(collection_members, item.order_product_id)) || (
            item.product_id > 0 && set_has(collection_members, item.product_id))
        },
    }
}

fn slice_has(ids: &[u64], id: u64) -> (r: bool)
    ensures
        r == ids@.contains(id),
{
    let mut i: usize = 0;
    while i < ids.len()
        invariant
            i <= ids.len(),
            forall|k: int| 0 <= k < i ==> ids@[k] != id,
        decreases ids.len() - i,
    {
        if ids[i] == id {
            assert(ids@[i as int] == id);
            return true;
        }
        i = i + 1;
    }
    false
}

/// Returns `true` if `member_ids` holds `order_product_id` or `product_id`,
/// each treated as absent when `0`.
pub fn member_ids_contain(member_ids: &[u64], order_product_id: u64, product_id: u64) -> (r: bool)
    ensures
        r == ids_contain(member_ids@, order_product_id, product_id),
{
    (order_product_id > 0 && slice_has(member_ids, order_product_id)) || (product_id > 0
        && slice_has(member_ids, product_id))
}

/// The id used for collection membership: `order_product_id`, or
/// `product_id` when the former is absent (`0`).
pub open spec fn member_id(item: LibraryItem) -> u64 {
    if item.order_product_id > 0 {
        item.order_product_id
    } else {
        item.product_id
    }
}

/// Resolves the id used for collection membership.
pub fn collection_member_id(item: &LibraryItem) -> (id: u64)
    ensures
        id == member_id(*item),
{
    if item.order_product_id > 0 {
        item.order_product_id
    } else {
        item.product_id
    }
}

/// An id recorded under `collection_member_id` makes the item pass any
/// collection filter over a member set holding it, and `member_ids_contain`
/// find it.
pub proof fn lemma_member_id_is_matched(
    item: LibraryItem,
    members: Set<u64>,
    member_ids: Seq<u64>,
    id: u64,
    name: String,
    now_secs: int,
)
    requires
        member_id(item) > 0,
    ensures
        members.contains(member_id(item)) ==> matches_filter(
            item,
            SidebarFilter::Collection(id, name),
            members,
            now_secs,
        ),
        member_ids.contains(member_id(item)) ==> ids_contain(
            member_ids,
            item.order_product_id,
            item.product_id,
        ),
{
}

/// `query` is empty or occurs, case-insensitively, in `text`.
pub open spec fn text_matches(text: Seq<char>, query: Seq<char>) -> bool {
    query.len() == 0 || occurs_in(lowercase(query), lowercase(text))
}

/// Whether the item's title, publisher or game line holds the query,
/// case-insensitively; an empty query matches every item.
pub open spec fn query_matches_item(item: LibraryItem, query: Seq<char>) -> bool {
    query.len() == 0 || occurs_in(lowercase(query), lowercase(item.title@)) || occurs_in(
        lowercase(query),
        lowercase(item.publisher@),
    ) || occurs_in(lowercase(query), lowercase(item.line@))
}

/// Returns `true` if `query` occurs in the item's title, publisher or game
/// line, case-insensitively.
pub fn item_matches_query(item: &LibraryItem, query: &str) -> (r: bool)
    ensures
        r == query_matches_item(*item, query@),
{
    if query.is_empty() {
        return true;
    }
    let q = lower_chars(query);
    contains_chars(&lower_chars(item.title.as_str()), &q) || contains_chars(
        &lower_chars(item.publisher.as_str()),
        &q,
    ) || contains_chars(&lower_chars(item.line.as_str()), &q)
}

/// Returns `true` if `name` contains `query`, case-insensitively.
pub fn name_matches_query(name: &str, query: &str) -> (r: bool)
    ensures
        r == text_matches(name@, query@),
{
    if query.is_empty() {
        return true;
    }
    contains_chars(&lower_chars(name), &lower_chars(query))
}

/// The "On This Device" and "In the Cloud" sections split the catalog:
/// every item passes exactly one of the two filters.
pub proof fn lemma_status_sections_partition(item: LibraryItem, members: Set<u64>, now_secs: int)
    ensures
        matches_filter(item, SidebarFilter::OnDevice, members, now_secs) != matches_filter(
            item,
            SidebarFilter::InCloud,
            members,
            now_secs,
        ),
        matches_filter(item, SidebarFilter::AllTitles, members, now_secs),
{
}

/// Search looks at the title, the publisher and the game line: a query
/// that occurs, ignoring case, in any one of them makes the item match, an
/// empty query matches everything, and a non-empty query that occurs in none
/// of them does not.
pub proof fn lemma_query_searches_title_publisher_and_line(item: LibraryItem, q: Seq<char>)
    ensures
        q.len() == 0 ==> query_matches_item(item, q),
        occurs_in(lowercase(q), lowercase(item.title@)) ==> query_matches_item(item, q),
        occurs_in(lowercase(q), lowercase(item.publisher@)) ==> query_matches_item(item, q),
        occurs_in(lowercase(q), lowercase(item.line@)) ==> query_matches_item(item, q),
        q.len() > 0 && !occurs_in(lowercase(q), lowercase(item.title@)) && !occurs_in(
            lowercase(q),
            lowercase(item.publisher@),
        ) && !occurs_in(lowercase(q), lowercase(item.line@)) ==> !query_matches_item(item, q),
{
}

/// Each sidebar filter selects what its name says: "On This Device" the
/// downloaded items, "In the Cloud" the cloud-only ones, a publisher filter
/// that publisher's items, a collection filter the items whose order-product
/// or product id (when non-zero) is a member, and "All Titles" everything.
pub proof fn lemma_filters_select_their_items(
    item: LibraryItem,
    members: Set<u64>,
    now_secs: int,
    name: String,
    id: u64,
    label: String,
)
    ensures
        matches_filter(item, SidebarFilter::OnDevice, members, now_secs) <==> item.status
            == ItemStatus::Downloaded,
        matches_filter(item, SidebarFilter::InCloud, members, now_secs) <==> item.status
            == ItemStatus::Cloud,
        matches_filter(item, SidebarFilter::Publisher(name), members, now_secs) <==> item.publisher@
            == name@,
        matches_filter(item, SidebarFilter::Collection(id, label), members, now_secs) <==> ((
        item.order_product_id != 0 && members.contains(item.order_product_id)) || (item.product_id
            != 0 && members.contains(item.product_id))),
        matches_filter(item, SidebarFilter::AllTitles, members, now_secs),
        matches_filter(item, SidebarFilter::RecentlyUpdated, members, now_secs) <==> recently_updated(
            item,
            now_secs,
        ),
{
}

/// An item counts as recently updated when its update time, or its added
/// time if it was never updated, is at most thirty days (2,592,000 seconds)
/// before `now_secs`; an update time always wins over the added time, and an
/// item with neither is never recent.
pub proof fn lemma_recency_window(item: LibraryItem, now_secs: int)
    ensures
        item.date_updated matches Some(t) ==> (recently_updated(item, now_secs) <==> now_secs - t
            <= 30 * 24 * 60 * 60),
        item.date_updated.is_none() ==> (item.date_added matches Some(t) ==> (recently_updated(
            item,
            now_secs,
        ) <==> now_secs - t <= 30 * 24 * 60 * 60)),
        item.date_updated.is_none() && item.date_added.is_none() ==> !recently_updated(
            item,
            now_secs,
        ),
{
}

} // verus!

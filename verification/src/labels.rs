//! User-facing labels: the English message catalog, count nouns, durations
//! and the toolbar's section title and count text.

use vstd::prelude::*;
use vstd::string::StringExecFns;

use crate::chars::{decimal, push_char, push_decimal, push_str, str_eq};
use crate::filter::SidebarFilter;

verus! {

/// The English text of a message key; a key without an entry reads as
/// itself.
pub open spec fn translate(key: Seq<char>) -> Seq<char> {
    if key == "count.item"@ {
        "item"@
    } else if key == "count.items"@ {
        "items"@
    } else if key == "count.title"@ {
        "title"@
    } else if key == "count.titles"@ {
        "titles"@
    } else if key == "count.publisher_item"@ {
        "publisher item"@
    } else if key == "count.publisher_items"@ {
        "publisher items"@
    } else if key == "count.second"@ {
        "second"@
    } else if key == "count.seconds"@ {
        "seconds"@
    } else if key == "count.minute"@ {
        "minute"@
    } else if key == "count.minutes"@ {
        "minutes"@
    } else if key == "count.hour"@ {
        "hour"@
    } else if key == "count.hours"@ {
        "hours"@
    } else if key == "count.day"@ {
        "day"@
    } else if key == "count.days"@ {
        "days"@
    } else if key == "sidebar.all_titles"@ {
        "All Titles"@
    } else if key == "sidebar.recently_updated"@ {
        "Recently Updated"@
    } else if key == "sidebar.on_this_device"@ {
        "On This Device"@
    } else if key == "sidebar.in_the_cloud"@ {
        "In the Cloud"@
    } else {
        key
    }
}

/// Looks up the English text of `key`.
pub fn tr(key: &str) -> (r: String)
    ensures
        r@ == translate(key@),
{
    let text: &str = if str_eq(key, "count.item") {
        "item"
    } else if str_eq(key, "count.items") {
        "items"
    } else if str_eq(key, "count.title") {
        "title"
    } else if str_eq(key, "count.titles") {
        "titles"
    } else if str_eq(key, "count.publisher_item") {
        "publisher item"
    } else if str_eq(key, "count.publisher_items") {
        "publisher items"
    } else if str_eq(key, "count.second") {
        "second"
    } else if str_eq(key, "count.seconds") {
        "seconds"
    } else if str_eq(key, "count.minute") {
        "minute"
    } else if str_eq(key, "count.minutes") {
        "minutes"
    } else if str_eq(key, "count.hour") {
        "hour"
    } else if str_eq(key, "count.hours") {
        "hours"
    } else if str_eq(key, "count.day") {
        "day"
    } else if str_eq(key, "count.days") {
        "days"
    } else if str_eq(key, "sidebar.all_titles") {
        "All Titles"
    } else if str_eq(key, "sidebar.recently_updated") {
        "Recently Updated"
    } else if str_eq(key, "sidebar.on_this_device") {
        "On This Device"
    } else if str_eq(key, "sidebar.in_the_cloud") {
        "In the Cloud"
    } else {
        key
    };
    String::from_str(text)
}

/// `"{count} {noun}"`, the noun being the text of `singular_key` when
/// `count` is one and of `plural_key` otherwise.
pub open spec fn pluralized(count: nat, singular_key: Seq<char>, plural_key: Seq<char>) -> Seq<
    char,
> {
    decimal(count) + seq![' '] + translate(if count == 1 { singular_key } else { plural_key })
}

fn count_noun(count: u64, singular_key: &str, plural_key: &str) -> (r: String)
    ensures
        r@ == pluralized(count as nat, singular_key@, plural_key@),
{
    let key = if count == 1 { singular_key } else { plural_key };
    let noun = tr(key);
    let mut r = String::new();
    push_decimal(&mut r, count);
    push_char(&mut r, ' ');
    push_str(&mut r, noun.as_str());
    r
}

/// Formats `count` with the singular or plural noun: the text of
/// `singular_key` when `count == 1`, otherwise of `plural_key`.
pub fn pluralize(count: usize, singular_key: &str, plural_key: &str) -> (r: String)
    ensures
        r@ == pluralized(count as nat, singular_key@, plural_key@),
{
    count_noun(count as u64, singular_key, plural_key)
}

/// Seconds per minute, hour and day.
pub const MINUTE: u64 = 60;

pub const HOUR: u64 = 3600;

pub const DAY: u64 = 86400;

/// A fixed duration in the coarsest unit that divides it evenly: days, then
/// hours, then minutes, else seconds.
pub open spec fn static_duration_text(secs: nat) -> Seq<char> {
    if secs >= DAY && secs % (DAY as nat) == 0 {
        pluralized(secs / (DAY as nat), "count.day"@, "count.days"@)
    } else if secs >= HOUR && secs % (HOUR as nat) == 0 {
        pluralized(secs / (HOUR as nat), "count.hour"@, "count.hours"@)
    } else if secs >= MINUTE && secs % (MINUTE as nat) == 0 {
        pluralized(secs / (MINUTE as nat), "count.minute"@, "count.minutes"@)
    } else {
        pluralized(secs, "count.second"@, "count.seconds"@)
    }
}

/// Formats a fixed duration ("60 seconds" reads "1 minute", "7 days").
pub fn format_static_duration(secs: u64) -> (r: String)
    ensures
        r@ == static_duration_text(secs as nat),
{
    if secs >= DAY && secs % DAY == 0 {
        count_noun(secs / DAY, "count.day", "count.days")
    } else if secs >= HOUR && secs % HOUR == 0 {
        count_noun(secs / HOUR, "count.hour", "count.hours")
    } else if secs >= MINUTE && secs % MINUTE == 0 {
        count_noun(secs / MINUTE, "count.minute", "count.minutes")
    } else {
        count_noun(secs, "count.second", "count.seconds")
    }
}

/// An elapsed time as `"Xs"` below a minute, else `"Xm Ys"`.
pub open spec fn elapsed_text(secs: nat) -> Seq<char> {
    if secs < 60 {
        decimal(secs).push('s')
    } else {
        decimal(secs / 60) + seq!['m', ' '] + decimal(secs % 60).push('s')
    }
}

/// Formats an elapsed duration as `"Xs"` for under 60 s or `"Xm Ys"`.
pub fn format_duration(secs: u64) -> (r: String)
    ensures
        r@ == elapsed_text(secs as nat),
{
    let mut r = String::new();
    if secs < 60 {
        push_decimal(&mut r, secs);
        push_char(&mut r, 's');
    } else {
        push_decimal(&mut r, secs / 60);
        push_char(&mut r, 'm');
        push_char(&mut r, ' ');
        push_decimal(&mut r, secs % 60);
        push_char(&mut r, 's');
    }
    r
}

/// The toolbar's section title for a filter.
pub open spec fn section_title(filter: SidebarFilter) -> Seq<char> {
    match filter {
        SidebarFilter::AllTitles => translate("sidebar.all_titles"@),
        SidebarFilter::RecentlyUpdated => translate("sidebar.recently_updated"@),
        SidebarFilter::OnDevice => translate("sidebar.on_this_device"@),
        SidebarFilter::InCloud => translate("sidebar.in_the_cloud"@),
        SidebarFilter::Publisher(name) => "Publisher: "@ + name@,
        SidebarFilter::Collection(_, name) => "Collection: "@ + name@,
    }
}

/// Builds the toolbar's section title for `filter`.
pub fn section_title_for(filter: &SidebarFilter) -> (r: String)
    ensures
        r@ == section_title(*filter),
{
    match filter {
        SidebarFilter::AllTitles => tr("sidebar.all_titles"),
        SidebarFilter::RecentlyUpdated => tr("sidebar.recently_updated"),
        SidebarFilter::OnDevice => tr("sidebar.on_this_device"),
        SidebarFilter::InCloud => tr("sidebar.in_the_cloud"),
        SidebarFilter::Publisher(name) => {
            let mut r = String::from_str("Publisher: ");
            push_str(&mut r, name.as_str());
            r
        },
        SidebarFilter::Collection(_, name) => {
            let mut r = String::from_str("Collection: ");
            push_str(&mut r, name.as_str());
            r
        },
    }
}

/// The count text beneath the section title. Publisher filters show
/// "N publisher item(s), M total item(s)"; all titles show the catalog total;
/// every other filter shows its own count. With a search, the matched count
/// follows as " (K filtered)".
pub open spec fn count_label(
    filter: SidebarFilter,
    filter_count: nat,
    matched_count: nat,
    total_count: nat,
    has_search: bool,
) -> Seq<char> {
    let filtered = " ("@ + decimal(matched_count) + " filtered)"@;
    match filter {
        SidebarFilter::Publisher(_) => {
            let base = pluralized(filter_count, "publisher item"@, "publisher items"@) + ", "@
                + pluralized(total_count, "total item"@, "total items"@);
            if has_search {
                base + filtered
            } else {
                base
            }
        },
        _ => {
            let base_count = match filter {
                SidebarFilter::AllTitles => total_count,
                _ => filter_count,
            };
            let base = pluralized(base_count, "item"@, "items"@);
            if has_search {
                base + filtered
            } else {
                base
            }
        },
    }
}

/// Builds the count text shown beneath the section title.
pub fn count_label_for(
    filter: &SidebarFilter,
    filter_count: usize,
    matched_count: usize,
    total_count: usize,
    has_search: bool,
) -> (r: String)
    ensures
        r@ == count_label(
            *filter,
            filter_count as nat,
            matched_count as nat,
            total_count as nat,
            has_search,
        ),
{
    let mut r = match filter {
        SidebarFilter::Publisher(_) => {
            let mut r = pluralize(filter_count, "publisher item", "publisher items");
            push_str(&mut r, ", ");
            let total = pluralize(total_count, "total item", "total items");
            push_str(&mut r, total.as_str());
            r
        },
        SidebarFilter::AllTitles => pluralize(total_count, "item", "items"),
        _ => pluralize(filter_count, "item", "items"),
    };
    if has_search {
        push_str(&mut r, " (");
        push_decimal(&mut r, matched_count as u64);
        push_str(&mut r, " filtered)");
    }
    r
}

} // verus!

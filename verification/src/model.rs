//! Catalog data model: library items, their files, collections and the
//! storage layout the download paths are computed from.

use vstd::prelude::*;
use vstd::string::StringExecFns;

verus! {

/// Where an item's content lives.
#[derive(Clone, Copy, PartialEq, Eq, Structural, Debug)]
pub enum ItemStatus {
    /// Only in the DriveThruRPG cloud.
    Cloud,
    /// Every file of the item is on this device.
    Downloaded,
}

/// One downloadable file of a catalog entry.
#[derive(Clone, Debug)]
pub struct LibraryItemFile {
    pub id: String,
    pub index: u32,
    pub name: String,
    /// Upper-case format label (e.g. `PDF`, `ZIP`).
    pub format: String,
    /// Catalog-reported size in KiB.
    pub size_kb: u64,
    pub downloaded: bool,
}

/// A catalog entry as the library view shows it.
#[derive(Clone, Debug)]
pub struct LibraryItem {
    pub id: String,
    pub numeric_id: u64,
    pub order_product_id: u64,
    pub product_id: u64,
    pub title: String,
    pub publisher: String,
    /// Game line or system.
    pub line: String,
    pub kind: String,
    pub format: String,
    pub pages: u32,
    /// Catalog-reported size in KiB.
    pub size_kb: u64,
    pub year: u32,
    pub added_order: u32,
    pub status: ItemStatus,
    /// Cover colour as `#RRGGBB`.
    pub color: String,
    pub desc: String,
    pub cover_url: Option<String>,
    pub date_added: Option<i64>,
    pub date_updated: Option<i64>,
    pub thumbnail_last_attempted: Option<i64>,
    pub files: Vec<LibraryItemFile>,
}

/// Every file in `files` is marked downloaded.
pub open spec fn all_downloaded(files: Seq<LibraryItemFile>) -> bool {
    forall|i: int| 0 <= i < files.len() ==> (#[trigger] files[i]).downloaded
}

/// The status an item with `files` has: `Downloaded` when it has files and all
/// of them are on disk, `Cloud` when some are missing; an item without a
/// file breakdown keeps `prior`.
pub open spec fn status_for_files(files: Seq<LibraryItemFile>, prior: ItemStatus) -> ItemStatus {
    if files.len() == 0 {
        prior
    } else if all_downloaded(files) {
        ItemStatus::Downloaded
    } else {
        ItemStatus::Cloud
    }
}

impl LibraryItem {
    /// Builds an item with no ids, no files and no timestamps beyond
    /// `date_added`.
    #[allow(clippy::too_many_arguments)]
    pub fn new(
        id: &str,
        title: &str,
        publisher: &str,
        line: &str,
        kind: &str,
        format: &str,
        pages: u32,
        size_kb: u64,
        year: u32,
        added_order: u32,
        status: ItemStatus,
        color: &str,
        desc: &str,
        date_added: Option<i64>,
    ) -> (item: LibraryItem)
        ensures
            item.id@ == id@,
            item.title@ == title@,
            item.publisher@ == publisher@,
            item.line@ == line@,
            item.kind@ == kind@,
            item.format@ == format@,
            item.pages == pages,
            item.size_kb == size_kb,
            item.year == year,
            item.added_order == added_order,
            item.status == status,
            item.color@ == color@,
            item.desc@ == desc@,
            item.date_added == date_added,
            item.numeric_id == 0,
            item.order_product_id == 0,
            item.product_id == 0,
            item.cover_url.is_none(),
            item.date_updated.is_none(),
            item.thumbnail_last_attempted.is_none(),
            item.files@.len() == 0,
    {
        LibraryItem {
            id: String::from_str(id),
            numeric_id: 0,
            order_product_id: 0,
            product_id: 0,
            title: String::from_str(title),
            publisher: String::from_str(publisher),
            line: String::from_str(line),
            kind: String::from_str(kind),
            format: String::from_str(format),
            pages,
            size_kb,
            year,
            added_order,
            status,
            color: String::from_str(color),
            desc: String::from_str(desc),
            cover_url: None,
            date_added,
            date_updated: None,
            thumbnail_last_attempted: None,
            files: Vec::new(),
        }
    }

    /// Recomputes `status` from the files' `downloaded` flags.
    pub fn recompute_status(&mut self)
        ensures
            final(self).status == status_for_files(old(self).files@, old(self).status),
            *final(self) == (LibraryItem { status: final(self).status, ..*old(self) }),
    {
        if self.files.len() == 0 {
            return;
        }
        let mut all = true;
        let mut i: usize = 0;
        while i < self.files.len()
            invariant
                i <= self.files.len(),
                all == (forall|k: int| 0 <= k < i ==> (#[trigger] self.files@[k]).downloaded),
            decreases self.files.len() - i,
        {
            if !self.files[i].downloaded {
                all = false;
            }
            i = i + 1;
        }
        self.status = if all { ItemStatus::Downloaded } else { ItemStatus::Cloud };
    }
}

/// A DriveThruRPG product list ("collection") as cached locally.
#[derive(Clone, Debug)]
pub struct CollectionEntry {
    pub id: u64,
    pub name: String,
    /// `product_id`s of the collection's members.
    pub member_ids: Vec<u64>,
    /// Creation time, Unix seconds.
    pub created_at: i64,
}

/// An item with files is on this device exactly when every one of its files
/// is downloaded; an item without a file breakdown keeps the status it had.
pub proof fn lemma_status_follows_files(files: Seq<LibraryItemFile>, prior: ItemStatus)
    ensures
        files.len() > 0 ==> (status_for_files(files, prior) == ItemStatus::Downloaded <==> forall|
            i: int,
        | 0 <= i < files.len() ==> (#[trigger] files[i]).downloaded),
        files.len() > 0 ==> (status_for_files(files, prior) == ItemStatus::Cloud <==> exists|i: int|
            0 <= i < files.len() && !(#[trigger] files[i]).downloaded),
        files.len() == 0 ==> status_for_files(files, prior) == prior,
{
}

} // verus!

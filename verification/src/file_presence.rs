//! Where an item's files live on disk, and reconciling each file's
//! `downloaded` flag with what is actually there.

use vstd::prelude::*;
use vstd::string::StringExecFns;

use crate::model::{status_for_files, ItemStatus, LibraryItem, LibraryItemFile};
use crate::paths::{join_path, path_exists, path_joined};

verus! {

/// Local storage layout: every publisher has a directory under `root_path`.
#[derive(Clone, Debug)]
pub struct StorageConfig {
    pub root_path: String,
}

impl StorageConfig {
    /// A layout rooted at `root_path`.
    pub fn new(root_path: &str) -> (s: StorageConfig)
        ensures
            s.root_path@ == root_path@,
    {
        StorageConfig { root_path: String::from_str(root_path) }
    }

    /// The directory holding `publisher`'s files.
    pub open spec fn publisher_dir(&self, publisher: Seq<char>) -> Seq<char> {
        path_joined(self.root_path@, publisher)
    }

    /// Returns the directory holding `publisher`'s files.
    pub fn path_for_publisher(&self, publisher: &str) -> (p: String)
        ensures
            p@ == self.publisher_dir(publisher@),
    {
        join_path(self.root_path.as_str(), publisher)
    }
}

/// Where `file` of `item` is expected on disk: its name inside the item's
/// publisher directory.
pub open spec fn resolved_path(storage: StorageConfig, item: LibraryItem, file: LibraryItemFile) -> Seq<
    char,
> {
    path_joined(storage.publisher_dir(item.publisher@), file.name@)
}

/// Returns where `file` of `item` is expected on disk.
pub fn resolved_file_path(storage: &StorageConfig, item: &LibraryItem, file: &LibraryItemFile) -> (p:
    String)
    ensures
        p@ == resolved_path(*storage, *item, *file),
{
    let dir = storage.path_for_publisher(item.publisher.as_str());
    join_path(dir.as_str(), file.name.as_str())
}

/// `files` with each `downloaded` flag replaced by the matching entry of
/// `present`.
pub open spec fn files_with_presence(files: Seq<LibraryItemFile>, present: Seq<bool>) -> Seq<
    LibraryItemFile,
> {
    Seq::new(files.len(), |i: int| LibraryItemFile { downloaded: present[i], ..files[i] })
}

/// The status `item` has once its files' flags are set from `present`.
pub open spec fn presence_status(item: LibraryItem, present: Seq<bool>) -> ItemStatus {
    status_for_files(files_with_presence(item.files@, present), item.status)
}

/// `after` is `before` with the files' flags set from `present` and the
/// status recomputed; nothing else differs.
pub open spec fn presence_applied(before: LibraryItem, present: Seq<bool>, after: LibraryItem) -> bool {
    &&& after.files@ == files_with_presence(before.files@, present)
    &&& after.status == presence_status(before, present)
    &&& after == (LibraryItem { files: after.files, status: after.status, ..before })
}

/// Whether setting the flags from `present` changes `item`: some flag flips
/// or the recomputed status differs from the stored one.
pub open spec fn presence_changes(item: LibraryItem, present: Seq<bool>) -> bool {
    ||| exists|i: int| 0 <= i < item.files@.len() && (#[trigger] item.files@[i]).downloaded != present[i]
    ||| presence_status(item, present) != item.status
}

/// Sets each file's `downloaded` flag from `present` (one entry per file, in
/// order), recomputes the item's status, and reports whether anything
/// changed.
pub fn apply_presence(item: &mut LibraryItem, present: &Vec<bool>) -> (changed: bool)
    requires
        present@.len() == old(item).files@.len(),
    ensures
        presence_applied(*old(item), present@, *final(item)),
        changed == presence_changes(*old(item), present@),
{
    let ghost old_item = *item;
    let mut changed = false;
    let mut i: usize = 0;
    while i < item.files.len()
        invariant
            0 <= i <= item.files@.len(),
            item.files@.len() == old_item.files@.len(),
            present@.len() == old_item.files@.len(),
            forall|k: int| 0 <= k < i ==> #[trigger] item.files@[k] == (LibraryItemFile { downloaded: present@[k], ..old_item.files@[k] }),
            forall|k: int| i <= k < item.files@.len() ==> #[trigger] item.files@[k] == old_item.files@[k],
            *item == (LibraryItem { files: item.files, ..old_item }),
            changed == exists|k: int| 0 <= k < i && (#[trigger] old_item.files@[k]).downloaded != present@[k],
        decreases item.files@.len() - i,
    {
        let p = present[i];
        if item.files[i].downloaded != p {
            item.files[i].downloaded = p;
            changed = true;
        }
        assert(item.files@[i as int] == (LibraryItemFile { downloaded: present@[i as int], ..old_item.files@[i as int] }));
        i = i + 1;
    }
    assert(item.files@ =~= files_with_presence(old_item.files@, present@));
    let prior = item.status;
    item.recompute_status();
    let status_changed = item.status != prior;
    changed || status_changed
}

/// The existence check was asked about the path `p` and answered
/// `answer`. (Closed because the check is a crate-internal call.)
pub closed spec fn asked_exists(p: Seq<char>, answer: bool) -> bool {
    exists|s: &str| s@ == p && call_ensures(path_exists, (s,), answer)
}

/// Checks, for each of `item`'s files, whether it exists at its resolved
/// path, updates the `downloaded` flags and the status to match, and reports
/// whether anything changed. What the filesystem answers is outside the
/// library's control: the result holds for the presence observed, and each
/// answer was asked about that file's resolved path.
pub fn verify_item_downloads(item: &mut LibraryItem, storage: &StorageConfig) -> (changed: bool)
    ensures
        exists|present: Seq<bool>|
            {
                &&& present.len() == old(item).files@.len()
                &&& presence_applied(*old(item), present, *final(item))
                &&& changed == presence_changes(*old(item), present)
                &&& forall|i: int|
                    0 <= i < present.len() ==> asked_exists(
                        resolved_path(*storage, *old(item), old(item).files@[i]),
                        #[trigger] present[i],
                    )
            },
{
    let mut present: Vec<bool> = Vec::new();
    let mut i: usize = 0;
    while i < item.files.len()
        invariant
            i <= item.files@.len(),
            present@.len() == i,
            forall|k: int|
                0 <= k < i ==> asked_exists(
                    resolved_path(*storage, *item, item.files@[k]),
                    #[trigger] present@[k],
                ),
        decreases item.files@.len() - i,
    {
        let path = resolved_file_path(storage, item, &item.files[i]);
        let s = path.as_str();
        let b = path_exists(s);
        assert(asked_exists(resolved_path(*storage, *item, item.files@[i as int]), b));
        present.push(b);
        i = i + 1;
    }
    apply_presence(item, &present)
}

/// Setting the same presence twice changes nothing the second time: the
/// item the first application left is a fixed point, and no change is
/// reported for it.
pub proof fn lemma_presence_idempotent(before: LibraryItem, present: Seq<bool>, after: LibraryItem)
    requires
        present.len() == before.files@.len(),
        presence_applied(before, present, after),
    ensures
        presence_applied(after, present, after),
        !presence_changes(after, present),
{
    assert(files_with_presence(after.files@, present) =~= after.files@);
}

} // verus!

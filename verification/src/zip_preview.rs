//! A Zip archive's central directory (entry name and uncompressed size),
//! read without extracting anything, for the detail tab's content preview.

use std::io::Cursor;

use vstd::prelude::*;
use zip::ZipArchive;

verus! {

#[verifier::external_type_specification]
#[verifier::external_body]
#[verifier::reject_recursive_types(T)]
pub struct ExCursor<T>(Cursor<T>);

#[verifier::external_type_specification]
#[verifier::external_body]
#[verifier::reject_recursive_types(R)]
pub struct ExZipArchive<R>(ZipArchive<R>);

/// What the `zip` crate makes of the archive in `bytes`: `None` when
/// `ZipArchive::new` rejects the bytes, otherwise the central directory's
/// entries in order, each with its name, its uncompressed size, and whether
/// `ZipArchive::by_index_raw` reads it and its name decodes.
pub uninterp spec fn zip_directory(bytes: Seq<u8>) -> Option<Seq<(Seq<char>, u64, bool)>>;

/// The entries an opened archive holds, in index order, in the form
/// `zip_directory` gives them.
pub uninterp spec fn archive_entries(archive: ZipArchive<Cursor<Vec<u8>>>) -> Seq<(Seq<char>, u64, bool)>;

/// Opens the archive in `bytes` with `zip::ZipArchive::new`. Claimed: it
/// succeeds exactly when `zip_directory` has a listing for the bytes, and
/// the opened archive holds that listing.
#[verifier::external_body]
fn open_archive(bytes: Vec<u8>) -> (r: Option<ZipArchive<Cursor<Vec<u8>>>>)
    ensures
        match r {
            Some(a) => zip_directory(bytes@) == Some(archive_entries(a)),
            None => zip_directory(bytes@).is_none(),
        },
{
    ZipArchive::new(Cursor::new(bytes)).ok()
}

/// `ZipArchive::len`: claimed to be the number of entries the archive holds.
#[verifier::external_body]
fn archive_len(archive: &ZipArchive<Cursor<Vec<u8>>>) -> (n: usize)
    ensures
        n == archive_entries(*archive).len(),
{
    archive.len()
}

/// Reads entry `i` with `ZipArchive::by_index_raw` and takes its `name()`
/// and `size()`. Claimed: the entries held are unchanged, and the read
/// succeeds exactly when the held entry is marked readable, giving its name
/// and size. Over an in-memory archive the read seeks to the entry's local
/// header in the same bytes each time, so whether it succeeds depends on the
/// archive alone.
#[verifier::external_body]
fn archive_entry(archive: &mut ZipArchive<Cursor<Vec<u8>>>, i: usize) -> (r: Option<(String, u64)>)
    requires
        i < archive_entries(*old(archive)).len(),
    ensures
        archive_entries(*final(archive)) == archive_entries(*old(archive)),
        r.is_some() == archive_entries(*old(archive))[i as int].2,
        r matches Some(e) ==> e.0@ == archive_entries(*old(archive))[i as int].0 && e.1
            == archive_entries(*old(archive))[i as int].1,
{
    match archive.by_index_raw(i) {
        Ok(entry) => match entry.name() {
            Ok(name) => Some((name.into_owned(), entry.size())),
            Err(_) => None,
        },
        Err(_) => None,
    }
}

/// A single entry of a previewed Zip archive.
#[derive(Debug, Clone, PartialEq)]
pub struct ZipEntry {
    pub name: String,
    pub size_bytes: u64,
}

/// Errors reading a Zip archive's entry list.
#[derive(Debug, Clone, PartialEq, Eq)]
pub enum ZipPreviewError {
    /// The file was not found at the specified path.
    NotFound(String),
    /// The file could not be read.
    Io(String),
    /// The file is not a valid Zip archive.
    InvalidArchive,
}

/// `entries` lists exactly `directory`, entry by entry.
pub open spec fn lists(entries: Seq<ZipEntry>, directory: Seq<(Seq<char>, u64, bool)>) -> bool {
    &&& entries.len() == directory.len()
    &&& forall|k: int|
        0 <= k < entries.len() ==> (#[trigger] entries[k]).name@ == directory[k].0
            && entries[k].size_bytes == directory[k].1
}

/// Every entry of `directory` can be read.
pub open spec fn all_readable(directory: Seq<(Seq<char>, u64, bool)>) -> bool {
    forall|k: int| 0 <= k < directory.len() ==> (#[trigger] directory[k]).2
}

/// The archive in `bytes` lists completely: it opens and every entry reads.
pub open spec fn listable(bytes: Seq<u8>) -> bool {
    zip_directory(bytes) matches Some(d) && all_readable(d)
}

/// Reads the central directory of the archive in `bytes` and returns its
/// entries in order. Bytes the `zip` crate does not accept as an archive,
/// and an entry that cannot be read, give `InvalidArchive`.
pub fn list_entries_in(bytes: Vec<u8>) -> (r: Result<Vec<ZipEntry>, ZipPreviewError>)
    ensures
        match r {
            Ok(entries) => zip_directory(bytes@) matches Some(d) && lists(entries@, d),
            Err(e) => e == ZipPreviewError::InvalidArchive,
        },
        r is Ok <==> listable(bytes@),
{
    let ghost input = bytes@;
    let mut archive = match open_archive(bytes) {
        Some(a) => a,
        None => return Err(ZipPreviewError::InvalidArchive),
    };
    let ghost directory = archive_entries(archive);
    let n = archive_len(&archive);
    let mut entries: Vec<ZipEntry> = Vec::new();
    let mut i: usize = 0;
    while i < n
        invariant
            n == directory.len(),
            i <= n,
            archive_entries(archive) == directory,
            zip_directory(input) == Some(directory),
            input == bytes@,
            forall|k: int| 0 <= k < i ==> (#[trigger] directory[k]).2,
            entries@.len() == i,
            forall|k: int|
                0 <= k < i ==> (#[trigger] entries@[k]).name@ == directory[k].0
                    && entries@[k].size_bytes == directory[k].1,
        decreases n - i,
    {
        match archive_entry(&mut archive, i) {
            Some((name, size_bytes)) => {
                entries.push(ZipEntry { name, size_bytes });
            },
            None => {
                assert(!directory[i as int].2);
                assert(!all_readable(directory));
                return Err(ZipPreviewError::InvalidArchive);
            },
        }
        i = i + 1;
    }
    assert(all_readable(directory));
    Ok(entries)
}

/// The number of entries of the archive in `bytes`, when it lists
/// completely and the count fits in `u32`.
pub open spec fn zip_file_count(bytes: Seq<u8>) -> Option<u32> {
    match zip_directory(bytes) {
        Some(d) => if all_readable(d) && d.len() <= u32::MAX {
            Some(d.len() as u32)
        } else {
            None
        },
        None => None,
    }
}

/// The number of entries in the central directory of the archive in
/// `bytes`, when its entries can be listed and the count fits in `u32`.
pub fn extract_zip_file_count(bytes: Vec<u8>) -> (n: Option<u32>)
    ensures
        n == zip_file_count(bytes@),
{
    match list_entries_in(bytes) {
        Ok(entries) => if entries.len() <= u32::MAX as usize {
            Some(entries.len() as u32)
        } else {
            None
        },
        Err(_) => None,
    }
}

} // verus!

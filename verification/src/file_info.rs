//! Per-format file metadata for the detail tab's file list: PDF page count,
//! Zip contained-file count, image pixel dimensions.

use vstd::prelude::*;
use vstd::string::StringExecFns;

use crate::chars::{ascii_upper, chars_of, decimal, push_char, push_decimal, push_str, to_ascii_upper};
use crate::zip_preview::{extract_zip_file_count, zip_file_count};

verus! {

/// A file's Info column value; formats without an extraction, and files that
/// cannot be parsed, have `Unavailable`.
#[derive(Debug, Clone, Copy, PartialEq, Eq, Structural)]
pub enum FileInfo {
    PageCount(u32),
    ContainedFiles(u32),
    Dimensions(u32, u32),
    Unavailable,
}

/// The Info column text of a value.
pub open spec fn file_info_text(info: FileInfo) -> Option<Seq<char>> {
    match info {
        FileInfo::PageCount(n) => Some(decimal(n as nat) + " pages"@),
        FileInfo::ContainedFiles(n) => Some(decimal(n as nat) + " files"@),
        FileInfo::Dimensions(w, h) => Some(decimal(w as nat) + seq!['x'] + decimal(h as nat)),
        FileInfo::Unavailable => None,
    }
}

impl FileInfo {
    /// Renders this value as the Info column's cell text, or `None` for
    /// `FileInfo::Unavailable` so the caller applies its own placeholder.
    pub fn display(&self) -> (s: Option<String>)
        ensures
            match file_info_text(*self) {
                Some(t) => s matches Some(x) && x@ == t,
                None => s.is_none(),
            },
    {
        match self {
            FileInfo::PageCount(n) => {
                let mut s = String::new();
                push_decimal(&mut s, *n as u64);
                push_str(&mut s, " pages");
                Some(s)
            },
            FileInfo::ContainedFiles(n) => {
                let mut s = String::new();
                push_decimal(&mut s, *n as u64);
                push_str(&mut s, " files");
                Some(s)
            },
            FileInfo::Dimensions(w, h) => {
                let mut s = String::new();
                push_decimal(&mut s, *w as u64);
                push_char(&mut s, 'x');
                push_decimal(&mut s, *h as u64);
                Some(s)
            },
            FileInfo::Unavailable => None,
        }
    }
}

/// Which extraction a file format calls for.
#[derive(Debug, Clone, Copy, PartialEq, Eq, Structural)]
pub enum InfoExtractor {
    /// PDF page count.
    PdfPageCount,
    /// Number of entries in a Zip central directory.
    ZipFileCount,
    /// Pixel dimensions from an image header.
    ImageDimensions,
    /// No extraction is defined.
    Unsupported,
}

/// The extraction for a format label, compared case-insensitively in ASCII:
/// `PDF`; `ZIP`; `JPG`, `JPEG`, `PNG`, `GIF`, `WEBP` and `BMP`.
pub open spec fn extractor_for(format: Seq<char>) -> InfoExtractor {
    let f = ascii_upper(format);
    if f == "PDF"@ {
        InfoExtractor::PdfPageCount
    } else if f == "ZIP"@ {
        InfoExtractor::ZipFileCount
    } else if f == "JPG"@ || f == "JPEG"@ || f == "PNG"@ || f == "GIF"@ || f == "WEBP"@ || f
        == "BMP"@ {
        InfoExtractor::ImageDimensions
    } else {
        InfoExtractor::Unsupported
    }
}

fn chars_eq(a: &Vec<char>, b: &str) -> (r: bool)
    ensures
        r == (a@ == b@),
{
    let v = chars_of(b);
    crate::chars::compare_chars(a, &v) == crate::chars::Cmp3::Equal
}

/// Chooses the extraction for a file's format label.
pub fn info_extractor_for(format: &str) -> (e: InfoExtractor)
    ensures
        e == extractor_for(format@),
{
    let f = to_ascii_upper(format);
    if chars_eq(&f, "PDF") {
        InfoExtractor::PdfPageCount
    } else if chars_eq(&f, "ZIP") {
        InfoExtractor::ZipFileCount
    } else if chars_eq(&f, "JPG") || chars_eq(&f, "JPEG") || chars_eq(&f, "PNG") || chars_eq(
        &f,
        "GIF",
    ) || chars_eq(&f, "WEBP") || chars_eq(&f, "BMP") {
        InfoExtractor::ImageDimensions
    } else {
        InfoExtractor::Unsupported
    }
}

/// The number of pages `lopdf` finds in the PDF held in `bytes`, or `None`
/// when it cannot load them as a PDF document.
pub uninterp spec fn pdf_page_total(bytes: Seq<u8>) -> Option<nat>;

/// Loads `bytes` with `lopdf::Document::load_mem` and counts the entries of
/// `get_pages()`. Claimed: the result is `pdf_page_total` of the bytes.
#[verifier::external_body]
fn pdf_pages_in(bytes: &[u8]) -> (r: Option<usize>)
    ensures
        match r {
            Some(n) => pdf_page_total(bytes@) == Some(n as nat),
            None => pdf_page_total(bytes@).is_none(),
        },
{
    match lopdf::Document::load_mem(bytes) {
        Ok(doc) => Some(doc.get_pages().len()),
        Err(_) => None,
    }
}

/// The page count of the PDF in `bytes` when it loads and the count fits in
/// `u32`.
pub open spec fn pdf_page_count(bytes: Seq<u8>) -> Option<u32> {
    match pdf_page_total(bytes) {
        Some(n) => if n <= u32::MAX {
            Some(n as u32)
        } else {
            None
        },
        None => None,
    }
}

/// Returns the page count of the PDF held in `bytes`, or `None` if they
/// cannot be parsed as a PDF.
pub fn extract_pdf_page_count(bytes: &[u8]) -> (r: Option<u32>)
    ensures
        r == pdf_page_count(bytes@),
{
    match pdf_pages_in(bytes) {
        Some(n) => if n <= u32::MAX as usize {
            Some(n as u32)
        } else {
            None
        },
        None => None,
    }
}

/// The pixel dimensions the `image` crate reads from the header of the
/// image in `bytes`, decoded in the format named by the extension of
/// `path`; `None` when the extension names no supported format or the
/// header does not parse.
pub uninterp spec fn image_header_dimensions(path: Seq<char>, bytes: Seq<u8>) -> Option<(u32, u32)>;

/// Picks the format with `image::ImageFormat::from_path` and reads the
/// dimensions with `ImageReader::into_dimensions`. Claimed: the result is
/// `image_header_dimensions` of the path and the bytes.
#[verifier::external_body]
fn image_dimensions_in(path: &str, bytes: &[u8]) -> (r: Option<(u32, u32)>)
    ensures
        r == image_header_dimensions(path@, bytes@),
{
    match image::ImageFormat::from_path(path) {
        Ok(format) => image::ImageReader::with_format(std::io::Cursor::new(bytes), format)
            .into_dimensions().ok(),
        Err(_) => None,
    }
}

/// Returns the pixel dimensions of the image at `path` whose content is
/// `bytes`, or `None` if its header cannot be parsed as a supported image
/// format. Only the header is decoded.
pub fn extract_image_dimensions(path: &str, bytes: &[u8]) -> (r: Option<(u32, u32)>)
    ensures
        r == image_header_dimensions(path@, bytes@),
{
    image_dimensions_in(path, bytes)
}

/// Dispatches on `format` (compared case-insensitively) to the extraction it
/// calls for, run on `bytes`, the content of the file at `path`; formats
/// without an extraction and failed extractions give `Unavailable`.
pub fn compute_file_info(path: &str, format: &str, bytes: Vec<u8>) -> (info: FileInfo)
    ensures
        match extractor_for(format@) {
            InfoExtractor::PdfPageCount => info == match pdf_page_count(bytes@) {
                Some(n) => FileInfo::PageCount(n),
                None => FileInfo::Unavailable,
            },
            InfoExtractor::ZipFileCount => info == match zip_file_count(bytes@) {
                Some(c) => FileInfo::ContainedFiles(c),
                None => FileInfo::Unavailable,
            },
            InfoExtractor::ImageDimensions => info == match image_header_dimensions(path@, bytes@) {
                Some((w, h)) => FileInfo::Dimensions(w, h),
                None => FileInfo::Unavailable,
            },
            InfoExtractor::Unsupported => info is Unavailable,
        },
{
    match info_extractor_for(format) {
        InfoExtractor::PdfPageCount => match extract_pdf_page_count(bytes.as_slice()) {
            Some(n) => FileInfo::PageCount(n),
            None => FileInfo::Unavailable,
        },
        InfoExtractor::ZipFileCount => match extract_zip_file_count(bytes) {
            Some(n) => FileInfo::ContainedFiles(n),
            None => FileInfo::Unavailable,
        },
        InfoExtractor::ImageDimensions => match extract_image_dimensions(path, bytes.as_slice()) {
            Some((w, h)) => FileInfo::Dimensions(w, h),
            None => FileInfo::Unavailable,
        },
        InfoExtractor::Unsupported => FileInfo::Unavailable,
    }
}

} // verus!

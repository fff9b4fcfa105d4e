use std::io::{Cursor, Write};

use dtrpg_ui::file_info::{
    compute_file_info, extract_image_dimensions, extract_pdf_page_count, info_extractor_for, FileInfo, InfoExtractor,
};
use dtrpg_ui::zip_preview::{extract_zip_file_count, list_entries_in, ZipPreviewError};
use lopdf::{Dictionary, Document, Object};
use zip::write::SimpleFileOptions;
use zip::ZipWriter;

fn zip_bytes(entries: &[(&str, &[u8])]) -> Vec<u8> {
    let mut writer = ZipWriter::new(Cursor::new(Vec::new()));
    let options = SimpleFileOptions::default().compression_method(zip::CompressionMethod::Deflated);
    for (name, content) in entries {
        writer.start_file(*name, options).unwrap();
        writer.write_all(content).unwrap();
    }
    writer.finish().unwrap().into_inner()
}

fn png_bytes(width: u32, height: u32) -> Vec<u8> {
    let img = image::RgbImage::new(width, height);
    let mut buf = Cursor::new(Vec::new());
    img.write_to(&mut buf, image::ImageFormat::Png).unwrap();
    buf.into_inner()
}

fn pdf_bytes(pages: usize) -> Vec<u8> {
    let mut doc = Document::with_version("1.5");
    let pages_id = doc.new_object_id();
    let mut kids = Vec::new();
    for _ in 0..pages {
        let mut page = Dictionary::new();
        page.set("Type", Object::Name(b"Page".to_vec()));
        page.set("Parent", Object::Reference(pages_id));
        page.set(
            "MediaBox",
            Object::Array(vec![Object::Integer(0), Object::Integer(0), Object::Integer(612), Object::Integer(792)]),
        );
        kids.push(Object::Reference(doc.add_object(page)));
    }
    let mut tree = Dictionary::new();
    tree.set("Type", Object::Name(b"Pages".to_vec()));
    tree.set("Count", Object::Integer(pages as i64));
    tree.set("Kids", Object::Array(kids));
    doc.objects.insert(pages_id, Object::Dictionary(tree));
    let mut catalog = Dictionary::new();
    catalog.set("Type", Object::Name(b"Catalog".to_vec()));
    catalog.set("Pages", Object::Reference(pages_id));
    let catalog_id = doc.add_object(catalog);
    doc.trailer.set("Root", Object::Reference(catalog_id));
    let mut out = Vec::new();
    doc.save_to(&mut out).unwrap();
    out
}

#[test]
fn display_renders_each_variant() {
    assert_eq!(FileInfo::PageCount(12).display(), Some("12 pages".to_string()));
    assert_eq!(FileInfo::ContainedFiles(3).display(), Some("3 files".to_string()));
    assert_eq!(FileInfo::Dimensions(640, 480).display(), Some("640x480".to_string()));
    assert_eq!(FileInfo::Unavailable.display(), None);
}

#[test]
fn extractor_is_chosen_case_insensitively() {
    assert_eq!(info_extractor_for("pdf"), InfoExtractor::PdfPageCount);
    assert_eq!(info_extractor_for("Zip"), InfoExtractor::ZipFileCount);
    for f in ["JPG", "jpeg", "PNG", "gif", "WebP", "bmp"] {
        assert_eq!(info_extractor_for(f), InfoExtractor::ImageDimensions);
    }
    assert_eq!(info_extractor_for("EPUB"), InfoExtractor::Unsupported);
    assert_eq!(info_extractor_for(""), InfoExtractor::Unsupported);
}

#[test]
fn extract_pdf_page_count_counts_pages() {
    assert_eq!(extract_pdf_page_count(&pdf_bytes(3)), Some(3));
    assert_eq!(extract_pdf_page_count(&pdf_bytes(1)), Some(1));
}

#[test]
fn extract_pdf_page_count_returns_none_for_truncated_file() {
    assert_eq!(extract_pdf_page_count(b"%PDF-1.4\nnot a real pdf body"), None);
}

#[test]
fn extract_zip_file_count_returns_count_for_valid_archive() {
    let bytes = zip_bytes(&[("a.txt", b"a"), ("b.txt", b"b")]);
    assert_eq!(extract_zip_file_count(bytes), Some(2));
}

#[test]
fn extract_zip_file_count_returns_none_for_corrupt_archive() {
    assert_eq!(extract_zip_file_count(b"not a zip archive".to_vec()), None);
}

#[test]
fn extract_image_dimensions_returns_dimensions_for_valid_png() {
    assert_eq!(extract_image_dimensions("fixture.png", &png_bytes(4, 3)), Some((4, 3)));
}

#[test]
fn extract_image_dimensions_returns_none_for_corrupt_image() {
    assert_eq!(extract_image_dimensions("corrupt.png", b"not an image"), None);
}

#[test]
fn image_format_follows_the_path_extension() {
    assert_eq!(extract_image_dimensions("fixture", &png_bytes(4, 3)), None);
    assert_eq!(extract_image_dimensions("fixture.jpg", &png_bytes(4, 3)), None);
}

#[test]
fn compute_file_info_dispatches_by_format() {
    assert_eq!(compute_file_info("fixture.png", "PNG", png_bytes(2, 2)), FileInfo::Dimensions(2, 2));
    assert_eq!(compute_file_info("book.pdf", "PDF", pdf_bytes(2)), FileInfo::PageCount(2));
    assert_eq!(
        compute_file_info("bundle.zip", "zip", zip_bytes(&[("a", b"1"), ("b", b"2"), ("c", b"3")])),
        FileInfo::ContainedFiles(3)
    );
}

#[test]
fn compute_file_info_returns_none_for_unsupported_format() {
    assert_eq!(compute_file_info("fixture.txt", "TXT", b"text".to_vec()), FileInfo::Unavailable);
}

#[test]
fn compute_file_info_returns_none_for_unparsable_content() {
    assert_eq!(compute_file_info("book.pdf", "PDF", Vec::new()), FileInfo::Unavailable);
    assert_eq!(compute_file_info("bundle.zip", "ZIP", Vec::new()), FileInfo::Unavailable);
    assert_eq!(compute_file_info("cover.png", "PNG", Vec::new()), FileInfo::Unavailable);
}

#[test]
fn list_entries_returns_expected_entries_for_a_valid_zip() {
    let bytes = zip_bytes(&[("Player's Handbook.pdf", b"pdf bytes"), ("maps/world.jpg", b"jpg bytes")]);
    let entries = list_entries_in(bytes).unwrap();
    assert_eq!(entries.len(), 2);
    assert_eq!(entries[0].name, "Player's Handbook.pdf");
    assert_eq!(entries[0].size_bytes, 9);
    assert_eq!(entries[1].name, "maps/world.jpg");
}

#[test]
fn list_entries_fails_with_invalid_archive_for_an_empty_file() {
    assert_eq!(list_entries_in(Vec::new()), Err(ZipPreviewError::InvalidArchive));
}

#[test]
fn list_entries_fails_with_invalid_archive_for_a_non_zip_file() {
    assert_eq!(
        list_entries_in(b"just some text, not a zip archive".to_vec()),
        Err(ZipPreviewError::InvalidArchive)
    );
}

#[test]
fn empty_archive_lists_nothing() {
    assert_eq!(list_entries_in(zip_bytes(&[])), Ok(Vec::new()));
    assert_eq!(extract_zip_file_count(zip_bytes(&[])), Some(0));
}

#[test]
fn unreadable_entry_fails_the_whole_listing() {
    let mut bytes = zip_bytes(&[("a.txt", b"a"), ("b.txt", b"b")]);
    assert_eq!(&bytes[0..4], b"PK\x03\x04");
    bytes[0] = b'X';
    assert_eq!(list_entries_in(bytes.clone()), Err(ZipPreviewError::InvalidArchive));
    assert_eq!(extract_zip_file_count(bytes.clone()), None);
    assert_eq!(compute_file_info("bundle.zip", "ZIP", bytes), FileInfo::Unavailable);
}

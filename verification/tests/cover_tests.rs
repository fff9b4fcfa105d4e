use dtrpg_ui::cover::{
    cover_style, hex_background, is_light_hex, CoverCache, Motif, CREAM_INK, DARK_INK, FALLBACK_BACKGROUND,
};
use dtrpg_ui::image_format::ImageKind;
use dtrpg_ui::model::{ItemStatus, LibraryItem};
use dtrpg_ui::stubs::stub_catalog;

fn make_item(id: &str, title: &str, color: &str) -> LibraryItem {
    LibraryItem::new(id, title, "Test", "Test Line", "Core", "PDF", 200, 51_200, 2020, 100, ItemStatus::Downloaded, color, "A test item.", None)
}

#[test]
fn cover_style_deterministic() {
    let item = make_item("b1", "Player's Handbook", "#1C2A44");
    let s1 = cover_style(&item);
    let s2 = cover_style(&item);
    assert_eq!(s1.motif, s2.motif, "motif must be deterministic");
}

#[test]
fn dark_background_gets_cream_foreground() {
    let item = make_item("b1", "Dark Book", "#1C2A44");
    let style = cover_style(&item);
    assert_eq!(style.foreground, CREAM_INK, "expected cream foreground on dark bg");
}

#[test]
fn light_background_gets_dark_foreground() {
    let item = make_item("b_light", "Light Book", "#C9A02C");
    let style = cover_style(&item);
    assert_eq!(style.foreground, DARK_INK, "expected dark foreground on light bg");
}

#[test]
fn all_stub_items_produce_valid_cover_style() {
    for item in stub_catalog() {
        let style = cover_style(&item);
        assert!(matches!(style.motif, Motif::Circle | Motif::Diamond | Motif::DoubleRule | Motif::Triangle));
    }
}

#[test]
fn malformed_color_falls_back_without_panicking() {
    for color in ["", "not-a-color", "#zzzzzz"] {
        let item = make_item("b_malformed", "Malformed Color Book", color);
        let style = cover_style(&item);
        assert_eq!(style.background, 0x1C_2A_44, "expected fallback background for malformed color {color:?}");
    }
}

#[test]
fn cover_style_reads_background_and_motif_exactly() {
    let style = cover_style(&make_item("b1", "Player's Handbook", "#1C2A44"));
    assert_eq!(style.background, 0x1C2A44);
    // FNV-1a of "b1Player's Handbook" is 0xA4D0B1B9, which is 1 modulo 4.
    assert_eq!(style.motif, Motif::Diamond);
    assert_eq!(cover_style(&make_item("a", "", "#FFFFFF")).motif, Motif::Circle);
}

#[test]
fn luminance_threshold_and_parsing_edges() {
    assert!(is_light_hex("#FFFFFF"));
    assert!(!is_light_hex("#000000"));
    assert!(!is_light_hex("##000000"));
    assert!(is_light_hex("#abc"));
    assert!(is_light_hex("#gggggg"));
    assert!(!is_light_hex("000000"));
    // (150*299 + 150*587 + 150*114) / 1000 == 150 is not above the threshold.
    assert!(!is_light_hex("#969696"));
    assert!(is_light_hex("#979797"));
}

#[test]
fn background_parses_short_and_signed_colours() {
    assert_eq!(hex_background("#abc"), 0xABC);
    assert_eq!(hex_background("#1c2a44ff"), 0x1C2A44);
    assert_eq!(hex_background("+12345"), 0x12345);
    assert_eq!(hex_background("#+"), FALLBACK_BACKGROUND);
    assert_eq!(hex_background("#-12345"), FALLBACK_BACKGROUND);
}

#[test]
fn cache_stores_and_returns_covers() {
    let mut cache = CoverCache::new();
    assert!(cache.get("b1").is_none());
    cache.mark_in_flight("b1");
    assert!(cache.is_in_flight("b1"));
    assert!(!cache.is_in_flight("b2"));
    let png = vec![0x89, b'P', b'N', b'G', 1, 2, 3];
    cache.insert("b1", png.clone());
    assert!(!cache.is_in_flight("b1"));
    let img = cache.get("b1").unwrap();
    assert_eq!(img.format, ImageKind::Png);
    assert_eq!(img.bytes, png);
    assert!(cache.get("b2").is_none());
}

#[test]
fn cache_insert_replaces_and_keeps_other_ids() {
    let mut cache = CoverCache::default();
    cache.insert("a", vec![b'G', b'I', b'F', b'8']);
    cache.insert("b", vec![b'B', b'M']);
    cache.insert("a", vec![0xFF, 0xD8, 0xFF]);
    assert_eq!(cache.get("a").unwrap().format, ImageKind::Jpeg);
    assert_eq!(cache.get("b").unwrap().format, ImageKind::Bmp);
    cache.mark_in_flight("c");
    cache.mark_in_flight("c");
    cache.insert("c", vec![]);
    assert!(!cache.is_in_flight("c"));
    assert_eq!(cache.get("c").unwrap().format, ImageKind::Jpeg);
}

#[test]
fn multibyte_colours_fall_back_without_panicking() {
    for color in ["#aéééé", "#ab€def", "éééééé", "#12345é"] {
        assert!(is_light_hex(color));
        assert_eq!(hex_background(color), FALLBACK_BACKGROUND);
        let style = cover_style(&make_item("m", "Multibyte", color));
        assert_eq!(style.background, FALLBACK_BACKGROUND);
        assert_eq!(style.foreground, DARK_INK);
    }
    assert_eq!(hex_background("#é"), FALLBACK_BACKGROUND);
}

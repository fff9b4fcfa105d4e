use dtrpg_ui::image_format::{sniff, ImageKind};

#[test]
fn sniffs_png() {
    assert_eq!(sniff(&[0x89, b'P', b'N', b'G', 0x0D, 0x0A]), ImageKind::Png);
}

#[test]
fn sniffs_jpeg() {
    assert_eq!(sniff(&[0xFF, 0xD8, 0xFF, 0xE0]), ImageKind::Jpeg);
}

#[test]
fn sniffs_webp() {
    let bytes = [b'R', b'I', b'F', b'F', 0, 0, 0, 0, b'W', b'E', b'B', b'P'];
    assert_eq!(sniff(&bytes), ImageKind::Webp);
}

#[test]
fn sniffs_gif() {
    assert_eq!(sniff(b"GIF89a"), ImageKind::Gif);
}

#[test]
fn sniffs_bmp() {
    assert_eq!(sniff(&[b'B', b'M', 0, 0]), ImageKind::Bmp);
}

#[test]
fn unknown_bytes_default_to_jpeg() {
    assert_eq!(sniff(&[0, 1, 2, 3]), ImageKind::Jpeg);
}

#[test]
fn extension_matches_kind() {
    assert_eq!(ImageKind::Jpeg.extension(), "jpg");
    assert_eq!(ImageKind::Png.extension(), "png");
    assert_eq!(ImageKind::Webp.extension(), "webp");
    assert_eq!(ImageKind::Gif.extension(), "gif");
    assert_eq!(ImageKind::Bmp.extension(), "bmp");
}

#[test]
fn truncated_signatures_default_to_jpeg() {
    assert_eq!(sniff(&[]), ImageKind::Jpeg);
    assert_eq!(sniff(&[0x89, b'P', b'N']), ImageKind::Jpeg);
    assert_eq!(sniff(b"RIFF\0\0\0\0WEB"), ImageKind::Jpeg);
    assert_eq!(sniff(b"B"), ImageKind::Jpeg);
}

//! Image format sniffing from leading magic bytes.

use vstd::prelude::*;

verus! {

/// A sniffed image format.
#[derive(Debug, Clone, Copy, PartialEq, Eq, Structural)]
pub enum ImageKind {
    Jpeg,
    Png,
    Webp,
    Gif,
    Bmp,
}

/// File extension (without a leading dot) of each format.
pub open spec fn kind_extension(kind: ImageKind) -> Seq<char> {
    match kind {
        ImageKind::Jpeg => "jpg"@,
        ImageKind::Png => "png"@,
        ImageKind::Webp => "webp"@,
        ImageKind::Gif => "gif"@,
        ImageKind::Bmp => "bmp"@,
    }
}

impl ImageKind {
    /// Returns the file extension (without a leading dot) for this format.
    pub fn extension(&self) -> (e: &'static str)
        ensures
            e@ == kind_extension(*self),
    {
        match self {
            ImageKind::Jpeg => "jpg",
            ImageKind::Png => "png",
            ImageKind::Webp => "webp",
            ImageKind::Gif => "gif",
            ImageKind::Bmp => "bmp",
        }
    }
}

/// Format announced by the leading bytes: PNG (`89 'P' 'N' 'G'`), JPEG
/// (`FF D8 FF`), WebP (`"RIFF"`, four bytes, `"WEBP"`), GIF (`"GIF8"`), BMP
/// (`"BM"`); anything else is taken for JPEG.
pub open spec fn sniffed(b: Seq<u8>) -> ImageKind {
    if b.len() >= 4 && b[0] == 0x89 && b[1] == 0x50 && b[2] == 0x4E && b[3] == 0x47 {
        ImageKind::Png
    } else if b.len() >= 3 && b[0] == 0xFF && b[1] == 0xD8 && b[2] == 0xFF {
        ImageKind::Jpeg
    } else if b.len() >= 12 && b[0] == 0x52 && b[1] == 0x49 && b[2] == 0x46 && b[3] == 0x46
        && b[8] == 0x57 && b[9] == 0x45 && b[10] == 0x42 && b[11] == 0x50 {
        ImageKind::Webp
    } else if b.len() >= 4 && b[0] == 0x47 && b[1] == 0x49 && b[2] == 0x46 && b[3] == 0x38 {
        ImageKind::Gif
    } else if b.len() >= 2 && b[0] == 0x42 && b[1] == 0x4D {
        ImageKind::Bmp
    } else {
        ImageKind::Jpeg
    }
}

/// Detects an image format from leading magic bytes; defaults to JPEG.
pub fn sniff(bytes: &[u8]) -> (k: ImageKind)
    ensures
        k == sniffed(bytes@),
{
    let n = bytes.len();
    if n >= 4 && bytes[0] == 0x89 && bytes[1] == 0x50 && bytes[2] == 0x4E && bytes[3] == 0x47 {
        ImageKind::Png
    } else if n >= 3 && bytes[0] == 0xFF && bytes[1] == 0xD8 && bytes[2] == 0xFF {
        ImageKind::Jpeg
    } else if n >= 12 && bytes[0] == 0x52 && bytes[1] == 0x49 && bytes[2] == 0x46 && bytes[3]
        == 0x46 && bytes[8] == 0x57 && bytes[9] == 0x45 && bytes[10] == 0x42 && bytes[11] == 0x50 {
        ImageKind::Webp
    } else if n >= 4 && bytes[0] == 0x47 && bytes[1] == 0x49 && bytes[2] == 0x46 && bytes[3]
        == 0x38 {
        ImageKind::Gif
    } else if n >= 2 && bytes[0] == 0x42 && bytes[1] == 0x4D {
        ImageKind::Bmp
    } else {
        ImageKind::Jpeg
    }
}

} // verus!

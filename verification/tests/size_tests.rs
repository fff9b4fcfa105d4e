use dtrpg_ui::model::{ItemStatus, LibraryItem};
use dtrpg_ui::size::{format_bytes, format_total_size, prefer_on_disk_size, size_format, with_on_disk_suffix};

fn item_of_size(size_kb: u64) -> LibraryItem {
    LibraryItem::new("i", "T", "P", "", "", "PDF", 0, size_kb, 2020, 0, ItemStatus::Cloud, "#000000", "", None)
}

#[test]
fn prefer_on_disk_size_returns_local_size_when_known() {
    let result = prefer_on_disk_size("12.0 MB".to_string(), Some(1_572_864));
    assert_eq!(result, "1.5 MB");
}

#[test]
fn prefer_on_disk_size_returns_catalog_size_when_unknown() {
    let result = prefer_on_disk_size("12.0 MB".to_string(), None);
    assert_eq!(result, "12.0 MB");
}

#[test]
fn format_bytes_matches_existing_mb_style() {
    assert_eq!(format_bytes(1_572_864), "1.5 MB");
    assert_eq!(format_bytes(0), "0.0 MB");
}

#[test]
fn with_on_disk_suffix_appends_suffix_when_bytes_known() {
    let result = with_on_disk_suffix("12.0 MB".to_string(), Some(1_572_864));
    assert_eq!(result, "12.0 MB (1.5 MB on disk)");
}

#[test]
fn with_on_disk_suffix_returns_catalog_size_unchanged_when_unknown() {
    let result = with_on_disk_suffix("12.0 MB".to_string(), None);
    assert_eq!(result, "12.0 MB");
}

#[test]
fn format_bytes_rounds_half_to_even() {
    // 1.25 MiB and 1.35 MiB sit exactly on a tie / just off it.
    assert_eq!(format_bytes(1_310_720), "1.2 MB");
    assert_eq!(format_bytes(1_048_576), "1.0 MB");
    assert_eq!(format_bytes(10_485_760), "10.0 MB");
}

#[test]
fn total_size_in_megabytes_and_gigabytes() {
    assert_eq!(format_total_size(&[]), "0 MB");
    assert_eq!(format_total_size(&[item_of_size(512), item_of_size(1024)]), "2 MB");
    assert_eq!(format_total_size(&[item_of_size(1_048_576)]), "1.0 GB");
    assert_eq!(format_total_size(&[item_of_size(1_048_576), item_of_size(524_288)]), "1.5 GB");
}

#[test]
fn size_column_uses_mb_gb_and_tb() {
    assert_eq!(size_format(0), "0 MB");
    assert_eq!(size_format(512), "0 MB");
    assert_eq!(size_format(1_536), "2 MB");
    assert_eq!(size_format(2_560), "2 MB");
    assert_eq!(size_format(51_200), "50 MB");
    assert_eq!(size_format(1_048_576), "1.00 GB");
    assert_eq!(size_format(1_572_864), "1.50 GB");
    assert_eq!(size_format(1_073_741_824), "1.0 TB");
}

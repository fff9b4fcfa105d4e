//! Verified core of the DriveThruRPG library browser: catalog filtering,
//! sorting, grouping, text and date formatting, and pane state.

pub mod chars;
pub mod order;
pub mod model;
pub mod sort;
pub mod filter;
pub mod matching;
pub mod publisher;
pub mod size;
pub mod hash;
pub mod image_format;
pub mod text;
pub mod labels;
pub mod library;
pub mod stubs;
pub mod datetime;
pub mod paths;
pub mod item_opener;
pub mod file_info;
pub mod file_presence;
pub mod zip_preview;
pub mod cover;
pub mod tabs;
pub mod actions;
pub mod fonts;
pub mod menus;

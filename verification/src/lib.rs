//! Verified core of the appDataFolder browser: Drive API URL construction,
//! response interpretation, paginated listing, and the small text rules the
//! user interface relies on.

pub mod decimal;
pub mod urls;
pub mod json;
pub mod drive;
pub mod listing;
pub mod presets;
pub mod text;
pub mod download;
pub mod size;
pub mod session;

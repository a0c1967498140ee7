//! Discovery of installed add-ons from the `.toc` manifests in their directories.
pub mod addon;
pub mod detail;
pub mod manifest;

pub use addon::{construct_addon, is_manifest_entry, select_manifest, Addon, DirEntryInfo, ExtractError};
pub use detail::{find_and_replace_detail, DetailNotFoundError};
pub use manifest::{parse_manifest, ManifestDetails};

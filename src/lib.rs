//! Typed metadata records of the map-description format: the generic block
//! tree, key extraction, flat and hierarchical record codecs, lookup over the
//! group forest, and deterministic text emission.

pub mod block;
pub mod decimal;
pub mod emit;
pub mod group_codec;
pub mod group_text;
pub mod version_info;
pub mod view_settings;
pub mod visgroup;

pub use block::{get_key_ref, take_and_parse_i32, take_and_parse_u16, take_key_owned};
pub use block::{VmfBlock, VmfError, VmfErrorView};
pub use version_info::VersionInfo;
pub use view_settings::ViewSettings;
pub use visgroup::{VisGroup, VisGroups};

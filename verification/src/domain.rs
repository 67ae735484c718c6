//! An installed software item, as the export and the item table read it.
use vstd::prelude::*;

verus! {

/// One installed software item. The classification fields (`category`,
/// `package_manager`, `scope`, `classification_confidence`) hold the name
/// of their variant, as `Debug` prints it (e.g. `Apt`, `Application`).
#[derive(Debug, Clone)]
pub struct SoftwareItem {
    /// Provider-defined identifier, e.g. `apt:firefox`.
    pub id: String,
    pub package_name: String,
    pub display_name: String,
    pub category: String,
    pub package_manager: String,
    pub scope: String,
    pub version: Option<String>,
    pub installed_size_bytes: Option<u64>,
    pub update_available: bool,
    pub classification_confidence: String,
}

} // verus!

//! The records of a plugin manifest, as decoded from the manifest file.
use vstd::prelude::*;

verus! {

/// One plugin entry of a manifest that is to be validated.
#[derive(Debug)]
pub struct ValidatePlugin {
    pub category: String,
    pub guid: String,
    pub name: String,
    pub overview: String,
    pub owner: String,
    pub description: String,
    pub versions: Vec<ValidatePluginVersion>,
}

/// One released build of a plugin, as listed in a manifest to validate.
#[derive(Debug)]
pub struct ValidatePluginVersion {
    pub checksum: String,
    pub changelog: String,
    pub name: String,
    pub target_abi: String,
    pub source_url: String,
    pub filename: String,
    pub timestamp: String,
    pub version: String,
}

/// A plugin entry as written to a manifest.
#[derive(Debug)]
pub struct Plugin {
    pub category: String,
    pub guid: String,
    pub name: String,
    pub overview: String,
    pub owner: String,
    pub description: String,
    pub versions: Vec<PluginVersion>,
}

/// A released build as written to a manifest.
#[derive(Debug)]
pub struct PluginVersion {
    pub checksum: String,
    pub changelog: String,
    pub name: String,
    pub target_abi: String,
    pub source_url: String,
    pub filename: String,
    pub timestamp: String,
    pub version: String,
}

/// Why a checksum was refused.
#[derive(Debug, Clone, Copy, PartialEq, Eq, Structural)]
pub enum ChecksumError {
    /// The checksum has this many characters instead of 32.
    InvalidLength(usize),
    /// The checksum holds a character that is not a hexadecimal digit.
    InvalidCharacters,
}

} // verus!

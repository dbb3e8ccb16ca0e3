//! Validation of plugin repository manifests: field checks on every plugin
//! and version, collected into a report with a deterministic rendering.

pub mod manifest;
pub mod report;
pub mod semver;
pub mod text;
pub mod validate;

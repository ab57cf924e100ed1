//! Manifests and their descriptions.

/// Manifest descriptions and their validation.
pub mod description;

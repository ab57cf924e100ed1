//! Primitives for describing and validating build manifests.

/// Decimal notation for natural numbers.
pub mod decimal;

/// Manifests describe builds of operating systems. They are exchanged as
/// descriptions, which are validated before a manifest is made from them.
pub mod manifest;

/// What the Python module of this library computes.
pub mod python;

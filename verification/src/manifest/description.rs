//! Manifest descriptions: versioned, nested declarations of a build.

use vstd::prelude::*;

/// Paths into a description, and the text that names them.
pub mod path;

/// Findings of a validation, and how they are collected.
pub mod validation;

verus! {

/// Why a description could not be read into the shape that its version asks
/// for. Such a failure ends validation before any finding is collected. More
/// kinds of failure may be added.
#[derive(Debug)]
#[non_exhaustive]
pub enum ManifestDescriptionError {
    /// The description does not have the shape of a manifest.
    MalformedDescription,
    /// The description names a version that is not known.
    UnsupportedVersion,
}

} // verus!

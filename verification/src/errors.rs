//! The failures of the sanitizer and of the store.

use vstd::prelude::*;

verus! {

/// Why a raw record could not be cleaned.
#[derive(Debug, Clone, Copy, PartialEq, Eq, Structural)]
pub enum CleanError {
    /// The record has no identifier.
    MissingUUID,
    /// The record has no name.
    MissingNameField,
    /// The name has no first part.
    MissingFirstName,
    /// The name has no last part.
    MissingLastName,
}

/// Why a lookup in the store gave nothing.
#[derive(Debug, Clone, Copy, PartialEq, Eq, Structural)]
pub enum CombinedError {
    /// The store holds nothing under the identifier.
    NoSuchUUID,
}

} // verus!

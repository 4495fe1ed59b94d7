//! The closed error taxonomy of the boundary operations.
//!
//! Transport layers map each kind to a status uniformly: a validation
//! failure names the offending field, a missing target carries its id, a
//! store failure stays opaque towards the caller, and a conversion failure
//! marks a stored row that no longer decodes.

use vstd::prelude::*;

verus! {

/// Why a boundary operation failed.
#[derive(Debug)]
pub enum ApiError {
    /// The request payload failed validation; carries a field-specific
    /// message.
    ValidationError(String),
    /// The target of an update or delete does not exist; carries a message
    /// naming what was missing.
    NotFoundError(String),
    /// The store rejected an operation; carries only an opaque marker so
    /// that storage internals do not leak.
    StoreError(String),
    /// A stored row no longer decodes into a valid entity.
    ConversionError(String),
}

} // verus!

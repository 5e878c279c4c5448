//! Errors of the storage layer.

use gluesql_core::error::Error as GlueError;
use vstd::prelude::*;

verus! {

/// gluesql-core's error type, carried through unchanged.
#[verifier::external_type_specification]
#[verifier::external_body]
pub struct ExGlueError(GlueError);

/// Why a storage operation failed.
pub enum StorageError {
    /// gluesql-core refused the operation (for instance a key that has no
    /// order-preserving encoding).
    Glue(GlueError),
    /// The storage itself refused the operation.
    Msg(String),
}

} // verus!

//! The ways in which building or restoring a template fails.

use vstd::prelude::*;

verus! {

/// Why a template was not built.  Every failure is local and final: the same
/// call on the same state fails in the same way.
#[derive(Debug, Clone, Copy, PartialEq, Eq, Structural)]
pub enum TemplateError {
    /// What the caller supplied cannot be part of a template: a negative
    /// amount, an output beyond what the output count can hold, or parts that
    /// do not fit together.
    MalformedInput,
    /// The outputs' total is more than the declared maximum.
    AmountExceeded,
    /// There is no output: nothing would be committed to.
    EmptyOutputSet,
    /// The builder has already produced its template.
    AlreadyFinalized,
    /// A digest that was claimed is not the digest of the transaction body.
    InvariantViolation,
}

} // verus!

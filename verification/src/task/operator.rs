//! Contains the inputs of an operator.

use vstd::prelude::*;

verus! {

/// Inputs for an operator.
pub struct OperatorInput {
    /// The entity up the hierarchy that holds the plan. This is usually your entity of interest.
    pub entity: u64,
    /// The entity that represents the operator itself. Useful if you want to associate custom extra data with an operator.
    pub operator: u64,
}

} // verus!

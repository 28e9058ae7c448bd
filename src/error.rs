//! The failures a call can end in.
use vstd::prelude::*;

verus! {

/// Why a call failed before it produced any row.
#[derive(Debug)]
pub enum RegexError {
    /// The pattern text does not compile; the engine's message says why.
    Pattern { pattern: String, message: String },
    /// An argument is missing or of the wrong kind.
    Argument(String),
    /// The cursor was used out of its documented order.
    Internal(String),
}

/// Why the planner rejected a call.
#[derive(PartialEq, Eq, Structural, Clone, Copy, Debug)]
pub enum PlanError {
    /// A required hidden argument has no usable equality constraint.
    MissingConstraint,
    /// A required hidden argument is constrained by something other than a
    /// usable equality.
    UnsupportedConstraint,
}

impl RegexError {
    /// A readable description of the failure.
    pub fn message(&self) -> (r: String)
        ensures
            self matches RegexError::Argument(m) ==> r@ == m@,
            self matches RegexError::Internal(m) ==> r@ == m@,
    {
        match self {
            RegexError::Pattern { message, .. } => message.clone(),
            RegexError::Argument(m) => m.clone(),
            RegexError::Internal(m) => m.clone(),
        }
    }
}

} // verus!

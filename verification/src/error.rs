//! What can go wrong.

use vstd::prelude::*;

verus! {

/// Why an operation gave no result.
#[derive(Debug, Clone, Copy, PartialEq, Eq, Structural)]
pub enum LpError {
    /// An expression was to be divided by zero.
    DivisionByZero,
}

} // verus!

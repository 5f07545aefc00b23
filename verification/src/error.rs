//! The ways in which an operation of the engine can fail.

use vstd::prelude::*;

verus! {

/// Why an operation failed.
#[derive(Debug, Clone, Copy, PartialEq, Eq, Structural)]
pub enum ErrorKind {
    /// A mode, an interval or a symbol that the engine does not recognise.
    Config,
    /// The historical data source failed.
    DataSource,
    /// A number that cannot be formed: a zero rounding target, or a value
    /// outside the range of the fixed-point type.
    Numeric,
    /// The run was cancelled from outside.
    Cancelled,
    /// The caller broke a precondition, such as a start that is not before
    /// the end.
    Contract,
}

} // verus!

//! Error values shared by the statistics and reducer operations.

use vstd::prelude::*;

verus! {

/// Signalled when a statistics or reduction operation receives a
/// zero-length collection. Always recoverable by the caller.
#[derive(Clone, Copy, Debug, PartialEq, Eq, Structural)]
pub struct EmptyInputError;

} // verus!

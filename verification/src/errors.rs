//! The taxonomy of fatal per-deployment input errors.

use vstd::prelude::*;

verus! {

/// Why a computation for one deployment had to stop. Such an error is fatal
/// to that deployment's report only, never to the rest of a batch.
#[derive(Clone, Copy, Debug, PartialEq, Eq, Structural)]
pub enum InputError {
    /// A field that must hold a non-negative decimal number held something
    /// else, or a number outside the signed 64-bit range.
    NotANumber,
    /// The sync percentage is undefined: the start block equals the chain
    /// head block, so the denominator of the ratio is zero.
    ZeroDenominator,
}

} // verus!

use vstd::prelude::*;

verus! {

/// The ways a basket operation can fail.  Every engine operation returns a
/// typed error instead of aborting, and an operation that fails leaves all
/// state exactly as it was.
#[derive(Clone, Copy, Debug, PartialEq, Eq, Structural)]
pub enum ErrorKind {
    /// The fee fields violate the denominator or sum invariant at
    /// construction time.
    InvalidFeeConfiguration,
    /// A requested wrap amount exceeds the bottleneck-asset-derived maximum.
    ExceedsAvailable,
    /// A debit found less credit than required.
    InsufficientBalance,
    /// Fee shares computed from a misconfigured fee policy sum to more than
    /// the wrapped amount.
    FeeOverflow,
    /// The caller is not the basket's designated owner.
    Unauthorized,
}

} // verus!

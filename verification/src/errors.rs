use vstd::prelude::*;

verus! {

/// Every way an operation on the ledger can be rejected.
///
/// Each variant is a distinguishable failure reason surfaced to the caller;
/// no operation that returns one of these has any side effect on the store
/// or on the balances.
#[derive(Clone, Copy, Debug, PartialEq, Eq, Structural)]
pub enum ErrorCode {
    /// A price was given as zero; prices must be positive.
    InvalidPrice,
    /// A billing interval was given as zero days; intervals must be positive.
    InvalidInterval,
    /// A product name longer than the maximum of 50 characters.
    ProductNameTooLong,
    /// The subscription or its configuration is not active.
    SubscriptionInactive,
    /// The subscription was already canceled; cancellation is terminal.
    SubscriptionAlreadyCanceled,
    /// The caller is not the principal that the mutation requires.
    Unauthorized,
    /// A time or accumulation computation would exceed the representable range.
    MathOverflow,
    /// No record exists at the derived address.
    NotFound,
    /// A record already occupies the derived address.
    AlreadyExists,
    /// The paying account does not hold the transfer amount.
    InsufficientFunds,
}

} // verus!

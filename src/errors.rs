use vstd::prelude::*;

verus! {

/// Why an operation was rejected. A rejected operation changes nothing.
#[derive(Clone, Copy, Debug, PartialEq, Eq, Structural)]
pub enum LogisticsError {
    /// The provider list and the cost list differ in length.
    MismatchedArrays,
    /// A trade needs at least one logistics option.
    NoLogisticsProviders,
    /// More logistics options than a trade may hold.
    TooManyProviders,
    /// A quantity of zero.
    InvalidQuantity,
    /// The trade has nothing left to sell.
    TradeInactive,
    /// The trade holds less than the quantity asked for.
    InsufficientQuantity,
    /// A seller cannot buy from their own trade.
    BuyerIsSeller,
    /// The chosen provider is not one of the trade's logistics options.
    InvalidLogisticsProvider,
    /// The caller may not perform this operation.
    NotAuthorized,
    /// The purchase was already confirmed (or otherwise closed).
    AlreadyConfirmed,
    /// The purchase is under dispute.
    Disputed,
    /// The purchase was already settled.
    AlreadySettled,
    /// The purchase is already under dispute.
    AlreadyDisputed,
    /// The purchase is not under dispute.
    NotDisputed,
    /// The named winner is not a party of the purchase.
    InvalidWinner,
    /// The escrow holds nothing to withdraw.
    NoFeesToWithdraw,
    /// An amount, a quantity or a counter would exceed the 64-bit range.
    Overflow,
    /// No trade has the given id.
    TradeNotFound,
    /// No purchase has the given id.
    PurchaseNotFound,
}

} // verus!

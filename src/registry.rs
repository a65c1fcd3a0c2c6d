use vstd::prelude::*;
use crate::accounts::{BuyerAccount, GlobalState, LogisticsProviderAccount, SellerAccount};
use crate::errors::LogisticsError;
use crate::identity::Identity;

verus! {

/// Sets up the market: `admin` administers it for good, and both id counters
/// start at zero.
pub fn initialize(admin: Identity) -> (r: GlobalState)
    ensures
        r == (GlobalState { admin, trade_counter: 0, purchase_counter: 0 }),
{
    GlobalState { admin, trade_counter: 0, purchase_counter: 0 }
}

/// Registers a logistics provider; providers register themselves.
pub fn register_logistics_provider(provider: Identity) -> (r: LogisticsProviderAccount)
    ensures
        r == (LogisticsProviderAccount { provider, is_registered: true }),
{
    LogisticsProviderAccount { provider, is_registered: true }
}

/// The admin `caller` registers `seller`.
pub fn register_seller(global: &GlobalState, caller: Identity, seller: Identity) -> (r: Result<
    SellerAccount,
    LogisticsError,
>)
    ensures
        caller != global.admin ==> r == Err::<SellerAccount, LogisticsError>(
            LogisticsError::NotAuthorized,
        ),
        caller == global.admin ==> r == Ok::<SellerAccount, LogisticsError>(
            SellerAccount { seller, is_registered: true },
        ),
{
    if caller != global.admin {
        return Err(LogisticsError::NotAuthorized);
    }
    Ok(SellerAccount { seller, is_registered: true })
}

/// Registers a buyer with an empty purchase history; buyers register
/// themselves.
pub fn register_buyer(buyer: Identity) -> (r: BuyerAccount)
    ensures
        r.buyer == buyer,
        r.is_registered,
        r.purchase_ids@.len() == 0,
{
    BuyerAccount { buyer, is_registered: true, purchase_ids: Vec::new() }
}

} // verus!

//! Escrow settlement engine for a logistics marketplace: sell offers
//! ("trades"), purchases against them, and the rules that move money on
//! delivery confirmation, disputes and cancellation.
//!
//! Every operation is a pure state transition on the account records. It
//! either fails with a [`LogisticsError`] and leaves every record untouched,
//! or updates the records and tells the caller which token transfers to make.
//! [`Marketplace`] keeps all records in memory and maintains the market-wide
//! invariants, among them conservation of each trade's stock.
pub mod accounts;
pub mod errors;
pub mod fees;
pub mod identity;
pub mod market;
pub mod purchase;
pub mod registry;
pub mod trade;

pub use accounts::{
    BuyerAccount, GlobalState, LogisticsProviderAccount, PurchaseAccount, SellerAccount,
    Settlement, TradeAccount, MAX_LOGISTICS_PROVIDERS, MAX_PURCHASE_IDS,
};
pub use errors::LogisticsError;
pub use fees::{
    escrow_fee, logistics_fee, product_fee, split_payout, PayoutSplit, BASIS_POINTS,
    ESCROW_FEE_PERCENT,
};
pub use identity::Identity;
pub use market::{MarketView, Marketplace};
pub use purchase::{
    buy_trade, cancel_purchase, confirm_delivery_and_purchase, raise_dispute, resolve_dispute,
    withdraw_escrow_fees,
};
pub use registry::{initialize, register_buyer, register_logistics_provider, register_seller};
pub use trade::{create_trade, find_logistics_cost, restock};

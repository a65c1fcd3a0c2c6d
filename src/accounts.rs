use vstd::prelude::*;
use crate::fees::PayoutSplit;
use crate::identity::Identity;

verus! {

/// The most logistics options one trade may offer.
pub const MAX_LOGISTICS_PROVIDERS: usize = 10;

/// The most purchase ids a trade or a buyer profile keeps; later ids are
/// silently not recorded.
pub const MAX_PURCHASE_IDS: usize = 100;

/// The process-wide record: who administers the market, and the two id
/// counters. Ids are the counter's value just after its increment.
#[derive(Clone, Copy, Debug, PartialEq, Eq, Structural)]
pub struct GlobalState {
    pub admin: Identity,
    pub trade_counter: u64,
    pub purchase_counter: u64,
}

/// One seller's standing offer.
#[derive(Clone, Debug)]
pub struct TradeAccount {
    pub trade_id: u64,
    pub seller: Identity,
    /// The logistics options, in order; `logistics_costs[i]` is the cost per
    /// unit of `logistics_providers[i]`.
    pub logistics_providers: Vec<Identity>,
    pub logistics_costs: Vec<u64>,
    /// Cost of one unit of the product.
    pub product_cost: u64,
    /// The fee on one unit's product cost, fixed at creation; informative
    /// only, settlement recomputes its fees.
    pub escrow_fee: u64,
    pub total_quantity: u64,
    pub remaining_quantity: u64,
    pub active: bool,
    /// Ids of the purchases made against the trade, in order, at most
    /// `MAX_PURCHASE_IDS` of them.
    pub purchase_ids: Vec<u64>,
    /// The token the trade is priced and settled in.
    pub token_mint: Identity,
}

/// One buyer's commitment against a trade.
#[derive(Clone, Copy, Debug, PartialEq, Eq, Structural)]
pub struct PurchaseAccount {
    pub purchase_id: u64,
    pub trade_id: u64,
    pub buyer: Identity,
    pub quantity: u64,
    /// What the buyer paid into escrow: product and logistics cost together.
    pub total_amount: u64,
    pub delivered_and_confirmed: bool,
    pub disputed: bool,
    pub chosen_logistics_provider: Identity,
    /// The logistics cost for the whole quantity.
    pub logistics_cost: u64,
    pub settled: bool,
}

/// Registration record of a logistics provider.
#[derive(Clone, Copy, Debug, PartialEq, Eq, Structural)]
pub struct LogisticsProviderAccount {
    pub provider: Identity,
    pub is_registered: bool,
}

/// Registration record of a seller.
#[derive(Clone, Copy, Debug, PartialEq, Eq, Structural)]
pub struct SellerAccount {
    pub seller: Identity,
    pub is_registered: bool,
}

/// A buyer's profile: registration and the ids of their purchases, at most
/// `MAX_PURCHASE_IDS` of them.
#[derive(Clone, Debug)]
pub struct BuyerAccount {
    pub buyer: Identity,
    pub is_registered: bool,
    pub purchase_ids: Vec<u64>,
}

/// The token movements that settling a purchase calls for. Both are paid
/// out of the trade's escrow.
#[derive(Clone, Copy, Debug, PartialEq, Eq, Structural)]
pub enum Settlement {
    /// The buyer gets back everything they paid.
    Refund { buyer: Identity, amount: u64 },
    /// The seller and the logistics provider are paid; the fees stay in escrow.
    Payout { seller: Identity, provider: Identity, split: PayoutSplit },
}

/// `ids` with `id` appended, unless it already holds `MAX_PURCHASE_IDS` ids.
pub open spec fn capped_push(ids: Seq<u64>, id: u64) -> Seq<u64> {
    if ids.len() < MAX_PURCHASE_IDS {
        ids.push(id)
    } else {
        ids
    }
}

/// Appends `id` to `ids` unless the list is full.
pub fn push_capped(ids: &mut Vec<u64>, id: u64)
    ensures
        final(ids)@ == capped_push(old(ids)@, id),
{
    if ids.len() < MAX_PURCHASE_IDS {
        ids.push(id);
    }
}

impl TradeAccount {
    /// The trade's invariant: one cost per option, between one and
    /// `MAX_LOGISTICS_PROVIDERS` options, a bounded id list, and `active`
    /// exactly when stock remains.
    pub open spec fn wf(&self) -> bool {
        &&& self.logistics_providers@.len() == self.logistics_costs@.len()
        &&& 1 <= self.logistics_providers@.len() <= MAX_LOGISTICS_PROVIDERS
        &&& self.purchase_ids@.len() <= MAX_PURCHASE_IDS
        &&& self.active == (self.remaining_quantity > 0)
    }

    /// `self` and `other` are the same offer: they may differ only in stock,
    /// activity and recorded purchase ids.
    pub open spec fn same_offer(&self, other: &TradeAccount) -> bool {
        &&& self.trade_id == other.trade_id
        &&& self.seller == other.seller
        &&& self.logistics_providers@ == other.logistics_providers@
        &&& self.logistics_costs@ == other.logistics_costs@
        &&& self.product_cost == other.product_cost
        &&& self.escrow_fee == other.escrow_fee
        &&& self.total_quantity == other.total_quantity
        &&& self.token_mint == other.token_mint
    }
}

} // verus!

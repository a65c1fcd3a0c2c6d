use vstd::prelude::*;
use crate::accounts::{GlobalState, TradeAccount, MAX_LOGISTICS_PROVIDERS};
use crate::errors::LogisticsError;
use crate::fees::{escrow_fee, fee_on};
use crate::identity::Identity;

verus! {

/// `i` is the position of the first occurrence of `x` in `s`.
pub open spec fn is_first_index(s: Seq<Identity>, x: Identity, i: int) -> bool {
    &&& 0 <= i < s.len()
    &&& s[i] == x
    &&& forall|j: int| 0 <= j < i ==> s[j] != x
}

/// The position of the first occurrence of `x` in `s` (meaningful when `s`
/// contains `x`).
pub open spec fn first_index(s: Seq<Identity>, x: Identity) -> int {
    choose|i: int| is_first_index(s, x, i)
}

/// The first occurrence is unique.
pub proof fn lemma_first_index(s: Seq<Identity>, x: Identity, i: int)
    requires
        is_first_index(s, x, i),
    ensures
        first_index(s, x) == i,
{
    let k = first_index(s, x);
    assert(is_first_index(s, x, k));
    if k < i {
        assert(s[k] != x);
    } else if i < k {
        assert(s[i] != x);
    }
}

impl TradeAccount {
    /// The trade offers shipping by `provider`.
    pub open spec fn offers(&self, provider: Identity) -> bool {
        self.logistics_providers@.contains(provider)
    }

    /// The cost per unit of shipping by `provider`: that of its first option.
    pub open spec fn unit_logistics_cost(&self, provider: Identity) -> u64 {
        self.logistics_costs@[first_index(self.logistics_providers@, provider)]
    }

    /// Tells whether the trade satisfies its invariant.
    pub fn is_well_formed(&self) -> (r: bool)
        ensures
            r == self.wf(),
    {
        self.logistics_providers.len() == self.logistics_costs.len()
            && 1 <= self.logistics_providers.len()
            && self.logistics_providers.len() <= MAX_LOGISTICS_PROVIDERS
            && self.purchase_ids.len() <= crate::accounts::MAX_PURCHASE_IDS
            && self.active == (self.remaining_quantity > 0)
    }
}

/// Looks `provider` up among the trade's logistics options, first match
/// first, and returns its cost per unit.
pub fn find_logistics_cost(trade: &TradeAccount, provider: Identity) -> (r: Option<u64>)
    requires
        trade.logistics_providers@.len() == trade.logistics_costs@.len(),
    ensures
        r is Some <==> trade.offers(provider),
        r matches Some(c) ==> c == trade.unit_logistics_cost(provider),
{
    let n = trade.logistics_providers.len();
    let mut i: usize = 0;
    while i < n
        invariant
            n == trade.logistics_providers@.len(),
            n == trade.logistics_costs@.len(),
            i <= n,
            forall|j: int| 0 <= j < i ==> trade.logistics_providers@[j] != provider,
        decreases n - i,
    {
        if trade.logistics_providers[i] == provider {
            proof {
                assert(is_first_index(trade.logistics_providers@, provider, i as int));
                lemma_first_index(trade.logistics_providers@, provider, i as int);
            }
            return Some(trade.logistics_costs[i]);
        }
        i = i + 1;
    }
    proof {
        if trade.offers(provider) {
            let k = choose|k: int|
                0 <= k < trade.logistics_providers@.len() && trade.logistics_providers@[k]
                    == provider;
            assert(trade.logistics_providers@[k] != provider);
        }
    }
    None
}

/// Why `create_trade` rejects its input, if it does: the first failing check
/// in the order below.
pub open spec fn create_trade_error(
    global: GlobalState,
    caller: Identity,
    n_providers: int,
    n_costs: int,
    total_quantity: u64,
) -> Option<LogisticsError> {
    if caller != global.admin {
        Some(LogisticsError::NotAuthorized)
    } else if n_providers != n_costs {
        Some(LogisticsError::MismatchedArrays)
    } else if n_providers == 0 {
        Some(LogisticsError::NoLogisticsProviders)
    } else if n_providers > MAX_LOGISTICS_PROVIDERS {
        Some(LogisticsError::TooManyProviders)
    } else if total_quantity == 0 {
        Some(LogisticsError::InvalidQuantity)
    } else if global.trade_counter == u64::MAX {
        Some(LogisticsError::Overflow)
    } else {
        None
    }
}

/// `t` is a freshly opened trade with the given id and terms: all its stock
/// is available and no purchase is recorded.
pub open spec fn is_new_trade(
    t: TradeAccount,
    trade_id: u64,
    seller: Identity,
    token_mint: Identity,
    product_cost: u64,
    logistics_providers: Seq<Identity>,
    logistics_costs: Seq<u64>,
    total_quantity: u64,
) -> bool {
    &&& t.trade_id == trade_id
    &&& t.seller == seller
    &&& t.logistics_providers@ == logistics_providers
    &&& t.logistics_costs@ == logistics_costs
    &&& t.product_cost == product_cost
    &&& t.escrow_fee == fee_on(product_cost as int)
    &&& t.total_quantity == total_quantity
    &&& t.remaining_quantity == total_quantity
    &&& t.active
    &&& t.purchase_ids@.len() == 0
    &&& t.token_mint == token_mint
    &&& t.wf()
}

/// Opens a new trade on behalf of the admin `caller`: allocates the next
/// trade id and returns the trade with all its stock available and no
/// purchases. No funds move.
pub fn create_trade(
    global: &mut GlobalState,
    caller: Identity,
    seller: Identity,
    token_mint: Identity,
    product_cost: u64,
    logistics_providers: Vec<Identity>,
    logistics_costs: Vec<u64>,
    total_quantity: u64,
) -> (r: Result<TradeAccount, LogisticsError>)
    ensures
        match r {
            Ok(t) => {
                &&& create_trade_error(
                    *old(global),
                    caller,
                    logistics_providers@.len() as int,
                    logistics_costs@.len() as int,
                    total_quantity,
                ) is None
                &&& final(global).admin == old(global).admin
                &&& final(global).trade_counter == old(global).trade_counter + 1
                &&& final(global).purchase_counter == old(global).purchase_counter
                &&& is_new_trade(
                    t,
                    final(global).trade_counter,
                    seller,
                    token_mint,
                    product_cost,
                    logistics_providers@,
                    logistics_costs@,
                    total_quantity,
                )
            },
            Err(e) => {
                &&& create_trade_error(
                    *old(global),
                    caller,
                    logistics_providers@.len() as int,
                    logistics_costs@.len() as int,
                    total_quantity,
                ) == Some(e)
                &&& *final(global) == *old(global)
            },
        },
{
    if caller != global.admin {
        return Err(LogisticsError::NotAuthorized);
    }
    if logistics_providers.len() != logistics_costs.len() {
        return Err(LogisticsError::MismatchedArrays);
    }
    if logistics_providers.len() == 0 {
        return Err(LogisticsError::NoLogisticsProviders);
    }
    if logistics_providers.len() > MAX_LOGISTICS_PROVIDERS {
        return Err(LogisticsError::TooManyProviders);
    }
    if total_quantity == 0 {
        return Err(LogisticsError::InvalidQuantity);
    }
    if global.trade_counter == u64::MAX {
        return Err(LogisticsError::Overflow);
    }
    global.trade_counter = global.trade_counter + 1;
    Ok(
        TradeAccount {
            trade_id: global.trade_counter,
            seller,
            logistics_providers,
            logistics_costs,
            product_cost,
            escrow_fee: escrow_fee(product_cost),
            total_quantity,
            remaining_quantity: total_quantity,
            active: true,
            purchase_ids: Vec::new(),
            token_mint,
        },
    )
}

/// Puts `quantity` units back into the trade's stock, reactivating a sold-out
/// trade. Returns `false`, with the trade unchanged, when the stock would
/// exceed the 64-bit range.
pub fn restock(trade: &mut TradeAccount, quantity: u64) -> (ok: bool)
    ensures
        ok <==> old(trade).remaining_quantity + quantity <= u64::MAX,
        !ok ==> *final(trade) == *old(trade),
        ok ==> {
            &&& final(trade).same_offer(old(trade))
            &&& final(trade).purchase_ids@ == old(trade).purchase_ids@
            &&& final(trade).remaining_quantity == old(trade).remaining_quantity + quantity
            &&& final(trade).active == (old(trade).active || final(trade).remaining_quantity > 0)
        },
        old(trade).wf() ==> final(trade).wf(),
{
    match trade.remaining_quantity.checked_add(quantity) {
        None => false,
        Some(remaining) => {
            trade.remaining_quantity = remaining;
            if !trade.active && trade.remaining_quantity > 0 {
                trade.active = true;
            }
            true
        },
    }
}

} // verus!

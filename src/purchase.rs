use vstd::prelude::*;
use crate::accounts::{
    capped_push, push_capped, BuyerAccount, GlobalState, PurchaseAccount, Settlement,
    TradeAccount,
};
use crate::errors::LogisticsError;
use crate::fees::split_payout;
use crate::identity::Identity;
use crate::trade::{find_logistics_cost, restock};

verus! {

/// Why `buy_trade` rejects a purchase, if it does: the first failing check in
/// the order below.
pub open spec fn buy_error(
    global: GlobalState,
    trade: TradeAccount,
    buyer: Identity,
    quantity: u64,
    provider: Identity,
) -> Option<LogisticsError> {
    if quantity == 0 {
        Some(LogisticsError::InvalidQuantity)
    } else if !trade.active {
        Some(LogisticsError::TradeInactive)
    } else if trade.remaining_quantity < quantity {
        Some(LogisticsError::InsufficientQuantity)
    } else if buyer == trade.seller {
        Some(LogisticsError::BuyerIsSeller)
    } else if !trade.offers(provider) {
        Some(LogisticsError::InvalidLogisticsProvider)
    } else if (trade.product_cost + trade.unit_logistics_cost(provider)) * quantity > u64::MAX {
        Some(LogisticsError::Overflow)
    } else if global.purchase_counter == u64::MAX {
        Some(LogisticsError::Overflow)
    } else {
        None
    }
}

/// `new` is `old` with `quantity` units put back into stock, reactivated if
/// it had sold out.
pub open spec fn is_restocked(new: TradeAccount, old: TradeAccount, quantity: u64) -> bool {
    &&& new.same_offer(&old)
    &&& new.purchase_ids@ == old.purchase_ids@
    &&& new.remaining_quantity == old.remaining_quantity + quantity
    &&& new.active == (old.active || new.remaining_quantity > 0)
}

/// `p` with its settlement recorded: settling marks a purchase both
/// confirmed and settled, whatever the outcome.
pub open spec fn closed(p: PurchaseAccount) -> PurchaseAccount {
    PurchaseAccount { delivered_and_confirmed: true, settled: true, ..p }
}

/// `s` pays the seller of `trade` and the chosen provider of `purchase`
/// their shares of its payment.
pub open spec fn is_payout_for(s: Settlement, purchase: PurchaseAccount, trade: TradeAccount) -> bool {
    match s {
        Settlement::Payout { seller, provider, split } => {
            &&& seller == trade.seller
            &&& provider == purchase.chosen_logistics_provider
            &&& split.is_split_of(trade.product_cost, purchase.quantity, purchase.logistics_cost)
        },
        Settlement::Refund { .. } => false,
    }
}

/// `s` gives the buyer of `purchase` back everything they paid.
pub open spec fn is_refund_for(s: Settlement, purchase: PurchaseAccount) -> bool {
    s == Settlement::Refund { buyer: purchase.buyer, amount: purchase.total_amount }
}

/// `p` is a new, open purchase of `quantity` units of `trade` by `buyer`,
/// shipped by `provider`: the logistics cost is the provider's unit cost
/// times the quantity, and the buyer pays it together with the product cost.
pub open spec fn is_new_purchase(
    p: PurchaseAccount,
    purchase_id: u64,
    trade: TradeAccount,
    buyer: Identity,
    quantity: u64,
    provider: Identity,
) -> bool {
    &&& p.purchase_id == purchase_id
    &&& p.trade_id == trade.trade_id
    &&& p.buyer == buyer
    &&& p.quantity == quantity
    &&& p.chosen_logistics_provider == provider
    &&& p.logistics_cost == trade.unit_logistics_cost(provider) * quantity
    &&& p.total_amount == trade.product_cost * quantity + p.logistics_cost
    &&& !p.delivered_and_confirmed
    &&& !p.disputed
    &&& !p.settled
}

/// `new` is `old` after selling `quantity` units to the purchase
/// `purchase_id`: less stock, deactivated if sold out, and the id recorded
/// unless the list is full.
pub open spec fn is_sold_from(
    new: TradeAccount,
    old: TradeAccount,
    quantity: u64,
    purchase_id: u64,
) -> bool {
    &&& new.same_offer(&old)
    &&& new.remaining_quantity == old.remaining_quantity - quantity
    &&& new.active == (new.remaining_quantity > 0)
    &&& new.purchase_ids@ == capped_push(old.purchase_ids@, purchase_id)
}

/// Buys `quantity` units of `trade` for `buyer`, shipped by `logistics_provider`.
/// On success the trade's stock goes down by `quantity`, the new purchase id
/// is recorded on the trade and on the buyer's profile (registering the buyer
/// if needed, and dropping the id where a list is full), and the purchase is
/// returned: its `total_amount` is what the buyer must pay into escrow.
pub fn buy_trade(
    global: &mut GlobalState,
    trade: &mut TradeAccount,
    buyer_account: &mut BuyerAccount,
    buyer: Identity,
    quantity: u64,
    logistics_provider: Identity,
) -> (r: Result<PurchaseAccount, LogisticsError>)
    requires
        old(trade).wf(),
    ensures
        match r {
            Ok(p) => {
                &&& buy_error(*old(global), *old(trade), buyer, quantity, logistics_provider) is None
                &&& final(global).admin == old(global).admin
                &&& final(global).trade_counter == old(global).trade_counter
                &&& final(global).purchase_counter == old(global).purchase_counter + 1
                &&& is_new_purchase(
                    p,
                    final(global).purchase_counter,
                    *old(trade),
                    buyer,
                    quantity,
                    logistics_provider,
                )
                &&& is_sold_from(*final(trade), *old(trade), quantity, p.purchase_id)
                &&& final(buyer_account).is_registered
                &&& final(buyer_account).buyer == if old(buyer_account).is_registered {
                    old(buyer_account).buyer
                } else {
                    buyer
                }
                &&& final(buyer_account).purchase_ids@ == capped_push(
                    if old(buyer_account).is_registered {
                        old(buyer_account).purchase_ids@
                    } else {
                        Seq::empty()
                    },
                    p.purchase_id,
                )
            },
            Err(e) => {
                &&& buy_error(*old(global), *old(trade), buyer, quantity, logistics_provider)
                    == Some(e)
                &&& *final(global) == *old(global)
                &&& *final(trade) == *old(trade)
                &&& *final(buyer_account) == *old(buyer_account)
            },
        },
        final(trade).wf(),
{
    if quantity == 0 {
        return Err(LogisticsError::InvalidQuantity);
    }
    if !trade.active {
        return Err(LogisticsError::TradeInactive);
    }
    if trade.remaining_quantity < quantity {
        return Err(LogisticsError::InsufficientQuantity);
    }
    if buyer == trade.seller {
        return Err(LogisticsError::BuyerIsSeller);
    }
    let unit_logistics_cost = match find_logistics_cost(trade, logistics_provider) {
        None => {
            return Err(LogisticsError::InvalidLogisticsProvider);
        },
        Some(c) => c,
    };
    let pc = trade.product_cost;
    proof {
        let lc = unit_logistics_cost;
        assert((pc + lc) * quantity == pc * quantity + lc * quantity) by (nonlinear_arith);
        assert(pc * quantity >= 0 && lc * quantity >= 0) by (nonlinear_arith);
    }
    let total_product_cost = match pc.checked_mul(quantity) {
        None => {
            return Err(LogisticsError::Overflow);
        },
        Some(v) => v,
    };
    let total_logistics_cost = match unit_logistics_cost.checked_mul(quantity) {
        None => {
            return Err(LogisticsError::Overflow);
        },
        Some(v) => v,
    };
    let total_amount = match total_product_cost.checked_add(total_logistics_cost) {
        None => {
            return Err(LogisticsError::Overflow);
        },
        Some(v) => v,
    };
    if global.purchase_counter == u64::MAX {
        return Err(LogisticsError::Overflow);
    }
    global.purchase_counter = global.purchase_counter + 1;
    let purchase_id = global.purchase_counter;
    let purchase = PurchaseAccount {
        purchase_id,
        trade_id: trade.trade_id,
        buyer,
        quantity,
        total_amount,
        delivered_and_confirmed: false,
        disputed: false,
        chosen_logistics_provider: logistics_provider,
        logistics_cost: total_logistics_cost,
        settled: false,
    };
    trade.remaining_quantity = trade.remaining_quantity - quantity;
    push_capped(&mut trade.purchase_ids, purchase_id);
    if trade.remaining_quantity == 0 {
        trade.active = false;
    }
    if !buyer_account.is_registered {
        buyer_account.buyer = buyer;
        buyer_account.is_registered = true;
        buyer_account.purchase_ids = Vec::new();
    }
    push_capped(&mut buyer_account.purchase_ids, purchase_id);
    Ok(purchase)
}

/// The seller-side settlement of `purchase`: the seller and the provider are
/// paid, the fees stay in escrow. `None` when the gross product cost does not
/// fit in 64 bits.
fn pay_out(purchase: &PurchaseAccount, trade: &TradeAccount) -> (r: Option<Settlement>)
    ensures
        r is Some <==> trade.product_cost * purchase.quantity <= u64::MAX,
        r matches Some(s) ==> is_payout_for(s, *purchase, *trade),
{
    match split_payout(trade.product_cost, purchase.quantity, purchase.logistics_cost) {
        None => None,
        Some(split) => Some(
            Settlement::Payout {
                seller: trade.seller,
                provider: purchase.chosen_logistics_provider,
                split,
            },
        ),
    }
}

/// Why `confirm_delivery_and_purchase` rejects a call, if it does: the first
/// failing check in the order below.
pub open spec fn confirm_error(
    purchase: PurchaseAccount,
    trade: TradeAccount,
    caller: Identity,
) -> Option<LogisticsError> {
    if caller != purchase.buyer {
        Some(LogisticsError::NotAuthorized)
    } else if purchase.delivered_and_confirmed {
        Some(LogisticsError::AlreadyConfirmed)
    } else if purchase.disputed {
        Some(LogisticsError::Disputed)
    } else if purchase.settled {
        Some(LogisticsError::AlreadySettled)
    } else if trade.product_cost * purchase.quantity > u64::MAX {
        Some(LogisticsError::Overflow)
    } else {
        None
    }
}

/// The buyer confirms delivery: the purchase is settled and the seller and
/// logistics provider are paid, less the fees, which stay in escrow.
/// `trade` is the trade the purchase was made against.
pub fn confirm_delivery_and_purchase(
    purchase: &mut PurchaseAccount,
    trade: &TradeAccount,
    caller: Identity,
) -> (r: Result<Settlement, LogisticsError>)
    ensures
        match r {
            Ok(s) => {
                &&& confirm_error(*old(purchase), *trade, caller) is None
                &&& *final(purchase) == closed(*old(purchase))
                &&& is_payout_for(s, *old(purchase), *trade)
            },
            Err(e) => {
                &&& confirm_error(*old(purchase), *trade, caller) == Some(e)
                &&& *final(purchase) == *old(purchase)
            },
        },
{
    if caller != purchase.buyer {
        return Err(LogisticsError::NotAuthorized);
    }
    if purchase.delivered_and_confirmed {
        return Err(LogisticsError::AlreadyConfirmed);
    }
    if purchase.disputed {
        return Err(LogisticsError::Disputed);
    }
    if purchase.settled {
        return Err(LogisticsError::AlreadySettled);
    }
    let settlement = match pay_out(purchase, trade) {
        None => {
            return Err(LogisticsError::Overflow);
        },
        Some(s) => s,
    };
    purchase.delivered_and_confirmed = true;
    purchase.settled = true;
    Ok(settlement)
}

/// Why `raise_dispute` rejects a call, if it does.
pub open spec fn dispute_error(purchase: PurchaseAccount) -> Option<LogisticsError> {
    if purchase.delivered_and_confirmed {
        Some(LogisticsError::AlreadyConfirmed)
    } else if purchase.disputed {
        Some(LogisticsError::AlreadyDisputed)
    } else {
        None
    }
}

/// Flags the purchase as disputed, which suspends confirmation and
/// cancellation until the admin resolves it. Anyone may raise a dispute.
pub fn raise_dispute(purchase: &mut PurchaseAccount) -> (r: Result<(), LogisticsError>)
    ensures
        match r {
            Ok(_) => {
                &&& dispute_error(*old(purchase)) is None
                &&& *final(purchase) == (PurchaseAccount { disputed: true, ..*old(purchase) })
            },
            Err(e) => {
                &&& dispute_error(*old(purchase)) == Some(e)
                &&& *final(purchase) == *old(purchase)
            },
        },
{
    if purchase.delivered_and_confirmed {
        return Err(LogisticsError::AlreadyConfirmed);
    }
    if purchase.disputed {
        return Err(LogisticsError::AlreadyDisputed);
    }
    purchase.disputed = true;
    Ok(())
}

/// Why `resolve_dispute` rejects a call, if it does: the first failing check
/// in the order below.
pub open spec fn resolve_error(
    global: GlobalState,
    caller: Identity,
    purchase: PurchaseAccount,
    trade: TradeAccount,
    winner: Identity,
) -> Option<LogisticsError> {
    if caller != global.admin {
        Some(LogisticsError::NotAuthorized)
    } else if !purchase.disputed {
        Some(LogisticsError::NotDisputed)
    } else if purchase.settled {
        Some(LogisticsError::AlreadySettled)
    } else if winner != purchase.buyer && winner != trade.seller && winner
        != purchase.chosen_logistics_provider {
        Some(LogisticsError::InvalidWinner)
    } else if winner == purchase.buyer && trade.remaining_quantity + purchase.quantity
        > u64::MAX {
        Some(LogisticsError::Overflow)
    } else if winner != purchase.buyer && trade.product_cost * purchase.quantity > u64::MAX {
        Some(LogisticsError::Overflow)
    } else {
        None
    }
}

/// The admin `caller` settles a disputed purchase in favour of `winner`. If
/// the buyer wins they are refunded in full and the units go back into the
/// trade's stock; if the seller or the logistics provider wins, both are paid
/// as on a confirmed delivery and the stock is unchanged.
pub fn resolve_dispute(
    global: &GlobalState,
    caller: Identity,
    purchase: &mut PurchaseAccount,
    trade: &mut TradeAccount,
    winner: Identity,
) -> (r: Result<Settlement, LogisticsError>)
    ensures
        match r {
            Ok(s) => {
                &&& resolve_error(*global, caller, *old(purchase), *old(trade), winner) is None
                &&& *final(purchase) == closed(*old(purchase))
                &&& if winner == old(purchase).buyer {
                    &&& is_refund_for(s, *old(purchase))
                    &&& is_restocked(*final(trade), *old(trade), old(purchase).quantity)
                } else {
                    &&& is_payout_for(s, *old(purchase), *old(trade))
                    &&& *final(trade) == *old(trade)
                }
            },
            Err(e) => {
                &&& resolve_error(*global, caller, *old(purchase), *old(trade), winner) == Some(e)
                &&& *final(purchase) == *old(purchase)
                &&& *final(trade) == *old(trade)
            },
        },
        old(trade).wf() ==> final(trade).wf(),
{
    if caller != global.admin {
        return Err(LogisticsError::NotAuthorized);
    }
    if !purchase.disputed {
        return Err(LogisticsError::NotDisputed);
    }
    if purchase.settled {
        return Err(LogisticsError::AlreadySettled);
    }
    if winner != purchase.buyer && winner != trade.seller && winner
        != purchase.chosen_logistics_provider {
        return Err(LogisticsError::InvalidWinner);
    }
    if winner == purchase.buyer {
        if !restock(trade, purchase.quantity) {
            return Err(LogisticsError::Overflow);
        }
        purchase.delivered_and_confirmed = true;
        purchase.settled = true;
        Ok(Settlement::Refund { buyer: purchase.buyer, amount: purchase.total_amount })
    } else {
        let settlement = match pay_out(purchase, trade) {
            None => {
                return Err(LogisticsError::Overflow);
            },
            Some(s) => s,
        };
        purchase.delivered_and_confirmed = true;
        purchase.settled = true;
        Ok(settlement)
    }
}

/// Why `cancel_purchase` rejects a call, if it does: the first failing check
/// in the order below.
pub open spec fn cancel_error(
    purchase: PurchaseAccount,
    trade: TradeAccount,
    caller: Identity,
) -> Option<LogisticsError> {
    if caller != purchase.buyer {
        Some(LogisticsError::NotAuthorized)
    } else if purchase.delivered_and_confirmed {
        Some(LogisticsError::AlreadyConfirmed)
    } else if purchase.disputed {
        Some(LogisticsError::Disputed)
    } else if purchase.settled {
        Some(LogisticsError::AlreadySettled)
    } else if trade.remaining_quantity + purchase.quantity > u64::MAX {
        Some(LogisticsError::Overflow)
    } else {
        None
    }
}

/// The buyer cancels an open purchase: it is settled, the buyer is refunded
/// in full and the units go back into the trade's stock.
pub fn cancel_purchase(
    purchase: &mut PurchaseAccount,
    trade: &mut TradeAccount,
    caller: Identity,
) -> (r: Result<Settlement, LogisticsError>)
    ensures
        match r {
            Ok(s) => {
                &&& cancel_error(*old(purchase), *old(trade), caller) is None
                &&& *final(purchase) == closed(*old(purchase))
                &&& is_refund_for(s, *old(purchase))
                &&& is_restocked(*final(trade), *old(trade), old(purchase).quantity)
            },
            Err(e) => {
                &&& cancel_error(*old(purchase), *old(trade), caller) == Some(e)
                &&& *final(purchase) == *old(purchase)
                &&& *final(trade) == *old(trade)
            },
        },
        old(trade).wf() ==> final(trade).wf(),
{
    if caller != purchase.buyer {
        return Err(LogisticsError::NotAuthorized);
    }
    if purchase.delivered_and_confirmed {
        return Err(LogisticsError::AlreadyConfirmed);
    }
    if purchase.disputed {
        return Err(LogisticsError::Disputed);
    }
    if purchase.settled {
        return Err(LogisticsError::AlreadySettled);
    }
    if !restock(trade, purchase.quantity) {
        return Err(LogisticsError::Overflow);
    }
    purchase.delivered_and_confirmed = true;
    purchase.settled = true;
    Ok(Settlement::Refund { buyer: purchase.buyer, amount: purchase.total_amount })
}

/// The admin `caller` withdraws the fees pooled in an escrow holding
/// `escrow_balance`: the whole balance, never part of it.
pub fn withdraw_escrow_fees(global: &GlobalState, caller: Identity, escrow_balance: u64) -> (r: Result<
    u64,
    LogisticsError,
>)
    ensures
        caller != global.admin ==> r == Err::<u64, LogisticsError>(LogisticsError::NotAuthorized),
        caller == global.admin && escrow_balance == 0 ==> r == Err::<u64, LogisticsError>(
            LogisticsError::NoFeesToWithdraw,
        ),
        caller == global.admin && escrow_balance > 0 ==> r == Ok::<u64, LogisticsError>(
            escrow_balance,
        ),
{
    if caller != global.admin {
        return Err(LogisticsError::NotAuthorized);
    }
    if escrow_balance == 0 {
        return Err(LogisticsError::NoFeesToWithdraw);
    }
    Ok(escrow_balance)
}

/// Settlement happens at most once: once a purchase is settled, confirming,
/// cancelling and resolving it all fail, whoever calls and whoever is named
/// winner. Its buyer is told it was already confirmed, the admin that it is
/// settled (or was never disputed), and no dispute can be raised on it.
pub proof fn lemma_settlement_is_final(
    global: GlobalState,
    purchase: PurchaseAccount,
    trade: TradeAccount,
    caller: Identity,
    winner: Identity,
)
    requires
        purchase.settled,
        purchase.delivered_and_confirmed,
    ensures
        confirm_error(purchase, trade, caller) is Some,
        cancel_error(purchase, trade, caller) is Some,
        resolve_error(global, caller, purchase, trade, winner) is Some,
        dispute_error(purchase) == Some(LogisticsError::AlreadyConfirmed),
        caller == purchase.buyer ==> confirm_error(purchase, trade, caller) == Some(
            LogisticsError::AlreadyConfirmed,
        ) && cancel_error(purchase, trade, caller) == Some(LogisticsError::AlreadyConfirmed),
        caller == global.admin ==> resolve_error(global, caller, purchase, trade, winner) == Some(
            if purchase.disputed {
                LogisticsError::AlreadySettled
            } else {
                LogisticsError::NotDisputed
            },
        ),
{
}

/// Exactly-once settlement: every successful `confirm_delivery_and_purchase`,
/// `resolve_dispute` or `cancel_purchase` leaves the purchase as
/// `closed(purchase)`, and from there every further attempt at any of the
/// three fails, whatever became of the trade in between.
pub proof fn lemma_settlement_exactly_once(
    global: GlobalState,
    purchase: PurchaseAccount,
    trade: TradeAccount,
    caller: Identity,
    winner: Identity,
)
    ensures
        confirm_error(closed(purchase), trade, caller) is Some,
        cancel_error(closed(purchase), trade, caller) is Some,
        resolve_error(global, caller, closed(purchase), trade, winner) is Some,
{
    lemma_settlement_is_final(global, closed(purchase), trade, caller, winner);
}

} // verus!

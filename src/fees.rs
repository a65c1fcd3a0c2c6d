use vstd::prelude::*;

verus! {

/// The escrow fee rate, in basis points (2.5%).
pub const ESCROW_FEE_PERCENT: u64 = 250;

/// The number of basis points in a whole (100%).
pub const BASIS_POINTS: u64 = 10000;

/// The escrow fee retained on a gross amount, rounded down.
pub open spec fn fee_on(amount: int) -> int {
    amount * (ESCROW_FEE_PERCENT as int) / (BASIS_POINTS as int)
}

/// The fee never exceeds the amount it is taken from, and is never negative.
pub proof fn lemma_fee_bounds(amount: int)
    requires
        amount >= 0,
    ensures
        0 <= fee_on(amount) <= amount,
{
    assert(0 <= amount * 250 / 10000 <= amount) by (nonlinear_arith)
        requires
            amount >= 0,
    ;
}

/// How a settled purchase's payment is divided between the seller, the
/// logistics provider and the escrow.
#[derive(Clone, Copy, Debug, PartialEq, Eq, Structural)]
pub struct PayoutSplit {
    /// Paid to the seller: the gross product cost less its fee.
    pub seller_amount: u64,
    /// Retained in escrow from the product cost.
    pub product_fee: u64,
    /// Paid to the logistics provider: the logistics cost less its fee.
    pub logistics_amount: u64,
    /// Retained in escrow from the logistics cost.
    pub logistics_fee: u64,
}

impl PayoutSplit {
    /// `self` is the split of `quantity` units at `unit_cost` each, shipped
    /// for `logistics_total` in all; the two legs are floored independently.
    pub open spec fn is_split_of(self, unit_cost: u64, quantity: u64, logistics_total: u64) -> bool {
        &&& self.product_fee == fee_on(unit_cost * quantity)
        &&& self.seller_amount == unit_cost * quantity - fee_on(unit_cost * quantity)
        &&& self.logistics_fee == fee_on(logistics_total as int)
        &&& self.logistics_amount == logistics_total - fee_on(logistics_total as int)
    }

    /// Everything the split hands out or retains.
    pub open spec fn total(self) -> int {
        self.seller_amount + self.logistics_amount + self.product_fee + self.logistics_fee
    }
}

/// The escrow fee on `amount`: `amount * 250 / 10000`, rounded down, computed
/// without overflow.
pub fn escrow_fee(amount: u64) -> (fee: u64)
    ensures
        fee == fee_on(amount as int),
        fee <= amount,
{
    proof {
        lemma_fee_bounds(amount as int);
        assert(amount * 250 <= u128::MAX) by (nonlinear_arith)
            requires
                amount <= u64::MAX,
        ;
    }
    let wide: u128 = (amount as u128) * (ESCROW_FEE_PERCENT as u128);
    (wide / (BASIS_POINTS as u128)) as u64
}

/// The fee on the product leg of a purchase: `unit_cost * quantity * 2.5%`,
/// rounded down. `None` when the gross product cost `unit_cost * quantity`
/// does not fit in 64 bits.
pub fn product_fee(unit_cost: u64, quantity: u64) -> (r: Option<u64>)
    ensures
        r is Some <==> unit_cost * quantity <= u64::MAX,
        r matches Some(f) ==> f == fee_on(unit_cost * quantity),
{
    match unit_cost.checked_mul(quantity) {
        None => None,
        Some(gross) => Some(escrow_fee(gross)),
    }
}

/// The fee on the logistics leg of a purchase, rounded down.
pub fn logistics_fee(total_logistics_cost: u64) -> (fee: u64)
    ensures
        fee == fee_on(total_logistics_cost as int),
        fee <= total_logistics_cost,
{
    escrow_fee(total_logistics_cost)
}

/// Splits the payment for `quantity` units at `unit_cost`, shipped for
/// `logistics_total`, between seller, provider and escrow. `None` when the
/// gross product cost does not fit in 64 bits.
pub fn split_payout(unit_cost: u64, quantity: u64, logistics_total: u64) -> (r: Option<PayoutSplit>)
    ensures
        r is Some <==> unit_cost * quantity <= u64::MAX,
        r matches Some(s) ==> s.is_split_of(unit_cost, quantity, logistics_total),
{
    match unit_cost.checked_mul(quantity) {
        None => None,
        Some(gross) => {
            let pf = escrow_fee(gross);
            let lf = logistics_fee(logistics_total);
            Some(
                PayoutSplit {
                    seller_amount: gross - pf,
                    product_fee: pf,
                    logistics_amount: logistics_total - lf,
                    logistics_fee: lf,
                },
            )
        },
    }
}

/// Fee conservation: the seller's payout, the provider's payout and the two
/// retained fees add up to exactly the gross product cost plus the logistics
/// cost, that is, to what the buyer paid.
pub proof fn lemma_fee_conservation(s: PayoutSplit, unit_cost: u64, quantity: u64, logistics_total: u64)
    requires
        s.is_split_of(unit_cost, quantity, logistics_total),
    ensures
        s.total() == unit_cost * quantity + logistics_total,
{
}

} // verus!

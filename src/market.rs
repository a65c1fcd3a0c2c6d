use vstd::prelude::*;
use crate::accounts::{
    capped_push, BuyerAccount, GlobalState, PurchaseAccount, Settlement, TradeAccount,
};
use crate::errors::LogisticsError;
use crate::identity::Identity;
use crate::purchase::{
    buy_error, cancel_error, closed, confirm_error, dispute_error, is_new_purchase, is_payout_for,
    is_refund_for, is_restocked, is_sold_from, resolve_error,
};
use crate::registry::initialize;
use crate::trade::{create_trade_error, is_new_trade};

verus! {

/// The quantity that purchase `p` holds out of the stock of trade
/// `trade_id`: its quantity while it counts against that trade and has not
/// been refunded, else nothing.
pub open spec fn held_against(p: PurchaseAccount, refunded: bool, trade_id: u64) -> int {
    if p.trade_id == trade_id && !refunded {
        p.quantity as int
    } else {
        0
    }
}

/// The total quantity that the purchases hold out of trade `trade_id`'s
/// stock; `refunded[j]` tells whether `purchases[j]` was refunded.
pub open spec fn outstanding(purchases: Seq<PurchaseAccount>, refunded: Seq<bool>, trade_id: u64) -> int
    decreases purchases.len(),
{
    if purchases.len() == 0 {
        0
    } else {
        outstanding(purchases.drop_last(), refunded, trade_id) + held_against(
            purchases.last(),
            refunded[purchases.len() - 1],
            trade_id,
        )
    }
}

proof fn lemma_outstanding_nonneg(ps: Seq<PurchaseAccount>, rs: Seq<bool>, id: u64)
    ensures
        outstanding(ps, rs, id) >= 0,
    decreases ps.len(),
{
    if ps.len() > 0 {
        lemma_outstanding_nonneg(ps.drop_last(), rs, id);
    }
}

proof fn lemma_outstanding_absent(ps: Seq<PurchaseAccount>, rs: Seq<bool>, id: u64)
    requires
        forall|j: int| 0 <= j < ps.len() ==> #[trigger] ps[j].trade_id != id,
    ensures
        outstanding(ps, rs, id) == 0,
    decreases ps.len(),
{
    if ps.len() > 0 {
        assert(ps[ps.len() - 1].trade_id != id);
        assert forall|j: int| 0 <= j < ps.len() - 1 implies #[trigger] ps.drop_last()[j].trade_id != id by {
            assert(ps[j].trade_id != id);
        }
        lemma_outstanding_absent(ps.drop_last(), rs, id);
    }
}

proof fn lemma_outstanding_frame(
    ps1: Seq<PurchaseAccount>,
    rs1: Seq<bool>,
    ps2: Seq<PurchaseAccount>,
    rs2: Seq<bool>,
    id: u64,
)
    requires
        ps1.len() == ps2.len(),
        forall|j: int|
            0 <= j < ps1.len() ==> #[trigger] held_against(ps1[j], rs1[j], id) == held_against(
                ps2[j],
                rs2[j],
                id,
            ),
    ensures
        outstanding(ps1, rs1, id) == outstanding(ps2, rs2, id),
    decreases ps1.len(),
{
    if ps1.len() > 0 {
        let n = ps1.len() - 1;
        assert(held_against(ps1[n], rs1[n], id) == held_against(ps2[n], rs2[n], id));
        assert forall|j: int| 0 <= j < n implies #[trigger] held_against(
            ps1.drop_last()[j],
            rs1[j],
            id,
        ) == held_against(ps2.drop_last()[j], rs2[j], id) by {
            assert(held_against(ps1[j], rs1[j], id) == held_against(ps2[j], rs2[j], id));
        }
        lemma_outstanding_frame(ps1.drop_last(), rs1, ps2.drop_last(), rs2, id);
    }
}

proof fn lemma_outstanding_update(
    ps1: Seq<PurchaseAccount>,
    rs1: Seq<bool>,
    ps2: Seq<PurchaseAccount>,
    rs2: Seq<bool>,
    id: u64,
    k: int,
)
    requires
        ps1.len() == ps2.len(),
        0 <= k < ps1.len(),
        forall|j: int|
            0 <= j < ps1.len() && j != k ==> #[trigger] held_against(ps1[j], rs1[j], id)
                == held_against(ps2[j], rs2[j], id),
    ensures
        outstanding(ps2, rs2, id) - outstanding(ps1, rs1, id) == held_against(ps2[k], rs2[k], id)
            - held_against(ps1[k], rs1[k], id),
    decreases ps1.len(),
{
    let n = ps1.len() - 1;
    if k == n {
        assert forall|j: int| 0 <= j < n implies #[trigger] held_against(
            ps1.drop_last()[j],
            rs1[j],
            id,
        ) == held_against(ps2.drop_last()[j], rs2[j], id) by {
            assert(held_against(ps1[j], rs1[j], id) == held_against(ps2[j], rs2[j], id));
        }
        lemma_outstanding_frame(ps1.drop_last(), rs1, ps2.drop_last(), rs2, id);
    } else {
        assert(held_against(ps1[n], rs1[n], id) == held_against(ps2[n], rs2[n], id));
        assert forall|j: int| 0 <= j < n && j != k implies #[trigger] held_against(
            ps1.drop_last()[j],
            rs1[j],
            id,
        ) == held_against(ps2.drop_last()[j], rs2[j], id) by {
            assert(held_against(ps1[j], rs1[j], id) == held_against(ps2[j], rs2[j], id));
        }
        lemma_outstanding_update(ps1.drop_last(), rs1, ps2.drop_last(), rs2, id, k);
    }
}

proof fn lemma_outstanding_push(
    ps: Seq<PurchaseAccount>,
    rs: Seq<bool>,
    p: PurchaseAccount,
    b: bool,
    id: u64,
)
    requires
        rs.len() == ps.len(),
    ensures
        outstanding(ps.push(p), rs.push(b), id) == outstanding(ps, rs, id) + held_against(p, b, id),
{
    assert(ps.push(p).drop_last() =~= ps);
    assert forall|j: int| 0 <= j < ps.len() implies #[trigger] held_against(ps[j], rs.push(b)[j], id)
        == held_against(ps[j], rs[j], id) by {
        assert(rs.push(b)[j] == rs[j]);
    }
    lemma_outstanding_frame(ps, rs.push(b), ps, rs, id);
}

/// The market's records as values: the global record, the trades and
/// purchases by position (id minus one), which purchases were refunded, and
/// the buyer profiles.
pub struct MarketView {
    pub global: GlobalState,
    pub trades: Seq<TradeAccount>,
    pub purchases: Seq<PurchaseAccount>,
    pub refunded: Seq<bool>,
    pub buyers: Seq<BuyerAccount>,
}

impl MarketView {
    /// Trade `i` has id `i + 1`, satisfies its own invariant, and its stock
    /// plus what its unrefunded purchases hold is its total quantity.
    pub open spec fn trade_ok(self, i: int) -> bool {
        let t = self.trades[i];
        &&& t.trade_id == i + 1
        &&& t.wf()
        &&& t.remaining_quantity + outstanding(self.purchases, self.refunded, t.trade_id)
            == t.total_quantity
    }

    /// Purchase `j` has id `j + 1`, belongs to an existing trade, is
    /// confirmed exactly when settled, was settled if refunded, and its total
    /// is its trade's product cost for its quantity plus its logistics cost.
    pub open spec fn purchase_ok(self, j: int) -> bool {
        let p = self.purchases[j];
        &&& p.purchase_id == j + 1
        &&& 1 <= p.trade_id <= self.trades.len()
        &&& p.settled == p.delivered_and_confirmed
        &&& self.refunded[j] ==> p.settled
        &&& p.total_amount == self.trades[p.trade_id - 1].product_cost * p.quantity
            + p.logistics_cost
    }

    /// The market's invariant.
    pub open spec fn inv(self) -> bool {
        &&& self.global.trade_counter == self.trades.len()
        &&& self.global.purchase_counter == self.purchases.len()
        &&& self.refunded.len() == self.purchases.len()
        &&& forall|i: int| 0 <= i < self.trades.len() ==> #[trigger] self.trade_ok(i)
        &&& forall|j: int| 0 <= j < self.purchases.len() ==> #[trigger] self.purchase_ok(j)
        &&& forall|k: int| 0 <= k < self.buyers.len() ==> #[trigger] self.buyers[k].is_registered
        &&& forall|k1: int, k2: int|
            0 <= k1 < k2 < self.buyers.len() ==> #[trigger] self.buyers[k1].buyer
                != #[trigger] self.buyers[k2].buyer
    }
}

/// `new` is the profile list `old` with purchase `id` recorded for `buyer`:
/// on their profile if they have one, else on a new profile for them.
pub open spec fn is_recorded_for(
    new: Seq<BuyerAccount>,
    old: Seq<BuyerAccount>,
    buyer: Identity,
    id: u64,
) -> bool {
    if exists|k: int| 0 <= k < old.len() && #[trigger] old[k].buyer == buyer {
        let k = choose|k: int| 0 <= k < old.len() && #[trigger] old[k].buyer == buyer;
        &&& new.len() == old.len()
        &&& new[k].buyer == buyer
        &&& new[k].is_registered
        &&& new[k].purchase_ids@ == capped_push(old[k].purchase_ids@, id)
        &&& forall|j: int| 0 <= j < old.len() && j != k ==> new[j] == old[j]
    } else {
        &&& new.len() == old.len() + 1
        &&& new.drop_last() == old
        &&& new.last().buyer == buyer
        &&& new.last().is_registered
        &&& new.last().purchase_ids@ == seq![id]
    }
}

/// An in-memory market: the trade store and the purchase store with their id
/// counters, and the buyer profiles. Each operation commits all of its
/// changes or, when rejected, none.
pub struct Marketplace {
    global: GlobalState,
    trades: Vec<TradeAccount>,
    purchases: Vec<PurchaseAccount>,
    buyers: Vec<BuyerAccount>,
    refunded: Ghost<Seq<bool>>,
}

impl View for Marketplace {
    type V = MarketView;

    closed spec fn view(&self) -> MarketView {
        MarketView {
            global: self.global,
            trades: self.trades@,
            purchases: self.purchases@,
            refunded: self.refunded@,
            buyers: self.buyers@,
        }
    }
}

impl Marketplace {
    /// The market's invariant holds.
    pub open spec fn wf(&self) -> bool {
        self@.inv()
    }

    /// A market administered by `admin`, with no trades, purchases or buyers.
    pub fn new(admin: Identity) -> (m: Marketplace)
        ensures
            m.wf(),
            m@.global == (GlobalState { admin, trade_counter: 0, purchase_counter: 0 }),
            m@.trades.len() == 0,
            m@.purchases.len() == 0,
            m@.refunded.len() == 0,
            m@.buyers.len() == 0,
    {
        Marketplace {
            global: initialize(admin),
            trades: Vec::new(),
            purchases: Vec::new(),
            buyers: Vec::new(),
            refunded: Ghost(Seq::empty()),
        }
    }

    /// The admin `caller` opens a trade (see `create_trade`); returns its id.
    pub fn create_trade(
        &mut self,
        caller: Identity,
        seller: Identity,
        token_mint: Identity,
        product_cost: u64,
        logistics_providers: Vec<Identity>,
        logistics_costs: Vec<u64>,
        total_quantity: u64,
    ) -> (r: Result<u64, LogisticsError>)
        requires
            old(self).wf(),
        ensures
            final(self).wf(),
            match r {
                Ok(id) => {
                    &&& create_trade_error(
                        old(self)@.global,
                        caller,
                        logistics_providers@.len() as int,
                        logistics_costs@.len() as int,
                        total_quantity,
                    ) is None
                    &&& id == old(self)@.trades.len() + 1
                    &&& final(self)@.global == (GlobalState {
                        trade_counter: id,
                        ..old(self)@.global
                    })
                    &&& final(self)@.trades.len() == id
                    &&& final(self)@.trades.drop_last() == old(self)@.trades
                    &&& is_new_trade(
                        final(self)@.trades.last(),
                        id,
                        seller,
                        token_mint,
                        product_cost,
                        logistics_providers@,
                        logistics_costs@,
                        total_quantity,
                    )
                    &&& final(self)@.purchases == old(self)@.purchases
                    &&& final(self)@.refunded == old(self)@.refunded
                    &&& final(self)@.buyers == old(self)@.buyers
                },
                Err(e) => {
                    &&& create_trade_error(
                        old(self)@.global,
                        caller,
                        logistics_providers@.len() as int,
                        logistics_costs@.len() as int,
                        total_quantity,
                    ) == Some(e)
                    &&& final(self)@ == old(self)@
                },
            },
    {
        let ghost old_v = self@;
        let r = crate::trade::create_trade(
            &mut self.global,
            caller,
            seller,
            token_mint,
            product_cost,
            logistics_providers,
            logistics_costs,
            total_quantity,
        );
        match r {
            Ok(t) => {
                let id = t.trade_id;
                let ghost old_trades = self.trades@;
                self.trades.push(t);
                proof {
                    let v = self@;
                    assert(v.trades.drop_last() =~= old_trades);
                    assert forall|i: int| 0 <= i < v.trades.len() implies #[trigger] v.trade_ok(
                        i,
                    ) by {
                        if i == old_trades.len() {
                            assert forall|j: int| 0 <= j < v.purchases.len() implies #[trigger] v.purchases[j].trade_id != id by {
                                assert(old_v.purchase_ok(j));
                            }
                            lemma_outstanding_absent(v.purchases, v.refunded, id);
                        } else {
                            assert(v.trades[i] == old_trades[i]);
                            assert(old_v.trade_ok(i));
                        }
                    }
                    assert forall|j: int| 0 <= j < v.purchases.len() implies #[trigger] v.purchase_ok(j) by {
                        let p = v.purchases[j];
                        assert(old_v.purchase_ok(j));
                        assert(v.trades[p.trade_id - 1] == old_trades[p.trade_id - 1]);
                    }
                    assert(v.global.trade_counter == v.trades.len());
                    assert(v.global.purchase_counter == v.purchases.len());
                    assert(v.refunded.len() == v.purchases.len());
                    assert(v.buyers == old_v.buyers);
                }
                Ok(id)
            },
            Err(e) => Err(e),
        }
    }

    fn find_buyer(&self, buyer: Identity) -> (r: Option<usize>)
        ensures
            match r {
                Some(k) => k < self@.buyers.len() && self@.buyers[k as int].buyer == buyer,
                None => forall|k: int| 0 <= k < self@.buyers.len() ==> #[trigger] self@.buyers[k].buyer != buyer,
            },
    {
        let mut i: usize = 0;
        while i < self.buyers.len()
            invariant
                i <= self.buyers@.len(),
                forall|k: int| 0 <= k < i ==> #[trigger] self.buyers@[k].buyer != buyer,
            decreases self.buyers@.len() - i,
        {
            if self.buyers[i].buyer == buyer {
                return Some(i);
            }
            i = i + 1;
        }
        None
    }

    proof fn lemma_sold(old_v: MarketView, v: MarketView, idx: int, p: PurchaseAccount)
        requires
            old_v.inv(),
            0 <= idx < old_v.trades.len(),
            v.global.admin == old_v.global.admin,
            v.global.trade_counter == old_v.global.trade_counter,
            v.global.purchase_counter == old_v.global.purchase_counter + 1,
            v.trades.len() == old_v.trades.len(),
            forall|i: int| 0 <= i < v.trades.len() && i != idx ==> v.trades[i] == old_v.trades[i],
            v.trades[idx].wf(),
            is_sold_from(v.trades[idx], old_v.trades[idx], p.quantity, p.purchase_id),
            v.purchases == old_v.purchases.push(p),
            v.refunded == old_v.refunded.push(false),
            p.purchase_id == old_v.purchases.len() + 1,
            p.trade_id == idx + 1,
            !p.settled && !p.delivered_and_confirmed,
            p.total_amount == old_v.trades[idx].product_cost * p.quantity + p.logistics_cost,
            forall|k: int| 0 <= k < v.buyers.len() ==> #[trigger] v.buyers[k].is_registered,
            forall|k1: int, k2: int|
                0 <= k1 < k2 < v.buyers.len() ==> #[trigger] v.buyers[k1].buyer
                    != #[trigger] v.buyers[k2].buyer,
        ensures
            v.inv(),
    {
        assert forall|i: int| 0 <= i < v.trades.len() implies #[trigger] v.trade_ok(i) by {
            assert(old_v.trade_ok(i));
            let id = v.trades[i].trade_id;
            lemma_outstanding_push(old_v.purchases, old_v.refunded, p, false, id);
        }
        assert forall|j: int| 0 <= j < v.purchases.len() implies #[trigger] v.purchase_ok(j) by {
            if j < old_v.purchases.len() {
                assert(old_v.purchase_ok(j));
                assert(v.purchases[j] == old_v.purchases[j]);
                assert(v.refunded[j] == old_v.refunded[j]);
            }
        }
    }

    /// `buyer` buys `quantity` units of trade `trade_id` (see `buy_trade`);
    /// returns the new purchase's id. The purchase is recorded on the buyer's
    /// profile, created if they have none.
    pub fn buy_trade(
        &mut self,
        trade_id: u64,
        buyer: Identity,
        quantity: u64,
        logistics_provider: Identity,
    ) -> (r: Result<u64, LogisticsError>)
        requires
            old(self).wf(),
        ensures
            final(self).wf(),
            !(1 <= trade_id <= old(self)@.trades.len()) ==> {
                &&& r == Err::<u64, LogisticsError>(LogisticsError::TradeNotFound)
                &&& final(self)@ == old(self)@
            },
            1 <= trade_id <= old(self)@.trades.len() ==> match r {
                Ok(id) => {
                    let t = old(self)@.trades[trade_id - 1];
                    &&& buy_error(old(self)@.global, t, buyer, quantity, logistics_provider) is None
                    &&& id == old(self)@.purchases.len() + 1
                    &&& final(self)@.global == (GlobalState {
                        purchase_counter: id,
                        ..old(self)@.global
                    })
                    &&& final(self)@.purchases.len() == id
                    &&& final(self)@.purchases.drop_last() == old(self)@.purchases
                    &&& is_new_purchase(
                        final(self)@.purchases.last(),
                        id,
                        t,
                        buyer,
                        quantity,
                        logistics_provider,
                    )
                    &&& final(self)@.refunded == old(self)@.refunded.push(false)
                    &&& final(self)@.trades == old(self)@.trades.update(
                        trade_id - 1,
                        final(self)@.trades[trade_id - 1],
                    )
                    &&& is_sold_from(final(self)@.trades[trade_id - 1], t, quantity, id)
                    &&& is_recorded_for(final(self)@.buyers, old(self)@.buyers, buyer, id)
                },
                Err(e) => {
                    &&& buy_error(
                        old(self)@.global,
                        old(self)@.trades[trade_id - 1],
                        buyer,
                        quantity,
                        logistics_provider,
                    ) == Some(e)
                    &&& final(self)@ == old(self)@
                },
            },
    {
        if trade_id == 0 || trade_id > self.trades.len() as u64 {
            return Err(LogisticsError::TradeNotFound);
        }
        let idx = (trade_id - 1) as usize;
        let ghost old_v = self@;
        proof {
            assert(old_v.trade_ok(idx as int));
        }
        match self.find_buyer(buyer) {
            Some(k) => {
                let r = crate::purchase::buy_trade(
                    &mut self.global,
                    &mut self.trades[idx],
                    &mut self.buyers[k],
                    buyer,
                    quantity,
                    logistics_provider,
                );
                match r {
                    Ok(p) => {
                        let id = p.purchase_id;
                        self.purchases.push(p);
                        self.refunded = Ghost(self.refunded@.push(false));
                        proof {
                            let v = self@;
                            assert(v.purchases.drop_last() =~= old_v.purchases);
                            assert(v.trades =~= old_v.trades.update(idx as int, v.trades[idx as int]));
                            assert forall|k1: int, k2: int|
                                0 <= k1 < k2 < v.buyers.len() implies #[trigger] v.buyers[k1].buyer
                                    != #[trigger] v.buyers[k2].buyer by {
                                assert(v.buyers[k1].buyer == old_v.buyers[k1].buyer);
                                assert(v.buyers[k2].buyer == old_v.buyers[k2].buyer);
                            }
                            assert forall|k1: int| 0 <= k1 < v.buyers.len() implies #[trigger] v.buyers[k1].is_registered by {
                                assert(old_v.buyers[k1].is_registered);
                            }
                            Self::lemma_sold(old_v, v, idx as int, p);
                            let kk = choose|kk: int| 0 <= kk < old_v.buyers.len() && #[trigger] old_v.buyers[kk].buyer == buyer;
                            assert(old_v.buyers[k as int].buyer == buyer);
                            if kk != k {
                                if kk < k {
                                    assert(old_v.buyers[kk].buyer != old_v.buyers[k as int].buyer);
                                } else {
                                    assert(old_v.buyers[k as int].buyer != old_v.buyers[kk].buyer);
                                }
                            }
                        }
                        Ok(id)
                    },
                    Err(e) => {
                        proof {
                            assert(self@.trades =~= old_v.trades);
                            assert(self@.buyers =~= old_v.buyers);
                        }
                        Err(e)
                    },
                }
            },
            None => {
                let mut profile = BuyerAccount {
                    buyer,
                    is_registered: false,
                    purchase_ids: Vec::new(),
                };
                let r = crate::purchase::buy_trade(
                    &mut self.global,
                    &mut self.trades[idx],
                    &mut profile,
                    buyer,
                    quantity,
                    logistics_provider,
                );
                match r {
                    Ok(p) => {
                        let id = p.purchase_id;
                        self.purchases.push(p);
                        self.refunded = Ghost(self.refunded@.push(false));
                        self.buyers.push(profile);
                        proof {
                            let v = self@;
                            assert(v.purchases.drop_last() =~= old_v.purchases);
                            assert(v.buyers.drop_last() =~= old_v.buyers);
                            assert(v.trades =~= old_v.trades.update(idx as int, v.trades[idx as int]));
                            assert forall|k1: int, k2: int|
                                0 <= k1 < k2 < v.buyers.len() implies #[trigger] v.buyers[k1].buyer
                                    != #[trigger] v.buyers[k2].buyer by {
                                if k2 < old_v.buyers.len() {
                                    assert(v.buyers[k1] == old_v.buyers[k1]);
                                    assert(v.buyers[k2] == old_v.buyers[k2]);
                                } else {
                                    assert(v.buyers[k1] == old_v.buyers[k1]);
                                }
                            }
                            assert forall|k1: int| 0 <= k1 < v.buyers.len() implies #[trigger] v.buyers[k1].is_registered by {
                                if k1 < old_v.buyers.len() {
                                    assert(v.buyers[k1] == old_v.buyers[k1]);
                                }
                            }
                            Self::lemma_sold(old_v, v, idx as int, p);
                        }
                        Ok(id)
                    },
                    Err(e) => {
                        proof {
                            assert(self@.trades =~= old_v.trades);
                        }
                        Err(e)
                    },
                }
            },
        }
    }

    /// Keeps the invariant across a change of purchase `j`'s flags, which
    /// refunds it (putting its units back into its trade) when `refund`.
    proof fn lemma_flags_changed(old_v: MarketView, v: MarketView, j: int, refund: bool)
        requires
            old_v.inv(),
            0 <= j < old_v.purchases.len(),
            v.global == old_v.global,
            v.buyers == old_v.buyers,
            v.purchases.len() == old_v.purchases.len(),
            forall|i: int| 0 <= i < v.purchases.len() && i != j ==> v.purchases[i] == old_v.purchases[i],
            v.purchases[j].purchase_id == old_v.purchases[j].purchase_id,
            v.purchases[j].trade_id == old_v.purchases[j].trade_id,
            v.purchases[j].quantity == old_v.purchases[j].quantity,
            v.purchases[j].total_amount == old_v.purchases[j].total_amount,
            v.purchases[j].logistics_cost == old_v.purchases[j].logistics_cost,
            v.purchases[j].settled == v.purchases[j].delivered_and_confirmed,
            refund ==> {
                let tidx = old_v.purchases[j].trade_id - 1;
                &&& !old_v.purchases[j].settled
                &&& v.purchases[j].settled
                &&& v.refunded == old_v.refunded.update(j, true)
                &&& v.trades == old_v.trades.update(tidx, v.trades[tidx])
                &&& is_restocked(v.trades[tidx], old_v.trades[tidx], old_v.purchases[j].quantity)
                &&& v.trades[tidx].wf()
            },
            !refund ==> {
                &&& v.refunded == old_v.refunded
                &&& v.trades == old_v.trades
                &&& old_v.purchases[j].settled ==> v.purchases[j].settled
            },
        ensures
            v.inv(),
    {
        let p = old_v.purchases[j];
        assert(old_v.purchase_ok(j));
        let tidx = p.trade_id - 1;
        assert forall|i: int| 0 <= i < v.trades.len() implies #[trigger] v.trade_ok(i) by {
            assert(old_v.trade_ok(i));
            let id = old_v.trades[i].trade_id;
            assert(v.trades[i].trade_id == id);
            assert forall|jj: int| 0 <= jj < v.purchases.len() && jj != j implies #[trigger] held_against(
                old_v.purchases[jj],
                old_v.refunded[jj],
                id,
            ) == held_against(v.purchases[jj], v.refunded[jj], id) by {
                assert(v.purchases[jj] == old_v.purchases[jj]);
            }
            lemma_outstanding_update(old_v.purchases, old_v.refunded, v.purchases, v.refunded, id, j);
        }
        assert forall|jj: int| 0 <= jj < v.purchases.len() implies #[trigger] v.purchase_ok(jj) by {
            assert(old_v.purchase_ok(jj));
            let q = old_v.purchases[jj];
            assert(v.trades[q.trade_id - 1].product_cost == old_v.trades[q.trade_id - 1].product_cost);
        }
    }

    /// The buyer `caller` confirms delivery of purchase `purchase_id` (see
    /// `confirm_delivery_and_purchase`); returns the payout to make.
    pub fn confirm_delivery_and_purchase(&mut self, purchase_id: u64, caller: Identity) -> (r: Result<
        Settlement,
        LogisticsError,
    >)
        requires
            old(self).wf(),
        ensures
            final(self).wf(),
            !(1 <= purchase_id <= old(self)@.purchases.len()) ==> {
                &&& r == Err::<Settlement, LogisticsError>(LogisticsError::PurchaseNotFound)
                &&& final(self)@ == old(self)@
            },
            1 <= purchase_id <= old(self)@.purchases.len() ==> {
                let p = old(self)@.purchases[purchase_id - 1];
                let t = old(self)@.trades[p.trade_id - 1];
                match r {
                    Ok(s) => {
                        &&& confirm_error(p, t, caller) is None
                        &&& is_payout_for(s, p, t)
                        &&& final(self)@ == (MarketView {
                            purchases: old(self)@.purchases.update(purchase_id - 1, closed(p)),
                            ..old(self)@
                        })
                    },
                    Err(e) => {
                        &&& confirm_error(p, t, caller) == Some(e)
                        &&& final(self)@ == old(self)@
                    },
                }
            },
    {
        if purchase_id == 0 || purchase_id > self.purchases.len() as u64 {
            return Err(LogisticsError::PurchaseNotFound);
        }
        let j = (purchase_id - 1) as usize;
        let ghost old_v = self@;
        proof {
            assert(old_v.purchase_ok(j as int));
        }
        proof {
            assert(self.trades@.len() == self.trades.len());
        }
        let tidx = (self.purchases[j].trade_id - 1) as usize;
        let r = crate::purchase::confirm_delivery_and_purchase(
            &mut self.purchases[j],
            &self.trades[tidx],
            caller,
        );
        proof {
            if r is Ok {
                assert(self@.purchases =~= old_v.purchases.update(
                    j as int,
                    closed(old_v.purchases[j as int]),
                ));
                Self::lemma_flags_changed(old_v, self@, j as int, false);
            } else {
                assert(self@.purchases =~= old_v.purchases);
            }
        }
        r
    }

    /// Flags purchase `purchase_id` as disputed (see `raise_dispute`).
    pub fn raise_dispute(&mut self, purchase_id: u64) -> (r: Result<(), LogisticsError>)
        requires
            old(self).wf(),
        ensures
            final(self).wf(),
            !(1 <= purchase_id <= old(self)@.purchases.len()) ==> {
                &&& r == Err::<(), LogisticsError>(LogisticsError::PurchaseNotFound)
                &&& final(self)@ == old(self)@
            },
            1 <= purchase_id <= old(self)@.purchases.len() ==> {
                let p = old(self)@.purchases[purchase_id - 1];
                match r {
                    Ok(_) => {
                        &&& dispute_error(p) is None
                        &&& final(self)@ == (MarketView {
                            purchases: old(self)@.purchases.update(
                                purchase_id - 1,
                                PurchaseAccount { disputed: true, ..p },
                            ),
                            ..old(self)@
                        })
                    },
                    Err(e) => {
                        &&& dispute_error(p) == Some(e)
                        &&& final(self)@ == old(self)@
                    },
                }
            },
    {
        if purchase_id == 0 || purchase_id > self.purchases.len() as u64 {
            return Err(LogisticsError::PurchaseNotFound);
        }
        let j = (purchase_id - 1) as usize;
        let ghost old_v = self@;
        let r = crate::purchase::raise_dispute(&mut self.purchases[j]);
        proof {
            if r is Ok {
                assert(self@.purchases =~= old_v.purchases.update(
                    j as int,
                    PurchaseAccount { disputed: true, ..old_v.purchases[j as int] },
                ));
                assert(old_v.purchase_ok(j as int));
                Self::lemma_flags_changed(old_v, self@, j as int, false);
            } else {
                assert(self@.purchases =~= old_v.purchases);
            }
        }
        r
    }

    /// The admin `caller` settles the disputed purchase `purchase_id` in
    /// favour of `winner` (see `resolve_dispute`); returns the transfer to
    /// make. A buyer's win refunds the purchase.
    pub fn resolve_dispute(&mut self, caller: Identity, purchase_id: u64, winner: Identity) -> (r:
        Result<Settlement, LogisticsError>)
        requires
            old(self).wf(),
        ensures
            final(self).wf(),
            !(1 <= purchase_id <= old(self)@.purchases.len()) ==> {
                &&& r == Err::<Settlement, LogisticsError>(LogisticsError::PurchaseNotFound)
                &&& final(self)@ == old(self)@
            },
            1 <= purchase_id <= old(self)@.purchases.len() ==> {
                let p = old(self)@.purchases[purchase_id - 1];
                let t = old(self)@.trades[p.trade_id - 1];
                match r {
                    Ok(s) => {
                        &&& resolve_error(old(self)@.global, caller, p, t, winner) is None
                        &&& final(self)@.global == old(self)@.global
                        &&& final(self)@.buyers == old(self)@.buyers
                        &&& final(self)@.purchases == old(self)@.purchases.update(
                            purchase_id - 1,
                            closed(p),
                        )
                        &&& if winner == p.buyer {
                            &&& is_refund_for(s, p)
                            &&& final(self)@.refunded == old(self)@.refunded.update(
                                purchase_id - 1,
                                true,
                            )
                            &&& final(self)@.trades == old(self)@.trades.update(
                                p.trade_id - 1,
                                final(self)@.trades[p.trade_id - 1],
                            )
                            &&& is_restocked(final(self)@.trades[p.trade_id - 1], t, p.quantity)
                        } else {
                            &&& is_payout_for(s, p, t)
                            &&& final(self)@.refunded == old(self)@.refunded
                            &&& final(self)@.trades == old(self)@.trades
                        }
                    },
                    Err(e) => {
                        &&& resolve_error(old(self)@.global, caller, p, t, winner) == Some(e)
                        &&& final(self)@ == old(self)@
                    },
                }
            },
    {
        if purchase_id == 0 || purchase_id > self.purchases.len() as u64 {
            return Err(LogisticsError::PurchaseNotFound);
        }
        let j = (purchase_id - 1) as usize;
        let ghost old_v = self@;
        proof {
            assert(old_v.purchase_ok(j as int));
            assert(old_v.trade_ok(old_v.purchases[j as int].trade_id - 1));
        }
        proof {
            assert(self.trades@.len() == self.trades.len());
        }
        let tidx = (self.purchases[j].trade_id - 1) as usize;
        let buyer = self.purchases[j].buyer;
        let r = crate::purchase::resolve_dispute(
            &self.global,
            caller,
            &mut self.purchases[j],
            &mut self.trades[tidx],
            winner,
        );
        match r {
            Ok(s) => {
                if winner == buyer {
                    self.refunded = Ghost(self.refunded@.update(j as int, true));
                }
                proof {
                    let v = self@;
                    assert(v.purchases =~= old_v.purchases.update(
                        j as int,
                        closed(old_v.purchases[j as int]),
                    ));
                    if winner == buyer {
                        assert(v.trades =~= old_v.trades.update(tidx as int, v.trades[tidx as int]));
                    } else {
                        assert(v.trades =~= old_v.trades);
                    }
                    Self::lemma_flags_changed(old_v, v, j as int, winner == buyer);
                }
                Ok(s)
            },
            Err(e) => {
                proof {
                    assert(self@.purchases =~= old_v.purchases);
                    assert(self@.trades =~= old_v.trades);
                }
                Err(e)
            },
        }
    }

    /// The buyer `caller` cancels purchase `purchase_id` (see
    /// `cancel_purchase`); returns the refund to make.
    pub fn cancel_purchase(&mut self, purchase_id: u64, caller: Identity) -> (r: Result<
        Settlement,
        LogisticsError,
    >)
        requires
            old(self).wf(),
        ensures
            final(self).wf(),
            !(1 <= purchase_id <= old(self)@.purchases.len()) ==> {
                &&& r == Err::<Settlement, LogisticsError>(LogisticsError::PurchaseNotFound)
                &&& final(self)@ == old(self)@
            },
            1 <= purchase_id <= old(self)@.purchases.len() ==> {
                let p = old(self)@.purchases[purchase_id - 1];
                let t = old(self)@.trades[p.trade_id - 1];
                match r {
                    Ok(s) => {
                        &&& cancel_error(p, t, caller) is None
                        &&& is_refund_for(s, p)
                        &&& final(self)@.global == old(self)@.global
                        &&& final(self)@.buyers == old(self)@.buyers
                        &&& final(self)@.purchases == old(self)@.purchases.update(
                            purchase_id - 1,
                            closed(p),
                        )
                        &&& final(self)@.refunded == old(self)@.refunded.update(
                            purchase_id - 1,
                            true,
                        )
                        &&& final(self)@.trades == old(self)@.trades.update(
                            p.trade_id - 1,
                            final(self)@.trades[p.trade_id - 1],
                        )
                        &&& is_restocked(final(self)@.trades[p.trade_id - 1], t, p.quantity)
                    },
                    Err(e) => {
                        &&& cancel_error(p, t, caller) == Some(e)
                        &&& final(self)@ == old(self)@
                    },
                }
            },
    {
        if purchase_id == 0 || purchase_id > self.purchases.len() as u64 {
            return Err(LogisticsError::PurchaseNotFound);
        }
        let j = (purchase_id - 1) as usize;
        let ghost old_v = self@;
        proof {
            assert(old_v.purchase_ok(j as int));
            assert(old_v.trade_ok(old_v.purchases[j as int].trade_id - 1));
        }
        proof {
            assert(self.trades@.len() == self.trades.len());
        }
        let tidx = (self.purchases[j].trade_id - 1) as usize;
        let r = crate::purchase::cancel_purchase(
            &mut self.purchases[j],
            &mut self.trades[tidx],
            caller,
        );
        match r {
            Ok(s) => {
                self.refunded = Ghost(self.refunded@.update(j as int, true));
                proof {
                    let v = self@;
                    assert(v.purchases =~= old_v.purchases.update(
                        j as int,
                        closed(old_v.purchases[j as int]),
                    ));
                    assert(v.trades =~= old_v.trades.update(tidx as int, v.trades[tidx as int]));
                    Self::lemma_flags_changed(old_v, v, j as int, true);
                }
                Ok(s)
            },
            Err(e) => {
                proof {
                    assert(self@.purchases =~= old_v.purchases);
                    assert(self@.trades =~= old_v.trades);
                }
                Err(e)
            },
        }
    }

    /// The global record.
    pub fn global(&self) -> (r: &GlobalState)
        ensures
            *r == self@.global,
    {
        &self.global
    }

    /// The number of trades opened so far.
    pub fn trade_count(&self) -> (r: usize)
        ensures
            r == self@.trades.len(),
    {
        self.trades.len()
    }

    /// The number of purchases made so far.
    pub fn purchase_count(&self) -> (r: usize)
        ensures
            r == self@.purchases.len(),
    {
        self.purchases.len()
    }

    /// The trade with id `trade_id`, if there is one.
    pub fn trade(&self, trade_id: u64) -> (r: Option<&TradeAccount>)
        ensures
            match r {
                Some(t) => 1 <= trade_id <= self@.trades.len() && *t == self@.trades[trade_id - 1],
                None => !(1 <= trade_id <= self@.trades.len()),
            },
    {
        if trade_id == 0 || trade_id > self.trades.len() as u64 {
            return None;
        }
        Some(&self.trades[(trade_id - 1) as usize])
    }

    /// The purchase with id `purchase_id`, if there is one.
    pub fn purchase(&self, purchase_id: u64) -> (r: Option<PurchaseAccount>)
        ensures
            match r {
                Some(p) => 1 <= purchase_id <= self@.purchases.len() && p
                    == self@.purchases[purchase_id - 1],
                None => !(1 <= purchase_id <= self@.purchases.len()),
            },
    {
        if purchase_id == 0 || purchase_id > self.purchases.len() as u64 {
            return None;
        }
        Some(self.purchases[(purchase_id - 1) as usize])
    }

    /// The profile of `buyer`, if they have one.
    pub fn buyer_profile(&self, buyer: Identity) -> (r: Option<&BuyerAccount>)
        ensures
            match r {
                Some(b) => b.buyer == buyer && exists|k: int|
                    0 <= k < self@.buyers.len() && self@.buyers[k] == *b,
                None => forall|k: int|
                    0 <= k < self@.buyers.len() ==> #[trigger] self@.buyers[k].buyer != buyer,
            },
    {
        match self.find_buyer(buyer) {
            Some(k) => Some(&self.buyers[k]),
            None => None,
        }
    }
}

/// Inventory conservation: in every state of a market, each trade's
/// remaining stock plus the quantity held by its purchases that were not
/// refunded equals its total quantity. So the stock never goes negative and
/// never exceeds the total, whatever sequence of purchases, cancellations and
/// dispute resolutions led there.
pub proof fn lemma_inventory_conservation(m: MarketView, trade_id: u64)
    requires
        m.inv(),
        1 <= trade_id <= m.trades.len(),
    ensures
        m.trades[trade_id - 1].remaining_quantity + outstanding(m.purchases, m.refunded, trade_id)
            == m.trades[trade_id - 1].total_quantity,
        0 <= outstanding(m.purchases, m.refunded, trade_id),
        m.trades[trade_id - 1].remaining_quantity <= m.trades[trade_id - 1].total_quantity,
{
    assert(m.trade_ok(trade_id - 1));
    lemma_outstanding_nonneg(m.purchases, m.refunded, trade_id);
}

/// Activation: in every state of a market, each trade is active exactly when
/// it has stock left.
pub proof fn lemma_activation(m: MarketView, trade_id: u64)
    requires
        m.inv(),
        1 <= trade_id <= m.trades.len(),
    ensures
        m.trades[trade_id - 1].active == (m.trades[trade_id - 1].remaining_quantity > 0),
{
    assert(m.trade_ok(trade_id - 1));
}

/// Fee conservation at settlement: when a purchase of the market is paid
/// out to its seller and provider, the two payouts and the two retained fees
/// add up to exactly what its buyer paid.
pub proof fn lemma_payout_matches_payment(m: MarketView, purchase_id: u64, s: Settlement)
    requires
        m.inv(),
        1 <= purchase_id <= m.purchases.len(),
        is_payout_for(
            s,
            m.purchases[purchase_id - 1],
            m.trades[m.purchases[purchase_id - 1].trade_id - 1],
        ),
    ensures
        s matches Settlement::Payout { split, .. } && split.total()
            == m.purchases[purchase_id - 1].total_amount,
{
    assert(m.purchase_ok(purchase_id - 1));
    let p = m.purchases[purchase_id - 1];
    let t = m.trades[p.trade_id - 1];
    if let Settlement::Payout { split, .. } = s {
        crate::fees::lemma_fee_conservation(split, t.product_cost, p.quantity, p.logistics_cost);
    }
}

} // verus!

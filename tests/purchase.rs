use dezenmart_logistics::{
    buy_trade, cancel_purchase, confirm_delivery_and_purchase, create_trade, initialize,
    raise_dispute, register_buyer, register_logistics_provider, register_seller, resolve_dispute,
    withdraw_escrow_fees, BuyerAccount, GlobalState, Identity, LogisticsError, PayoutSplit,
    PurchaseAccount, Settlement, TradeAccount,
};

fn key(n: u64) -> Identity {
    Identity::new(n, 0, 0, 0)
}

const ADMIN: u64 = 0;
const SELLER: u64 = 1;
const BUYER: u64 = 2;
const PROVIDER: u64 = 10;
const PROVIDER2: u64 = 11;

fn setup(quantity: u64) -> (GlobalState, TradeAccount) {
    let mut global = initialize(key(ADMIN));
    let trade = create_trade(
        &mut global,
        key(ADMIN),
        key(SELLER),
        key(8),
        1000,
        vec![key(PROVIDER), key(PROVIDER2)],
        vec![100, 150],
        quantity,
    )
    .unwrap();
    (global, trade)
}

fn unregistered() -> BuyerAccount {
    BuyerAccount { buyer: Identity::zero(), is_registered: false, purchase_ids: Vec::new() }
}

fn bought(quantity: u64) -> (GlobalState, TradeAccount, PurchaseAccount) {
    let (mut global, mut trade) = setup(10);
    let mut profile = unregistered();
    let p = buy_trade(&mut global, &mut trade, &mut profile, key(BUYER), quantity, key(PROVIDER))
        .unwrap();
    (global, trade, p)
}

#[test]
fn test_main_initialize_function() {
    let g = initialize(key(999));
    assert_eq!(g.admin, key(999));
    assert_eq!(g.trade_counter, 0);
    assert_eq!(g.purchase_counter, 0);
}

#[test]
fn test_main_register_logistics_provider_function() {
    let a = register_logistics_provider(key(4));
    assert_eq!(a.provider, key(4));
    assert!(a.is_registered);
}

#[test]
fn test_main_register_seller_function() {
    let g = initialize(key(ADMIN));
    let a = register_seller(&g, key(ADMIN), key(SELLER)).unwrap();
    assert_eq!(a.seller, key(SELLER));
    assert!(a.is_registered);
    assert_eq!(register_seller(&g, key(7), key(SELLER)).unwrap_err(), LogisticsError::NotAuthorized);
}

#[test]
fn test_main_register_buyer_function() {
    let a = register_buyer(key(BUYER));
    assert_eq!(a.buyer, key(BUYER));
    assert!(a.is_registered);
    assert!(a.purchase_ids.is_empty());
}

#[test]
fn test_main_buy_trade_function() {
    let (mut global, mut trade) = setup(10);
    let mut profile = unregistered();
    let p = buy_trade(&mut global, &mut trade, &mut profile, key(BUYER), 3, key(PROVIDER)).unwrap();
    assert_eq!(p.purchase_id, 1);
    assert_eq!(p.trade_id, 1);
    assert_eq!(p.buyer, key(BUYER));
    assert_eq!(p.quantity, 3);
    assert_eq!(p.logistics_cost, 300);
    assert_eq!(p.total_amount, 3300);
    assert_eq!(p.chosen_logistics_provider, key(PROVIDER));
    assert!(!p.delivered_and_confirmed && !p.disputed && !p.settled);
    assert_eq!(global.purchase_counter, 1);
    assert_eq!(trade.remaining_quantity, 7);
    assert!(trade.active);
    assert_eq!(trade.purchase_ids, vec![1]);
    assert!(profile.is_registered);
    assert_eq!(profile.buyer, key(BUYER));
    assert_eq!(profile.purchase_ids, vec![1]);
}

#[test]
fn test_buy_trade_different_logistics_providers() {
    let (mut global, mut trade) = setup(10);
    let mut profile = unregistered();
    let p = buy_trade(&mut global, &mut trade, &mut profile, key(BUYER), 2, key(PROVIDER2)).unwrap();
    assert_eq!(p.logistics_cost, 300);
    assert_eq!(p.total_amount, 2300);
}

#[test]
fn test_buy_trade_validation_invalid_quantity() {
    let (mut global, mut trade) = setup(10);
    let mut profile = unregistered();
    let r = buy_trade(&mut global, &mut trade, &mut profile, key(BUYER), 0, key(PROVIDER));
    assert_eq!(r.unwrap_err(), LogisticsError::InvalidQuantity);
    assert_eq!(global.purchase_counter, 0);
    assert!(!profile.is_registered);
}

#[test]
fn test_buy_trade_validation_trade_inactive() {
    let (mut global, mut trade) = setup(10);
    trade.active = false;
    trade.remaining_quantity = 0;
    let mut profile = unregistered();
    let r = buy_trade(&mut global, &mut trade, &mut profile, key(BUYER), 1, key(PROVIDER));
    assert_eq!(r.unwrap_err(), LogisticsError::TradeInactive);
}

#[test]
fn test_buy_trade_validation_insufficient_quantity() {
    let (mut global, mut trade) = setup(10);
    let mut profile = unregistered();
    let r = buy_trade(&mut global, &mut trade, &mut profile, key(BUYER), 11, key(PROVIDER));
    assert_eq!(r.unwrap_err(), LogisticsError::InsufficientQuantity);
    assert_eq!(trade.remaining_quantity, 10);
}

#[test]
fn test_buy_trade_validation_buyer_is_seller() {
    let (mut global, mut trade) = setup(10);
    let mut profile = unregistered();
    let r = buy_trade(&mut global, &mut trade, &mut profile, key(SELLER), 1, key(PROVIDER));
    assert_eq!(r.unwrap_err(), LogisticsError::BuyerIsSeller);
}

#[test]
fn test_buy_trade_validation_invalid_logistics_provider() {
    let (mut global, mut trade) = setup(10);
    let mut profile = unregistered();
    let r = buy_trade(&mut global, &mut trade, &mut profile, key(BUYER), 1, key(99));
    assert_eq!(r.unwrap_err(), LogisticsError::InvalidLogisticsProvider);
}

#[test]
fn buy_trade_refuses_amount_overflow() {
    let mut global = initialize(key(ADMIN));
    let mut trade = create_trade(&mut global, key(ADMIN), key(SELLER), key(8), u64::MAX / 2 + 1, vec![key(PROVIDER)], vec![u64::MAX / 2 + 1], 10)
        .unwrap();
    let mut profile = unregistered();
    // each leg fits, their sum does not
    let r = buy_trade(&mut global, &mut trade, &mut profile, key(BUYER), 1, key(PROVIDER));
    assert_eq!(r.unwrap_err(), LogisticsError::Overflow);
    let r = buy_trade(&mut global, &mut trade, &mut profile, key(BUYER), 3, key(PROVIDER));
    assert_eq!(r.unwrap_err(), LogisticsError::Overflow);
    assert_eq!(trade.remaining_quantity, 10);
    assert_eq!(global.purchase_counter, 0);
}

#[test]
fn test_buy_trade_complete_sellout() {
    let (mut global, mut trade) = setup(5);
    let mut profile = unregistered();
    let p = buy_trade(&mut global, &mut trade, &mut profile, key(BUYER), 5, key(PROVIDER)).unwrap();
    assert_eq!(p.total_amount, 5500);
    assert_eq!(trade.remaining_quantity, 0);
    assert!(!trade.active);
    let r = buy_trade(&mut global, &mut trade, &mut profile, key(BUYER), 1, key(PROVIDER));
    assert_eq!(r.unwrap_err(), LogisticsError::TradeInactive);
}

#[test]
fn test_buyer_purchase_ids_management() {
    let (mut global, mut trade) = setup(10);
    let mut profile = register_buyer(key(BUYER));
    profile.purchase_ids = (1000..1100).collect();
    buy_trade(&mut global, &mut trade, &mut profile, key(BUYER), 1, key(PROVIDER)).unwrap();
    assert_eq!(profile.purchase_ids.len(), 100);
    assert!(!profile.purchase_ids.contains(&1));
}

#[test]
fn test_main_confirm_delivery_and_purchase_function() {
    let (_, trade, mut p) = bought(3);
    let s = confirm_delivery_and_purchase(&mut p, &trade, key(BUYER)).unwrap();
    assert_eq!(
        s,
        Settlement::Payout {
            seller: key(SELLER),
            provider: key(PROVIDER),
            split: PayoutSplit { seller_amount: 2925, product_fee: 75, logistics_amount: 293, logistics_fee: 7 },
        }
    );
    assert!(p.delivered_and_confirmed && p.settled);
}

#[test]
fn test_confirm_delivery_validation_wrong_buyer() {
    let (_, trade, mut p) = bought(3);
    let r = confirm_delivery_and_purchase(&mut p, &trade, key(7));
    assert_eq!(r.unwrap_err(), LogisticsError::NotAuthorized);
    assert!(!p.settled);
}

#[test]
fn test_confirm_delivery_validation_already_confirmed() {
    let (_, trade, mut p) = bought(3);
    confirm_delivery_and_purchase(&mut p, &trade, key(BUYER)).unwrap();
    let r = confirm_delivery_and_purchase(&mut p, &trade, key(BUYER));
    assert_eq!(r.unwrap_err(), LogisticsError::AlreadyConfirmed);
}

#[test]
fn test_confirm_delivery_validation_disputed() {
    let (_, trade, mut p) = bought(3);
    raise_dispute(&mut p).unwrap();
    let r = confirm_delivery_and_purchase(&mut p, &trade, key(BUYER));
    assert_eq!(r.unwrap_err(), LogisticsError::Disputed);
}

#[test]
fn test_confirm_delivery_validation_already_settled() {
    let (_, trade, mut p) = bought(3);
    p.settled = true;
    let r = confirm_delivery_and_purchase(&mut p, &trade, key(BUYER));
    assert_eq!(r.unwrap_err(), LogisticsError::AlreadySettled);
}

#[test]
fn confirm_refuses_product_cost_overflow() {
    let (_, mut trade, mut p) = bought(3);
    trade.product_cost = u64::MAX;
    let r = confirm_delivery_and_purchase(&mut p, &trade, key(BUYER));
    assert_eq!(r.unwrap_err(), LogisticsError::Overflow);
    assert!(!p.settled);
}

#[test]
fn test_main_raise_dispute_function() {
    let (_, _, mut p) = bought(3);
    raise_dispute(&mut p).unwrap();
    assert!(p.disputed);
    assert_eq!(raise_dispute(&mut p).unwrap_err(), LogisticsError::AlreadyDisputed);
}

#[test]
fn raise_dispute_refused_after_confirmation() {
    let (_, trade, mut p) = bought(3);
    confirm_delivery_and_purchase(&mut p, &trade, key(BUYER)).unwrap();
    assert_eq!(raise_dispute(&mut p).unwrap_err(), LogisticsError::AlreadyConfirmed);
}

#[test]
fn test_main_resolve_dispute_function() {
    let (global, mut trade, mut p) = bought(3);
    raise_dispute(&mut p).unwrap();
    let s = resolve_dispute(&global, key(ADMIN), &mut p, &mut trade, key(BUYER)).unwrap();
    assert_eq!(s, Settlement::Refund { buyer: key(BUYER), amount: 3300 });
    assert_eq!(trade.remaining_quantity, 10);
    assert!(trade.active);
    assert!(p.settled && p.delivered_and_confirmed);
}

#[test]
fn resolve_dispute_for_seller_pays_out() {
    let (global, mut trade, mut p) = bought(3);
    raise_dispute(&mut p).unwrap();
    let s = resolve_dispute(&global, key(ADMIN), &mut p, &mut trade, key(SELLER)).unwrap();
    match s {
        Settlement::Payout { seller, provider, split } => {
            assert_eq!(seller, key(SELLER));
            assert_eq!(provider, key(PROVIDER));
            assert_eq!(split.seller_amount, 2925);
            assert_eq!(split.logistics_amount, 293);
        }
        Settlement::Refund { .. } => panic!("expected a payout"),
    }
    assert_eq!(trade.remaining_quantity, 7);
    assert!(p.settled);
}

#[test]
fn resolve_dispute_for_provider_pays_out() {
    let (global, mut trade, mut p) = bought(3);
    raise_dispute(&mut p).unwrap();
    let s = resolve_dispute(&global, key(ADMIN), &mut p, &mut trade, key(PROVIDER)).unwrap();
    assert!(matches!(s, Settlement::Payout { .. }));
    assert_eq!(trade.remaining_quantity, 7);
}

#[test]
fn resolve_dispute_errors() {
    let (global, mut trade, mut p) = bought(3);
    let r = resolve_dispute(&global, key(ADMIN), &mut p, &mut trade, key(BUYER));
    assert_eq!(r.unwrap_err(), LogisticsError::NotDisputed);
    raise_dispute(&mut p).unwrap();
    let r = resolve_dispute(&global, key(BUYER), &mut p, &mut trade, key(BUYER));
    assert_eq!(r.unwrap_err(), LogisticsError::NotAuthorized);
    let r = resolve_dispute(&global, key(ADMIN), &mut p, &mut trade, key(77));
    assert_eq!(r.unwrap_err(), LogisticsError::InvalidWinner);
    resolve_dispute(&global, key(ADMIN), &mut p, &mut trade, key(SELLER)).unwrap();
    let r = resolve_dispute(&global, key(ADMIN), &mut p, &mut trade, key(BUYER));
    assert_eq!(r.unwrap_err(), LogisticsError::AlreadySettled);
    assert_eq!(trade.remaining_quantity, 7);
}

#[test]
fn test_main_cancel_purchase_function() {
    let (_, mut trade, mut p) = bought(3);
    let s = cancel_purchase(&mut p, &mut trade, key(BUYER)).unwrap();
    assert_eq!(s, Settlement::Refund { buyer: key(BUYER), amount: 3300 });
    assert_eq!(trade.remaining_quantity, 10);
    assert!(p.settled && p.delivered_and_confirmed);
}

#[test]
fn test_cancel_purchase_trade_reactivation() {
    let (mut global, mut trade) = setup(5);
    let mut profile = unregistered();
    let mut p = buy_trade(&mut global, &mut trade, &mut profile, key(BUYER), 5, key(PROVIDER)).unwrap();
    assert!(!trade.active);
    cancel_purchase(&mut p, &mut trade, key(BUYER)).unwrap();
    assert_eq!(trade.remaining_quantity, 5);
    assert!(trade.active);
}

#[test]
fn test_cancel_purchase_validation_errors() {
    let (_, mut trade, mut p) = bought(3);
    assert_eq!(cancel_purchase(&mut p, &mut trade, key(7)).unwrap_err(), LogisticsError::NotAuthorized);
    let mut disputed = p;
    raise_dispute(&mut disputed).unwrap();
    assert_eq!(cancel_purchase(&mut disputed, &mut trade, key(BUYER)).unwrap_err(), LogisticsError::Disputed);
    let mut settled = p;
    settled.settled = true;
    assert_eq!(cancel_purchase(&mut settled, &mut trade, key(BUYER)).unwrap_err(), LogisticsError::AlreadySettled);
    cancel_purchase(&mut p, &mut trade, key(BUYER)).unwrap();
    assert_eq!(cancel_purchase(&mut p, &mut trade, key(BUYER)).unwrap_err(), LogisticsError::AlreadyConfirmed);
    assert_eq!(trade.remaining_quantity, 10);
}

#[test]
fn cancel_refuses_stock_overflow() {
    let (_, mut trade, mut p) = bought(3);
    trade.remaining_quantity = u64::MAX;
    assert_eq!(cancel_purchase(&mut p, &mut trade, key(BUYER)).unwrap_err(), LogisticsError::Overflow);
    assert!(!p.settled);
}

#[test]
fn test_main_withdraw_escrow_fees_function() {
    let g = initialize(key(ADMIN));
    assert_eq!(withdraw_escrow_fees(&g, key(ADMIN), 1000), Ok(1000));
    assert_eq!(withdraw_escrow_fees(&g, key(ADMIN), 0), Err(LogisticsError::NoFeesToWithdraw));
    assert_eq!(withdraw_escrow_fees(&g, key(3), 1000), Err(LogisticsError::NotAuthorized));
}

#[test]
fn settlement_happens_once() {
    let (global, mut trade, p) = bought(3);
    let mut confirmed = p;
    confirm_delivery_and_purchase(&mut confirmed, &trade, key(BUYER)).unwrap();
    let mut cancelled = p;
    cancel_purchase(&mut cancelled, &mut trade, key(BUYER)).unwrap();
    for mut q in [confirmed, cancelled] {
        assert!(confirm_delivery_and_purchase(&mut q, &trade, key(BUYER)).is_err());
        assert!(cancel_purchase(&mut q, &mut trade, key(BUYER)).is_err());
        assert!(resolve_dispute(&global, key(ADMIN), &mut q, &mut trade, key(BUYER)).is_err());
        assert!(raise_dispute(&mut q).is_err());
    }
}

use dezenmart_logistics::{
    escrow_fee, logistics_fee, product_fee, split_payout, PayoutSplit, BASIS_POINTS,
    ESCROW_FEE_PERCENT,
};

#[test]
fn test_constants_main() {
    assert_eq!(ESCROW_FEE_PERCENT, 250);
    assert_eq!(BASIS_POINTS, 10000);
    assert_eq!(dezenmart_logistics::MAX_LOGISTICS_PROVIDERS, 10);
    assert_eq!(dezenmart_logistics::MAX_PURCHASE_IDS, 100);
}

#[test]
fn test_expected_calculations() {
    let split = split_payout(1000, 3, 100 * 3).unwrap();
    assert_eq!(1000 * 3 + 100 * 3, 3300);
    assert_eq!(split.product_fee, 75);
    assert_eq!(split.seller_amount, 2925);
    assert_eq!(split.logistics_fee, 7);
    assert_eq!(split.logistics_amount, 293);
}

#[test]
fn test_complex_payment_calculations() {
    let split = split_payout(2500, 7, 350 * 7).unwrap();
    assert_eq!(split.product_fee, 437);
    assert_eq!(split.logistics_fee, 61);
    assert_eq!(split.seller_amount, 17063);
    assert_eq!(split.logistics_amount, 2389);
    assert_eq!(split.product_fee + split.logistics_fee, 498);
    let total = split.seller_amount + split.logistics_amount + split.product_fee + split.logistics_fee;
    assert_eq!(total, 19950);
}

#[test]
fn test_edge_case_quantity_calculations() {
    assert_eq!(product_fee(100, 1), Some(2));
    assert_eq!(logistics_fee(10), 0);
    assert_eq!(product_fee(100, 1000), Some(2500));
    assert_eq!(logistics_fee(10 * 1000), 250);
}

#[test]
fn test_create_trade_escrow_fee_calculation() {
    let cases = vec![(1000u64, 25u64), (2000, 50), (100, 2), (40, 1), (39, 0)];
    for (cost, expected) in cases {
        assert_eq!(escrow_fee(cost), expected, "escrow fee of {}", cost);
    }
}

#[test]
fn test_escrow_fee_calculations_main() {
    let split = split_payout(2000, 4, 500 * 4).unwrap();
    assert_eq!(split.product_fee, 200);
    assert_eq!(split.logistics_fee, 50);
    assert_eq!(split.seller_amount, 7800);
    assert_eq!(split.logistics_amount, 1950);
}

#[test]
fn test_escrow_fee_withdrawal_calculations() {
    let product_costs = [1000u64, 2000, 1500];
    let logistics_costs = [200u64, 300, 250];
    let quantities = [2u64, 1, 3];
    let mut product_fees = 0u64;
    let mut logistics_fees = 0u64;
    for i in 0..3 {
        product_fees += product_fee(product_costs[i], quantities[i]).unwrap();
        logistics_fees += logistics_fee(logistics_costs[i] * quantities[i]);
    }
    assert_eq!(product_fees, 212);
    assert_eq!(logistics_fees, 35);
    assert_eq!(product_fees + logistics_fees, 247);
}

#[test]
fn escrow_fee_never_overflows_at_the_top_of_the_range() {
    assert_eq!(escrow_fee(u64::MAX), u64::MAX / 40);
    assert_eq!(escrow_fee(0), 0);
}

#[test]
fn product_fee_reports_overflow_of_the_gross_cost() {
    assert_eq!(product_fee(u64::MAX, 2), None);
    assert_eq!(product_fee(u64::MAX, 1), Some(u64::MAX / 40));
    assert!(split_payout(u64::MAX / 2 + 1, 2, 0).is_none());
}

#[test]
fn split_floors_each_leg_independently() {
    let split = split_payout(39, 1, 39).unwrap();
    assert_eq!(
        split,
        PayoutSplit { seller_amount: 39, product_fee: 0, logistics_amount: 39, logistics_fee: 0 }
    );
}

#[test]
fn fee_conservation_on_concrete_values() {
    for (unit, ul, q) in [(1000u64, 100u64, 3u64), (1u64, 1u64, 1u64), (12345, 678, 91)] {
        let s = split_payout(unit, q, ul * q).unwrap();
        assert_eq!(
            s.seller_amount + s.logistics_amount + s.product_fee + s.logistics_fee,
            (unit + ul) * q
        );
    }
}

use arbscan::{pool_price, pow10, reserve_price, route_price, unit_amount, Address, DataError};

const ONE: u128 = 1_000_000_000_000_000_000;

#[test]
fn pow10_exact_values() {
    assert_eq!(pow10(0), 1);
    assert_eq!(pow10(1), 10);
    assert_eq!(pow10(6), 1_000_000);
    assert_eq!(pow10(18), ONE);
    assert_eq!(pow10(38), 100_000_000_000_000_000_000_000_000_000_000_000_000);
}

#[test]
fn unit_amount_is_one_base_unit() {
    assert_eq!(unit_amount(18), ONE);
    assert_eq!(unit_amount(6), 1_000_000);
    assert_eq!(unit_amount(0), 1);
}

#[test]
fn reserve_ratio_normalization() {
    // A pool holding 2000 x 10^6 of the 6-decimal base asset against
    // 1000 x 10^18 of the 18-decimal quote asset: after adjusting both sides
    // to whole units the ratio is 1000 / 2000 = 0.5.
    let reserve_base: u128 = 2000 * 1_000_000;
    let reserve_quote: u128 = 1000 * ONE;
    let price = reserve_price(reserve_base, reserve_quote, 6, 18).unwrap();
    assert_eq!(price, ONE / 2);
}

#[test]
fn reserve_ratio_same_decimals() {
    // 3000 quote units against 1000 base units, both 18-decimal: price 3.0.
    let price = reserve_price(1000 * ONE, 3000 * ONE, 18, 18).unwrap();
    assert_eq!(price, 3 * ONE);
}

#[test]
fn zero_reserves_are_unavailable_not_a_fault() {
    assert_eq!(reserve_price(0, 1000, 18, 18), Err(DataError::ZeroReserve));
    assert_eq!(reserve_price(1000, 0, 18, 18), Err(DataError::ZeroReserve));
    assert_eq!(reserve_price(0, 0, 18, 18), Err(DataError::ZeroReserve));
}

#[test]
fn oversized_reserves_are_out_of_range() {
    // reserve_quote * 10^36 cannot fit 128 bits.
    assert_eq!(reserve_price(1000, u128::MAX, 18, 0), Err(DataError::ValueTooLarge));
}

#[test]
fn pool_slot_order_follows_addresses() {
    let base_low = Address::new(0, 5);
    let quote_high = Address::new(0, 9);
    // Base owns slot 0 when its address sorts first.
    let p = pool_price(2000 * 1_000_000, 1000 * ONE, &base_low, &quote_high, 6, 18).unwrap();
    assert_eq!(p, ONE / 2);
    // With the addresses the other way round the slots swap roles.
    let base_high = Address::new(0, 9);
    let quote_low = Address::new(0, 5);
    let p = pool_price(1000 * ONE, 2000 * 1_000_000, &base_high, &quote_low, 6, 18).unwrap();
    assert_eq!(p, ONE / 2);
}

#[test]
fn route_quote_normalization() {
    // A router pays out 2 x 10^6 of a 6-decimal quote asset for one base
    // unit: price 2.0.
    assert_eq!(route_price(2_000_000, 6).unwrap(), 2 * ONE);
    // An 18-decimal quote asset needs no rescaling.
    assert_eq!(route_price(3 * ONE, 18).unwrap(), 3 * ONE);
    // A zero payout is a zero price, not an error.
    assert_eq!(route_price(0, 6).unwrap(), 0);
}

#[test]
fn route_quote_out_of_range() {
    assert_eq!(route_price(u128::MAX, 0), Err(DataError::ValueTooLarge));
}

#[test]
fn large_reserve_staged_division_is_exact() {
    // 10 quote units against 3 base units, both 18-decimal: the scaled
    // numerator is far beyond 128 bits, yet the staged division is exact.
    let p = reserve_price(3 * ONE, 10 * ONE, 18, 18).unwrap();
    assert_eq!(p, 3_333_333_333_333_333_333);
    // Reserves of millions of 18-decimal tokens stay in range.
    let p = reserve_price(5_000_000 * ONE, 10_000_000 * ONE, 18, 18).unwrap();
    assert_eq!(p, 2 * ONE);
}

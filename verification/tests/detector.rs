use arbscan::{compare, Config, FindingDetail, VenueQuote};

const ONE: u128 = 1_000_000_000_000_000_000;
const UNISWAP: u64 = 1;
const SUSHISWAP: u64 = 2;

fn quote(venue: u64, price: u128) -> VenueQuote {
    VenueQuote { venue, price, block: 100 }
}

fn default_eps() -> (u64, u64) {
    let c = Config::default();
    (c.eps_num, c.eps_den)
}

#[test]
fn test_find_arbitrage() {
    let (en, ed) = default_eps();

    // Uniswap quotes 1.0, SushiSwap quotes 1.2: buy on Uniswap, sell on SushiSwap.
    let quotes = vec![quote(UNISWAP, ONE), quote(SUSHISWAP, ONE / 5 * 6)];
    let f = compare("USDC".to_string(), &quotes, en, ed);
    assert_eq!(f.pair, "USDC");
    match f.detail {
        FindingDetail::Opportunity { buy_venue, sell_venue, low, high } => {
            assert_eq!(buy_venue, UNISWAP);
            assert_eq!(sell_venue, SUSHISWAP);
            assert_eq!(low, ONE);
            assert_eq!(high, ONE / 5 * 6);
        }
        _ => panic!("expected an opportunity"),
    }

    // Uniswap quotes 1.2, SushiSwap quotes 1.0: buy on SushiSwap, sell on Uniswap.
    let quotes = vec![quote(UNISWAP, ONE / 5 * 6), quote(SUSHISWAP, ONE)];
    let f = compare("USDC".to_string(), &quotes, en, ed);
    match f.detail {
        FindingDetail::Opportunity { buy_venue, sell_venue, low, high } => {
            assert_eq!(buy_venue, SUSHISWAP);
            assert_eq!(sell_venue, UNISWAP);
            assert_eq!(low, ONE);
            assert_eq!(high, ONE / 5 * 6);
        }
        _ => panic!("expected an opportunity"),
    }

    // Equal prices on both venues: no arbitrage opportunity for the pair.
    let quotes = vec![quote(UNISWAP, ONE), quote(SUSHISWAP, ONE)];
    let f = compare("USDC".to_string(), &quotes, en, ed);
    assert_eq!(f.detail, FindingDetail::NoOpportunity);
}

#[test]
fn equal_prices_no_opportunity() {
    let (en, ed) = default_eps();
    let quotes = vec![quote(1, 123_456), quote(2, 123_456)];
    let f = compare("WBTC".to_string(), &quotes, en, ed);
    assert_eq!(f.detail, FindingDetail::NoOpportunity);
}

#[test]
fn distinct_prices_identify_buy_side() {
    let (en, ed) = default_eps();
    let quotes = vec![quote(7, 3 * ONE), quote(9, 2 * ONE)];
    let f = compare("DAI".to_string(), &quotes, en, ed);
    match f.detail {
        FindingDetail::Opportunity { buy_venue, sell_venue, low, high } => {
            assert_eq!(buy_venue, 9);
            assert_eq!(sell_venue, 7);
            assert!(high >= low);
            assert_eq!(low, 2 * ONE);
            assert_eq!(high, 3 * ONE);
        }
        _ => panic!("expected an opportunity"),
    }
}

#[test]
fn swap_of_venue_order_is_symmetric() {
    let (en, ed) = default_eps();
    let a = quote(1, 11 * ONE / 10);
    let b = quote(2, 14 * ONE / 10);
    let fwd = compare("USDT".to_string(), &vec![a, b], en, ed);
    let rev = compare("USDT".to_string(), &vec![b, a], en, ed);
    assert_eq!(fwd.detail, rev.detail);
    match fwd.detail {
        FindingDetail::Opportunity { low, high, .. } => {
            // Same spread ratio either way: high / low == 1.4 / 1.1.
            assert_eq!(high * 11, low * 14);
        }
        _ => panic!("expected an opportunity"),
    }
}

#[test]
fn end_to_end_quotes() {
    let (en, ed) = default_eps();

    // Venue A quotes 1.0, venue B quotes 1.2: buy on A, sell on B, spread
    // ratio 1.2, premium 20%.
    let a = quote(1, ONE);
    let b = quote(2, 12 * ONE / 10);
    let f = compare("USDC".to_string(), &vec![a, b], en, ed);
    match f.detail {
        FindingDetail::Opportunity { buy_venue, sell_venue, low, high } => {
            assert_eq!(buy_venue, 1);
            assert_eq!(sell_venue, 2);
            assert_eq!(high * 10, low * 12);
            assert_eq!(f.detail.premium_bp(), Some(2000));
            assert_eq!(low, ONE);
            assert_eq!(high, 12 * ONE / 10);
        }
        _ => panic!("expected an opportunity"),
    }

    // Venue A quotes 1.2, venue B quotes 1.0: buy on B, sell on A.
    let a = quote(1, 12 * ONE / 10);
    let b = quote(2, ONE);
    let f = compare("USDC".to_string(), &vec![a, b], en, ed);
    match f.detail {
        FindingDetail::Opportunity { buy_venue, sell_venue, low, high } => {
            assert_eq!(buy_venue, 2);
            assert_eq!(sell_venue, 1);
            assert_eq!(high * 10, low * 12);
        }
        _ => panic!("expected an opportunity"),
    }

    // Equal quotes: no opportunity.
    let f = compare("USDC".to_string(), &vec![quote(1, ONE), quote(2, ONE)], en, ed);
    assert_eq!(f.detail, FindingDetail::NoOpportunity);

    // Venue A failed to quote, only venue B answered: insufficient data.
    let f = compare("USDC".to_string(), &vec![quote(2, ONE)], en, ed);
    assert_eq!(f.detail, FindingDetail::InsufficientData);

    // No venue answered at all.
    let f = compare("USDC".to_string(), &vec![], en, ed);
    assert_eq!(f.detail, FindingDetail::InsufficientData);
}

#[test]
fn tolerance_boundary() {
    let (en, ed) = default_eps();
    // One part in 10^18 above: inside the default one-in-a-billion tolerance.
    let f = compare("WETH".to_string(), &vec![quote(1, ONE), quote(2, ONE + 1)], en, ed);
    assert_eq!(f.detail, FindingDetail::NoOpportunity);
    // Exactly at the tolerance: (high - low) * den == low * num still counts
    // as equal.
    let f = compare("WETH".to_string(), &vec![quote(1, ONE), quote(2, ONE + 1_000_000_000)], en, ed);
    assert_eq!(f.detail, FindingDetail::NoOpportunity);
    // One above the tolerance: an opportunity.
    let f = compare(
        "WETH".to_string(),
        &vec![quote(1, ONE), quote(2, ONE + 1_000_000_001)],
        en,
        ed,
    );
    assert!(matches!(f.detail, FindingDetail::Opportunity { .. }));
    // A zero tolerance flags any difference.
    let f = compare("WETH".to_string(), &vec![quote(1, ONE), quote(2, ONE + 1)], 0, 1);
    assert!(matches!(f.detail, FindingDetail::Opportunity { .. }));
}

#[test]
fn tolerance_test_survives_huge_prices() {
    // The scaled products in the tolerance test exceed 128 bits here; the
    // comparison must still be exact.  low * num = 9 * 10^38 is beyond u128,
    // yet (high - low) * den = 2 * 10^38 lies below it: within tolerance.
    let low: u128 = 300_000_000_000_000_000_000_000_000_000_000_000_000;
    let high: u128 = low + 200_000_000_000_000_000_000_000_000_000;
    let f = compare("WBTC".to_string(), &vec![quote(1, low), quote(2, high)], 3, 1_000_000_000);
    assert_eq!(f.detail, FindingDetail::NoOpportunity);
    // A difference whose scaled value 4 * 10^38 is itself beyond u128 lies
    // outside a tolerance of one part in a billion of the same low price.
    let high: u128 = low + 400_000_000_000_000_000_000_000_000_000;
    let f = compare("WBTC".to_string(), &vec![quote(1, low), quote(2, high)], 1, 1_000_000_000);
    assert!(matches!(f.detail, FindingDetail::Opportunity { .. }));
}

#[test]
fn more_than_two_venues() {
    let (en, ed) = default_eps();
    let quotes = vec![quote(1, 5 * ONE), quote(2, 3 * ONE), quote(3, 4 * ONE), quote(4, 8 * ONE)];
    let f = compare("DAI".to_string(), &quotes, en, ed);
    match f.detail {
        FindingDetail::Opportunity { buy_venue, sell_venue, low, high } => {
            assert_eq!(buy_venue, 2);
            assert_eq!(sell_venue, 4);
            assert_eq!(low, 3 * ONE);
            assert_eq!(high, 8 * ONE);
        }
        _ => panic!("expected an opportunity"),
    }
}

#[test]
fn ties_go_to_the_first_venue_listed() {
    let quotes = vec![quote(1, 5), quote(2, 5), quote(3, 3)];
    let f = compare("DAI".to_string(), &quotes, 0, 1);
    match f.detail {
        FindingDetail::Opportunity { buy_venue, sell_venue, .. } => {
            assert_eq!(sell_venue, 1);
            assert_eq!(buy_venue, 3);
        }
        _ => panic!("expected an opportunity"),
    }
}

#[test]
fn premium_bp_edges() {
    assert_eq!(FindingDetail::NoOpportunity.premium_bp(), None);
    assert_eq!(FindingDetail::InsufficientData.premium_bp(), None);
    let z = FindingDetail::Opportunity { buy_venue: 1, sell_venue: 2, low: 0, high: 5 };
    assert_eq!(z.premium_bp(), None);
    let f = FindingDetail::Opportunity { buy_venue: 1, sell_venue: 2, low: 4, high: 5 };
    assert_eq!(f.premium_bp(), Some(2500));
}

#[test]
fn config_defaults() {
    let c = Config::default();
    assert_eq!(c.poll_interval_ms, 1000);
    assert_eq!(c.eps_num, 1);
    assert_eq!(c.eps_den, 1_000_000_000);
}

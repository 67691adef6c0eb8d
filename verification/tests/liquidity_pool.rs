use microfinance_platform::cross_chain_liquidity_pool::{CrossChainLiquidityPool, LiquidityStep};
use microfinance_platform::decimal::{Decimal, ATTOS_PER_UNIT};
use microfinance_platform::vault::Bucket;

fn dec(units: i128) -> Decimal {
    Decimal::from_attos(units * ATTOS_PER_UNIT)
}

#[test]
fn request_without_bridges_fails_when_short() {
    let mut p = CrossChainLiquidityPool::new(1);
    assert_eq!(p.request_liquidity(dec(5)), LiquidityStep::Exhausted);
    assert_eq!(p.request_liquidity(Decimal::zero()), LiquidityStep::Provided(Bucket { resource: 1, amount: Decimal::zero() }));
}

#[test]
fn bridges_are_asked_in_order_until_one_has_funds() {
    let mut p = CrossChainLiquidityPool::new(1);
    p.add_bridge("ethereum".to_string(), 100);
    p.add_bridge("cardano".to_string(), 200);
    p.add_bridge("polkadot".to_string(), 300);
    // re-adding a chain replaces its bridge and keeps its place
    p.add_bridge("cardano".to_string(), 201);

    assert_eq!(p.request_liquidity(dec(60)), LiquidityStep::AskBridge(0, 100, dec(60)));
    assert_eq!(p.receive_bridge_funds(dec(60), 0, Bucket::empty(1)), LiquidityStep::AskBridge(1, 201, dec(60)));
    let step = p.receive_bridge_funds(dec(60), 1, Bucket { resource: 1, amount: dec(100) });
    assert_eq!(step, LiquidityStep::Provided(Bucket { resource: 1, amount: dec(60) }));

    // 40 is left locally: a request of 30 is met at once
    assert_eq!(p.request_liquidity(dec(30)), LiquidityStep::Provided(Bucket { resource: 1, amount: dec(30) }));
    // 10 is left: a request of 20 asks the bridges again
    assert_eq!(p.request_liquidity(dec(20)), LiquidityStep::AskBridge(0, 100, dec(20)));
}

#[test]
fn every_bridge_empty_means_exhausted() {
    let mut p = CrossChainLiquidityPool::new(1);
    p.add_bridge("a".to_string(), 10);
    p.add_bridge("b".to_string(), 20);
    assert_eq!(p.request_liquidity(dec(1)), LiquidityStep::AskBridge(0, 10, dec(1)));
    assert_eq!(p.receive_bridge_funds(dec(1), 0, Bucket::empty(1)), LiquidityStep::AskBridge(1, 20, dec(1)));
    assert_eq!(p.receive_bridge_funds(dec(1), 1, Bucket::empty(1)), LiquidityStep::Exhausted);
}

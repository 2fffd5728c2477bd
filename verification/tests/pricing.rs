use oracle_contract::natural::Natural;
use oracle_contract::oracle::OracleContract;

#[test]
fn natural_round_trips_zero() {
    assert_eq!(Natural::from_u64(0).to_u64(), Some(0));
}

#[test]
fn natural_round_trips_one_limb() {
    assert_eq!(Natural::from_u64(1).to_u64(), Some(1));
    assert_eq!(Natural::from_u64(0xFFFF_FFFF).to_u64(), Some(0xFFFF_FFFF));
}

#[test]
fn natural_round_trips_two_limbs() {
    assert_eq!(Natural::from_u64(0x1_0000_0000).to_u64(), Some(0x1_0000_0000));
    assert_eq!(Natural::from_u64(u64::MAX).to_u64(), Some(u64::MAX));
}

#[test]
fn cost_of_first_star_is_base() {
    let engine = OracleContract::init();
    let price = engine.calculate_star_cost(0);
    assert_eq!(price.to_u64(), Some(100_000_000_000_000_000));
}

#[test]
fn cost_after_one_star_grows_by_half() {
    let engine = OracleContract::init();
    let price = engine.calculate_star_cost(1);
    assert_eq!(price.to_u64(), Some(150_000_000_000_000_000));
}

#[test]
fn cost_after_ten_stars_is_exact() {
    let engine = OracleContract::init();
    let price = engine.calculate_star_cost(10);
    assert_eq!(price.to_u64(), Some(5_766_503_906_250_000_000));
}

#[test]
fn cost_is_deterministic_across_calls() {
    let engine = OracleContract::init();
    let first = engine.calculate_star_cost(10).to_u64();
    let second = engine.calculate_star_cost(10).to_u64();
    assert_eq!(first, second);
}

#[test]
fn cost_keeps_growing_past_u64() {
    let engine = OracleContract::init();
    assert_eq!(
        engine.calculate_star_cost(12).to_u64(),
        Some(12_974_633_789_062_500_000)
    );
    assert_eq!(engine.calculate_star_cost(13).to_u64(), None);
    assert_eq!(engine.calculate_star_cost(20).to_u64(), None);
}

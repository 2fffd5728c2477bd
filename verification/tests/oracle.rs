use oracle_contract::oracle::{day_index, GiveStarError, NotFoundError, OracleContract, SECONDS_PER_DAY};

const ALICE: u64 = 1;
const BOB: u64 = 2;
const CAROL: u64 = 3;
const DAVE: u64 = 4;

#[test]
fn day_index_splits_at_midnight() {
    assert_eq!(day_index(0), 0);
    assert_eq!(day_index(SECONDS_PER_DAY - 1), 0);
    assert_eq!(day_index(SECONDS_PER_DAY), 1);
    assert_eq!(day_index(10 * SECONDS_PER_DAY + 5), 10);
}

#[test]
fn give_star_to_self_fails_and_mutates_nothing() {
    let mut engine = OracleContract::init();
    let outcome = engine.give_star(ALICE, ALICE, 100, true);
    assert_eq!(outcome, Err(GiveStarError::SelfGrant));
    assert_eq!(engine.get_stars(ALICE), 0);
    assert!(engine.get_top_users(10).is_empty());
}

#[test]
fn successful_grant_moves_exactly_one_star() {
    let mut engine = OracleContract::init();
    let outcome = engine.give_star(ALICE, BOB, 100, true);
    assert_eq!(outcome, Ok(()));
    assert_eq!(engine.get_stars(BOB), 1);
    assert_eq!(engine.get_stars(ALICE), 0);
    assert_eq!(engine.get_stars(CAROL), 0);
}

#[test]
fn failed_transfer_aborts_without_any_mutation() {
    let mut engine = OracleContract::init();
    let outcome = engine.give_star(ALICE, BOB, 100, false);
    assert_eq!(outcome, Err(GiveStarError::InsufficientFunds));
    assert_eq!(engine.get_stars(BOB), 0);
    // The failed attempt consumed none of the daily allowance: five
    // grants still go through afterwards.
    for _ in 0..5 {
        assert_eq!(engine.give_star(ALICE, BOB, 100, true), Ok(()));
    }
}

#[test]
fn sixth_grant_of_the_day_is_refused() {
    let mut engine = OracleContract::init();
    for _ in 0..5 {
        assert_eq!(engine.give_star(ALICE, BOB, 500, true), Ok(()));
    }
    let sixth = engine.give_star(ALICE, CAROL, 900, true);
    assert_eq!(sixth, Err(GiveStarError::DailyLimitExceeded));
    assert_eq!(engine.get_stars(BOB), 5);
    assert_eq!(engine.get_stars(CAROL), 0);
}

#[test]
fn daily_limit_resets_on_the_next_day() {
    let mut engine = OracleContract::init();
    for _ in 0..5 {
        assert_eq!(engine.give_star(ALICE, BOB, 500, true), Ok(()));
    }
    assert_eq!(
        engine.give_star(ALICE, BOB, 900, true),
        Err(GiveStarError::DailyLimitExceeded)
    );
    let next_day = engine.give_star(ALICE, BOB, 500 + SECONDS_PER_DAY, true);
    assert_eq!(next_day, Ok(()));
    assert_eq!(engine.get_stars(BOB), 6);
}

#[test]
fn limits_are_per_caller() {
    let mut engine = OracleContract::init();
    for _ in 0..5 {
        assert_eq!(engine.give_star(ALICE, BOB, 0, true), Ok(()));
    }
    assert_eq!(engine.give_star(CAROL, BOB, 0, true), Ok(()));
    assert_eq!(engine.get_stars(BOB), 6);
}

#[test]
fn check_star_grant_prices_without_mutating() {
    let mut engine = OracleContract::init();
    assert_eq!(engine.give_star(ALICE, BOB, 0, true), Ok(()));
    let price = engine.check_star_grant(CAROL, BOB, 0).unwrap();
    assert_eq!(price.to_u64(), Some(150_000_000_000_000_000));
    // Checking is a read: the price is still the same afterwards.
    let again = engine.check_star_grant(CAROL, BOB, 0).unwrap();
    assert_eq!(again.to_u64(), Some(150_000_000_000_000_000));
    assert_eq!(engine.get_stars(BOB), 1);
}

#[test]
fn check_star_grant_reports_refusals() {
    let mut engine = OracleContract::init();
    assert!(matches!(
        engine.check_star_grant(ALICE, ALICE, 0),
        Err(GiveStarError::SelfGrant)
    ));
    for _ in 0..5 {
        assert_eq!(engine.give_star(ALICE, BOB, 0, true), Ok(()));
    }
    assert!(matches!(
        engine.check_star_grant(ALICE, CAROL, 0),
        Err(GiveStarError::DailyLimitExceeded)
    ));
}

#[test]
fn top_users_of_empty_store_is_empty() {
    let engine = OracleContract::init();
    assert!(engine.get_top_users(5).is_empty());
}

#[test]
fn top_users_with_limit_zero_is_empty() {
    let mut engine = OracleContract::init();
    assert_eq!(engine.give_star(ALICE, BOB, 0, true), Ok(()));
    assert!(engine.get_top_users(0).is_empty());
}

#[test]
fn top_users_sorts_by_stars_then_account() {
    let mut engine = OracleContract::init();
    assert_eq!(engine.give_star(ALICE, BOB, 0, true), Ok(()));
    assert_eq!(engine.give_star(ALICE, BOB, 0, true), Ok(()));
    assert_eq!(engine.give_star(ALICE, DAVE, 0, true), Ok(()));
    assert_eq!(engine.give_star(ALICE, CAROL, 0, true), Ok(()));
    // BOB holds 2 stars; CAROL and DAVE hold 1 each and tie, so the
    // smaller account identifier (CAROL) comes first.
    assert_eq!(engine.get_top_users(10), vec![BOB, CAROL, DAVE]);
    assert_eq!(engine.get_top_users(2), vec![BOB, CAROL]);
    assert_eq!(engine.get_top_users(3), vec![BOB, CAROL, DAVE]);
}

#[test]
fn profile_is_returned_as_saved() {
    let mut engine = OracleContract::init();
    engine.save_profile(
        ALICE,
        "Alice".to_string(),
        "alice-linkedin".to_string(),
        "alice-github".to_string(),
        "alice-twitter".to_string(),
    );
    let profile = engine.get_profile(ALICE).unwrap();
    assert_eq!(profile.name, "Alice");
    assert_eq!(profile.linkedin, "alice-linkedin");
    assert_eq!(profile.github, "alice-github");
    assert_eq!(profile.twitter, "alice-twitter");
}

#[test]
fn profile_overwrite_replaces_every_field() {
    let mut engine = OracleContract::init();
    engine.save_profile(
        ALICE,
        "Alice".to_string(),
        "a".to_string(),
        "b".to_string(),
        "c".to_string(),
    );
    engine.save_profile(
        ALICE,
        "Alicia".to_string(),
        "x".to_string(),
        "y".to_string(),
        "z".to_string(),
    );
    let profile = engine.get_profile(ALICE).unwrap();
    assert_eq!(profile.name, "Alicia");
    assert_eq!(profile.linkedin, "x");
    assert_eq!(profile.github, "y");
    assert_eq!(profile.twitter, "z");
}

#[test]
fn missing_profile_is_not_found() {
    let engine = OracleContract::init();
    assert_eq!(engine.get_profile(BOB).err(), Some(NotFoundError));
}

#[test]
fn queries_are_idempotent() {
    let mut engine = OracleContract::init();
    engine.save_profile(
        ALICE,
        "Alice".to_string(),
        "a".to_string(),
        "b".to_string(),
        "c".to_string(),
    );
    assert_eq!(engine.give_star(ALICE, BOB, 0, true), Ok(()));
    assert_eq!(engine.get_stars(BOB), engine.get_stars(BOB));
    assert_eq!(engine.get_stars(BOB), 1);
    let first = engine.get_profile(ALICE).unwrap().name.clone();
    let second = engine.get_profile(ALICE).unwrap().name.clone();
    assert_eq!(first, second);
    assert_eq!(engine.get_top_users(5), engine.get_top_users(5));
}

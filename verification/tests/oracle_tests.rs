use lending_ledger::call::CallFailure;
use lending_ledger::oracle::{
    classify_feed_failure, get_token_price, refresh_price, set_token_price, update_token_price,
    OracleError, PriceOracle, PriceQuote, DEFAULT_TOKEN_PRICE, PRICE_SCALE,
};

#[test]
fn feed_failures_are_classed() {
    assert_eq!(
        classify_feed_failure(&CallFailure::NotSent),
        OracleError::Unreachable
    );
    assert_eq!(
        classify_feed_failure(&CallFailure::Rejected(6)),
        OracleError::Timeout
    );
    assert_eq!(
        classify_feed_failure(&CallFailure::Rejected(2)),
        OracleError::Unreachable
    );
    assert_eq!(
        classify_feed_failure(&CallFailure::Rejected(0)),
        OracleError::Unreachable
    );
    assert_eq!(
        classify_feed_failure(&CallFailure::Undecodable),
        OracleError::Unparseable
    );
}

#[test]
fn default_price_is_one_hundred() {
    let oracle = PriceOracle::default();
    assert_eq!(get_token_price(&oracle), 100);
    assert_eq!(DEFAULT_TOKEN_PRICE, 100);
    assert_eq!(PRICE_SCALE, 100);
}

#[test]
fn new_oracle_holds_the_configured_price() {
    let oracle = PriceOracle::new(2500, 17);
    assert_eq!(get_token_price(&oracle), 2500);
    assert_eq!(oracle.quote, PriceQuote { price: 2500, observed_at: 17 });
}

#[test]
fn set_token_price_overwrites() {
    let mut oracle = PriceOracle::default();
    set_token_price(&mut oracle, 250, 9);
    assert_eq!(get_token_price(&oracle), 250);
    assert_eq!(oracle.quote.observed_at, 9);
    set_token_price(&mut oracle, 0, 10);
    assert_eq!(get_token_price(&oracle), 0);
}

#[test]
fn update_token_price_overwrites() {
    let mut oracle = PriceOracle::default();
    update_token_price(&mut oracle, u64::MAX, 3);
    assert_eq!(oracle.quote, PriceQuote { price: u64::MAX, observed_at: 3 });
}

#[test]
fn refresh_with_a_price_replaces_the_quote() {
    let mut oracle = PriceOracle::new(100, 1);
    assert_eq!(refresh_price(&mut oracle, Ok(6_700_012), 50), Ok(()));
    assert_eq!(oracle.quote, PriceQuote { price: 6_700_012, observed_at: 50 });
}

#[test]
fn failed_refresh_leaves_the_price_unchanged() {
    for error in [
        OracleError::Unreachable,
        OracleError::Timeout,
        OracleError::Unparseable,
    ] {
        let mut oracle = PriceOracle::new(4200, 7);
        assert_eq!(refresh_price(&mut oracle, Err(error), 99), Err(error));
        assert_eq!(oracle.quote, PriceQuote { price: 4200, observed_at: 7 });
    }
}

use trading_engine::config::{
    Config, ConfigError, DEFAULT_POLLING_INTERVAL_SECS, DEFAULT_STOP_LOSS_BASIS_POINTS,
    DEFAULT_TAKE_PROFIT_BASIS_POINTS, DEFAULT_TRADE_LIMIT, DEFAULT_WINDOW_CAPACITY,
};
use trading_engine::price::Percent;

fn percent(basis_points: u32) -> Percent {
    Percent::from_basis_points(basis_points)
}

#[test]
fn valid_parameters_are_kept_as_given() {
    let config =
        Config::new("ETHUSDT".to_string(), 5, 20, percent(150), percent(450), 6).ok().unwrap();
    assert_eq!(config.symbol(), "ETHUSDT");
    assert_eq!(config.polling_interval_secs(), 5);
    assert_eq!(config.window_capacity(), 20);
    assert_eq!(config.stop_loss(), percent(150));
    assert_eq!(config.take_profit(), percent(450));
    assert_eq!(config.trade_limit(), 6);
}

#[test]
fn defaults_are_two_seconds_ten_prices_two_and_three_percent() {
    let config = Config::with_defaults("BTCUSDT".to_string());
    assert_eq!(config.symbol(), "BTCUSDT");
    assert_eq!(config.polling_interval_secs(), 2);
    assert_eq!(config.window_capacity(), 10);
    assert_eq!(config.stop_loss(), Percent::parse("2.00").unwrap());
    assert_eq!(config.take_profit(), Percent::parse("3.0").unwrap());
    assert_eq!(config.trade_limit(), 10);
    assert_eq!(DEFAULT_POLLING_INTERVAL_SECS, 2);
    assert_eq!(DEFAULT_WINDOW_CAPACITY, 10);
    assert_eq!(DEFAULT_STOP_LOSS_BASIS_POINTS, 200);
    assert_eq!(DEFAULT_TAKE_PROFIT_BASIS_POINTS, 300);
    assert_eq!(DEFAULT_TRADE_LIMIT, 10);
}

#[test]
fn zero_window_capacity_is_refused() {
    let outcome = Config::new("BTCUSDT".to_string(), 2, 0, percent(200), percent(300), 10);
    assert_eq!(outcome.err(), Some(ConfigError::ZeroWindowCapacity));
}

#[test]
fn zero_polling_interval_is_refused() {
    let outcome = Config::new("BTCUSDT".to_string(), 0, 10, percent(200), percent(300), 10);
    assert_eq!(outcome.err(), Some(ConfigError::ZeroPollingInterval));
}

#[test]
fn stop_loss_above_one_hundred_percent_is_refused() {
    let outcome = Config::new("BTCUSDT".to_string(), 2, 10, percent(10_001), percent(300), 10);
    assert_eq!(outcome.err(), Some(ConfigError::StopLossAboveFull));
    let outcome = Config::new("BTCUSDT".to_string(), 2, 10, percent(10_000), percent(300), 10);
    assert!(outcome.is_ok());
}

#[test]
fn first_broken_rule_is_reported() {
    let outcome = Config::new("BTCUSDT".to_string(), 0, 0, percent(20_000), percent(300), 10);
    assert_eq!(outcome.err(), Some(ConfigError::ZeroWindowCapacity));
    let outcome = Config::new("BTCUSDT".to_string(), 0, 1, percent(20_000), percent(300), 10);
    assert_eq!(outcome.err(), Some(ConfigError::ZeroPollingInterval));
}

#[test]
fn edge_values_are_accepted() {
    let config =
        Config::new(String::new(), 1, 1, percent(0), percent(u32::MAX), 0).ok().unwrap();
    assert_eq!(config.symbol(), "");
    assert_eq!(config.window_capacity(), 1);
    assert_eq!(config.polling_interval_secs(), 1);
    assert_eq!(config.take_profit(), percent(u32::MAX));
    assert_eq!(config.trade_limit(), 0);
}

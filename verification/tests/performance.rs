use trading_engine::ledger::{TradeAction, TradeLedger};
use trading_engine::performance::{evaluate_performance, TradePair};
use trading_engine::price::Price;

fn ledger_of(trades: &[(TradeAction, u64)]) -> TradeLedger {
    let mut ledger = TradeLedger::new();
    for (index, (action, units)) in trades.iter().enumerate() {
        ledger.record(*action, Price::from_units(*units), format!("t{}", index));
    }
    ledger
}

fn pair(sell: u64, buy: u64, profit: i128) -> TradePair {
    TradePair { sell_price: Price::from_units(sell), buy_price: Price::from_units(buy), profit }
}

#[test]
fn pairs_buys_with_sells_in_order() {
    let ledger = ledger_of(&[
        (TradeAction::Buy, 100),
        (TradeAction::Sell, 105),
        (TradeAction::Buy, 90),
        (TradeAction::Sell, 95),
    ]);
    let report = evaluate_performance(&ledger);
    assert_eq!(report.pairs, vec![pair(105, 100, 5), pair(95, 90, 5)]);
    assert_eq!(report.total_profit, 10);
}

#[test]
fn unmatched_sell_contributes_nothing() {
    let ledger = ledger_of(&[(TradeAction::Sell, 100)]);
    let report = evaluate_performance(&ledger);
    assert_eq!(report.pairs, vec![]);
    assert_eq!(report.total_profit, 0);
}

#[test]
fn empty_ledger_has_no_pairs() {
    let report = evaluate_performance(&TradeLedger::new());
    assert!(report.pairs.is_empty());
    assert_eq!(report.total_profit, 0);
}

#[test]
fn open_buy_contributes_nothing() {
    let ledger = ledger_of(&[(TradeAction::Buy, 100)]);
    let report = evaluate_performance(&ledger);
    assert!(report.pairs.is_empty());
    assert_eq!(report.total_profit, 0);
}

#[test]
fn trailing_buy_is_left_open() {
    let ledger =
        ledger_of(&[(TradeAction::Buy, 100), (TradeAction::Sell, 103), (TradeAction::Buy, 99)]);
    let report = evaluate_performance(&ledger);
    assert_eq!(report.pairs, vec![pair(103, 100, 3)]);
    assert_eq!(report.total_profit, 3);
}

#[test]
fn losses_are_negative() {
    let ledger = ledger_of(&[
        (TradeAction::Buy, 100),
        (TradeAction::Sell, 98),
        (TradeAction::Buy, 50),
        (TradeAction::Sell, 53),
    ]);
    let report = evaluate_performance(&ledger);
    assert_eq!(report.pairs, vec![pair(98, 100, -2), pair(53, 50, 3)]);
    assert_eq!(report.total_profit, 1);
}

#[test]
fn later_buy_replaces_an_open_buy() {
    let ledger =
        ledger_of(&[(TradeAction::Buy, 100), (TradeAction::Buy, 90), (TradeAction::Sell, 95)]);
    let report = evaluate_performance(&ledger);
    assert_eq!(report.pairs, vec![pair(95, 90, 5)]);
    assert_eq!(report.total_profit, 5);
}

#[test]
fn second_sell_in_a_row_is_passed_over() {
    let ledger = ledger_of(&[
        (TradeAction::Buy, 100),
        (TradeAction::Sell, 105),
        (TradeAction::Sell, 200),
        (TradeAction::Buy, 10),
        (TradeAction::Sell, 5),
    ]);
    let report = evaluate_performance(&ledger);
    assert_eq!(report.pairs, vec![pair(105, 100, 5), pair(5, 10, -5)]);
    assert_eq!(report.total_profit, 0);
}

#[test]
fn leading_sells_are_passed_over() {
    let ledger = ledger_of(&[
        (TradeAction::Sell, 1),
        (TradeAction::Sell, 2),
        (TradeAction::Buy, 10),
        (TradeAction::Sell, 12),
    ]);
    let report = evaluate_performance(&ledger);
    assert_eq!(report.pairs, vec![pair(12, 10, 2)]);
    assert_eq!(report.total_profit, 2);
}

#[test]
fn extreme_prices_do_not_overflow() {
    let ledger = ledger_of(&[
        (TradeAction::Buy, 0),
        (TradeAction::Sell, u64::MAX),
        (TradeAction::Buy, u64::MAX),
        (TradeAction::Sell, 0),
        (TradeAction::Buy, 0),
        (TradeAction::Sell, u64::MAX),
    ]);
    let report = evaluate_performance(&ledger);
    let span = u64::MAX as i128;
    assert_eq!(
        report.pairs,
        vec![pair(u64::MAX, 0, span), pair(0, u64::MAX, -span), pair(u64::MAX, 0, span)]
    );
    assert_eq!(report.total_profit, span);
}

#[test]
fn evaluation_leaves_the_ledger_as_it_was() {
    let ledger = ledger_of(&[(TradeAction::Buy, 100), (TradeAction::Sell, 105)]);
    let first = evaluate_performance(&ledger);
    let second = evaluate_performance(&ledger);
    assert_eq!(first, second);
    assert_eq!(ledger.len(), 2);
}

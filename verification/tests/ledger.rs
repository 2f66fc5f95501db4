use trading_engine::ledger::{log_trade, Trade, TradeAction, TradeLedger};
use trading_engine::price::Price;

#[test]
fn new_ledger_is_empty() {
    let ledger = TradeLedger::new();
    assert_eq!(ledger.len(), 0);
    assert!(ledger.is_empty());
    assert!(ledger.get(0).is_none());
    assert!(ledger.entries().is_empty());
}

#[test]
fn record_appends_in_order() {
    let mut ledger = TradeLedger::new();
    ledger.record(TradeAction::Buy, Price::from_units(100), "first".to_string());
    ledger.record(TradeAction::Sell, Price::from_units(105), "second".to_string());
    assert_eq!(ledger.len(), 2);
    assert!(!ledger.is_empty());
    assert_eq!(
        ledger.get(0),
        Some(&Trade {
            action: TradeAction::Buy,
            price: Price::from_units(100),
            timestamp: "first".to_string()
        })
    );
    assert_eq!(
        ledger.get(1),
        Some(&Trade {
            action: TradeAction::Sell,
            price: Price::from_units(105),
            timestamp: "second".to_string()
        })
    );
    assert_eq!(ledger.get(2), None);
    assert_eq!(ledger.entries().len(), 2);
    assert_eq!(ledger.entries()[1].timestamp, "second");
}

#[test]
fn record_rejects_nothing() {
    let mut ledger = TradeLedger::new();
    ledger.record(TradeAction::Sell, Price::from_units(0), String::new());
    ledger.record(TradeAction::Sell, Price::from_units(u64::MAX), String::new());
    ledger.record(TradeAction::Buy, Price::from_units(7), "not a time".to_string());
    assert_eq!(ledger.len(), 3);
    assert_eq!(ledger.entries()[1].price.units, u64::MAX);
}

#[test]
fn log_trade_appends_one_stamped_entry() {
    let mut ledger = TradeLedger::new();
    ledger.record(TradeAction::Buy, Price::from_units(100), "earlier".to_string());
    let before = chrono::Utc::now();
    log_trade(&mut ledger, TradeAction::Sell, Price::from_units(105));
    let after = chrono::Utc::now();
    assert_eq!(ledger.len(), 2);
    assert_eq!(ledger.entries()[0].timestamp, "earlier");
    let logged = &ledger.entries()[1];
    assert_eq!(logged.action, TradeAction::Sell);
    assert_eq!(logged.price, Price::from_units(105));
    let stamp = chrono::DateTime::parse_from_rfc3339(&logged.timestamp).unwrap();
    assert!(before <= stamp && stamp <= after);
    assert!(logged.timestamp.ends_with("+00:00"));
}

#[test]
fn log_trade_stamps_do_not_go_backwards() {
    let mut ledger = TradeLedger::new();
    for _ in 0..5 {
        log_trade(&mut ledger, TradeAction::Buy, Price::from_units(1));
    }
    let stamps: Vec<_> = ledger
        .entries()
        .iter()
        .map(|trade| chrono::DateTime::parse_from_rfc3339(&trade.timestamp).unwrap())
        .collect();
    for pair in stamps.windows(2) {
        assert!(pair[0] <= pair[1]);
    }
}

#[test]
fn trade_sides_are_shown_in_capitals() {
    assert_eq!(TradeAction::Buy.label(), "BUY");
    assert_eq!(TradeAction::Sell.label(), "SELL");
}

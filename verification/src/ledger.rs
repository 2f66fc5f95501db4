//! The append-only log of executed trades.

use crate::price::Price;
use vstd::prelude::*;

verus! {

/// The side of an executed trade.
#[derive(Clone, Copy, Debug, PartialEq, Eq, Structural, Hash)]
pub enum TradeAction {
    Buy,
    Sell,
}

impl TradeAction {
    /// The name under which a trade's side is shown: `BUY` or `SELL`.
    pub fn label(&self) -> (label: &'static str)
        ensures
            label@ == match self {
                TradeAction::Buy => "BUY"@,
                TradeAction::Sell => "SELL"@,
            },
    {
        match self {
            TradeAction::Buy => "BUY",
            TradeAction::Sell => "SELL",
        }
    }
}

/// One executed trade: what was done, at which price, and when.
#[derive(Debug, PartialEq, Eq)]
pub struct Trade {
    pub action: TradeAction,
    pub price: Price,
    pub timestamp: String,
}

/// The trades executed so far, oldest first. Entries are only ever added at
/// the end; none is changed or removed.
pub struct TradeLedger {
    trades: Vec<Trade>,
}

impl View for TradeLedger {
    type V = Seq<Trade>;

    closed spec fn view(&self) -> Seq<Trade> {
        self.trades@
    }
}

/// The price of the buy that is still waiting for its sell: the price of the
/// newest trade if that trade is a buy, and nothing otherwise.
pub open spec fn open_buy(trades: Seq<Trade>) -> Option<Price> {
    if trades.len() > 0 && trades.last().action is Buy {
        Some(trades.last().price)
    } else {
        None
    }
}

/// Whether buys and sells take turns in `trades`, starting with a buy.
pub open spec fn alternates(trades: Seq<Trade>) -> bool {
    forall|i: int|
        0 <= i < trades.len() ==> ((#[trigger] trades[i]).action is Buy <==> i % 2 == 0)
}

impl TradeLedger {
    /// A ledger without trades.
    pub fn new() -> (ledger: TradeLedger)
        ensures
            ledger@ == Seq::<Trade>::empty(),
    {
        TradeLedger { trades: Vec::new() }
    }

    /// Appends one trade as the newest entry. No input is rejected.
    pub fn record(&mut self, action: TradeAction, price: Price, timestamp: String)
        ensures
            final(self)@ == old(self)@.push(Trade { action, price, timestamp }),
    {
        self.trades.push(Trade { action, price, timestamp });
    }

    /// The number of trades recorded.
    pub fn len(&self) -> (count: usize)
        ensures
            count == self@.len(),
    {
        self.trades.len()
    }

    /// Whether no trade has been recorded.
    pub fn is_empty(&self) -> (empty: bool)
        ensures
            empty == (self@.len() == 0),
    {
        self.trades.len() == 0
    }

    /// The trade at `index`, counted from the oldest, if there is one.
    pub fn get(&self, index: usize) -> (entry: Option<&Trade>)
        ensures
            index < self@.len() ==> entry == Some(&self@[index as int]),
            index >= self@.len() ==> entry.is_none(),
    {
        if index < self.trades.len() {
            Some(&self.trades[index])
        } else {
            None
        }
    }

    /// All trades, oldest first.
    pub fn entries(&self) -> (trades: &Vec<Trade>)
        ensures
            trades@ == self@,
    {
        &self.trades
    }
}

/// Reads the wall clock with `chrono::Utc::now` and renders the instant with
/// `chrono::DateTime::to_rfc3339`.
///
/// Trusted, not proved. The text depends on the moment of the call, so
/// nothing is claimed about it. `Utc::now` gives up on a machine whose clock
/// is set before 1970.
#[verifier::external_body]
fn current_timestamp() -> (timestamp: String) {
    chrono::Utc::now().to_rfc3339()
}

/// Records a trade executed right now: stamps it with the current time and
/// appends it to `ledger`.
///
/// The timestamp is whatever the clock says; everything else about the new
/// entry, and all earlier entries, are fixed by the arguments.
pub fn log_trade(ledger: &mut TradeLedger, action: TradeAction, price: Price)
    ensures
        final(ledger)@.len() == old(ledger)@.len() + 1,
        final(ledger)@.drop_last() == old(ledger)@,
        final(ledger)@.last().action == action,
        final(ledger)@.last().price == price,
{
    let timestamp = current_timestamp();
    ledger.record(action, price, timestamp);
}

} // verus!

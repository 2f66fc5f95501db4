//! Pairing of buys with sells, and the profit realized by each pair.

use crate::ledger::{alternates, open_buy, Trade, TradeAction, TradeLedger};
use crate::price::Price;
use vstd::prelude::*;

verus! {

/// A buy together with the sell that closed it.
#[derive(Clone, Copy, Debug, PartialEq, Eq, Structural)]
pub struct TradePair {
    pub sell_price: Price,
    pub buy_price: Price,
    /// `sell_price - buy_price`, in price units.
    pub profit: i128,
}

/// The outcome of evaluating a ledger: its realized pairs in chronological
/// order and the sum of their profits.
#[derive(Debug, PartialEq, Eq)]
pub struct PerformanceReport {
    pub pairs: Vec<TradePair>,
    pub total_profit: i128,
}

/// The pair realized by buying at `buy` and selling at `sell`.
pub open spec fn realized(buy: Price, sell: Price) -> TradePair {
    TradePair { sell_price: sell, buy_price: buy, profit: (sell.units - buy.units) as i128 }
}

/// Whether the trade at position `at` is a sell that closes a buy: it is a
/// sell and the trade right before it is a buy. A sell that follows another
/// sell, or that opens the ledger, has nothing to close.
pub open spec fn settles(trades: Seq<Trade>, at: int) -> bool {
    &&& 1 <= at < trades.len()
    &&& trades[at].action is Sell
    &&& trades[at - 1].action is Buy
}

/// The pairs realized by a ledger, in the order of their sells.
pub open spec fn realized_pairs(trades: Seq<Trade>) -> Seq<TradePair>
    decreases trades.len(),
{
    if trades.len() == 0 {
        Seq::empty()
    } else {
        let earlier = realized_pairs(trades.drop_last());
        let at = trades.len() - 1;
        if settles(trades, at) {
            earlier.push(realized(trades[at - 1].price, trades[at].price))
        } else {
            earlier
        }
    }
}

/// The sum of the profits of `pairs`.
pub open spec fn profit_sum(pairs: Seq<TradePair>) -> int
    decreases pairs.len(),
{
    if pairs.len() == 0 {
        0
    } else {
        profit_sum(pairs.drop_last()) + pairs.last().profit
    }
}

/// Pairs every sell with the buy it closes and adds up the profits.
///
/// The ledger is read oldest to newest while remembering the buy that is
/// still open. A buy replaces whatever buy was open before it; a sell closes
/// the open buy, or is passed over if none is open.
pub fn evaluate_performance(ledger: &TradeLedger) -> (report: PerformanceReport)
    ensures
        report.pairs@ == realized_pairs(ledger@),
        report.total_profit == profit_sum(realized_pairs(ledger@)),
{
    let trades = ledger.entries();
    let count = trades.len();
    let mut pairs: Vec<TradePair> = Vec::new();
    let mut total_profit: i128 = 0;
    let mut pending_buy: Option<Price> = None;
    let mut index: usize = 0;
    while index < count
        invariant
            index <= count == trades@.len(),
            pairs@ == realized_pairs(trades@.take(index as int)),
            total_profit == profit_sum(pairs@),
            pending_buy == open_buy(trades@.take(index as int)),
            2 * pairs@.len() + (if pending_buy is Some { 1int } else { 0int }) <= index,
            -(pairs@.len() * 0x1_0000_0000_0000_0000) <= total_profit,
            total_profit <= pairs@.len() * 0x1_0000_0000_0000_0000,
        decreases count - index,
    {
        let trade = &trades[index];
        proof {
            let seen = trades@.take(index + 1);
            assert(seen.drop_last() =~= trades@.take(index as int));
            assert(seen.last() == trades@[index as int]);
            if index > 0 {
                assert(seen[index - 1] == trades@.take(index as int).last());
            }
        }
        match trade.action {
            TradeAction::Buy => {
                pending_buy = Some(trade.price);
            },
            TradeAction::Sell => {
                if let Some(buy_price) = pending_buy {
                    let profit: i128 = trade.price.units as i128 - buy_price.units as i128;
                    assert(pairs@.push(realized(buy_price, trade.price)).drop_last() =~= pairs@);
                    total_profit = total_profit + profit;
                    pairs.push(
                        TradePair { sell_price: trade.price, buy_price, profit },
                    );
                    pending_buy = None;
                }
            },
        }
        index = index + 1;
    }
    assert(trades@.take(count as int) =~= trades@);
    PerformanceReport { pairs, total_profit }
}

/// The state of a reader that goes through a ledger trade by trade: the buy
/// that is still open, the pairs realized so far, and their total profit.
pub struct Matching {
    pub pending_buy: Option<Price>,
    pub pairs: Seq<TradePair>,
    pub total_profit: int,
}

/// What one more trade does to the reader's state. A buy becomes the open
/// buy and replaces any earlier one. A sell closes the open buy and realizes
/// the difference; with no buy open it is passed over.
pub open spec fn matching_step(state: Matching, trade: Trade) -> Matching {
    match trade.action {
        TradeAction::Buy => Matching { pending_buy: Some(trade.price), ..state },
        TradeAction::Sell => match state.pending_buy {
            Some(buy_price) => Matching {
                pending_buy: None,
                pairs: state.pairs.push(realized(buy_price, trade.price)),
                total_profit: state.total_profit + (trade.price.units - buy_price.units),
            },
            None => state,
        },
    }
}

/// The reader's state after all of `trades`, read oldest to newest.
pub open spec fn matching(trades: Seq<Trade>) -> Matching
    decreases trades.len(),
{
    if trades.len() == 0 {
        Matching { pending_buy: None, pairs: Seq::empty(), total_profit: 0 }
    } else {
        matching_step(matching(trades.drop_last()), trades.last())
    }
}

/// Reading a ledger trade by trade while remembering the open buy realizes
/// exactly the pairs of [`realized_pairs`] and the total of their profits,
/// and the buy left open at the end is the one [`open_buy`] names.
pub proof fn lemma_matching_realizes_pairs(trades: Seq<Trade>)
    ensures
        matching(trades).pairs == realized_pairs(trades),
        matching(trades).total_profit == profit_sum(realized_pairs(trades)),
        matching(trades).pending_buy == open_buy(trades),
    decreases trades.len(),
{
    if trades.len() > 0 {
        let earlier = trades.drop_last();
        lemma_matching_realizes_pairs(earlier);
        if earlier.len() > 0 {
            assert(earlier.last() == trades[trades.len() - 2]);
        }
        if settles(trades, trades.len() - 1) {
            let pair = realized(earlier.last().price, trades.last().price);
            assert(realized_pairs(trades).drop_last() =~= realized_pairs(earlier));
            assert(pair.profit == trades.last().price.units - earlier.last().price.units);
        }
    }
}

/// Every pair takes two trades of its own, so a ledger realizes at most half
/// as many pairs as it holds trades, and one fewer if a buy is left open.
pub proof fn lemma_pairs_take_two_trades(trades: Seq<Trade>)
    ensures
        2 * realized_pairs(trades).len() + (if open_buy(trades) is Some {
            1int
        } else {
            0int
        }) <= trades.len(),
    decreases trades.len(),
{
    if trades.len() > 0 {
        let earlier = trades.drop_last();
        lemma_pairs_take_two_trades(earlier);
        if earlier.len() > 0 {
            assert(earlier.last() == trades[trades.len() - 2]);
        }
    }
}

/// A ledger without a buy realizes nothing: a sell that has no buy before it
/// yields no pair and no profit.
pub proof fn lemma_sells_alone_realize_nothing(trades: Seq<Trade>)
    requires
        forall|i: int| 0 <= i < trades.len() ==> (#[trigger] trades[i]).action is Sell,
    ensures
        realized_pairs(trades) == Seq::<TradePair>::empty(),
        profit_sum(realized_pairs(trades)) == 0,
    decreases trades.len(),
{
    if trades.len() > 0 {
        lemma_sells_alone_realize_nothing(trades.drop_last());
        if trades.len() > 1 {
            assert(trades[trades.len() - 2].action is Sell);
        }
    }
}

/// In a ledger where buys and sells take turns, starting with a buy, every
/// sell closes the buy right before it: there is one pair for every two
/// trades.
pub proof fn lemma_alternating_ledger_is_paired(trades: Seq<Trade>)
    requires
        alternates(trades),
    ensures
        realized_pairs(trades).len() == trades.len() / 2,
    decreases trades.len(),
{
    if trades.len() > 0 {
        let earlier = trades.drop_last();
        assert forall|i: int| 0 <= i < earlier.len() implies ((#[trigger] earlier[i]).action is Buy
            <==> i % 2 == 0) by {
            assert(earlier[i] == trades[i]);
        }
        lemma_alternating_ledger_is_paired(earlier);
        let at = trades.len() - 1;
        assert(trades[at].action is Buy <==> at % 2 == 0);
        if at > 0 {
            assert(trades[at - 1].action is Buy <==> (at - 1) % 2 == 0);
        }
    }
}

} // verus!

//! The decision engine: one price sample in, one decision out.
//!
//! The engine owns the rolling window, the position and the trade ledger, and
//! advances all three together on every sample. Fetching the samples and
//! pacing them is left to the caller.

use crate::config::Config;
use crate::decimal::ParseError;
use crate::ledger::{alternates, log_trade, open_buy, Trade, TradeLedger};
use crate::performance::{
    evaluate_performance, lemma_alternating_ledger_is_paired, profit_sum, realized_pairs,
    PerformanceReport,
};
use crate::position::{
    stop_reached, target_reached, PositionState, PositionStateMachine, Signal,
};
use crate::price::{price_reading, Price};
use crate::window::{
    after_appends, appended, lemma_appends_keep_latest, latest, mean_of, MovingAverage,
    RollingWindow,
};
use vstd::prelude::*;
use vstd::string::StringSliceAdditionalSpecFns;

verus! {

/// What the state machine was shown on a tick and what it decided.
#[derive(Clone, Copy, Debug, PartialEq, Eq, Structural)]
pub struct Evaluation {
    pub moving_average: MovingAverage,
    pub signal: Signal,
}

/// What happened on one tick: the price that was sampled and, unless the
/// window was empty, the evaluation made of it.
#[derive(Clone, Copy, Debug, PartialEq, Eq, Structural)]
pub struct TickReport {
    pub price: Price,
    pub evaluation: Option<Evaluation>,
}

/// The engine as plain values.
pub struct EngineState {
    pub machine: PositionStateMachine,
    pub capacity: nat,
    pub window: Seq<Price>,
    pub position: PositionState,
    pub ledger: Seq<Trade>,
    pub trade_limit: nat,
}

/// The position that goes with an open buy: long at its price, or flat if
/// there is none.
pub open spec fn position_for(open: Option<Price>) -> PositionState {
    match open {
        Some(entry_price) => PositionState::Long { entry_price },
        None => PositionState::Flat,
    }
}

/// The prices of a sequence of ticks, each tick being a price and the moment
/// it was sampled.
pub open spec fn prices_of(ticks: Seq<(Price, String)>) -> Seq<Price> {
    ticks.map_values(|tick: (Price, String)| tick.0)
}

/// The ledger after a tick that decided `signal` on `price` at the moment
/// `timestamp`: a buy or a sell is logged, a hold is not.
pub open spec fn logged(
    ledger: Seq<Trade>,
    signal: Signal,
    price: Price,
    timestamp: String,
) -> Seq<Trade> {
    match signal.action() {
        Some(action) => ledger.push(Trade { action, price, timestamp }),
        None => ledger,
    }
}

impl EngineState {
    /// What holds of the engine between any two ticks: the window respects
    /// its capacity, the position is long exactly when the newest trade is a
    /// buy, with that trade's price as entry price, and buys and sells take
    /// turns in the ledger.
    pub open spec fn wf(self) -> bool {
        &&& self.window.len() <= self.capacity
        &&& self.position == position_for(open_buy(self.ledger))
        &&& alternates(self.ledger)
    }

    /// The evaluation made when `price` is sampled, together with the
    /// position it leads to; nothing if the window stays empty.
    pub open spec fn decision(self, price: Price) -> Option<(Evaluation, PositionState)> {
        match mean_of(appended(self.window, price, self.capacity)) {
            Some(moving_average) => {
                let (signal, position) = self.machine.transition(
                    price,
                    moving_average,
                    self.position,
                );
                Some((Evaluation { moving_average, signal }, position))
            },
            None => None,
        }
    }

    /// The report of the tick on which `price` is sampled.
    pub open spec fn report(self, price: Price) -> TickReport {
        match self.decision(price) {
            Some((evaluation, _)) => TickReport { price, evaluation: Some(evaluation) },
            None => TickReport { price, evaluation: None },
        }
    }

    /// The engine after the tick on which `price` is sampled at the moment
    /// `timestamp`: the price enters the window, the position follows the
    /// decision, and a buy or sell is logged. Without a moving average only
    /// the window changes.
    pub open spec fn step(self, price: Price, timestamp: String) -> EngineState {
        let window = appended(self.window, price, self.capacity);
        match self.decision(price) {
            Some((evaluation, position)) => EngineState {
                window,
                position,
                ledger: logged(self.ledger, evaluation.signal, price, timestamp),
                ..self
            },
            None => EngineState { window, ..self },
        }
    }

    /// Whether enough trades have been logged for the run to end.
    pub open spec fn finished(self) -> bool {
        self.ledger.len() >= self.trade_limit
    }

    /// The engine after one tick for each element of `ticks`, in order.
    pub open spec fn run(self, ticks: Seq<(Price, String)>) -> EngineState
        decreases ticks.len(),
    {
        if ticks.len() == 0 {
            self
        } else {
            self.run(ticks.drop_last()).step(ticks.last().0, ticks.last().1)
        }
    }
}

/// The decision engine.
pub struct Engine {
    machine: PositionStateMachine,
    window: RollingWindow,
    position: PositionState,
    ledger: TradeLedger,
    trade_limit: usize,
}

impl View for Engine {
    type V = EngineState;

    closed spec fn view(&self) -> EngineState {
        EngineState {
            machine: self.machine,
            capacity: self.window.capacity() as nat,
            window: self.window@,
            position: self.position,
            ledger: self.ledger@,
            trade_limit: self.trade_limit as nat,
        }
    }
}

impl Engine {
    /// Whether the engine is in a state that [`Engine::new`] and the ticks
    /// can produce.
    pub closed spec fn wf(&self) -> bool {
        &&& self.window.wf()
        &&& self@.wf()
    }

    /// An engine for the given parameters: empty window, no position, empty
    /// ledger.
    pub fn new(config: &Config) -> (engine: Engine)
        ensures
            engine.wf(),
            engine@ == (EngineState {
                machine: PositionStateMachine {
                    stop_loss: config@.stop_loss,
                    take_profit: config@.take_profit,
                },
                capacity: config@.window_capacity as nat,
                window: Seq::empty(),
                position: PositionState::Flat,
                ledger: Seq::empty(),
                trade_limit: config@.trade_limit as nat,
            }),
            engine@.capacity >= 1,
    {
        Engine {
            machine: PositionStateMachine::new(config.stop_loss(), config.take_profit()),
            window: RollingWindow::new(config.window_capacity()),
            position: PositionState::Flat,
            ledger: TradeLedger::new(),
            trade_limit: config.trade_limit(),
        }
    }

    /// Appends `price` to the window and evaluates it against the moving
    /// average and the position. Position and ledger are left as they are.
    fn decide(&mut self, price: Price) -> (outcome: Option<(Evaluation, PositionState)>)
        requires
            old(self).wf(),
        ensures
            final(self).wf(),
            final(self)@ == (EngineState {
                window: appended(old(self)@.window, price, old(self)@.capacity),
                ..old(self)@
            }),
            outcome == old(self)@.decision(price),
    {
        self.window.append(price);
        match self.window.average() {
            Some(moving_average) => {
                let (signal, position) = self.machine.evaluate(
                    price,
                    moving_average,
                    self.position,
                );
                Some((Evaluation { moving_average, signal }, position))
            },
            None => None,
        }
    }

    /// Processes the price sampled at the moment `timestamp`: appends it to
    /// the window, evaluates it against the moving average and the position,
    /// and logs the trade if the decision is to buy or to sell.
    pub fn apply_price(&mut self, price: Price, timestamp: String) -> (report: TickReport)
        requires
            old(self).wf(),
        ensures
            final(self).wf(),
            final(self)@ == old(self)@.step(price, timestamp),
            report == old(self)@.report(price),
    {
        proof {
            lemma_step_keeps_wf(self@, price, timestamp);
        }
        match self.decide(price) {
            Some((evaluation, position)) => {
                if let Some(action) = evaluation.signal.action() {
                    self.ledger.record(action, price, timestamp);
                }
                self.position = position;
                TickReport { price, evaluation: Some(evaluation) }
            },
            None => TickReport { price, evaluation: None },
        }
    }

    /// Processes a price sampled right now. This is [`Engine::apply_price`]
    /// with the time of a logged trade read from the clock: everything but
    /// the timestamp of the newest trade is fixed by the engine and the
    /// price.
    pub fn on_price(&mut self, price: Price) -> (report: TickReport)
        requires
            old(self).wf(),
        ensures
            final(self).wf(),
            report == old(self)@.report(price),
            final(self)@ == old(self)@.step(price, final(self)@.ledger.last().timestamp),
    {
        match self.decide(price) {
            Some((evaluation, position)) => {
                let ghost decided = self@;
                if let Some(action) = evaluation.signal.action() {
                    log_trade(&mut self.ledger, action, price);
                }
                self.position = position;
                proof {
                    let timestamp = self@.ledger.last().timestamp;
                    if !(evaluation.signal is Hold) {
                        assert(self@.ledger =~= logged(
                            decided.ledger,
                            evaluation.signal,
                            price,
                            timestamp,
                        ));
                    }
                    lemma_step_keeps_wf(old(self)@, price, timestamp);
                }
                TickReport { price, evaluation: Some(evaluation) }
            },
            None => TickReport { price, evaluation: None },
        }
    }

    /// Processes a quoted price given as text. A text that is not a valid
    /// price is reported and leaves the engine untouched; a valid one is
    /// processed as by [`Engine::on_price`].
    pub fn on_quote(&mut self, text: &str) -> (outcome: Result<TickReport, ParseError>)
        requires
            old(self).wf(),
        ensures
            final(self).wf(),
            match price_reading(text.spec_bytes()) {
                Ok(price) => {
                    &&& outcome == Ok::<TickReport, ParseError>(old(self)@.report(price))
                    &&& final(self)@ == old(self)@.step(
                        price,
                        final(self)@.ledger.last().timestamp,
                    )
                },
                Err(error) => {
                    &&& outcome == Err::<TickReport, ParseError>(error)
                    &&& final(self)@ == old(self)@
                },
            },
    {
        match Price::parse(text) {
            Ok(price) => Ok(self.on_price(price)),
            Err(error) => Err(error),
        }
    }

    /// Whether enough trades have been logged for the run to end.
    pub fn is_finished(&self) -> (finished: bool)
        ensures
            finished == self@.finished(),
    {
        self.ledger.len() >= self.trade_limit
    }

    /// The current position.
    pub fn position(&self) -> (position: PositionState)
        ensures
            position == self@.position,
    {
        self.position
    }

    /// The rolling window of recent prices.
    pub fn window(&self) -> (window: &RollingWindow)
        ensures
            window@ == self@.window,
            window.capacity() == self@.capacity,
    {
        &self.window
    }

    /// The trades logged so far.
    pub fn ledger(&self) -> (ledger: &TradeLedger)
        ensures
            ledger@ == self@.ledger,
    {
        &self.ledger
    }

    /// The realized pairs and total profit of the trades logged so far.
    pub fn performance(&self) -> (report: PerformanceReport)
        ensures
            report.pairs@ == realized_pairs(self@.ledger),
            report.total_profit == profit_sum(realized_pairs(self@.ledger)),
    {
        evaluate_performance(&self.ledger)
    }
}

/// A tick takes a well-formed engine to a well-formed engine: after it the
/// window still respects its capacity, the entry price of a long position is
/// still the price of the newest, unmatched buy, and no two buys or two sells
/// follow each other in the ledger.
pub proof fn lemma_step_keeps_wf(before: EngineState, price: Price, timestamp: String)
    requires
        before.wf(),
    ensures
        before.step(price, timestamp).wf(),
{
    let after = before.step(price, timestamp);
    match before.decision(price) {
        Some(_) => {
            let count = before.ledger.len() as int;
            if count > 0 {
                assert(before.ledger[count - 1].action is Buy <==> (count - 1) % 2 == 0);
            }
            assert forall|i: int| 0 <= i < after.ledger.len() implies ((
            #[trigger] after.ledger[i]).action is Buy <==> i % 2 == 0) by {
                if i < count {
                    assert(after.ledger[i] == before.ledger[i]);
                }
            }
        },
        None => {},
    }
}

/// The invariant holds at every observation point: whatever prices arrive,
/// after each of them the engine is well formed.
pub proof fn lemma_run_keeps_wf(before: EngineState, ticks: Seq<(Price, String)>)
    requires
        before.wf(),
    ensures
        before.run(ticks).wf(),
        forall|seen: int|
            0 <= seen <= ticks.len() ==> (#[trigger] before.run(ticks.take(seen))).wf(),
{
    lemma_every_run_keeps_wf(before, ticks);
    assert forall|seen: int| 0 <= seen <= ticks.len() implies (#[trigger] before.run(
        ticks.take(seen),
    )).wf() by {
        lemma_every_run_keeps_wf(before, ticks.take(seen));
    }
}

proof fn lemma_every_run_keeps_wf(before: EngineState, ticks: Seq<(Price, String)>)
    requires
        before.wf(),
    ensures
        before.run(ticks).wf(),
    decreases ticks.len(),
{
    if ticks.len() > 0 {
        lemma_every_run_keeps_wf(before, ticks.drop_last());
        lemma_step_keeps_wf(before.run(ticks.drop_last()), ticks.last().0, ticks.last().1);
    }
}

/// A tick that decides to hold, or that cannot evaluate at all, changes
/// nothing but the window: position and ledger stay as they were.
pub proof fn lemma_hold_changes_only_window(before: EngineState, price: Price, timestamp: String)
    requires
        before.report(price).evaluation matches Some(evaluation) ==> evaluation.signal is Hold,
    ensures
        before.step(price, timestamp) == (EngineState {
            window: appended(before.window, price, before.capacity),
            ..before
        }),
{
}

/// An engine whose window can hold at least one price evaluates every tick.
pub proof fn lemma_every_tick_is_evaluated(before: EngineState, price: Price)
    requires
        before.capacity >= 1,
    ensures
        before.report(price).evaluation is Some,
{
}

/// In a well-formed engine every sell closes the buy logged right before it,
/// so the ledger realizes one pair for every two trades.
pub proof fn lemma_every_sell_is_paired(state: EngineState)
    requires
        state.wf(),
    ensures
        realized_pairs(state.ledger).len() == state.ledger.len() / 2,
{
    lemma_alternating_ledger_is_paired(state.ledger);
}

/// The ledger is append-only: a tick leaves every logged trade where and as
/// it was, and adds exactly one trade if it decides to buy or to sell and
/// none otherwise.
pub proof fn lemma_step_only_appends(before: EngineState, price: Price, timestamp: String)
    ensures
        ({
            let after = before.step(price, timestamp);
            let traded = before.report(price).evaluation matches Some(evaluation)
                && !(evaluation.signal is Hold);
            &&& after.ledger.take(before.ledger.len() as int) == before.ledger
            &&& after.ledger.len() == before.ledger.len() + if traded {
                1int
            } else {
                0int
            }
            &&& traded ==> after.ledger.last().price == price
        }),
{
    let after = before.step(price, timestamp);
    assert(after.ledger.take(before.ledger.len() as int) =~= before.ledger);
}

/// Over any number of ticks the ledger only grows at its end, by at most one
/// trade per tick, and the parameters of the engine stay what they were.
pub proof fn lemma_run_only_appends(before: EngineState, ticks: Seq<(Price, String)>)
    ensures
        ({
            let after = before.run(ticks);
            &&& before.ledger.len() <= after.ledger.len() <= before.ledger.len() + ticks.len()
            &&& after.ledger.take(before.ledger.len() as int) == before.ledger
            &&& after.machine == before.machine
            &&& after.capacity == before.capacity
            &&& after.trade_limit == before.trade_limit
        }),
    decreases ticks.len(),
{
    if ticks.len() > 0 {
        let earlier = before.run(ticks.drop_last());
        lemma_run_only_appends(before, ticks.drop_last());
        lemma_step_only_appends(earlier, ticks.last().0, ticks.last().1);
        let after = before.run(ticks);
        assert(after.ledger.take(before.ledger.len() as int) =~= earlier.ledger.take(
            before.ledger.len() as int,
        ));
    } else {
        assert(before.ledger.take(before.ledger.len() as int) =~= before.ledger);
    }
}

/// Over any number of ticks the window holds the last `capacity` of the
/// prices it held at the start and the prices sampled since, in order.
pub proof fn lemma_run_feeds_window(before: EngineState, ticks: Seq<(Price, String)>)
    requires
        before.window.len() <= before.capacity,
    ensures
        before.run(ticks).window == after_appends(
            before.window,
            before.capacity,
            prices_of(ticks),
        ),
        before.run(ticks).window == latest(before.window + prices_of(ticks), before.capacity),
    decreases ticks.len(),
{
    if ticks.len() > 0 {
        lemma_run_feeds_window(before, ticks.drop_last());
        lemma_run_only_appends(before, ticks.drop_last());
        assert(prices_of(ticks).drop_last() =~= prices_of(ticks.drop_last()));
    }
    lemma_appends_keep_latest(before.window, before.capacity, prices_of(ticks));
}

/// How a tick is decided. Without a position, the engine buys exactly when
/// the sampled price is strictly below the moving average of the updated
/// window, and the position it opens has the sampled price as entry price.
/// With a position, the moving average plays no part: the engine sells
/// exactly when the sampled price has reached the stop or the target around
/// the entry price, and otherwise keeps the position with its entry price.
pub proof fn lemma_tick_follows_position(before: EngineState, price: Price, timestamp: String)
    requires
        before.capacity >= 1,
    ensures
        ({
            let after = before.step(price, timestamp);
            let moving_average = mean_of(appended(before.window, price, before.capacity))->0;
            &&& before.report(price).evaluation matches Some(evaluation)
            &&& evaluation.moving_average == moving_average
            &&& match before.position {
                PositionState::Flat => if moving_average.exceeds(price) {
                    &&& evaluation.signal is Buy
                    &&& after.position == (PositionState::Long { entry_price: price })
                } else {
                    &&& evaluation.signal is Hold
                    &&& after.position is Flat
                },
                PositionState::Long { entry_price } => if stop_reached(
                    entry_price,
                    price,
                    before.machine.stop_loss,
                ) || target_reached(entry_price, price, before.machine.take_profit) {
                    &&& evaluation.signal is Sell
                    &&& after.position is Flat
                } else {
                    &&& evaluation.signal is Hold
                    &&& after.position == before.position
                },
            }
        }),
{
}

} // verus!

//! The position state machine: when to buy, when to sell, when to wait.

use crate::ledger::TradeAction;
use crate::price::{Percent, Price, FULL_BASIS_POINTS};
use crate::window::MovingAverage;
use vstd::prelude::*;

verus! {

/// Whether the strategy currently holds the asset, and at what price it was
/// bought. The entry price exists exactly while the position is long.
#[derive(Clone, Copy, Debug, PartialEq, Eq, Structural)]
pub enum PositionState {
    Flat,
    Long { entry_price: Price },
}

/// The decision taken on one price sample.
#[derive(Clone, Copy, Debug, PartialEq, Eq, Structural, Hash)]
pub enum Signal {
    Buy,
    Sell,
    Hold,
}

/// The state machine with its two risk brackets: how far the price may fall
/// below the entry price before the position is closed at a loss, and how far
/// it may rise above it before the position is closed at a profit.
#[derive(Clone, Copy, Debug, PartialEq, Eq, Structural)]
pub struct PositionStateMachine {
    pub stop_loss: Percent,
    pub take_profit: Percent,
}

/// Whether `current` is at or below the stop price
/// `entry * (1 - stop_loss / 100)`. Both sides are scaled by the number of
/// basis points in one hundred percent, so nothing is rounded.
pub open spec fn stop_reached(entry: Price, current: Price, stop_loss: Percent) -> bool {
    current.units * FULL_BASIS_POINTS <= entry.units * (FULL_BASIS_POINTS
        - stop_loss.basis_points)
}

/// Whether `current` is at or above the target price
/// `entry * (1 + take_profit / 100)`, scaled like [`stop_reached`].
pub open spec fn target_reached(entry: Price, current: Price, take_profit: Percent) -> bool {
    current.units * FULL_BASIS_POINTS >= entry.units * (FULL_BASIS_POINTS
        + take_profit.basis_points)
}

impl Signal {
    /// The name under which a signal is shown: `BUY`, `SELL` or `HOLD`.
    pub fn label(&self) -> (label: &'static str)
        ensures
            label@ == match self {
                Signal::Buy => "BUY"@,
                Signal::Sell => "SELL"@,
                Signal::Hold => "HOLD"@,
            },
    {
        match self {
            Signal::Buy => "BUY",
            Signal::Sell => "SELL",
            Signal::Hold => "HOLD",
        }
    }

    /// The trade a signal asks for: a buy or a sell is executed, a hold is
    /// not.
    pub open spec fn spec_action(&self) -> Option<TradeAction> {
        match self {
            Signal::Buy => Some(TradeAction::Buy),
            Signal::Sell => Some(TradeAction::Sell),
            Signal::Hold => None,
        }
    }

    /// The trade a signal asks for, if any.
    #[verifier::when_used_as_spec(spec_action)]
    pub fn action(&self) -> (action: Option<TradeAction>)
        ensures
            action == self.spec_action(),
    {
        match self {
            Signal::Buy => Some(TradeAction::Buy),
            Signal::Sell => Some(TradeAction::Sell),
            Signal::Hold => None,
        }
    }
}

impl PositionStateMachine {
    /// A machine with the given risk brackets.
    pub fn new(stop_loss: Percent, take_profit: Percent) -> (machine: PositionStateMachine)
        ensures
            machine.stop_loss == stop_loss,
            machine.take_profit == take_profit,
    {
        PositionStateMachine { stop_loss, take_profit }
    }

    /// The transition function. A long position is sold as soon as the price
    /// touches either bracket and held otherwise; without a position the
    /// asset is bought when the price is strictly below the moving average.
    pub open spec fn transition(
        self,
        current_price: Price,
        moving_average: MovingAverage,
        state: PositionState,
    ) -> (Signal, PositionState) {
        match state {
            PositionState::Long { entry_price } => {
                if stop_reached(entry_price, current_price, self.stop_loss) || target_reached(
                    entry_price,
                    current_price,
                    self.take_profit,
                ) {
                    (Signal::Sell, PositionState::Flat)
                } else {
                    (Signal::Hold, state)
                }
            },
            PositionState::Flat => {
                if moving_average.exceeds(current_price) {
                    (Signal::Buy, PositionState::Long { entry_price: current_price })
                } else {
                    (Signal::Hold, state)
                }
            },
        }
    }

    /// The state reached from `state` by evaluating the same price and moving
    /// average `times` times in a row.
    pub open spec fn settled(
        self,
        current_price: Price,
        moving_average: MovingAverage,
        state: PositionState,
        times: nat,
    ) -> PositionState
        decreases times,
    {
        if times == 0 {
            state
        } else {
            self.transition(
                current_price,
                moving_average,
                self.settled(current_price, moving_average, state, (times - 1) as nat),
            ).1
        }
    }

    /// Evaluates one price sample against the moving average and the current
    /// position, and returns the signal together with the next position.
    pub fn evaluate(
        &self,
        current_price: Price,
        moving_average: MovingAverage,
        state: PositionState,
    ) -> (decision: (Signal, PositionState))
        ensures
            decision == self.transition(current_price, moving_average, state),
    {
        match state {
            PositionState::Long { entry_price } => {
                if self.stop_hit(entry_price, current_price) || self.target_hit(
                    entry_price,
                    current_price,
                ) {
                    (Signal::Sell, PositionState::Flat)
                } else {
                    (Signal::Hold, state)
                }
            },
            PositionState::Flat => {
                if moving_average.exceeds(current_price) {
                    (Signal::Buy, PositionState::Long { entry_price: current_price })
                } else {
                    (Signal::Hold, state)
                }
            },
        }
    }

    /// Decides [`stop_reached`] for this machine's stop-loss bracket.
    pub fn stop_hit(&self, entry_price: Price, current_price: Price) -> (hit: bool)
        ensures
            hit == stop_reached(entry_price, current_price, self.stop_loss),
    {
        let loss = self.stop_loss.basis_points;
        if loss <= FULL_BASIS_POINTS {
            let kept: u32 = FULL_BASIS_POINTS - loss;
            current_price.times(FULL_BASIS_POINTS as u64) <= entry_price.times(kept as u64)
        } else {
            // The stop price is negative unless the entry price is zero.
            proof {
                let beyond: int = FULL_BASIS_POINTS - loss;
                let entry: int = entry_price.units as int;
                let current: int = current_price.units as int;
                assert(entry * beyond <= 0 && (entry * beyond == 0 <==> entry == 0))
                    by (nonlinear_arith)
                    requires
                        entry >= 0,
                        beyond < 0,
                ;
                assert(current * 10_000 >= 0 && (current * 10_000 == 0 <==> current == 0));
            }
            entry_price.units == 0 && current_price.units == 0
        }
    }

    /// Decides [`target_reached`] for this machine's take-profit bracket.
    pub fn target_hit(&self, entry_price: Price, current_price: Price) -> (hit: bool)
        ensures
            hit == target_reached(entry_price, current_price, self.take_profit),
    {
        let grown: u64 = FULL_BASIS_POINTS as u64 + self.take_profit.basis_points as u64;
        current_price.times(FULL_BASIS_POINTS as u64) >= entry_price.times(grown)
    }
}

/// A buy is only ever signalled without a position and opens one at the
/// evaluated price; a sell is only ever signalled with a position and closes
/// it; a hold leaves the position exactly as it was.
pub proof fn lemma_signal_matches_position(
    machine: PositionStateMachine,
    current_price: Price,
    moving_average: MovingAverage,
    state: PositionState,
)
    ensures
        ({
            let (signal, next) = machine.transition(current_price, moving_average, state);
            &&& signal is Buy ==> state is Flat && next == (PositionState::Long {
                entry_price: current_price,
            })
            &&& signal is Sell ==> state is Long && next is Flat
            &&& signal is Hold ==> next == state
        }),
{
}

/// Evaluating is repeatable: if a price and moving average make the machine
/// hold in some state, then evaluating them again any number of times keeps
/// answering hold and never moves the state.
pub proof fn lemma_hold_is_stable(
    machine: PositionStateMachine,
    current_price: Price,
    moving_average: MovingAverage,
    state: PositionState,
    times: nat,
)
    requires
        machine.transition(current_price, moving_average, state).0 is Hold,
    ensures
        machine.settled(current_price, moving_average, state, times) == state,
        machine.transition(
            current_price,
            moving_average,
            machine.settled(current_price, moving_average, state, times),
        ) == (Signal::Hold, state),
    decreases times,
{
    if times > 0 {
        lemma_hold_is_stable(machine, current_price, moving_average, state, (times - 1) as nat);
    }
}

/// Both brackets are inclusive: a long position is sold at a price exactly
/// on the stop price and at a price exactly on the target price, whatever
/// the moving average.
pub proof fn lemma_brackets_are_inclusive(
    machine: PositionStateMachine,
    entry_price: Price,
    current_price: Price,
    moving_average: MovingAverage,
)
    requires
        current_price.units * FULL_BASIS_POINTS == entry_price.units * (FULL_BASIS_POINTS
            - machine.stop_loss.basis_points) || current_price.units * FULL_BASIS_POINTS
            == entry_price.units * (FULL_BASIS_POINTS + machine.take_profit.basis_points),
    ensures
        machine.transition(
            current_price,
            moving_average,
            PositionState::Long { entry_price },
        ) == (Signal::Sell, PositionState::Flat),
{
}

/// A long position is held at every price strictly between the stop price
/// and the target price, whatever the moving average.
pub proof fn lemma_long_holds_between_brackets(
    machine: PositionStateMachine,
    entry_price: Price,
    current_price: Price,
    moving_average: MovingAverage,
)
    requires
        entry_price.units * (FULL_BASIS_POINTS - machine.stop_loss.basis_points)
            < current_price.units * FULL_BASIS_POINTS,
        current_price.units * FULL_BASIS_POINTS < entry_price.units * (FULL_BASIS_POINTS
            + machine.take_profit.basis_points),
    ensures
        machine.transition(
            current_price,
            moving_average,
            PositionState::Long { entry_price },
        ) == (Signal::Hold, PositionState::Long { entry_price }),
{
}

} // verus!

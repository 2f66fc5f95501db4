//! The externally settable parameters of the engine, validated once.

use crate::price::{Percent, FULL_BASIS_POINTS};
use vstd::prelude::*;

verus! {

/// The polling interval used when none is given, in seconds.
pub const DEFAULT_POLLING_INTERVAL_SECS: u64 = 2;

/// The window capacity used when none is given.
pub const DEFAULT_WINDOW_CAPACITY: usize = 10;

/// The stop-loss bracket used when none is given: two percent.
pub const DEFAULT_STOP_LOSS_BASIS_POINTS: u32 = 200;

/// The take-profit bracket used when none is given: three percent.
pub const DEFAULT_TAKE_PROFIT_BASIS_POINTS: u32 = 300;

/// The number of logged trades after which a run ends when none is given.
pub const DEFAULT_TRADE_LIMIT: usize = 10;

/// Why a set of parameters was refused.
#[derive(Clone, Copy, Debug, PartialEq, Eq, Structural, Hash)]
pub enum ConfigError {
    /// The rolling window would hold no price at all.
    ZeroWindowCapacity,
    /// The polling interval is zero.
    ZeroPollingInterval,
    /// The stop-loss bracket exceeds one hundred percent, which would put the
    /// stop price below zero.
    StopLossAboveFull,
}

/// The parameters of an engine as plain values.
pub struct Settings {
    pub symbol: Seq<char>,
    pub polling_interval_secs: u64,
    pub window_capacity: usize,
    pub stop_loss: Percent,
    pub take_profit: Percent,
    pub trade_limit: usize,
}

impl Settings {
    /// The first rule these parameters break, if any: the window holds at
    /// least one price, the polling interval is positive, and the stop-loss
    /// bracket is at most one hundred percent.
    pub open spec fn rejection(self) -> Option<ConfigError> {
        if self.window_capacity == 0 {
            Some(ConfigError::ZeroWindowCapacity)
        } else if self.polling_interval_secs == 0 {
            Some(ConfigError::ZeroPollingInterval)
        } else if self.stop_loss.basis_points > FULL_BASIS_POINTS {
            Some(ConfigError::StopLossAboveFull)
        } else {
            None
        }
    }

    /// Whether these parameters break no rule.
    pub open spec fn valid(self) -> bool {
        self.rejection() is None
    }
}

/// A validated set of engine parameters. A value of this type exists only
/// for parameters that break no rule.
pub struct Config {
    symbol: String,
    polling_interval_secs: u64,
    window_capacity: usize,
    stop_loss: Percent,
    take_profit: Percent,
    trade_limit: usize,
}

impl View for Config {
    type V = Settings;

    closed spec fn view(&self) -> Settings {
        Settings {
            symbol: self.symbol@,
            polling_interval_secs: self.polling_interval_secs,
            window_capacity: self.window_capacity,
            stop_loss: self.stop_loss,
            take_profit: self.take_profit,
            trade_limit: self.trade_limit,
        }
    }
}

impl Config {
    #[verifier::type_invariant]
    closed spec fn obeys_rules(&self) -> bool {
        self@.valid()
    }

    /// Validates the given parameters. The first broken rule, in the order
    /// window capacity, polling interval, stop-loss bracket, is reported;
    /// parameters that break none are accepted as they are.
    pub fn new(
        symbol: String,
        polling_interval_secs: u64,
        window_capacity: usize,
        stop_loss: Percent,
        take_profit: Percent,
        trade_limit: usize,
    ) -> (outcome: Result<Config, ConfigError>)
        ensures
            match outcome {
                Ok(config) => config@.valid() && config@ == (Settings {
                    symbol: symbol@,
                    polling_interval_secs,
                    window_capacity,
                    stop_loss,
                    take_profit,
                    trade_limit,
                }),
                Err(error) => (Settings {
                    symbol: symbol@,
                    polling_interval_secs,
                    window_capacity,
                    stop_loss,
                    take_profit,
                    trade_limit,
                }).rejection() == Some(error),
            },
    {
        if window_capacity == 0 {
            Err(ConfigError::ZeroWindowCapacity)
        } else if polling_interval_secs == 0 {
            Err(ConfigError::ZeroPollingInterval)
        } else if stop_loss.basis_points > FULL_BASIS_POINTS {
            Err(ConfigError::StopLossAboveFull)
        } else {
            Ok(
                Config {
                    symbol,
                    polling_interval_secs,
                    window_capacity,
                    stop_loss,
                    take_profit,
                    trade_limit,
                },
            )
        }
    }

    /// The parameters for `symbol` with every other setting at its default.
    pub fn with_defaults(symbol: String) -> (config: Config)
        ensures
            config@.valid(),
            config@ == (Settings {
                symbol: symbol@,
                polling_interval_secs: DEFAULT_POLLING_INTERVAL_SECS,
                window_capacity: DEFAULT_WINDOW_CAPACITY,
                stop_loss: Percent { basis_points: DEFAULT_STOP_LOSS_BASIS_POINTS },
                take_profit: Percent { basis_points: DEFAULT_TAKE_PROFIT_BASIS_POINTS },
                trade_limit: DEFAULT_TRADE_LIMIT,
            }),
    {
        Config {
            symbol,
            polling_interval_secs: DEFAULT_POLLING_INTERVAL_SECS,
            window_capacity: DEFAULT_WINDOW_CAPACITY,
            stop_loss: Percent { basis_points: DEFAULT_STOP_LOSS_BASIS_POINTS },
            take_profit: Percent { basis_points: DEFAULT_TAKE_PROFIT_BASIS_POINTS },
            trade_limit: DEFAULT_TRADE_LIMIT,
        }
    }

    /// The identifier of the traded asset.
    pub fn symbol(&self) -> (symbol: &str)
        ensures
            symbol@ == self@.symbol,
    {
        self.symbol.as_str()
    }

    /// The pause between two price samples, in seconds; never zero.
    pub fn polling_interval_secs(&self) -> (seconds: u64)
        ensures
            seconds == self@.polling_interval_secs,
            seconds >= 1,
    {
        proof {
            use_type_invariant(self);
        }
        self.polling_interval_secs
    }

    /// The capacity of the rolling window; never zero.
    pub fn window_capacity(&self) -> (capacity: usize)
        ensures
            capacity == self@.window_capacity,
            capacity >= 1,
    {
        proof {
            use_type_invariant(self);
        }
        self.window_capacity
    }

    /// The stop-loss bracket; never above one hundred percent.
    pub fn stop_loss(&self) -> (bracket: Percent)
        ensures
            bracket == self@.stop_loss,
            bracket.basis_points <= FULL_BASIS_POINTS,
    {
        proof {
            use_type_invariant(self);
        }
        self.stop_loss
    }

    /// The take-profit bracket.
    pub fn take_profit(&self) -> (bracket: Percent)
        ensures
            bracket == self@.take_profit,
    {
        self.take_profit
    }

    /// The number of logged trades after which a run ends.
    pub fn trade_limit(&self) -> (limit: usize)
        ensures
            limit == self@.trade_limit,
    {
        self.trade_limit
    }
}

} // verus!

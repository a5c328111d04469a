//! The closed vocabularies of the engine: tradable symbols, candle
//! granularities and the command a strategy can give.

use vstd::prelude::*;
use vstd::string::StringExecFns;

verus! {

/// A tradable instrument.
#[derive(Clone, Copy, Debug, PartialEq, Eq, Structural, Hash)]
pub enum Symbol {
    SolUsdt,
    BtcUsdt,
    EthUsdt,
    BnbUsdt,
}

/// How many distinct symbols exist.
pub const SYMBOL_COUNT: usize = 4;

impl Symbol {
    /// Stable position of this symbol among all symbols.
    pub open spec fn spec_index(self) -> int {
        match self {
            Symbol::SolUsdt => 0,
            Symbol::BtcUsdt => 1,
            Symbol::EthUsdt => 2,
            Symbol::BnbUsdt => 3,
        }
    }

    /// Stable position of this symbol among all symbols.
    pub fn index(&self) -> (r: usize)
        ensures
            r == self.spec_index(),
            r < SYMBOL_COUNT,
    {
        match self {
            Symbol::SolUsdt => 0,
            Symbol::BtcUsdt => 1,
            Symbol::EthUsdt => 2,
            Symbol::BnbUsdt => 3,
        }
    }

    /// The exchange's ticker name of this symbol.
    pub fn to_string(&self) -> (r: String)
        ensures
            self == Symbol::SolUsdt ==> r@ == "SOLUSDT"@,
            self == Symbol::BtcUsdt ==> r@ == "BTCUSDT"@,
            self == Symbol::EthUsdt ==> r@ == "ETHUSDT"@,
            self == Symbol::BnbUsdt ==> r@ == "BNBUSDT"@,
    {
        match self {
            Symbol::SolUsdt => String::from_str("SOLUSDT"),
            Symbol::BtcUsdt => String::from_str("BTCUSDT"),
            Symbol::EthUsdt => String::from_str("ETHUSDT"),
            Symbol::BnbUsdt => String::from_str("BNBUSDT"),
        }
    }
}

/// A candle granularity; it fixes both the data-refresh cadence and the
/// bot-scan cadence through a modulo rule on the wall-clock minute.
#[derive(Clone, Copy, Debug, PartialEq, Eq, Structural, Hash, PartialOrd, Ord)]
pub enum Timeframe {
    Min1,
    Min5,
    Min15,
    Min30,
    Hour1,
}

/// How many distinct timeframes exist.
pub const TIMEFRAME_COUNT: usize = 5;

impl Timeframe {
    /// Stable position of this timeframe among all timeframes, in increasing
    /// granularity.
    pub open spec fn spec_index(self) -> int {
        match self {
            Timeframe::Min1 => 0,
            Timeframe::Min5 => 1,
            Timeframe::Min15 => 2,
            Timeframe::Min30 => 3,
            Timeframe::Hour1 => 4,
        }
    }

    /// Stable position of this timeframe among all timeframes.
    pub fn index(&self) -> (r: usize)
        ensures
            r == self.spec_index(),
            r < TIMEFRAME_COUNT,
    {
        match self {
            Timeframe::Min1 => 0,
            Timeframe::Min5 => 1,
            Timeframe::Min15 => 2,
            Timeframe::Min30 => 3,
            Timeframe::Hour1 => 4,
        }
    }

    /// The exchange's interval name of this timeframe.
    pub fn to_string(&self) -> (r: &'static str)
        ensures
            self == Timeframe::Min1 ==> r@ == "1m"@,
            self == Timeframe::Min5 ==> r@ == "5m"@,
            self == Timeframe::Min15 ==> r@ == "15m"@,
            self == Timeframe::Min30 ==> r@ == "30m"@,
            self == Timeframe::Hour1 ==> r@ == "1h"@,
    {
        match self {
            Timeframe::Min1 => "1m",
            Timeframe::Min5 => "5m",
            Timeframe::Min15 => "15m",
            Timeframe::Min30 => "30m",
            Timeframe::Hour1 => "1h",
        }
    }
}

/// What a strategy tells the scheduler to do; doubles as the side of an open
/// position (`Wait` marks a bot without one).
#[derive(Clone, Copy, Debug, PartialEq, Eq, Structural, Hash)]
pub enum OrderCommand {
    Long,
    Short,
    Wait,
}

impl OrderCommand {
    /// Human-readable name of this command.
    pub fn to_string(&self) -> (r: String)
        ensures
            self == OrderCommand::Long ==> r@ == "Long"@,
            self == OrderCommand::Short ==> r@ == "Short"@,
            self == OrderCommand::Wait ==> r@ == "Wait"@,
    {
        match self {
            OrderCommand::Long => String::from_str("Long"),
            OrderCommand::Short => String::from_str("Short"),
            OrderCommand::Wait => String::from_str("Wait"),
        }
    }
}

} // verus!

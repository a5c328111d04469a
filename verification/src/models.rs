//! Data carried between the engine's components: candles, closed orders,
//! per-tick indicator state and aggregated statistics.

use vstd::prelude::*;
use crate::enums::{Symbol, Timeframe, SYMBOL_COUNT};
use crate::fixed::MONEY_MAX;
use crate::ta;

verus! {

/// One OHLCV sample; produced by the market-data collaborator, consumed
/// read-only.
#[derive(Clone, Copy, Debug, PartialEq, Eq, Structural)]
pub struct Candle {
    pub close: i64,
    pub open: i64,
    pub high: i64,
    pub low: i64,
    pub open_time: u64,
    pub volume: i64,
}

/// Immutable record of one closed trade, created exactly once per position
/// close and handed to the persistence collaborator.
#[derive(Clone, Debug)]
pub struct Order {
    pub symbol: crate::enums::Symbol,
    pub order_type: crate::enums::OrderCommand,
    pub bot_name: String,
    pub entry_price: i64,
    pub exit_price: i64,
    pub quantity: i64,
    pub pnl: i64,
    pub roe: i64,
    pub created_at: i64,
    pub closed_at: i64,
    pub fee: i64,
    pub leverage: i64,
}

/// One persisted daily row of a bot's performance.
#[derive(Clone, Debug)]
pub struct StatisticResult {
    pub name: String,
    pub capital: i64,
    pub wins: u16,
    pub losses: u16,
    pub start_time: i64,
    pub end_time: i64,
}

/// Aggregated history of one bot name.
#[derive(Clone, Debug)]
pub struct BotStatistic {
    pub bot_name: String,
    pub win_days: u16,
    pub lose_days: u16,
    pub capital: i64,
    pub results: Vec<StatisticResult>,
}

/// The whole fleet's aggregated history.
#[derive(Clone, Debug)]
pub struct Statistic {
    pub bot_statistics: Vec<BotStatistic>,
}

/// The three MACD series of one group, index-aligned with its candles.
#[derive(Clone, Debug)]
pub struct Macd {
    pub macd: Vec<i64>,
    pub signal: Vec<i64>,
    pub histogram: Vec<i64>,
}

/// The three cached EMA series of one group.
#[derive(Clone, Debug)]
pub struct EmaSet {
    pub ema20: Vec<i64>,
    pub ema50: Vec<i64>,
    pub ema200: Vec<i64>,
}

/// How many (timeframe, symbol) groups exist.
pub const NUM_GROUPS: usize = 20;

/// The slot a (timeframe, symbol) group occupies in the per-tick caches.
pub open spec fn spec_group_index(timeframe: Timeframe, symbol: Symbol) -> int {
    timeframe.spec_index() * SYMBOL_COUNT as int + symbol.spec_index()
}

/// The slot a (timeframe, symbol) group occupies in the per-tick caches.
pub fn group_index(timeframe: &Timeframe, symbol: &Symbol) -> (r: usize)
    ensures
        r == spec_group_index(*timeframe, *symbol),
        r < NUM_GROUPS,
{
    timeframe.index() * SYMBOL_COUNT + symbol.index()
}

/// The closing prices of a candle sequence.
pub open spec fn spec_closes(candles: Seq<Candle>) -> Seq<i64> {
    candles.map_values(|c: Candle| c.close)
}

/// Whether every value of a series is a plausible price: non-negative and
/// within the representable band.
pub open spec fn spec_prices_ok(prices: Seq<i64>) -> bool {
    forall|i: int| 0 <= i < prices.len() ==> 0 <= #[trigger] prices[i] <= MONEY_MAX
}

/// Minimum candle count a group needs before its indicators are computed;
/// enough history for the slowest cached average.
pub const MIN_INDICATOR_CANDLES: usize = 200;

/// Per-tick cache of candles and derived indicators, one slot per
/// (timeframe, symbol) group; rebuilt every entry-scheduler tick and owned
/// by it for the duration of the tick.
#[derive(Debug)]
pub struct StrategyContainer {
    pub candles_map: Vec<Option<Vec<Candle>>>,
    pub macd: Vec<Option<Macd>>,
    pub ema: Vec<Option<EmaSet>>,
}

impl StrategyContainer {
    /// The container always holds exactly one slot per group.
    pub open spec fn wf(self) -> bool {
        &&& self.candles_map@.len() == NUM_GROUPS
        &&& self.macd@.len() == NUM_GROUPS
        &&& self.ema@.len() == NUM_GROUPS
    }

    /// The candles cached for a group, as a sequence.
    pub open spec fn spec_candles_at(self, g: int) -> Option<Seq<Candle>> {
        match self.candles_map@[g] {
            Some(v) => Some(v@),
            None => None,
        }
    }

    /// Whether a group's cached candles are fit for indicator computation.
    pub open spec fn spec_group_ready(self, g: int) -> bool {
        match self.spec_candles_at(g) {
            Some(c) => spec_prices_ok(spec_closes(c)) && c.len() >= MIN_INDICATOR_CANDLES,
            None => false,
        }
    }

    /// Whether a cached MACD value is exactly the MACD of the closes.
    pub open spec fn spec_macd_matches(m: Macd, closes: Seq<i64>) -> bool {
        &&& m.macd@.len() == closes.len()
        &&& m.signal@.len() == closes.len()
        &&& m.histogram@.len() == closes.len()
        &&& m.macd@ == ta::spec_macd_seq(closes)
        &&& forall|i: int| 0 <= i < closes.len() ==> #[trigger] m.signal@[i] == ta::spec_signal_at(
            closes,
            i,
        )
        &&& forall|i: int| 0 <= i < closes.len() ==> #[trigger] m.histogram@[i] == m.macd@[i]
            - m.signal@[i]
    }

    /// Whether a cached EMA set is exactly the EMAs of the closes.
    pub open spec fn spec_ema_matches(e: EmaSet, closes: Seq<i64>) -> bool {
        &&& e.ema20@.len() == closes.len()
        &&& e.ema50@.len() == closes.len()
        &&& e.ema200@.len() == closes.len()
        &&& forall|i: int| 0 <= i < closes.len() ==> #[trigger] e.ema20@[i] == ta::spec_ema_at(
            closes,
            20,
            i,
        )
        &&& forall|i: int| 0 <= i < closes.len() ==> #[trigger] e.ema50@[i] == ta::spec_ema_at(
            closes,
            50,
            i,
        )
        &&& forall|i: int| 0 <= i < closes.len() ==> #[trigger] e.ema200@[i] == ta::spec_ema_at(
            closes,
            200,
            i,
        )
    }

    /// Whether one group's cached indicators agree with its cached candles:
    /// computed exactly when the group is ready, absent otherwise.
    pub open spec fn spec_indicators_fresh(self, g: int) -> bool {
        if self.spec_group_ready(g) {
            let closes = spec_closes(self.spec_candles_at(g)->0);
            &&& match self.macd@[g] {
                Some(m) => Self::spec_macd_matches(m, closes),
                None => false,
            }
            &&& match self.ema@[g] {
                Some(e) => Self::spec_ema_matches(e, closes),
                None => false,
            }
        } else {
            self.macd@[g] is None && self.ema@[g] is None
        }
    }

    /// An empty cache with one vacant slot per group.
    pub fn new() -> (r: Self)
        ensures
            r.wf(),
            forall|g: int| 0 <= g < NUM_GROUPS ==> r.spec_candles_at(g) is None,
            forall|g: int| 0 <= g < NUM_GROUPS ==> r.macd@[g] is None,
            forall|g: int| 0 <= g < NUM_GROUPS ==> r.ema@[g] is None,
    {
        let mut candles_map: Vec<Option<Vec<Candle>>> = Vec::new();
        let mut macd: Vec<Option<Macd>> = Vec::new();
        let mut ema: Vec<Option<EmaSet>> = Vec::new();
        let mut i: usize = 0;
        while i < NUM_GROUPS
            invariant
                candles_map@.len() == i,
                macd@.len() == i,
                ema@.len() == i,
                i <= NUM_GROUPS,
                forall|g: int| 0 <= g < i ==> candles_map@[g] is None,
                forall|g: int| 0 <= g < i ==> macd@[g] is None,
                forall|g: int| 0 <= g < i ==> ema@[g] is None,
            decreases NUM_GROUPS - i,
        {
            candles_map.push(None);
            macd.push(None);
            ema.push(None);
            i += 1;
        }
        StrategyContainer { candles_map, macd, ema }
    }

    /// Drop everything cached for this tick.
    pub fn reset(&mut self)
        ensures
            final(self).wf(),
            forall|g: int| 0 <= g < NUM_GROUPS ==> final(self).spec_candles_at(g) is None,
            forall|g: int| 0 <= g < NUM_GROUPS ==> final(self).macd@[g] is None,
            forall|g: int| 0 <= g < NUM_GROUPS ==> final(self).ema@[g] is None,
    {
        let fresh = Self::new();
        *self = fresh;
    }

    /// Cache the fetched candles of one group, leaving every other slot
    /// untouched.
    pub fn insert_candles(&mut self, timeframe: &Timeframe, symbol: &Symbol, candles: Vec<Candle>)
        requires
            old(self).wf(),
        ensures
            final(self).wf(),
            final(self).spec_candles_at(spec_group_index(*timeframe, *symbol)) == Some(candles@),
            forall|g: int|
                0 <= g < NUM_GROUPS && g != spec_group_index(*timeframe, *symbol)
                    ==> final(self).candles_map@[g] == old(self).candles_map@[g],
            final(self).macd@ == old(self).macd@,
            final(self).ema@ == old(self).ema@,
    {
        let g = group_index(timeframe, symbol);
        self.candles_map[g] = Some(candles);
    }


    /// Whether every value is a plausible price.
    pub fn prices_ok(prices: &Vec<i64>) -> (r: bool)
        ensures
            r == spec_prices_ok(prices@),
    {
        let mut i: usize = 0;
        let mut ok: bool = true;
        while i < prices.len()
            invariant
                i <= prices@.len(),
                ok == forall|k: int| 0 <= k < i ==> 0 <= #[trigger] prices@[k] <= MONEY_MAX,
            decreases prices@.len() - i,
        {
            if prices[i] < 0 || prices[i] > MONEY_MAX {
                ok = false;
            }
            i += 1;
        }
        ok
    }

    /// Recompute the indicators of every group from its cached candles:
    /// exactly once per group and tick, only where enough plausible history
    /// is cached, and cleared everywhere else.
    pub fn calculate_all(&mut self)
        requires
            old(self).wf(),
        ensures
            final(self).wf(),
            final(self).candles_map@ == old(self).candles_map@,
            forall|g: int| 0 <= g < NUM_GROUPS ==> final(self).spec_indicators_fresh(g),
    {
        let mut g: usize = 0;
        while g < NUM_GROUPS
            invariant
                g <= NUM_GROUPS,
                self.wf(),
                self.candles_map@ == old(self).candles_map@,
                forall|k: int| 0 <= k < g ==> self.spec_indicators_fresh(k),
            decreases NUM_GROUPS - g,
        {
            let ghost pre = *self;
            let closes_ready: Option<Vec<i64>> = match &self.candles_map[g] {
                Some(cv) => {
                    if cv.len() >= MIN_INDICATOR_CANDLES {
                        let closes = crate::tools::get_close_prices(cv.as_slice());
                        if Self::prices_ok(&closes) {
                            Some(closes)
                        } else {
                            None
                        }
                    } else {
                        None
                    }
                },
                None => None,
            };
            proof {
                assert(closes_ready is Some ==> self.spec_group_ready(g as int)
                    && closes_ready->0@ == spec_closes(self.spec_candles_at(g as int)->0));
                assert(closes_ready is None ==> !self.spec_group_ready(g as int));
            }
            match closes_ready {
                Some(closes) => {
                    proof {
                        assert(forall|k: int|
                            0 <= k < closes@.len() ==> -MONEY_MAX <= #[trigger] closes@[k]
                                <= MONEY_MAX);
                        assert(forall|k: int|
                            0 <= k < closes@.len() ==> -crate::fixed::IND_LIMIT
                                <= #[trigger] closes@[k] <= crate::fixed::IND_LIMIT);
                    }
                    let (line, signal, histogram) = ta::macd_slice(closes.as_slice());
                    let e20 = ta::ema_slice(closes.as_slice(), 20);
                    let e50 = ta::ema_slice(closes.as_slice(), 50);
                    let e200 = ta::ema_slice(closes.as_slice(), 200);
                    self.macd[g] = Some(Macd { macd: line, signal, histogram });
                    self.ema[g] = Some(EmaSet { ema20: e20, ema50: e50, ema200: e200 });
                },
                None => {
                    self.macd[g] = None;
                    self.ema[g] = None;
                },
            }
            proof {
                assert(self.candles_map@ == pre.candles_map@);
                assert forall|k: int| 0 <= k < g implies self.spec_indicators_fresh(k) by {
                    assert(pre.spec_indicators_fresh(k));
                    assert(self.macd@[k] == pre.macd@[k]);
                    assert(self.ema@[k] == pre.ema@[k]);
                    assert(self.candles_map@[k] == pre.candles_map@[k]);
                }
                assert(self.spec_indicators_fresh(g as int));
            }
            g += 1;
        }
    }

    /// The cached MACD of a group, if its indicators were computed.
    pub fn get_macd(&self, timeframe: &Timeframe, symbol: &Symbol) -> (r: Option<&Macd>)
        requires
            self.wf(),
        ensures
            match r {
                Some(m) => self.macd@[spec_group_index(*timeframe, *symbol)] == Some(*m),
                None => self.macd@[spec_group_index(*timeframe, *symbol)] is None,
            },
    {
        let g = group_index(timeframe, symbol);
        match &self.macd[g] {
            Some(m) => Some(m),
            None => None,
        }
    }

    /// The cached EMA series of a group for one of the supported periods
    /// (20, 50 or 200), if its indicators were computed.
    pub fn get_ema(&self, timeframe: &Timeframe, symbol: &Symbol, period: usize) -> (r: Option<
        &Vec<i64>,
    >)
        requires
            self.wf(),
        ensures
            match r {
                Some(v) => {
                    &&& self.ema@[spec_group_index(*timeframe, *symbol)] is Some
                    &&& (period == 20 || period == 50 || period == 200)
                    &&& {
                        let e = self.ema@[spec_group_index(*timeframe, *symbol)]->0;
                        v@ == if period == 20 {
                            e.ema20@
                        } else if period == 50 {
                            e.ema50@
                        } else {
                            e.ema200@
                        }
                    }
                },
                None => self.ema@[spec_group_index(*timeframe, *symbol)] is None || !(period == 20
                    || period == 50 || period == 200),
            },
    {
        let g = group_index(timeframe, symbol);
        match &self.ema[g] {
            Some(e) => {
                if period == 20 {
                    Some(&e.ema20)
                } else if period == 50 {
                    Some(&e.ema50)
                } else if period == 200 {
                    Some(&e.ema200)
                } else {
                    None
                }
            },
            None => None,
        }
    }
}

} // verus!

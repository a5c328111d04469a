//! The strategy engine: pure decision functions from cached candles and
//! indicators to a {Long, Short, Wait} command, and the closed name-keyed
//! registry that selects one with a safe fallback.

use vstd::prelude::*;
use vstd::string::StringExecFns;
use crate::enums::{OrderCommand, Symbol, Timeframe};
use crate::models::{group_index, spec_group_index, StrategyContainer};

verus! {

/// Long when MACD crosses from negative to positive with a positive
/// histogram and the price above EMA200; mirrored for Short; else Wait.
#[derive(Clone, Copy, Debug, PartialEq, Eq, Structural)]
pub struct EmaMacd {}

/// Long when MACD crosses above its own signal line and the price is above
/// EMA200; mirrored for Short; else Wait.
#[derive(Clone, Copy, Debug, PartialEq, Eq, Structural)]
pub struct EmaMacd2 {}

/// Long when EMA50 is above EMA200 and the price crosses EMA50 from below;
/// mirrored for Short; else Wait.
#[derive(Clone, Copy, Debug, PartialEq, Eq, Structural)]
pub struct EmaBounce {}

/// The fallback strategy of an unknown name: always Wait.
#[derive(Clone, Copy, Debug, PartialEq, Eq, Structural)]
pub struct DummyStrategy;

/// What the EmaMacd strategy commands on the given cache state.
pub open spec fn spec_ema_macd_cmd(sc: StrategyContainer, tf: Timeframe, sym: Symbol) -> OrderCommand {
    let g = spec_group_index(tf, sym);
    match sc.spec_candles_at(g) {
        None => OrderCommand::Wait,
        Some(c) => {
            let n = c.len() as int;
            if n < 2 {
                OrderCommand::Wait
            } else {
                match (sc.macd@[g], sc.ema@[g]) {
                    (Some(m), Some(e)) => {
                        if m.macd@.len() == n && m.histogram@.len() == n && e.ema200@.len() == n {
                            let macd_prev = m.macd@[n - 2];
                            let macd = m.macd@[n - 1];
                            let hist = m.histogram@[n - 1];
                            let ema200 = e.ema200@[n - 1];
                            let price = c[n - 1].close;
                            if macd_prev < 0 && macd > 0 && hist > 0 && price > ema200 {
                                OrderCommand::Long
                            } else if macd_prev > 0 && macd < 0 && hist < 0 && price < ema200 {
                                OrderCommand::Short
                            } else {
                                OrderCommand::Wait
                            }
                        } else {
                            OrderCommand::Wait
                        }
                    },
                    _ => OrderCommand::Wait,
                }
            }
        },
    }
}

/// What the EmaMacd2 strategy commands on the given cache state.
pub open spec fn spec_ema_macd2_cmd(sc: StrategyContainer, tf: Timeframe, sym: Symbol) -> OrderCommand {
    let g = spec_group_index(tf, sym);
    match sc.spec_candles_at(g) {
        None => OrderCommand::Wait,
        Some(c) => {
            let n = c.len() as int;
            if n < 2 {
                OrderCommand::Wait
            } else {
                match (sc.macd@[g], sc.ema@[g]) {
                    (Some(m), Some(e)) => {
                        if m.macd@.len() == n && m.signal@.len() == n && e.ema200@.len() == n {
                            let macd_prev = m.macd@[n - 2];
                            let macd = m.macd@[n - 1];
                            let signal_prev = m.signal@[n - 2];
                            let signal = m.signal@[n - 1];
                            let ema200 = e.ema200@[n - 1];
                            let price = c[n - 1].close;
                            if macd_prev < signal_prev && macd > signal && price > ema200 {
                                OrderCommand::Long
                            } else if macd_prev > signal_prev && macd < signal && price < ema200 {
                                OrderCommand::Short
                            } else {
                                OrderCommand::Wait
                            }
                        } else {
                            OrderCommand::Wait
                        }
                    },
                    _ => OrderCommand::Wait,
                }
            }
        },
    }
}

/// What the EmaBounce strategy commands on the given cache state.
pub open spec fn spec_ema_bounce_cmd(sc: StrategyContainer, tf: Timeframe, sym: Symbol) -> OrderCommand {
    let g = spec_group_index(tf, sym);
    match sc.spec_candles_at(g) {
        None => OrderCommand::Wait,
        Some(c) => {
            let n = c.len() as int;
            if n < 2 {
                OrderCommand::Wait
            } else {
                match sc.ema@[g] {
                    Some(e) => {
                        if e.ema50@.len() == n && e.ema200@.len() == n {
                            let ema50 = e.ema50@[n - 1];
                            let ema200 = e.ema200@[n - 1];
                            let price = c[n - 1].close;
                            let prev_price = c[n - 2].close;
                            if ema50 > ema200 && prev_price < ema50 && price > ema50 {
                                OrderCommand::Long
                            } else if ema50 < ema200 && prev_price > ema50 && price < ema50 {
                                OrderCommand::Short
                            } else {
                                OrderCommand::Wait
                            }
                        } else {
                            OrderCommand::Wait
                        }
                    },
                    None => OrderCommand::Wait,
                }
            }
        },
    }
}

impl EmaMacd {
    /// This strategy's registry name.
    pub fn name(&self) -> (r: &'static str)
        ensures
            r@ == "EmaMacd"@,
    {
        "EmaMacd"
    }

    /// Evaluate the strategy on the cached state of one group.
    pub fn run(&self, sc: &StrategyContainer, timeframe: &Timeframe, symbol: &Symbol) -> (r: (
        OrderCommand,
        String,
    ))
        requires
            sc.wf(),
        ensures
            r.0 == spec_ema_macd_cmd(*sc, *timeframe, *symbol),
            (sc.spec_candles_at(spec_group_index(*timeframe, *symbol)) matches Some(c) && c.len()
                >= 2) || r.0 == OrderCommand::Wait,
            r.0 == OrderCommand::Long ==> r.1@ == "macd crossed up"@,
            r.0 == OrderCommand::Short ==> r.1@ == "macd crossed down"@,
            r.0 == OrderCommand::Wait ==> (r.1@ == "no candles"@ || r.1@ == "No macd"@ || r.1@
                == "No Ema"@ || r.1@ == "no crossing"@),
    {
        let g = group_index(timeframe, symbol);
        let n: usize;
        match &sc.candles_map[g] {
            None => {
                return (OrderCommand::Wait, String::from_str("no candles"));
            },
            Some(c) => {
                n = c.len();
            },
        }
        if n < 2 {
            return (OrderCommand::Wait, String::from_str("no candles"));
        }
        let m = match sc.get_macd(timeframe, symbol) {
            Some(m) => m,
            None => {
                return (OrderCommand::Wait, String::from_str("No macd"));
            },
        };
        let e200 = match sc.get_ema(timeframe, symbol, 200) {
            Some(v) => v,
            None => {
                return (OrderCommand::Wait, String::from_str("No Ema"));
            },
        };
        if m.macd.len() != n || m.histogram.len() != n || e200.len() != n {
            return (OrderCommand::Wait, String::from_str("No macd"));
        }
        let macd_prev = m.macd[n - 2];
        let macd = m.macd[n - 1];
        let hist = m.histogram[n - 1];
        let ema200 = e200[n - 1];
        let price = match &sc.candles_map[g] {
            Some(c) => c[n - 1].close,
            None => 0,
        };
        if macd_prev < 0 && macd > 0 && hist > 0 && price > ema200 {
            (OrderCommand::Long, String::from_str("macd crossed up"))
        } else if macd_prev > 0 && macd < 0 && hist < 0 && price < ema200 {
            (OrderCommand::Short, String::from_str("macd crossed down"))
        } else {
            (OrderCommand::Wait, String::from_str("no crossing"))
        }
    }
}

impl EmaMacd2 {
    /// This strategy's registry name.
    pub fn name(&self) -> (r: &'static str)
        ensures
            r@ == "EmaMacd2"@,
    {
        "EmaMacd2"
    }

    /// Evaluate the strategy on the cached state of one group.
    pub fn run(&self, sc: &StrategyContainer, timeframe: &Timeframe, symbol: &Symbol) -> (r: (
        OrderCommand,
        String,
    ))
        requires
            sc.wf(),
        ensures
            r.0 == spec_ema_macd2_cmd(*sc, *timeframe, *symbol),
            (sc.spec_candles_at(spec_group_index(*timeframe, *symbol)) matches Some(c) && c.len()
                >= 2) || r.0 == OrderCommand::Wait,
            r.0 == OrderCommand::Long ==> r.1@ == "macd above signal"@,
            r.0 == OrderCommand::Short ==> r.1@ == "macd below signal"@,
            r.0 == OrderCommand::Wait ==> (r.1@ == "no candles"@ || r.1@ == "No macd"@ || r.1@
                == "No Ema"@ || r.1@ == "no crossing"@),
    {
        let g = group_index(timeframe, symbol);
        let n: usize;
        match &sc.candles_map[g] {
            None => {
                return (OrderCommand::Wait, String::from_str("no candles"));
            },
            Some(c) => {
                n = c.len();
            },
        }
        if n < 2 {
            return (OrderCommand::Wait, String::from_str("no candles"));
        }
        let m = match sc.get_macd(timeframe, symbol) {
            Some(m) => m,
            None => {
                return (OrderCommand::Wait, String::from_str("No macd"));
            },
        };
        let e200 = match sc.get_ema(timeframe, symbol, 200) {
            Some(v) => v,
            None => {
                return (OrderCommand::Wait, String::from_str("No Ema"));
            },
        };
        if m.macd.len() != n || m.signal.len() != n || e200.len() != n {
            return (OrderCommand::Wait, String::from_str("No macd"));
        }
        let macd_prev = m.macd[n - 2];
        let macd = m.macd[n - 1];
        let signal_prev = m.signal[n - 2];
        let signal = m.signal[n - 1];
        let ema200 = e200[n - 1];
        let price = match &sc.candles_map[g] {
            Some(c) => c[n - 1].close,
            None => 0,
        };
        if macd_prev < signal_prev && macd > signal && price > ema200 {
            (OrderCommand::Long, String::from_str("macd above signal"))
        } else if macd_prev > signal_prev && macd < signal && price < ema200 {
            (OrderCommand::Short, String::from_str("macd below signal"))
        } else {
            (OrderCommand::Wait, String::from_str("no crossing"))
        }
    }
}

impl EmaBounce {
    /// This strategy's registry name.
    pub fn name(&self) -> (r: &'static str)
        ensures
            r@ == "EmaBounce"@,
    {
        "EmaBounce"
    }

    /// Evaluate the strategy on the cached state of one group.
    pub fn run(&self, sc: &StrategyContainer, timeframe: &Timeframe, symbol: &Symbol) -> (r: (
        OrderCommand,
        String,
    ))
        requires
            sc.wf(),
        ensures
            r.0 == spec_ema_bounce_cmd(*sc, *timeframe, *symbol),
            (sc.spec_candles_at(spec_group_index(*timeframe, *symbol)) matches Some(c) && c.len()
                >= 2) || r.0 == OrderCommand::Wait,
            r.0 == OrderCommand::Long ==> r.1@ == "bounce up"@,
            r.0 == OrderCommand::Short ==> r.1@ == "bounce down"@,
            r.0 == OrderCommand::Wait ==> (r.1@ == "no candles"@ || r.1@ == "No Ema 200"@ || r.1@
                == "No Ema 50"@ || r.1@ == "No Ema"@ || r.1@ == "no bounce"@),
    {
        let g = group_index(timeframe, symbol);
        let n: usize;
        match &sc.candles_map[g] {
            None => {
                return (OrderCommand::Wait, String::from_str("no candles"));
            },
            Some(c) => {
                n = c.len();
            },
        }
        if n < 2 {
            return (OrderCommand::Wait, String::from_str("no candles"));
        }
        let e200 = match sc.get_ema(timeframe, symbol, 200) {
            Some(v) => v,
            None => {
                return (OrderCommand::Wait, String::from_str("No Ema 200"));
            },
        };
        let e50 = match sc.get_ema(timeframe, symbol, 50) {
            Some(v) => v,
            None => {
                return (OrderCommand::Wait, String::from_str("No Ema 50"));
            },
        };
        if e50.len() != n || e200.len() != n {
            return (OrderCommand::Wait, String::from_str("No Ema"));
        }
        let ema50 = e50[n - 1];
        let ema200 = e200[n - 1];
        let price: i64;
        let prev_price: i64;
        match &sc.candles_map[g] {
            Some(c) => {
                price = c[n - 1].close;
                prev_price = c[n - 2].close;
            },
            None => {
                price = 0;
                prev_price = 0;
            },
        }
        if ema50 > ema200 && prev_price < ema50 && price > ema50 {
            (OrderCommand::Long, String::from_str("bounce up"))
        } else if ema50 < ema200 && prev_price > ema50 && price < ema50 {
            (OrderCommand::Short, String::from_str("bounce down"))
        } else {
            (OrderCommand::Wait, String::from_str("no bounce"))
        }
    }
}

impl DummyStrategy {
    /// This strategy's registry name.
    pub fn name(&self) -> (r: &'static str)
        ensures
            r@ == "dummy"@,
    {
        "dummy"
    }

    /// Evaluate the fallback strategy: always Wait.
    pub fn run(&self, _sc: &StrategyContainer, _timeframe: &Timeframe, _symbol: &Symbol) -> (r: (
        OrderCommand,
        String,
    ))
        ensures
            r.0 == OrderCommand::Wait,
            r.1@ == "dummy strategy"@,
    {
        (OrderCommand::Wait, String::from_str("dummy strategy"))
    }
}

/// The closed set of bundled strategies, dispatched exhaustively.
#[derive(Clone, Copy, Debug, PartialEq, Eq, Structural)]
pub enum StrategyKind {
    EmaMacd(EmaMacd),
    EmaMacd2(EmaMacd2),
    EmaBounce(EmaBounce),
    Dummy(DummyStrategy),
}

/// What a strategy kind commands on the given cache state.
pub open spec fn spec_strategy_cmd(
    kind: StrategyKind,
    sc: StrategyContainer,
    tf: Timeframe,
    sym: Symbol,
) -> OrderCommand {
    match kind {
        StrategyKind::EmaMacd(_) => spec_ema_macd_cmd(sc, tf, sym),
        StrategyKind::EmaMacd2(_) => spec_ema_macd2_cmd(sc, tf, sym),
        StrategyKind::EmaBounce(_) => spec_ema_bounce_cmd(sc, tf, sym),
        StrategyKind::Dummy(_) => OrderCommand::Wait,
    }
}

impl StrategyKind {
    /// Evaluate whichever strategy this is on the cached state of one group.
    pub fn run(&self, sc: &StrategyContainer, timeframe: &Timeframe, symbol: &Symbol) -> (r: (
        OrderCommand,
        String,
    ))
        requires
            sc.wf(),
        ensures
            r.0 == spec_strategy_cmd(*self, *sc, *timeframe, *symbol),
            (sc.spec_candles_at(spec_group_index(*timeframe, *symbol)) matches Some(c) && c.len()
                >= 2) || r.0 == OrderCommand::Wait,
            (*self matches StrategyKind::Dummy(_)) ==> r.1@ == "dummy strategy"@,
    {
        match self {
            StrategyKind::EmaMacd(s) => s.run(sc, timeframe, symbol),
            StrategyKind::EmaMacd2(s) => s.run(sc, timeframe, symbol),
            StrategyKind::EmaBounce(s) => s.run(sc, timeframe, symbol),
            StrategyKind::Dummy(s) => s.run(sc, timeframe, symbol),
        }
    }
}

/// Whether `c` is `l` once upper-case ASCII is folded to lower case.
pub open spec fn spec_char_lower_matches(c: char, l: char) -> bool {
    c == l || (65 <= c as int <= 90 && c as int + 32 == l as int)
}

/// Whether `s` equals `t` under ASCII case folding of `s`.
pub open spec fn spec_lower_eq(s: Seq<char>, t: Seq<char>) -> bool {
    s.len() == t.len() && forall|i: int|
        0 <= i < s.len() ==> #[trigger] spec_char_lower_matches(s[i], t[i])
}

/// Whether `s` equals the lower-case `lit` under ASCII case folding.
fn matches_lower(s: &str, lit: &str) -> (r: bool)
    ensures
        r == spec_lower_eq(s@, lit@),
{
    let n = s.unicode_len();
    if n != lit.unicode_len() {
        return false;
    }
    let mut i: usize = 0;
    while i < n
        invariant
            i <= n,
            n == s@.len(),
            n == lit@.len(),
            forall|k: int| 0 <= k < i ==> #[trigger] spec_char_lower_matches(s@[k], lit@[k]),
        decreases n - i,
    {
        let c = s.get_char(i);
        let l = lit.get_char(i);
        let cv = c as u32;
        let lv = l as u32;
        if !(c == l || (65 <= cv && cv <= 90 && cv + 32 == lv)) {
            assert(!spec_char_lower_matches(s@[i as int], lit@[i as int]));
            return false;
        }
        i += 1;
    }
    true
}

/// Select a strategy by case-insensitive name; unknown names fall back to
/// the always-Wait strategy instead of failing.
pub fn get_strategy(name: &str) -> (r: StrategyKind)
    ensures
        r == if spec_lower_eq(name@, "emamacd"@) {
            StrategyKind::EmaMacd(EmaMacd {})
        } else if spec_lower_eq(name@, "emamacd2"@) {
            StrategyKind::EmaMacd2(EmaMacd2 {})
        } else if spec_lower_eq(name@, "emabounce"@) {
            StrategyKind::EmaBounce(EmaBounce {})
        } else {
            StrategyKind::Dummy(DummyStrategy)
        },
{
    if matches_lower(name, "emamacd") {
        StrategyKind::EmaMacd(EmaMacd {})
    } else if matches_lower(name, "emamacd2") {
        StrategyKind::EmaMacd2(EmaMacd2 {})
    } else if matches_lower(name, "emabounce") {
        StrategyKind::EmaBounce(EmaBounce {})
    } else {
        StrategyKind::Dummy(DummyStrategy)
    }
}

} // verus!

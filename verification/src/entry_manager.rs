//! The entry scheduler's decisions: which (timeframe, symbol) groups are
//! due a candle refresh this minute, the construction of the configured
//! fleet, and the daily reset sweep.  The surrounding loop (tick alignment,
//! the bounded-concurrency fetch, persistence) lives outside the library
//! and feeds plain values in.

use vstd::prelude::*;
use vstd::string::StringExecFns;
use crate::bot::{get_strategy_spec, Bot, INITIAL_CAPITAL};
use crate::enums::{Symbol, Timeframe};
use crate::tools::{spec_timeframe_due, timeframe_due};

verus! {

/// Whether some bot of the fleet trades this (timeframe, symbol) group.
pub open spec fn spec_fleet_has_group(bots: Seq<Bot>, t: Timeframe, s: Symbol) -> bool {
    exists|i: int|
        0 <= i < bots.len() && #[trigger] bots[i].timeframe == t && bots[i].symbol == s
}

/// The distinct (timeframe, symbol) groups that are due a candle refresh
/// this minute: exactly the groups some bot trades whose timeframe cadence
/// falls on `minute`.
pub fn groups_due(bots: &Vec<Bot>, minute: u32) -> (r: Vec<(Timeframe, Symbol)>)
    ensures
        forall|k: int|
            0 <= k < r@.len() ==> spec_timeframe_due(#[trigger] r@[k].0, minute)
                && spec_fleet_has_group(bots@, r@[k].0, r@[k].1),
        forall|k: int, l: int|
            0 <= k < l < r@.len() ==> !(r@[k].0 == r@[l].0 && r@[k].1 == r@[l].1),
        forall|i: int|
            0 <= i < bots@.len() && spec_timeframe_due(#[trigger] bots@[i].timeframe, minute)
                ==> exists|k: int|
                0 <= k < r@.len() && #[trigger] r@[k].0 == bots@[i].timeframe && r@[k].1
                    == bots@[i].symbol,
{
    let mut r: Vec<(Timeframe, Symbol)> = Vec::new();
    let mut i: usize = 0;
    while i < bots.len()
        invariant
            i <= bots@.len(),
            forall|k: int|
                0 <= k < r@.len() ==> spec_timeframe_due(#[trigger] r@[k].0, minute)
                    && spec_fleet_has_group(bots@, r@[k].0, r@[k].1),
            forall|k: int, l: int|
                0 <= k < l < r@.len() ==> !(r@[k].0 == r@[l].0 && r@[k].1 == r@[l].1),
            forall|j: int|
                0 <= j < i && spec_timeframe_due(#[trigger] bots@[j].timeframe, minute)
                    ==> exists|k: int|
                    0 <= k < r@.len() && #[trigger] r@[k].0 == bots@[j].timeframe && r@[k].1
                        == bots@[j].symbol,
        decreases bots@.len() - i,
    {
        let ghost pre = r@;
        let tf = bots[i].timeframe;
        let sym = bots[i].symbol;
        if timeframe_due(&tf, minute) && !contains_group(&r, &tf, &sym) {
            r.push((tf, sym));
        }
        proof {
            assert forall|k: int| 0 <= k < pre.len() implies r@[k] == pre[k] by {}
            if spec_timeframe_due(bots@[i as int].timeframe, minute) {
                assert(exists|k: int|
                    0 <= k < r@.len() && #[trigger] r@[k].0 == bots@[i as int].timeframe && r@[k].1
                        == bots@[i as int].symbol) by {
                    if exists|k: int|
                        0 <= k < pre.len() && #[trigger] pre[k].0 == bots@[i as int].timeframe
                            && pre[k].1 == bots@[i as int].symbol {
                        let k = choose|k: int|
                            0 <= k < pre.len() && #[trigger] pre[k].0 == bots@[i as int].timeframe
                                && pre[k].1 == bots@[i as int].symbol;
                        assert(r@[k].0 == bots@[i as int].timeframe);
                    } else {
                        assert(r@[r@.len() - 1].0 == bots@[i as int].timeframe);
                    }
                }
            }
        }
        i += 1;
    }
    r
}

/// Whether the list already holds this (timeframe, symbol) group.
fn contains_group(v: &Vec<(Timeframe, Symbol)>, t: &Timeframe, s: &Symbol) -> (r: bool)
    ensures
        r == exists|k: int| 0 <= k < v@.len() && #[trigger] v@[k].0 == *t && v@[k].1 == *s,
{
    let mut k: usize = 0;
    while k < v.len()
        invariant
            k <= v@.len(),
            forall|j: int| 0 <= j < k ==> !(#[trigger] v@[j].0 == *t && v@[j].1 == *s),
        decreases v@.len() - k,
    {
        if v[k].0 == *t && v[k].1 == *s {
            assert(v@[k as int].0 == *t && v@[k as int].1 == *s);
            return true;
        }
        k += 1;
    }
    false
}

/// Daily rollover sweep: reset every bot of the fleet in place.
pub fn reset_all(bots: &mut Vec<Bot>)
    requires
        forall|i: int| 0 <= i < old(bots)@.len() ==> (#[trigger] old(bots)@[i]).wf(),
    ensures
        final(bots)@.len() == old(bots)@.len(),
        forall|i: int| 0 <= i < final(bots)@.len() ==> (#[trigger] final(bots)@[i]).wf(),
        forall|i: int|
            0 <= i < final(bots)@.len() ==> {
                let b = #[trigger] final(bots)@[i];
                &&& b.capital == INITIAL_CAPITAL
                &&& !b.is_not_active
                &&& !b.in_pos
                &&& b.wins == 0
                &&& b.losses == 0
                &&& b.order_fields_cleared()
                &&& b.name == old(bots)@[i].name
                &&& b.symbol == old(bots)@[i].symbol
                &&& b.timeframe == old(bots)@[i].timeframe
                &&& b.strategy_name == old(bots)@[i].strategy_name
                &&& b.strategy == old(bots)@[i].strategy
                &&& b.leverage == old(bots)@[i].leverage
                &&& b.take_profit_ratio == old(bots)@[i].take_profit_ratio
                &&& b.stop_loss_ratio == old(bots)@[i].stop_loss_ratio
                &&& b.is_trailing_stop_active == old(bots)@[i].is_trailing_stop_active
                &&& b.trailing_stop_activation_point == old(bots)@[i].trailing_stop_activation_point
            },
{
    let mut out: Vec<Bot> = Vec::new();
    while bots.len() > 0
        invariant
            forall|i: int| 0 <= i < bots@.len() ==> (#[trigger] bots@[i]).wf(),
            out@.len() + bots@.len() == old(bots)@.len(),
            bots@ == old(bots)@.skip(out@.len() as int),
            forall|i: int| 0 <= i < out@.len() ==> (#[trigger] out@[i]).wf(),
            forall|i: int|
                0 <= i < out@.len() ==> {
                    let b = #[trigger] out@[i];
                    &&& b.capital == INITIAL_CAPITAL
                    &&& !b.is_not_active
                    &&& !b.in_pos
                    &&& b.wins == 0
                    &&& b.losses == 0
                    &&& b.order_fields_cleared()
                    &&& b.name == old(bots)@[i].name
                    &&& b.symbol == old(bots)@[i].symbol
                    &&& b.timeframe == old(bots)@[i].timeframe
                    &&& b.strategy_name == old(bots)@[i].strategy_name
                    &&& b.strategy == old(bots)@[i].strategy
                    &&& b.leverage == old(bots)@[i].leverage
                    &&& b.take_profit_ratio == old(bots)@[i].take_profit_ratio
                    &&& b.stop_loss_ratio == old(bots)@[i].stop_loss_ratio
                    &&& b.is_trailing_stop_active == old(bots)@[i].is_trailing_stop_active
                    &&& b.trailing_stop_activation_point == old(
                        bots,
                    )@[i].trailing_stop_activation_point
                },
        decreases bots@.len(),
    {
        let mut b = bots.remove(0);
        proof {
            assert(bots@ =~= old(bots)@.skip(out@.len() as int + 1));
        }
        b.reset();
        out.push(b);
    }
    *bots = out;
}

/// The symbol at a stable position.
pub fn symbol_of_index(i: usize) -> (r: Symbol)
    requires
        i < 4,
    ensures
        r.spec_index() == i,
{
    if i == 0 {
        Symbol::SolUsdt
    } else if i == 1 {
        Symbol::BtcUsdt
    } else if i == 2 {
        Symbol::EthUsdt
    } else {
        Symbol::BnbUsdt
    }
}

/// The timeframe at a stable position.
pub fn timeframe_of_index(i: usize) -> (r: Timeframe)
    requires
        i < 5,
    ensures
        r.spec_index() == i,
{
    if i == 0 {
        Timeframe::Min1
    } else if i == 1 {
        Timeframe::Min5
    } else if i == 2 {
        Timeframe::Min15
    } else if i == 3 {
        Timeframe::Min30
    } else {
        Timeframe::Hour1
    }
}

/// The bundled strategy name at a stable position.
pub open spec fn spec_strategy_name(i: int) -> Seq<char> {
    if i == 0 {
        "EmaMacd"@
    } else if i == 1 {
        "EmaMacd2"@
    } else {
        "EmaBounce"@
    }
}

/// The bundled strategy name at a stable position.
fn strategy_name_of_index(i: usize) -> (r: String)
    requires
        i < 3,
    ensures
        r@ == spec_strategy_name(i as int),
{
    if i == 0 {
        String::from_str("EmaMacd")
    } else if i == 1 {
        String::from_str("EmaMacd2")
    } else {
        String::from_str("EmaBounce")
    }
}

/// Whether the bot at the configuration slot (t, s, y) carries that slot's
/// timeframe, symbol and strategy.
pub open spec fn spec_fleet_slot_ok(bots: Seq<Bot>, t: int, s: int, y: int) -> bool {
    let b = bots[t * 12 + s * 4 + y];
    &&& b.timeframe.spec_index() == t
    &&& b.symbol.spec_index() == y
    &&& b.strategy_name@ == spec_strategy_name(s)
    &&& b.strategy == get_strategy_spec(spec_strategy_name(s))
}

/// The statically configured fleet: one bot per (timeframe, strategy,
/// symbol) combination, with the reference capital, leverage and
/// protective ratios.
pub fn init_bots() -> (r: Vec<Bot>)
    ensures
        r@.len() == 60,
        forall|i: int| 0 <= i < r@.len() ==> (#[trigger] r@[i]).wf(),
        forall|i: int|
            0 <= i < r@.len() ==> {
                let b = #[trigger] r@[i];
                &&& !b.in_pos
                &&& !b.is_not_active
                &&& b.capital == INITIAL_CAPITAL
                &&& b.leverage == 10
                &&& b.take_profit_ratio == 80_000_000
                &&& b.stop_loss_ratio == 40_000_000
                &&& b.trailing_stop_activation_point == 10_000_000
            },
        forall|t: int, s: int, y: int|
            0 <= t < 5 && 0 <= s < 3 && 0 <= y < 4 ==> #[trigger] spec_fleet_slot_ok(r@, t, s, y),
{
    let mut bots: Vec<Bot> = Vec::new();
    let mut t: usize = 0;
    while t < 5
        invariant
            t <= 5,
            bots@.len() == t * 12,
            forall|i: int| 0 <= i < bots@.len() ==> (#[trigger] bots@[i]).wf(),
            forall|i: int|
                0 <= i < bots@.len() ==> {
                    let b = #[trigger] bots@[i];
                    &&& !b.in_pos
                    &&& !b.is_not_active
                    &&& b.capital == INITIAL_CAPITAL
                    &&& b.leverage == 10
                    &&& b.take_profit_ratio == 80_000_000
                    &&& b.stop_loss_ratio == 40_000_000
                    &&& b.trailing_stop_activation_point == 10_000_000
                },
            forall|t2: int, s2: int, y2: int|
                0 <= t2 < 5 && 0 <= s2 < 3 && 0 <= y2 < 4 && t2 * 12 + s2 * 4 + y2
                    < bots@.len() ==> #[trigger] spec_fleet_slot_ok(bots@, t2, s2, y2),
        decreases 5 - t,
    {
        let mut s: usize = 0;
        while s < 3
            invariant
                t < 5,
                s <= 3,
                bots@.len() == t * 12 + s * 4,
                forall|i: int| 0 <= i < bots@.len() ==> (#[trigger] bots@[i]).wf(),
                forall|i: int|
                    0 <= i < bots@.len() ==> {
                        let b = #[trigger] bots@[i];
                        &&& !b.in_pos
                        &&& !b.is_not_active
                        &&& b.capital == INITIAL_CAPITAL
                        &&& b.leverage == 10
                        &&& b.take_profit_ratio == 80_000_000
                        &&& b.stop_loss_ratio == 40_000_000
                        &&& b.trailing_stop_activation_point == 10_000_000
                    },
                forall|t2: int, s2: int, y2: int|
                    0 <= t2 < 5 && 0 <= s2 < 3 && 0 <= y2 < 4 && t2 * 12 + s2 * 4 + y2
                        < bots@.len() ==> #[trigger] spec_fleet_slot_ok(bots@, t2, s2, y2),
            decreases 3 - s,
        {
            let mut y: usize = 0;
            while y < 4
                invariant
                    t < 5,
                    s < 3,
                    y <= 4,
                    bots@.len() == t * 12 + s * 4 + y,
                    forall|i: int| 0 <= i < bots@.len() ==> (#[trigger] bots@[i]).wf(),
                    forall|i: int|
                        0 <= i < bots@.len() ==> {
                            let b = #[trigger] bots@[i];
                            &&& !b.in_pos
                            &&& !b.is_not_active
                            &&& b.capital == INITIAL_CAPITAL
                            &&& b.leverage == 10
                            &&& b.take_profit_ratio == 80_000_000
                            &&& b.stop_loss_ratio == 40_000_000
                            &&& b.trailing_stop_activation_point == 10_000_000
                        },
                    forall|t2: int, s2: int, y2: int|
                        0 <= t2 < 5 && 0 <= s2 < 3 && 0 <= y2 < 4 && t2 * 12 + s2 * 4 + y2
                            < bots@.len() ==> #[trigger] spec_fleet_slot_ok(bots@, t2, s2, y2),
                decreases 4 - y,
            {
                let bot = Bot::new(
                    timeframe_of_index(t),
                    symbol_of_index(y),
                    strategy_name_of_index(s),
                    INITIAL_CAPITAL,
                    10,
                    80_000_000,
                    40_000_000,
                    10_000_000,
                );
                let ghost pre = bots@;
                bots.push(bot);
                proof {
                    assert forall|t2: int, s2: int, y2: int|
                        0 <= t2 < 5 && 0 <= s2 < 3 && 0 <= y2 < 4 && t2 * 12 + s2 * 4 + y2
                            < bots@.len() implies #[trigger] spec_fleet_slot_ok(
                        bots@,
                        t2,
                        s2,
                        y2,
                    ) by {
                        let idx = t2 * 12 + s2 * 4 + y2;
                        if idx < pre.len() {
                            assert(spec_fleet_slot_ok(pre, t2, s2, y2));
                            assert(bots@[idx] == pre[idx]);
                        } else {
                            assert(t2 == t && s2 == s && y2 == y);
                            assert(bots@[idx] == bot);
                        }
                    }
                }
                y += 1;
            }
            s += 1;
        }
        t += 1;
    }
    bots
}

} // verus!

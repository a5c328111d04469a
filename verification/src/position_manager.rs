//! The position monitor's decisions: which symbols need a fresh price, and
//! what to do with one in-position bot once its price is known — close it
//! and emit the order, or refresh its running P&L and tighten the trailing
//! stop.  The surrounding loop (price fetch, cadence, persistence hand-off)
//! lives outside the library and feeds plain values in.

use vstd::prelude::*;
use crate::bot::Bot;
use crate::enums::{OrderCommand, Symbol};
use crate::fixed::MONEY_MAX;
use crate::models::Order;
use crate::tools::{
    should_close_position, shift_stop_loss, spec_shift_applies, spec_shift_candidate,
    spec_should_close, update_pnl_and_roe,
};

verus! {

/// Whether some bot of the fleet holds an open position on this symbol.
pub open spec fn spec_fleet_in_pos(bots: Seq<Bot>, s: Symbol) -> bool {
    exists|i: int| 0 <= i < bots.len() && #[trigger] bots[i].symbol == s && bots[i].in_pos
}

/// The distinct symbols across all bots with an open position: exactly the
/// symbols the monitor needs prices for this iteration.
pub fn symbols_with_open_positions(bots: &Vec<Bot>) -> (r: Vec<Symbol>)
    ensures
        forall|k: int| 0 <= k < r@.len() ==> spec_fleet_in_pos(bots@, #[trigger] r@[k]),
        forall|k: int, l: int| 0 <= k < l < r@.len() ==> r@[k] != r@[l],
        forall|i: int|
            0 <= i < bots@.len() && bots@[i].in_pos ==> r@.contains(#[trigger] bots@[i].symbol),
{
    let mut r: Vec<Symbol> = Vec::new();
    let mut i: usize = 0;
    while i < bots.len()
        invariant
            i <= bots@.len(),
            forall|k: int| 0 <= k < r@.len() ==> spec_fleet_in_pos(bots@, #[trigger] r@[k]),
            forall|k: int, l: int| 0 <= k < l < r@.len() ==> r@[k] != r@[l],
            forall|j: int|
                0 <= j < i && bots@[j].in_pos ==> r@.contains(#[trigger] bots@[j].symbol),
        decreases bots@.len() - i,
    {
        let ghost pre = r@;
        if bots[i].in_pos && !contains_symbol(&r, &bots[i].symbol) {
            r.push(bots[i].symbol);
        }
        proof {
            assert forall|s: Symbol| pre.contains(s) implies r@.contains(s) by {
                let k = choose|k: int| 0 <= k < pre.len() && pre[k] == s;
                assert(r@[k] == s);
            }
            if bots@[i as int].in_pos {
                assert(r@.contains(bots@[i as int].symbol)) by {
                    if pre.contains(bots@[i as int].symbol) {
                    } else {
                        assert(r@[r@.len() - 1] == bots@[i as int].symbol);
                    }
                }
            }
        }
        i += 1;
    }
    r
}

/// Whether the list already holds this symbol.
fn contains_symbol(v: &Vec<Symbol>, s: &Symbol) -> (r: bool)
    ensures
        r == v@.contains(*s),
{
    let mut k: usize = 0;
    while k < v.len()
        invariant
            k <= v@.len(),
            forall|j: int| 0 <= j < k ==> v@[j] != *s,
        decreases v@.len() - k,
    {
        if v[k] == *s {
            assert(v@.contains(*s));
            return true;
        }
        k += 1;
    }
    false
}

/// One monitor step for one bot whose current price is known: close the
/// position and hand back the order when the close condition holds, else
/// refresh P&L and ROE, tighten the trailing stop, and stamp the scan time.
/// A bot without a position, or one whose numbers would leave the
/// representable range, is left untouched.
pub fn monitor_bot(bot: &mut Bot, price: i64, now: i64) -> (r: Option<Order>)
    requires
        old(bot).wf(),
        0 <= price <= MONEY_MAX,
    ensures
        final(bot).wf(),
        !old(bot).in_pos ==> r is None && *final(bot) == *old(bot),
        old(bot).in_pos && !old(bot).spec_close_fits(price as int) ==> r is None && *final(bot)
            == *old(bot),
        old(bot).in_pos && old(bot).spec_close_fits(price as int) && spec_should_close(
            price as int,
            *old(bot),
        ) ==> (r matches Some(o) && {
            &&& o.symbol == old(bot).symbol
            &&& o.exit_price == price
            &&& o.entry_price == old(bot).order_entry_price
            &&& o.quantity == old(bot).order_quantity
            &&& o.bot_name@ == old(bot).name@
            &&& o.order_type == old(bot).order_type
            &&& o.pnl == old(bot).spec_close_pnl(price as int)
            &&& o.roe == old(bot).spec_close_roe(price as int)
            &&& o.fee == old(bot).order_fee + old(bot).spec_close_fee()
            &&& o.leverage == old(bot).leverage
            &&& o.created_at == old(bot).order_created_at
            &&& o.closed_at == now
            &&& !final(bot).in_pos
            &&& final(bot).order_fields_cleared()
            &&& final(bot).capital == old(bot).spec_close_capital(price as int)
            &&& final(bot).is_not_active == (old(bot).is_not_active || old(
                bot,
            ).spec_close_capital(price as int) <= crate::bot::DEACTIVATION_FLOOR)
        }),
        old(bot).in_pos && old(bot).spec_close_fits(price as int) && !spec_should_close(
            price as int,
            *old(bot),
        ) ==> r is None && ({
            let mid = Bot {
                pnl: old(bot).spec_close_pnl(price as int) as i64,
                roe: old(bot).spec_close_roe(price as int) as i64,
                ..*old(bot)
            };
            &&& final(bot).pnl == old(bot).spec_close_pnl(price as int)
            &&& final(bot).roe == old(bot).spec_close_roe(price as int)
            &&& final(bot).last_scanned == now
            &&& final(bot).in_pos
            &&& final(bot).capital == old(bot).capital
            &&& (old(bot).order_type == OrderCommand::Long ==> final(bot).order_stop_loss >= old(
                bot,
            ).order_stop_loss)
            &&& (old(bot).order_type == OrderCommand::Short ==> final(bot).order_stop_loss <= old(
                bot,
            ).order_stop_loss)
            &&& (!spec_shift_applies(mid) ==> final(bot).order_stop_loss == old(
                bot,
            ).order_stop_loss)
            &&& (spec_shift_applies(mid) ==> {
                let candidate = spec_shift_candidate(mid);
                let applied = match old(bot).order_type {
                    OrderCommand::Long => candidate > old(bot).order_stop_loss && candidate <= 2
                        * (MONEY_MAX as int),
                    OrderCommand::Short => candidate < old(bot).order_stop_loss && candidate >= 0,
                    OrderCommand::Wait => false,
                };
                final(bot).order_stop_loss == if applied {
                    candidate
                } else {
                    old(bot).order_stop_loss as int
                }
            })
            &&& *final(bot) == (Bot {
                pnl: mid.pnl,
                roe: mid.roe,
                last_scanned: now,
                order_stop_loss: final(bot).order_stop_loss,
                ..*old(bot)
            })
        }),
{
    if !bot.in_pos {
        return None;
    }
    if !bot.close_fits(price) {
        return None;
    }
    if should_close_position(price, bot) {
        match bot.close_position(price, now) {
            Ok(order) => Some(order),
            Err(_) => None,
        }
    } else {
        update_pnl_and_roe(bot, price);
        shift_stop_loss(bot);
        bot.last_scanned = now;
        None
    }
}

} // verus!

//! Small shared helpers: candle field extraction, timeframe formatting,
//! the scan-cadence rule and the tick-alignment arithmetic.

use vstd::prelude::*;
use vstd::string::StringExecFns;
use crate::bot::Bot;
use crate::calculator::{calculate_pnl, calculate_roe};
use crate::enums::{OrderCommand, Timeframe};
use crate::fixed::{div_i128, in_money, tdiv, MONEY_MAX, SCALE};
use crate::models::{spec_closes, Candle};

verus! {

/// The closing price of every candle, in order.
pub fn get_close_prices(candles: &[Candle]) -> (r: Vec<i64>)
    ensures
        r@ == spec_closes(candles@),
        r@.len() == candles@.len(),
        forall|i: int| 0 <= i < candles@.len() ==> #[trigger] r@[i] == candles@[i].close,
{
    let mut out: Vec<i64> = Vec::new();
    let mut i: usize = 0;
    while i < candles.len()
        invariant
            i <= candles@.len(),
            out@.len() == i,
            forall|k: int| 0 <= k < i ==> #[trigger] out@[k] == candles@[k].close,
        decreases candles@.len() - i,
    {
        out.push(candles[i].close);
        i += 1;
    }
    proof {
        assert(out@ =~= spec_closes(candles@));
    }
    out
}

/// The opening price of every candle, in order.
pub fn get_open_prices(candles: &[Candle]) -> (r: Vec<i64>)
    ensures
        r@.len() == candles@.len(),
        forall|i: int| 0 <= i < candles@.len() ==> #[trigger] r@[i] == candles@[i].open,
{
    let mut out: Vec<i64> = Vec::new();
    let mut i: usize = 0;
    while i < candles.len()
        invariant
            i <= candles@.len(),
            out@.len() == i,
            forall|k: int| 0 <= k < i ==> #[trigger] out@[k] == candles@[k].open,
        decreases candles@.len() - i,
    {
        out.push(candles[i].open);
        i += 1;
    }
    out
}

/// The high of every candle, in order.
pub fn get_high_prices(candles: &[Candle]) -> (r: Vec<i64>)
    ensures
        r@.len() == candles@.len(),
        forall|i: int| 0 <= i < candles@.len() ==> #[trigger] r@[i] == candles@[i].high,
{
    let mut out: Vec<i64> = Vec::new();
    let mut i: usize = 0;
    while i < candles.len()
        invariant
            i <= candles@.len(),
            out@.len() == i,
            forall|k: int| 0 <= k < i ==> #[trigger] out@[k] == candles@[k].high,
        decreases candles@.len() - i,
    {
        out.push(candles[i].high);
        i += 1;
    }
    out
}

/// The low of every candle, in order.
pub fn get_low_prices(candles: &[Candle]) -> (r: Vec<i64>)
    ensures
        r@.len() == candles@.len(),
        forall|i: int| 0 <= i < candles@.len() ==> #[trigger] r@[i] == candles@[i].low,
{
    let mut out: Vec<i64> = Vec::new();
    let mut i: usize = 0;
    while i < candles.len()
        invariant
            i <= candles@.len(),
            out@.len() == i,
            forall|k: int| 0 <= k < i ==> #[trigger] out@[k] == candles@[k].low,
        decreases candles@.len() - i,
    {
        out.push(candles[i].low);
        i += 1;
    }
    out
}

/// The traded volume of every candle, in order.
pub fn get_volume(candles: &[Candle]) -> (r: Vec<i64>)
    ensures
        r@.len() == candles@.len(),
        forall|i: int| 0 <= i < candles@.len() ==> #[trigger] r@[i] == candles@[i].volume,
{
    let mut out: Vec<i64> = Vec::new();
    let mut i: usize = 0;
    while i < candles.len()
        invariant
            i <= candles@.len(),
            out@.len() == i,
            forall|k: int| 0 <= k < i ==> #[trigger] out@[k] == candles@[k].volume,
        decreases candles@.len() - i,
    {
        out.push(candles[i].volume);
        i += 1;
    }
    out
}

/// The short display name of a timeframe.
pub fn format_timeframe(timeframe: &Timeframe) -> (r: String)
    ensures
        timeframe == Timeframe::Min1 ==> r@ == "1m"@,
        timeframe == Timeframe::Min5 ==> r@ == "5m"@,
        timeframe == Timeframe::Min15 ==> r@ == "15m"@,
        timeframe == Timeframe::Min30 ==> r@ == "30m"@,
        timeframe == Timeframe::Hour1 ==> r@ == "1h"@,
{
    match timeframe {
        Timeframe::Min1 => String::from_str("1m"),
        Timeframe::Min5 => String::from_str("5m"),
        Timeframe::Min15 => String::from_str("15m"),
        Timeframe::Min30 => String::from_str("30m"),
        Timeframe::Hour1 => String::from_str("1h"),
    }
}

/// Whether a timeframe's cadence falls on this wall-clock minute: every
/// minute for 1m, and on every multiple of the length for the others.
pub open spec fn spec_timeframe_due(timeframe: Timeframe, minute: u32) -> bool {
    match timeframe {
        Timeframe::Min1 => true,
        Timeframe::Min5 => minute as int % 5 == 0,
        Timeframe::Min15 => minute as int % 15 == 0,
        Timeframe::Min30 => minute as int % 30 == 0,
        Timeframe::Hour1 => minute as int % 60 == 0,
    }
}

/// Whether a timeframe's cadence falls on this wall-clock minute.
pub fn timeframe_due(timeframe: &Timeframe, minute: u32) -> (r: bool)
    ensures
        r == spec_timeframe_due(*timeframe, minute),
{
    match timeframe {
        Timeframe::Min1 => true,
        Timeframe::Min5 => minute % 5 == 0,
        Timeframe::Min15 => minute % 15 == 0,
        Timeframe::Min30 => minute % 30 == 0,
        Timeframe::Hour1 => minute % 60 == 0,
    }
}

/// How long to wait from `since_epoch_ns` until the next boundary aligned
/// to `interval_ns`; a full interval when already on a boundary, so the
/// wait is always positive.
pub fn aligned_wait_nanos(since_epoch_ns: u128, interval_ns: u128) -> (r: u128)
    requires
        interval_ns > 0,
        since_epoch_ns + interval_ns <= u128::MAX,
    ensures
        r == if since_epoch_ns as int % interval_ns as int == 0 {
            interval_ns as int
        } else {
            interval_ns as int - since_epoch_ns as int % interval_ns as int
        },
        0 < r <= interval_ns,
        (since_epoch_ns + r) % (interval_ns as int) == 0,
{
    let elapsed: u128 = since_epoch_ns % interval_ns;
    let ghost s: int = since_epoch_ns as int;
    let ghost d: int = interval_ns as int;
    let ghost q: int = s / d;
    proof {
        vstd::arithmetic::div_mod::lemma_fundamental_div_mod(s, d);
        vstd::arithmetic::div_mod::lemma_mod_multiples_basic(q + 1, d);
        assert((q + 1) * d == d * q + d) by (nonlinear_arith);
        assert(s + (d - s % d) == (q + 1) * d);
        assert((s + (d - s % d)) % d == 0);
    }
    if elapsed == 0 {
        proof {
            assert(s + d == (q + 1) * d);
            assert((s + d) % d == 0);
        }
        interval_ns
    } else {
        interval_ns - elapsed
    }
}

/// Relies on chrono's `Utc::now`: the current wall-clock instant, which is
/// at or after the Unix epoch (chrono aborts otherwise), as whole seconds.
#[verifier::external_body]
fn now_utc_seconds() -> (r: i64)
    ensures
        r >= 0,
{
    chrono::Utc::now().timestamp()
}

/// The current time as seconds since the epoch, shifted into the fixed
/// offset of `time_zone` hours, so that minute-of-hour and hour-of-day
/// arithmetic on it reads local wall-clock time.
pub fn get_date(time_zone: i32) -> (r: i64)
    ensures
        time_zone >= 0 ==> r >= 0,
{
    let now = now_utc_seconds();
    let off: i64 = (time_zone as i64) * 3600;
    match now.checked_add(off) {
        Some(v) => v,
        None => now,
    }
}

/// The minute-of-hour a zone-shifted epoch timestamp falls in.
pub fn minute_of(epoch_seconds: i64) -> (r: u32)
    requires
        epoch_seconds >= 0,
    ensures
        r == (epoch_seconds as int / 60) % 60,
        r < 60,
{
    ((epoch_seconds / 60) % 60) as u32
}

/// The hour-of-day a zone-shifted epoch timestamp falls in.
pub fn hour_of(epoch_seconds: i64) -> (r: u32)
    requires
        epoch_seconds >= 0,
    ensures
        r == (epoch_seconds as int / 3600) % 24,
        r < 24,
{
    ((epoch_seconds / 3600) % 24) as u32
}

/// The close condition of an open position at `price`: a long closes at or
/// beyond either protective level, a short mirrored; a bot without a
/// position never closes.
pub open spec fn spec_should_close(price: int, bot: Bot) -> bool {
    match bot.order_type {
        OrderCommand::Long => price <= bot.order_stop_loss || price >= bot.order_take_profit,
        OrderCommand::Short => price >= bot.order_stop_loss || price <= bot.order_take_profit,
        OrderCommand::Wait => false,
    }
}

/// Whether the position monitor must close this bot's position at `price`.
pub fn should_close_position(price: i64, bot: &Bot) -> (r: bool)
    ensures
        r == spec_should_close(price as int, *bot),
{
    match bot.order_type {
        OrderCommand::Long => price <= bot.order_stop_loss || price >= bot.order_take_profit,
        OrderCommand::Short => price >= bot.order_stop_loss || price <= bot.order_take_profit,
        OrderCommand::Wait => false,
    }
}

/// Refresh the running P&L and ROE of a bot from the current price,
/// touching nothing else.
pub fn update_pnl_and_roe(bot: &mut Bot, price: i64)
    requires
        old(bot).wf(),
        0 <= price <= MONEY_MAX,
        old(bot).in_pos ==> in_money(old(bot).spec_close_pnl(price as int)) && in_money(
            old(bot).spec_close_roe(price as int),
        ),
    ensures
        final(bot).wf(),
        final(bot).pnl == old(bot).spec_close_pnl(price as int),
        final(bot).roe == old(bot).spec_close_roe(price as int),
        *final(bot) == (Bot { pnl: final(bot).pnl, roe: final(bot).roe, ..*old(bot) }),
{
    bot.pnl = calculate_pnl(
        price,
        bot.order_capital_with_leverage,
        bot.order_quantity,
        &bot.order_type,
    );
    bot.roe = calculate_roe(bot.order_entry_price, price, bot.leverage, &bot.order_type);
}

/// Whether this bot's timeframe cadence falls on the given wall-clock
/// minute.
pub fn is_timeframe_now(bot: &Bot, minute: u32) -> (r: bool)
    ensures
        r == spec_timeframe_due(bot.timeframe, minute),
{
    timeframe_due(&bot.timeframe, minute)
}

/// The de-leveraged percentage move of the open position: its ROE divided
/// by its leverage.
pub open spec fn spec_real_roe(bot: Bot) -> int {
    tdiv(bot.roe as int, bot.leverage as int)
}

/// Whether the trailing stop acts at all: it is enabled and the
/// de-leveraged move has passed the activation point.
pub open spec fn spec_shift_applies(bot: Bot) -> bool {
    &&& bot.is_trailing_stop_active
    &&& spec_real_roe(bot) > bot.trailing_stop_activation_point
    &&& bot.order_type != OrderCommand::Wait
}

/// The stop-loss level a shift would move to: the entry price moved by
/// half the de-leveraged fractional move, toward the profitable side.
pub open spec fn spec_shift_candidate(bot: Bot) -> int {
    let shift = tdiv(spec_real_roe(bot), 200);
    let delta = tdiv(bot.order_entry_price * shift, SCALE as int);
    match bot.order_type {
        OrderCommand::Long => bot.order_entry_price + delta,
        OrderCommand::Short => bot.order_entry_price - delta,
        OrderCommand::Wait => 0,
    }
}

/// Trailing-stop adjustment: once the de-leveraged move has passed the
/// activation point, move the stop-loss to the candidate level, but only in
/// the direction that protects profit, and only while it stays
/// representable.  The stored stop-loss never moves down for a long nor up
/// for a short.
pub fn shift_stop_loss(bot: &mut Bot)
    requires
        old(bot).wf(),
    ensures
        final(bot).wf(),
        old(bot).order_type == OrderCommand::Long ==> final(bot).order_stop_loss >= old(
            bot,
        ).order_stop_loss,
        old(bot).order_type == OrderCommand::Short ==> final(bot).order_stop_loss <= old(
            bot,
        ).order_stop_loss,
        !spec_shift_applies(*old(bot)) ==> *final(bot) == *old(bot),
        spec_shift_applies(*old(bot)) ==> {
            let candidate = spec_shift_candidate(*old(bot));
            let applied = match old(bot).order_type {
                OrderCommand::Long => candidate > old(bot).order_stop_loss && candidate <= 2 * (
                MONEY_MAX as int),
                OrderCommand::Short => candidate < old(bot).order_stop_loss && candidate >= 0,
                OrderCommand::Wait => false,
            };
            if applied {
                *final(bot) == (Bot { order_stop_loss: candidate as i64, ..*old(bot) })
            } else {
                *final(bot) == *old(bot)
            }
        },
{
    if !bot.is_trailing_stop_active {
        return ;
    }
    let real_roe: i64 = div_i128(bot.roe as i128, bot.leverage as i128) as i64;
    proof {
        crate::fixed::lemma_tdiv_mag(bot.roe as int, bot.leverage as int);
    }
    if real_roe <= bot.trailing_stop_activation_point {
        return ;
    }
    let shift: i64 = div_i128(real_roe as i128, 200) as i64;
    proof {
        crate::fixed::lemma_tdiv_mag(real_roe as int, 200);
        crate::fixed::lemma_abs_mul_le(
            bot.order_entry_price as int,
            shift as int,
            MONEY_MAX as int,
            MONEY_MAX as int,
        );
        crate::fixed::lemma_tdiv_mag((bot.order_entry_price as i128 * shift as i128) as int, SCALE as int);
    }
    let delta: i128 = div_i128((bot.order_entry_price as i128) * (shift as i128), SCALE as i128);
    if matches!(bot.order_type, OrderCommand::Long) {
        let candidate: i128 = (bot.order_entry_price as i128) + delta;
        if candidate > bot.order_stop_loss as i128 && candidate <= 2 * (MONEY_MAX as i128) {
            bot.order_stop_loss = candidate as i64;
        }
    } else if matches!(bot.order_type, OrderCommand::Short) {
        let candidate: i128 = (bot.order_entry_price as i128) - delta;
        if candidate < bot.order_stop_loss as i128 && candidate >= 0 {
            bot.order_stop_loss = candidate as i64;
        }
    }
}

} // verus!

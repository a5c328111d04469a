//! Position arithmetic: protective price levels, fees, position size, P&L
//! and return-on-equity, all parameterized by the side of the position.

use vstd::prelude::*;
use vstd::arithmetic::div_mod::{
    lemma_div_is_ordered, lemma_div_multiples_vanish_fancy, lemma_div_pos_is_pos,
};
use crate::enums::OrderCommand;
use crate::fixed::{
    cdiv, ceil_div_u128, div_i128, in_money, lemma_abs_mul_le, tdiv, MONEY_MAX, PCT_DEN, SCALE,
};

verus! {

/// Largest leverage multiplier the contracts admit: the highest leverage
/// tier the exchange's perpetual futures offer.
pub const MAX_LEVERAGE: i64 = 125;

/// The amount `pct` percent of `price` stands for, rounded away from zero so
/// that any positive percentage of a positive price moves the level by at
/// least one tick.
pub open spec fn spec_pct_amount(price: int, pct: int) -> int {
    cdiv(price * pct, PCT_DEN as int)
}

/// The price level at which a position of the given side cuts its loss:
/// `price * (1 - pct/100)` for a long, mirrored for a short.
pub open spec fn spec_stop_loss(price: int, pct: int, cmd: OrderCommand) -> int {
    match cmd {
        OrderCommand::Long => price - spec_pct_amount(price, pct),
        OrderCommand::Short => price + spec_pct_amount(price, pct),
        OrderCommand::Wait => 0,
    }
}

/// The price level at which a position of the given side takes its profit:
/// `price * (1 + pct/100)` for a long, mirrored for a short.
pub open spec fn spec_take_profit(price: int, pct: int, cmd: OrderCommand) -> int {
    match cmd {
        OrderCommand::Long => price + spec_pct_amount(price, pct),
        OrderCommand::Short => price - spec_pct_amount(price, pct),
        OrderCommand::Wait => 0,
    }
}

/// The maker fee: 0.02 percent of the capital.
pub open spec fn spec_maker_fee(capital: int) -> int {
    tdiv(capital * 2, 10000)
}

/// The taker fee, exactly twice the maker fee.
pub open spec fn spec_taker_fee(capital: int) -> int {
    2 * spec_maker_fee(capital)
}

/// How many units of the asset the leveraged capital buys at `price`;
/// zero when the price is zero.
pub open spec fn spec_buy_quantity(price: int, capital_with_leverage: int) -> int {
    if price == 0 {
        0
    } else {
        tdiv(capital_with_leverage * SCALE as int, price)
    }
}

/// Profit and loss of a position at `current` price: algebraically
/// `(current - entry) * quantity` for a long, where the entry is recoverable
/// as `capital_with_leverage / quantity`; mirrored for a short; zero without
/// a quantity.
pub open spec fn spec_pnl(current: int, capital_with_leverage: int, quantity: int, cmd: OrderCommand) -> int {
    if quantity == 0 {
        0
    } else {
        match cmd {
            OrderCommand::Long => tdiv(current * quantity, SCALE as int) - capital_with_leverage,
            OrderCommand::Short => capital_with_leverage - tdiv(current * quantity, SCALE as int),
            OrderCommand::Wait => 0,
        }
    }
}

/// Return on (unleveraged) equity, as a percentage:
/// `((current - entry) / entry) * leverage * 100` for a long, sign-mirrored
/// for a short; zero when the entry is zero.
pub open spec fn spec_roe(entry: int, current: int, leverage: int, cmd: OrderCommand) -> int {
    if entry == 0 {
        0
    } else {
        match cmd {
            OrderCommand::Long => tdiv((current - entry) * leverage * (PCT_DEN as int), entry),
            OrderCommand::Short => tdiv((entry - current) * leverage * (PCT_DEN as int), entry),
            OrderCommand::Wait => 0,
        }
    }
}

/// A percentage of a bounded price is between zero and the price itself, and
/// positive whenever both are.
pub proof fn lemma_pct_amount_range(price: int, pct: int)
    requires
        0 <= price <= MONEY_MAX as int,
        0 <= pct <= PCT_DEN as int,
    ensures
        0 <= spec_pct_amount(price, pct) <= price,
        price >= 1 && pct >= 1 ==> spec_pct_amount(price, pct) >= 1,
{
    let d = PCT_DEN as int;
    let n = price * pct;
    lemma_abs_mul_le(price, pct, MONEY_MAX as int, d);
    assert(price * pct >= 0) by (nonlinear_arith)
        requires
            price >= 0,
            pct >= 0,
    ;
    lemma_div_pos_is_pos(n + d - 1, d);
    assert(price * pct <= price * d) by (nonlinear_arith)
        requires
            pct <= d,
            price >= 0,
    ;
    lemma_div_is_ordered(n + d - 1, price * d + (d - 1), d);
    lemma_div_multiples_vanish_fancy(price, d - 1, d);
    if price >= 1 && pct >= 1 {
        assert(price * pct >= 1) by (nonlinear_arith)
            requires
                price >= 1,
                pct >= 1,
        ;
        lemma_div_is_ordered(d, n + d - 1, d);
        lemma_div_multiples_vanish_fancy(1, 0, d);
    }
}

/// Law: for any positive price and positive percentage, the stop-loss of a
/// long sits strictly below the price and its take-profit strictly above,
/// and the short case is mirrored.
pub proof fn lemma_stop_take_levels(price: int, pct: int)
    requires
        0 < price <= MONEY_MAX as int,
        0 < pct <= PCT_DEN as int,
    ensures
        spec_stop_loss(price, pct, OrderCommand::Long) < price,
        price < spec_take_profit(price, pct, OrderCommand::Long),
        spec_take_profit(price, pct, OrderCommand::Short) < price,
        price < spec_stop_loss(price, pct, OrderCommand::Short),
        spec_stop_loss(price, pct, OrderCommand::Long) >= 0,
        spec_take_profit(price, pct, OrderCommand::Short) >= 0,
    {
    lemma_pct_amount_range(price, pct);
}

/// Law: the taker fee is exactly twice the maker fee, for every capital.
pub proof fn lemma_fee_ratio(capital: int)
    ensures
        spec_taker_fee(capital) == 2 * spec_maker_fee(capital),
{
}

/// The price level at which a position opened at `price` cuts its loss.
pub fn calculate_stop_loss(price: i64, stop_loss_pct: i64, order_type: &OrderCommand) -> (r: i64)
    requires
        0 <= price <= MONEY_MAX,
        0 <= stop_loss_pct <= PCT_DEN,
    ensures
        r == spec_stop_loss(price as int, stop_loss_pct as int, *order_type),
        0 <= r <= 2 * MONEY_MAX,
{
    match order_type {
        OrderCommand::Long => {
            let amt = pct_amount(price, stop_loss_pct);
            price - amt
        },
        OrderCommand::Short => {
            let amt = pct_amount(price, stop_loss_pct);
            price + amt
        },
        OrderCommand::Wait => 0,
    }
}

/// The price level at which a position opened at `price` takes its profit.
pub fn calculate_take_profit(price: i64, take_profit_pct: i64, order_type: &OrderCommand) -> (r: i64)
    requires
        0 <= price <= MONEY_MAX,
        0 <= take_profit_pct <= PCT_DEN,
    ensures
        r == spec_take_profit(price as int, take_profit_pct as int, *order_type),
        0 <= r <= 2 * MONEY_MAX,
{
    match order_type {
        OrderCommand::Long => {
            let amt = pct_amount(price, take_profit_pct);
            price + amt
        },
        OrderCommand::Short => {
            let amt = pct_amount(price, take_profit_pct);
            price - amt
        },
        OrderCommand::Wait => 0,
    }
}

/// The amount `pct` percent of `price` stands for.
fn pct_amount(price: i64, pct: i64) -> (r: i64)
    requires
        0 <= price <= MONEY_MAX,
        0 <= pct <= PCT_DEN,
    ensures
        r == spec_pct_amount(price as int, pct as int),
        0 <= r <= price,
{
    proof {
        lemma_abs_mul_le(price as int, pct as int, MONEY_MAX as int, PCT_DEN as int);
        lemma_pct_amount_range(price as int, pct as int);
        assert(price as int * pct as int >= 0) by (nonlinear_arith)
            requires
                price >= 0,
                pct >= 0,
        ;
    }
    let n: i128 = (price as i128) * (pct as i128);
    let q: u128 = ceil_div_u128(n as u128, PCT_DEN as u128);
    q as i64
}

/// The fee charged on the opening (taker) side of a trade.
pub fn calculate_taker_fee(capital: i64) -> (r: i64)
    requires
        -2 * (MONEY_MAX as int) <= capital <= 2 * (MONEY_MAX as int),
    ensures
        r == spec_taker_fee(capital as int),
        r == 2 * spec_maker_fee(capital as int),
        capital >= 0 ==> 0 <= r <= capital,
{
    let m = calculate_maker_fee(capital);
    proof {
        crate::fixed::lemma_tdiv_bound(capital as int * 2, 10000, 4 * MONEY_MAX as int);
        if capital >= 0 {
            assert(2 * tdiv(capital as int * 2, 10000) <= capital) by (nonlinear_arith)
                requires
                    capital >= 0,
            ;
        }
    }
    2 * m
}

/// The fee charged on the closing (maker) side of a trade.
pub fn calculate_maker_fee(capital: i64) -> (r: i64)
    requires
        -2 * (MONEY_MAX as int) <= capital <= 2 * (MONEY_MAX as int),
    ensures
        r == spec_maker_fee(capital as int),
        in_money(r as int),
        capital >= 0 ==> 0 <= r <= capital,
{
    proof {
        crate::fixed::lemma_tdiv_quotient_bound(capital as int * 2, 10000, 40_000_000_000_000);
        crate::fixed::lemma_tdiv_mag(capital as int * 2, 10000);
        assert(capital >= 0 ==> tdiv(capital as int * 2, 10000) <= capital) by (nonlinear_arith)
            requires
                capital >= 0 ==> tdiv(capital as int * 2, 10000) <= capital as int * 2 / 10000,
        ;
    }
    let r: i128 = div_i128((capital as i128) * 2, 10000);
    r as i64
}

/// How many units of the asset the leveraged capital buys at `price`.
pub fn calculate_buy_quantity(price: i64, capital_with_leverage: i64) -> (r: i64)
    requires
        0 <= price <= MONEY_MAX,
        0 <= capital_with_leverage <= MONEY_MAX,
        spec_buy_quantity(price as int, capital_with_leverage as int) <= MONEY_MAX as int,
    ensures
        r == spec_buy_quantity(price as int, capital_with_leverage as int),
        0 <= r <= MONEY_MAX,
{
    if price == 0 {
        return 0;
    }
    proof {
        lemma_abs_mul_le(capital_with_leverage as int, SCALE as int, MONEY_MAX as int, SCALE as int);
        crate::fixed::lemma_tdiv_mag(capital_with_leverage as int * SCALE as int, price as int);
    }
    let n: i128 = (capital_with_leverage as i128) * (SCALE as i128);
    let q: i128 = div_i128(n, price as i128);
    q as i64
}

/// Profit and loss of a position at the current price, on wide integers
/// so that no bound on the result is needed.
pub fn calculate_pnl_wide(
    current_price: i64,
    capital_with_leverage: i64,
    quantity: i64,
    order_type: &OrderCommand,
) -> (r: i128)
    requires
        0 <= current_price <= MONEY_MAX,
        0 <= capital_with_leverage <= MONEY_MAX,
        0 <= quantity <= MONEY_MAX,
    ensures
        r == spec_pnl(current_price as int, capital_with_leverage as int, quantity as int, *order_type),
{
    if quantity == 0 {
        return 0;
    }
    match order_type {
        OrderCommand::Long => {
            let v = position_value(current_price, quantity);
            v - (capital_with_leverage as i128)
        },
        OrderCommand::Short => {
            let v = position_value(current_price, quantity);
            (capital_with_leverage as i128) - v
        },
        OrderCommand::Wait => 0,
    }
}

/// Profit and loss of a position at the current price.
pub fn calculate_pnl(
    current_price: i64,
    capital_with_leverage: i64,
    quantity: i64,
    order_type: &OrderCommand,
) -> (r: i64)
    requires
        0 <= current_price <= MONEY_MAX,
        0 <= capital_with_leverage <= MONEY_MAX,
        0 <= quantity <= MONEY_MAX,
        in_money(spec_pnl(current_price as int, capital_with_leverage as int, quantity as int, *order_type)),
    ensures
        r == spec_pnl(current_price as int, capital_with_leverage as int, quantity as int, *order_type),
{
    calculate_pnl_wide(current_price, capital_with_leverage, quantity, order_type) as i64
}

/// Current worth of `quantity` units at `price`, truncated to a whole tick.
fn position_value(price: i64, quantity: i64) -> (r: i128)
    requires
        0 <= price <= MONEY_MAX,
        0 <= quantity <= MONEY_MAX,
    ensures
        r == tdiv(price as int * quantity as int, SCALE as int),
        0 <= r <= 0x10_0000_0000_0000_0000_0000_0000,
{
    proof {
        lemma_abs_mul_le(price as int, quantity as int, MONEY_MAX as int, MONEY_MAX as int);
        crate::fixed::lemma_tdiv_mag(price as int * quantity as int, SCALE as int);
    }
    let n: i128 = (price as i128) * (quantity as i128);
    div_i128(n, SCALE as i128)
}

/// Return on (unleveraged) equity of a position, on wide integers so that
/// no bound on the result is needed.
pub fn calculate_roe_wide(
    entry_price: i64,
    current_price: i64,
    leverage: i64,
    order_type: &OrderCommand,
) -> (r: i128)
    requires
        0 <= entry_price <= MONEY_MAX,
        0 <= current_price <= MONEY_MAX,
        1 <= leverage <= MAX_LEVERAGE,
    ensures
        r == spec_roe(entry_price as int, current_price as int, leverage as int, *order_type),
{
    if entry_price == 0 {
        return 0;
    }
    match order_type {
        OrderCommand::Long => roe_ratio(current_price - entry_price, leverage, entry_price),
        OrderCommand::Short => roe_ratio(entry_price - current_price, leverage, entry_price),
        OrderCommand::Wait => 0,
    }
}

/// Return on (unleveraged) equity of a position, as a percentage.
pub fn calculate_roe(
    entry_price: i64,
    current_price: i64,
    leverage: i64,
    order_type: &OrderCommand,
) -> (r: i64)
    requires
        0 <= entry_price <= MONEY_MAX,
        0 <= current_price <= MONEY_MAX,
        1 <= leverage <= MAX_LEVERAGE,
        in_money(spec_roe(entry_price as int, current_price as int, leverage as int, *order_type)),
    ensures
        r == spec_roe(entry_price as int, current_price as int, leverage as int, *order_type),
{
    calculate_roe_wide(entry_price, current_price, leverage, order_type) as i64
}

/// `diff / entry` as a leveraged percentage, truncated to a whole tick.
fn roe_ratio(diff: i64, leverage: i64, entry: i64) -> (r: i128)
    requires
        -MONEY_MAX <= diff <= MONEY_MAX,
        1 <= leverage <= MAX_LEVERAGE,
        1 <= entry <= MONEY_MAX,
    ensures
        r == tdiv(diff as int * leverage as int * (PCT_DEN as int), entry as int),
{
    proof {
        lemma_abs_mul_le(diff as int, leverage as int, MONEY_MAX as int, MAX_LEVERAGE as int);
        lemma_abs_mul_le(
            diff as int * leverage as int,
            PCT_DEN as int,
            MONEY_MAX as int * MAX_LEVERAGE as int,
            PCT_DEN as int,
        );
    }
    let n: i128 = (diff as i128) * (leverage as i128) * (PCT_DEN as i128);
    div_i128(n, entry as i128)
}

} // verus!

//! The bot entity: one trading instance's configuration, capital and open
//! position, with the lifecycle transitions `open_position`,
//! `close_position` and `reset`.

use vstd::prelude::*;
use vstd::string::StringExecFns;
use crate::calculator::{
    calculate_buy_quantity, calculate_maker_fee, calculate_pnl, calculate_pnl_wide, calculate_roe,
    calculate_roe_wide, calculate_stop_loss, calculate_take_profit, calculate_taker_fee,
    spec_buy_quantity, spec_maker_fee, spec_pnl, spec_roe, spec_stop_loss, spec_take_profit,
    spec_taker_fee, MAX_LEVERAGE,
};
use crate::enums::{OrderCommand, Symbol, Timeframe};
use crate::fixed::{in_money, lemma_tdiv_quotient_bound, tdiv, MONEY_MAX, PCT_DEN, SCALE};
use crate::models::Order;
use crate::strategy::{get_strategy, spec_lower_eq, spec_strategy_cmd, StrategyKind};
use crate::tools::format_timeframe;

verus! {

/// Capital a bot starts and daily-resets with.
pub const INITIAL_CAPITAL: i64 = 10_000_000_000;

/// Capital floor at or below which a bot stops trading until an external
/// reset.
pub const DEACTIVATION_FLOOR: i64 = 8_500_000_000;

/// The typed domain-rule violations of the bot lifecycle.
#[derive(Clone, Copy, Debug, PartialEq, Eq, Structural)]
pub enum BotError {
    NotActive,
    AlreadyInPosition,
    InsufficientCapital,
    NoOpenPosition,
}

impl BotError {
    /// Human-readable description of the violation.
    pub fn to_string(&self) -> (r: String)
        ensures
            self == BotError::NotActive ==> r@ == "bot can't open position, bot not active"@,
            self == BotError::AlreadyInPosition ==> r@
                == "bot can't open position, bot is already in open position"@,
            self == BotError::InsufficientCapital ==> r@
                == "bot can't open position, capital at or below the deactivation floor"@,
            self == BotError::NoOpenPosition ==> r@ == "No open position to close"@,
    {
        match self {
            BotError::NotActive => String::from_str("bot can't open position, bot not active"),
            BotError::AlreadyInPosition => String::from_str(
                "bot can't open position, bot is already in open position",
            ),
            BotError::InsufficientCapital => String::from_str(
                "bot can't open position, capital at or below the deactivation floor",
            ),
            BotError::NoOpenPosition => String::from_str("No open position to close"),
        }
    }
}

/// One trading instance: immutable configuration, running capital, and the
/// fields of its single open position, if any.
#[derive(Clone, Debug)]
pub struct Bot {
    pub name: String,
    pub symbol: Symbol,
    pub timeframe: Timeframe,
    pub strategy_name: String,
    pub strategy: StrategyKind,
    pub capital: i64,
    pub is_not_active: bool,
    pub wins: i16,
    pub losses: i16,
    pub log: String,
    pub started_at: i64,
    pub last_scanned: i64,
    pub leverage: i64,
    pub take_profit_ratio: i64,
    pub stop_loss_ratio: i64,
    pub is_trailing_stop_active: bool,
    pub trailing_stop_activation_point: i64,
    pub in_pos: bool,
    pub order_type: OrderCommand,
    pub order_created_at: i64,
    pub order_scanned_at: i64,
    pub order_quantity: i64,
    pub order_capital: i64,
    pub order_capital_with_leverage: i64,
    pub order_entry_price: i64,
    pub order_stop_loss: i64,
    pub order_take_profit: i64,
    pub order_fee: i64,
    pub pnl: i64,
    pub roe: i64,
}

impl Bot {
    /// Every order field is back at its vacant value.
    pub open spec fn order_fields_cleared(self) -> bool {
        &&& self.order_type == OrderCommand::Wait
        &&& self.order_quantity == 0
        &&& self.order_capital == 0
        &&& self.order_capital_with_leverage == 0
        &&& self.order_entry_price == 0
        &&& self.order_stop_loss == 0
        &&& self.order_take_profit == 0
        &&& self.order_fee == 0
        &&& self.pnl == 0
        &&& self.roe == 0
    }

    /// The bounds an open position's fields obey.
    pub open spec fn position_fields_ok(self) -> bool {
        &&& self.capital == 0
        &&& 0 < self.order_entry_price <= MONEY_MAX
        &&& 0 <= self.order_quantity <= MONEY_MAX
        &&& 0 <= self.order_capital <= MONEY_MAX
        &&& 0 <= self.order_capital_with_leverage <= MONEY_MAX
        &&& 0 <= self.order_stop_loss <= 2 * MONEY_MAX
        &&& 0 <= self.order_take_profit <= 2 * MONEY_MAX
        &&& 0 <= self.order_fee <= MONEY_MAX
        &&& in_money(self.pnl as int)
        &&& in_money(self.roe as int)
    }

    /// Well-formedness: configuration in range, at most one open position,
    /// and the capital-accounting invariant that an entered trade carries
    /// the whole capital.
    pub open spec fn wf(self) -> bool {
        &&& 1 <= self.leverage <= MAX_LEVERAGE
        &&& 0 <= self.take_profit_ratio <= PCT_DEN
        &&& 0 <= self.stop_loss_ratio <= PCT_DEN
        &&& 0 <= self.trailing_stop_activation_point <= PCT_DEN
        &&& -2 * (MONEY_MAX as int) <= self.capital <= 2 * (MONEY_MAX as int)
        &&& (self.in_pos <==> self.order_type != OrderCommand::Wait)
        &&& if self.in_pos {
            self.position_fields_ok()
        } else {
            self.order_fields_cleared()
        }
    }

    /// Whether the bot may enter a trade: active, idle, and capital above
    /// the deactivation floor.
    pub open spec fn spec_can_open(self) -> bool {
        &&& !self.is_not_active
        &&& !self.in_pos
        &&& self.capital > DEACTIVATION_FLOOR
    }

    /// The leveraged capital a trade entered now would carry, after the
    /// taker fee.
    pub open spec fn spec_open_cwl(self) -> int {
        self.leverage * (self.capital - spec_taker_fee(self.capital as int))
    }

    /// Machine limits an entry at `price` must respect: the leveraged
    /// capital and the bought quantity stay representable.
    pub open spec fn spec_open_fits(self, price: int) -> bool {
        &&& self.spec_open_cwl() <= MONEY_MAX as int
        &&& spec_buy_quantity(price, self.spec_open_cwl()) <= MONEY_MAX as int
    }

    /// The maker fee a close charges on the entered capital.
    pub open spec fn spec_close_fee(self) -> int {
        spec_maker_fee(self.order_capital as int)
    }

    /// The realized P&L of closing at `price`.
    pub open spec fn spec_close_pnl(self, price: int) -> int {
        spec_pnl(
            price,
            self.order_capital_with_leverage as int,
            self.order_quantity as int,
            self.order_type,
        )
    }

    /// The realized return on equity of closing at `price`.
    pub open spec fn spec_close_roe(self, price: int) -> int {
        spec_roe(self.order_entry_price as int, price, self.leverage as int, self.order_type)
    }

    /// The capital after closing at `price`: the entered capital net of the
    /// maker fee, plus the realized P&L.
    pub open spec fn spec_close_capital(self, price: int) -> int {
        self.capital + (self.order_capital - self.spec_close_fee()) + self.spec_close_pnl(price)
    }

    /// Machine limits a close at `price` must respect.
    pub open spec fn spec_close_fits(self, price: int) -> bool {
        &&& in_money(self.spec_close_pnl(price))
        &&& in_money(self.spec_close_roe(price))
        &&& self.wins < i16::MAX
        &&& self.losses < i16::MAX
    }

    /// Whether an entry at `price` respects the machine limits that
    /// `open_position` requires; callers outside verified code test this
    /// before opening.
    pub fn open_fits(&self, price: i64) -> (r: bool)
        requires
            self.wf(),
            1 <= price <= MONEY_MAX,
        ensures
            r == self.spec_open_fits(price as int),
    {
        let fee = calculate_taker_fee(self.capital);
        let cap: i64 = self.capital - fee;
        proof {
            crate::fixed::lemma_abs_mul_le(
                self.leverage as int,
                cap as int,
                MAX_LEVERAGE as int,
                3 * MONEY_MAX as int,
            );
        }
        let cwl: i128 = (self.leverage as i128) * (cap as i128);
        if cwl > MONEY_MAX as i128 {
            return false;
        }
        if cwl < 0 {
            proof {
                crate::fixed::lemma_tdiv_mag(cwl as int * SCALE as int, price as int);
                assert((cwl as int) * (SCALE as int) < 0) by (nonlinear_arith)
                    requires
                        cwl < 0,
                        SCALE as int > 0,
                ;
            }
            return true;
        }
        proof {
            crate::fixed::lemma_tdiv_mag((cwl as i128 * SCALE as i128) as int, price as int);
            crate::fixed::lemma_abs_mul_le(cwl as int, SCALE as int, MONEY_MAX as int, SCALE as int);
        }
        let qty: i128 = crate::fixed::div_i128(cwl * (SCALE as i128), price as i128);
        qty <= MONEY_MAX as i128
    }

    /// Whether a close at `price` respects the machine limits that
    /// `close_position` requires; callers outside verified code test this
    /// before closing.
    pub fn close_fits(&self, price: i64) -> (r: bool)
        requires
            self.wf(),
            self.in_pos,
            0 <= price <= MONEY_MAX,
        ensures
            r == self.spec_close_fits(price as int),
    {
        if self.wins >= i16::MAX || self.losses >= i16::MAX {
            return false;
        }
        let pnl = calculate_pnl_wide(
            price,
            self.order_capital_with_leverage,
            self.order_quantity,
            &self.order_type,
        );
        if pnl > MONEY_MAX as i128 || pnl < -(MONEY_MAX as i128) {
            return false;
        }
        let roe = calculate_roe_wide(self.order_entry_price, price, self.leverage, &self.order_type);
        if roe > MONEY_MAX as i128 || roe < -(MONEY_MAX as i128) {
            return false;
        }
        true
    }

    /// Build a bot from its configuration; its name is derived from the
    /// strategy, timeframe and symbol, and its strategy selected from the
    /// registry.
    pub fn new(
        timeframe: Timeframe,
        symbol: Symbol,
        strategy_name: String,
        capital: i64,
        leverage: i64,
        take_profit_ratio: i64,
        stop_loss_ratio: i64,
        trailing_stop_activation_ratio: i64,
    ) -> (r: Bot)
        requires
            0 <= capital <= MONEY_MAX,
            1 <= leverage <= MAX_LEVERAGE,
            0 <= take_profit_ratio <= PCT_DEN,
            0 <= stop_loss_ratio <= PCT_DEN,
            0 <= trailing_stop_activation_ratio <= PCT_DEN,
        ensures
            r.wf(),
            !r.in_pos,
            !r.is_not_active,
            r.symbol == symbol,
            r.timeframe == timeframe,
            r.strategy_name@ == strategy_name@,
            r.strategy == get_strategy_spec(strategy_name@),
            r.capital == capital,
            r.leverage == leverage,
            r.take_profit_ratio == take_profit_ratio,
            r.stop_loss_ratio == stop_loss_ratio,
            r.trailing_stop_activation_point == trailing_stop_activation_ratio,
            r.is_trailing_stop_active,
            r.wins == 0,
            r.losses == 0,
            r.order_fields_cleared(),
            r.name@ == strategy_name@ + "_"@ + spec_timeframe_tag(timeframe) + "_"@
                + spec_symbol_tag(symbol),
    {
        let now = crate::tools::get_date(3);
        let strategy = get_strategy(strategy_name.as_str());
        let mut name = strategy_name.clone();
        name.append("_");
        let tf_tag = format_timeframe(&timeframe);
        name.append(tf_tag.as_str());
        name.append("_");
        name.append(format_symbol(&symbol));
        Bot {
            name,
            symbol,
            timeframe,
            strategy_name,
            strategy,
            capital,
            is_not_active: false,
            wins: 0,
            losses: 0,
            log: String::from_str(""),
            started_at: now,
            last_scanned: now,
            leverage,
            take_profit_ratio,
            stop_loss_ratio,
            is_trailing_stop_active: true,
            trailing_stop_activation_point: trailing_stop_activation_ratio,
            in_pos: false,
            order_type: OrderCommand::Wait,
            order_created_at: now,
            order_scanned_at: now,
            order_quantity: 0,
            order_capital: 0,
            order_capital_with_leverage: 0,
            order_entry_price: 0,
            order_stop_loss: 0,
            order_take_profit: 0,
            order_fee: 0,
            pnl: 0,
            roe: 0,
        }
    }

    /// Daily rollover: restore the starting capital, re-activate the bot,
    /// zero its counters and order fields.  Configuration and identity stay.
    pub fn reset(&mut self)
        requires
            old(self).wf(),
        ensures
            final(self).wf(),
            final(self).capital == INITIAL_CAPITAL,
            !final(self).is_not_active,
            !final(self).in_pos,
            final(self).wins == 0,
            final(self).losses == 0,
            final(self).order_fields_cleared(),
            final(self).name == old(self).name,
            final(self).symbol == old(self).symbol,
            final(self).timeframe == old(self).timeframe,
            final(self).strategy_name == old(self).strategy_name,
            final(self).strategy == old(self).strategy,
            final(self).leverage == old(self).leverage,
            final(self).take_profit_ratio == old(self).take_profit_ratio,
            final(self).stop_loss_ratio == old(self).stop_loss_ratio,
            final(self).is_trailing_stop_active == old(self).is_trailing_stop_active,
            final(self).trailing_stop_activation_point == old(
                self,
            ).trailing_stop_activation_point,
            final(self).last_scanned == old(self).last_scanned,
    {
        self.started_at = crate::tools::get_date(3);
        self.capital = INITIAL_CAPITAL;
        self.is_not_active = false;
        self.in_pos = false;
        self.losses = 0;
        self.wins = 0;
        self.order_type = OrderCommand::Wait;
        self.order_quantity = 0;
        self.order_entry_price = 0;
        self.order_stop_loss = 0;
        self.order_take_profit = 0;
        self.order_capital = 0;
        self.order_capital_with_leverage = 0;
        self.order_fee = 0;
        self.pnl = 0;
        self.roe = 0;
    }

    /// Whether the bot may enter a trade, with the violated rule on refusal.
    pub fn can_open_position(&self) -> (r: Result<(), BotError>)
        ensures
            self.is_not_active ==> r == Result::<(), BotError>::Err(BotError::NotActive),
            !self.is_not_active && self.in_pos ==> r == Result::<(), BotError>::Err(
                BotError::AlreadyInPosition,
            ),
            !self.is_not_active && !self.in_pos && self.capital <= DEACTIVATION_FLOOR ==> r
                == Result::<(), BotError>::Err(BotError::InsufficientCapital),
            r is Ok <==> self.spec_can_open(),
    {
        if self.is_not_active {
            return Err(BotError::NotActive);
        }
        if self.in_pos {
            return Err(BotError::AlreadyInPosition);
        }
        if self.capital <= DEACTIVATION_FLOOR {
            return Err(BotError::InsufficientCapital);
        }
        Ok(())
    }

    /// Enter a position of the given side at `price`: debit the whole
    /// capital, charge the taker fee, lever the remainder, and record the
    /// protective levels and timestamps.  Refuses, unchanged, exactly when
    /// `can_open_position` does.
    pub fn open_position(&mut self, command: &OrderCommand, price: i64, now: i64) -> (r: Result<
        (),
        BotError,
    >)
        requires
            old(self).wf(),
            *command != OrderCommand::Wait,
            1 <= price <= MONEY_MAX,
            old(self).spec_can_open() ==> old(self).spec_open_fits(price as int),
        ensures
            old(self).is_not_active ==> r == Result::<(), BotError>::Err(BotError::NotActive)
                && *final(self) == *old(self),
            !old(self).is_not_active && old(self).in_pos ==> r == Result::<(), BotError>::Err(
                BotError::AlreadyInPosition,
            ) && *final(self) == *old(self),
            !old(self).is_not_active && !old(self).in_pos && old(self).capital
                <= DEACTIVATION_FLOOR ==> r == Result::<(), BotError>::Err(
                BotError::InsufficientCapital,
            ) && *final(self) == *old(self),
            r is Ok <==> old(self).spec_can_open(),
            old(self).spec_can_open() ==> {
                &&& final(self).wf()
                &&& final(self).in_pos
                &&& final(self).order_type == *command
                &&& final(self).capital == 0
                &&& final(self).order_fee == spec_taker_fee(old(self).capital as int)
                &&& final(self).order_capital == old(self).capital - spec_taker_fee(
                    old(self).capital as int,
                )
                &&& final(self).order_capital_with_leverage == old(self).spec_open_cwl()
                &&& final(self).order_quantity == spec_buy_quantity(
                    price as int,
                    old(self).spec_open_cwl(),
                )
                &&& final(self).order_entry_price == price
                &&& final(self).order_stop_loss == spec_stop_loss(
                    price as int,
                    old(self).stop_loss_ratio as int,
                    *command,
                )
                &&& final(self).order_take_profit == spec_take_profit(
                    price as int,
                    old(self).take_profit_ratio as int,
                    *command,
                )
                &&& final(self).order_created_at == now
                &&& final(self).order_scanned_at == now
                &&& final(self).pnl == 0
                &&& final(self).roe == 0
                &&& final(self).name == old(self).name
                &&& final(self).symbol == old(self).symbol
                &&& final(self).timeframe == old(self).timeframe
                &&& final(self).strategy_name == old(self).strategy_name
                &&& final(self).strategy == old(self).strategy
                &&& final(self).wins == old(self).wins
                &&& final(self).losses == old(self).losses
                &&& final(self).is_not_active == old(self).is_not_active
                &&& final(self).leverage == old(self).leverage
                &&& final(self).take_profit_ratio == old(self).take_profit_ratio
                &&& final(self).stop_loss_ratio == old(self).stop_loss_ratio
                &&& final(self).is_trailing_stop_active == old(self).is_trailing_stop_active
                &&& final(self).trailing_stop_activation_point == old(
                    self,
                ).trailing_stop_activation_point
                &&& final(self).started_at == old(self).started_at
                &&& final(self).last_scanned == old(self).last_scanned
                &&& final(self).log == old(self).log
            },
    {
        match self.can_open_position() {
            Err(e) => {
                return Err(e);
            },
            Ok(()) => {},
        }
        self.order_type = *command;
        self.order_stop_loss = calculate_stop_loss(price, self.stop_loss_ratio, command);
        self.order_take_profit = calculate_take_profit(price, self.take_profit_ratio, command);
        let mut capital = self.capital;
        self.capital = 0;
        let fee = calculate_taker_fee(capital);
        proof {
            lemma_taker_fee_small(capital as int);
        }
        capital = capital - fee;
        proof {
            assert(self.leverage * capital >= 0 && capital <= self.leverage * capital)
                by (nonlinear_arith)
                requires
                    self.leverage >= 1,
                    capital >= 0,
            ;
            assert(self.leverage * capital == old(self).spec_open_cwl());
        }
        self.order_capital_with_leverage = self.leverage * capital;
        self.order_capital = capital;
        self.order_quantity = calculate_buy_quantity(price, self.order_capital_with_leverage);
        self.order_entry_price = price;
        self.order_created_at = now;
        self.order_scanned_at = now;
        self.order_fee = fee;
        self.in_pos = true;
        Ok(())
    }

    /// Close the open position at `price`: charge the maker fee on the
    /// entered capital, realize P&L and ROE, count the win or loss, credit
    /// the capital back, emit the immutable order record, clear the order
    /// fields, and deactivate the bot if the resulting capital is at or
    /// below the floor.  Refuses, unchanged, without an open position.
    pub fn close_position(&mut self, cur_price: i64, now: i64) -> (r: Result<Order, BotError>)
        requires
            old(self).wf(),
            0 <= cur_price <= MONEY_MAX,
            old(self).in_pos ==> old(self).spec_close_fits(cur_price as int),
        ensures
            old(self).order_type == OrderCommand::Wait ==> (r matches Err(e) && e
                == BotError::NoOpenPosition && *final(self) == *old(self)),
            old(self).order_type != OrderCommand::Wait ==> (r matches Ok(o) && {
                &&& o.symbol == old(self).symbol
                &&& o.order_type == old(self).order_type
                &&& o.bot_name@ == old(self).name@
                &&& o.entry_price == old(self).order_entry_price
                &&& o.exit_price == cur_price
                &&& o.quantity == old(self).order_quantity
                &&& o.pnl == old(self).spec_close_pnl(cur_price as int)
                &&& o.roe == old(self).spec_close_roe(cur_price as int)
                &&& o.created_at == old(self).order_created_at
                &&& o.closed_at == now
                &&& o.fee == old(self).order_fee + old(self).spec_close_fee()
                &&& o.leverage == old(self).leverage
                &&& final(self).wf()
                &&& !final(self).in_pos
                &&& final(self).order_fields_cleared()
                &&& final(self).capital == old(self).spec_close_capital(cur_price as int)
                &&& final(self).wins == old(self).wins + (if old(self).spec_close_pnl(
                    cur_price as int,
                ) > 0 {
                    1int
                } else {
                    0int
                })
                &&& final(self).losses == old(self).losses + (if old(self).spec_close_pnl(
                    cur_price as int,
                ) > 0 {
                    0int
                } else {
                    1int
                })
                &&& final(self).is_not_active == (old(self).is_not_active || old(
                    self,
                ).spec_close_capital(cur_price as int) <= DEACTIVATION_FLOOR)
                &&& final(self).order_created_at == now
                &&& final(self).order_scanned_at == now
                &&& final(self).name == old(self).name
                &&& final(self).symbol == old(self).symbol
                &&& final(self).timeframe == old(self).timeframe
                &&& final(self).strategy_name == old(self).strategy_name
                &&& final(self).strategy == old(self).strategy
                &&& final(self).leverage == old(self).leverage
                &&& final(self).take_profit_ratio == old(self).take_profit_ratio
                &&& final(self).stop_loss_ratio == old(self).stop_loss_ratio
                &&& final(self).is_trailing_stop_active == old(self).is_trailing_stop_active
                &&& final(self).trailing_stop_activation_point == old(
                    self,
                ).trailing_stop_activation_point
                &&& final(self).started_at == old(self).started_at
                &&& final(self).last_scanned == old(self).last_scanned
                &&& final(self).log == old(self).log
            }),
    {
        if matches!(self.order_type, OrderCommand::Wait) {
            return Err(BotError::NoOpenPosition);
        }
        let fee = calculate_maker_fee(self.order_capital);
        let pnl = calculate_pnl(
            cur_price,
            self.order_capital_with_leverage,
            self.order_quantity,
            &self.order_type,
        );
        let roe = calculate_roe(self.order_entry_price, cur_price, self.leverage, &self.order_type);
        if pnl > 0 {
            self.wins = self.wins + 1;
        } else {
            self.losses = self.losses + 1;
        }
        let total_fee = self.order_fee + fee;
        let credited = (self.order_capital - fee) + pnl;
        self.capital = self.capital + credited;
        let closed_order = Order {
            symbol: self.symbol,
            order_type: self.order_type,
            bot_name: self.name.clone(),
            entry_price: self.order_entry_price,
            exit_price: cur_price,
            quantity: self.order_quantity,
            pnl,
            roe,
            created_at: self.order_created_at,
            closed_at: now,
            fee: total_fee,
            leverage: self.leverage,
        };
        self.order_entry_price = 0;
        self.order_stop_loss = 0;
        self.order_take_profit = 0;
        self.order_type = OrderCommand::Wait;
        self.order_capital = 0;
        self.order_capital_with_leverage = 0;
        self.order_created_at = now;
        self.order_quantity = 0;
        self.order_fee = 0;
        self.order_scanned_at = now;
        self.pnl = 0;
        self.roe = 0;
        if self.capital <= DEACTIVATION_FLOOR {
            self.is_not_active = true;
        }
        self.in_pos = false;
        Ok(closed_order)
    }

    /// Evaluate this bot's strategy on the shared per-tick cache.
    pub fn run_strategy(&self, sc: &crate::models::StrategyContainer) -> (r: (OrderCommand, String))
        requires
            sc.wf(),
        ensures
            r.0 == spec_strategy_cmd(self.strategy, *sc, self.timeframe, self.symbol),
    {
        self.strategy.run(sc, &self.timeframe, &self.symbol)
    }

    /// Whether the entry scheduler must skip this bot this minute:
    /// deactivated, capital at or below the deactivation floor (where an
    /// open would be refused anyway), off its cadence, or already in a
    /// position.
    pub fn is_not_allowed_for_scanning(&self, minute: u32) -> (r: bool)
        ensures
            r == (self.is_not_active || self.capital <= DEACTIVATION_FLOOR
                || !crate::tools::spec_timeframe_due(self.timeframe, minute) || self.in_pos),
    {
        self.is_not_active || self.capital <= DEACTIVATION_FLOOR || !crate::tools::timeframe_due(
            &self.timeframe,
            minute,
        ) || self.in_pos
    }

    /// Whether this value satisfies the well-formedness invariant; callers
    /// outside verified code test this before handing a reconstructed bot
    /// to the functions that require it.
    pub fn is_well_formed(&self) -> (r: bool)
        ensures
            r == self.wf(),
    {
        let config_ok = 1 <= self.leverage && self.leverage <= MAX_LEVERAGE && 0
            <= self.take_profit_ratio && self.take_profit_ratio <= PCT_DEN && 0
            <= self.stop_loss_ratio && self.stop_loss_ratio <= PCT_DEN && 0
            <= self.trailing_stop_activation_point && self.trailing_stop_activation_point
            <= PCT_DEN && -2 * MONEY_MAX <= self.capital && self.capital <= 2 * MONEY_MAX;
        if !config_ok {
            return false;
        }
        if self.in_pos != !matches!(self.order_type, OrderCommand::Wait) {
            return false;
        }
        if self.in_pos {
            self.capital == 0 && 0 < self.order_entry_price && self.order_entry_price <= MONEY_MAX
                && 0 <= self.order_quantity && self.order_quantity <= MONEY_MAX && 0
                <= self.order_capital && self.order_capital <= MONEY_MAX && 0
                <= self.order_capital_with_leverage && self.order_capital_with_leverage
                <= MONEY_MAX && 0 <= self.order_stop_loss && self.order_stop_loss <= 2 * MONEY_MAX
                && 0 <= self.order_take_profit && self.order_take_profit <= 2 * MONEY_MAX && 0
                <= self.order_fee && self.order_fee <= MONEY_MAX && -MONEY_MAX <= self.pnl
                && self.pnl <= MONEY_MAX && -MONEY_MAX <= self.roe && self.roe <= MONEY_MAX
        } else {
            matches!(self.order_type, OrderCommand::Wait) && self.order_quantity == 0
                && self.order_capital == 0 && self.order_capital_with_leverage == 0
                && self.order_entry_price == 0 && self.order_stop_loss == 0
                && self.order_take_profit == 0 && self.order_fee == 0 && self.pnl == 0
                && self.roe == 0
        }
    }
}

/// The strategy the registry selects for a name.
pub open spec fn get_strategy_spec(name: Seq<char>) -> StrategyKind {
    if spec_lower_eq(name, "emamacd"@) {
        StrategyKind::EmaMacd(crate::strategy::EmaMacd {})
    } else if spec_lower_eq(name, "emamacd2"@) {
        StrategyKind::EmaMacd2(crate::strategy::EmaMacd2 {})
    } else if spec_lower_eq(name, "emabounce"@) {
        StrategyKind::EmaBounce(crate::strategy::EmaBounce {})
    } else {
        StrategyKind::Dummy(crate::strategy::DummyStrategy)
    }
}

/// The short tag of a timeframe used inside bot names.
pub open spec fn spec_timeframe_tag(timeframe: Timeframe) -> Seq<char> {
    match timeframe {
        Timeframe::Min1 => "1m"@,
        Timeframe::Min5 => "5m"@,
        Timeframe::Min15 => "15m"@,
        Timeframe::Min30 => "30m"@,
        Timeframe::Hour1 => "1h"@,
    }
}

/// The short tag of a symbol used inside bot names: its name without the
/// quote-currency suffix.
pub open spec fn spec_symbol_tag(symbol: Symbol) -> Seq<char> {
    match symbol {
        Symbol::SolUsdt => "Sol"@,
        Symbol::BtcUsdt => "Btc"@,
        Symbol::EthUsdt => "Eth"@,
        Symbol::BnbUsdt => "Bnb"@,
    }
}

/// The symbol's short display name, without the quote-currency suffix.
pub fn format_symbol(symbol: &Symbol) -> (r: &'static str)
    ensures
        r@ == spec_symbol_tag(*symbol),
{
    match symbol {
        Symbol::SolUsdt => "Sol",
        Symbol::BtcUsdt => "Btc",
        Symbol::EthUsdt => "Eth",
        Symbol::BnbUsdt => "Bnb",
    }
}

/// The taker fee never exceeds its base capital, and stays far inside the
/// representable band for any well-formed capital.
pub proof fn lemma_taker_fee_small(c: int)
    requires
        0 <= c <= 2 * (MONEY_MAX as int),
    ensures
        0 <= spec_taker_fee(c) <= c,
        spec_taker_fee(c) <= MONEY_MAX as int,
{
    lemma_tdiv_quotient_bound(c * 2, 10000, 80_000_000_000_000);
    assert(2 * c <= 10000 * 80_000_000_000_000) by (nonlinear_arith)
        requires
            c <= 2 * (MONEY_MAX as int),
            MONEY_MAX == 100_000_000_000_000_000i64,
    ;
    assert(2 * tdiv(c * 2, 10000) <= c) by (nonlinear_arith)
        requires
            c >= 0,
    ;
}

/// Law: a bot that opens a position and closes it with no price movement
/// ends with its starting capital less exactly the open (taker) and close
/// (maker) fees, up to one tick of quantization per whole unit of price:
/// the long side may lose at most that quantum to rounding, the short side
/// may gain at most that quantum.
pub proof fn lemma_capital_conservation(b: Bot, price: int, cmd: OrderCommand)
    requires
        b.wf(),
        b.spec_can_open(),
        1 <= price <= MONEY_MAX as int,
        b.spec_open_fits(price),
        cmd != OrderCommand::Wait,
    ensures
        ({
            let open_fee = spec_taker_fee(b.capital as int);
            let entered = b.capital - open_fee;
            let cwl = b.spec_open_cwl();
            let qty = spec_buy_quantity(price, cwl);
            let close_fee = spec_maker_fee(entered);
            let pnl = spec_pnl(price, cwl, qty, cmd);
            let quantum = crate::fixed::cdiv(price, SCALE as int);
            &&& (cmd == OrderCommand::Long ==> b.capital - open_fee - close_fee - quantum
                <= (entered - close_fee) + pnl <= b.capital - open_fee - close_fee)
            &&& (cmd == OrderCommand::Short ==> b.capital - open_fee - close_fee
                <= (entered - close_fee) + pnl <= b.capital - open_fee - close_fee + quantum)
        }),
{
    let s = SCALE as int;
    let open_fee = spec_taker_fee(b.capital as int);
    let entered = b.capital - open_fee;
    let cwl = b.spec_open_cwl();
    let qty = spec_buy_quantity(price, cwl);
    lemma_taker_fee_small(b.capital as int);
    assert(cwl >= 0 && entered <= cwl) by (nonlinear_arith)
        requires
            cwl == b.leverage * entered,
            b.leverage >= 1,
            entered >= 0,
    ;
    if qty == 0 {
        // no quantity was bought, so no P&L: the fees are the whole cost
        assert(spec_pnl(price, cwl, qty, cmd) == 0);
    } else {
        vstd::arithmetic::div_mod::lemma_fundamental_div_mod(cwl * s, price);
        let r = (cwl * s) % price;
        vstd::arithmetic::div_mod::lemma_mod_division_less_than_divisor(cwl * s, price);
        assert(cwl * s >= 0) by (nonlinear_arith)
            requires
                cwl >= 0,
                s > 0,
        ;
        vstd::arithmetic::div_mod::lemma_div_pos_is_pos(cwl * s, price);
        assert(qty == (cwl * s) / price);
        assert(price * qty == cwl * s - r);
        // the ceiling of r / s, pinned by the converse of div-mod
        let c = crate::fixed::cdiv(r, s);
        vstd::arithmetic::div_mod::lemma_fundamental_div_mod(r + s - 1, s);
        assert(s * c == r + s - 1 - ((r + s - 1) % s));
        vstd::arithmetic::div_mod::lemma_mod_division_less_than_divisor(r + s - 1, s);
        assert(r <= s * c <= r + s - 1);
        // hence (cwl * s - r) / s == cwl - c
        assert(cwl * s - r == (cwl - c) * s + (s * c - r)) by (nonlinear_arith);
        vstd::arithmetic::div_mod::lemma_fundamental_div_mod_converse_div(
            cwl * s - r,
            s,
            cwl - c,
            s * c - r,
        );
        assert(price * qty >= 0) by (nonlinear_arith)
            requires
                price >= 0,
                qty >= 0,
        ;
        assert(tdiv(price * qty, s) == cwl - c);
        // the rounding loss c is between zero and one quantum
        vstd::arithmetic::div_mod::lemma_div_pos_is_pos(r + s - 1, s);
        vstd::arithmetic::div_mod::lemma_div_is_ordered(r + s - 1, price + s - 2, s);
        vstd::arithmetic::div_mod::lemma_div_is_ordered(price + s - 2, price + s - 1, s);
        assert(c <= crate::fixed::cdiv(price, s));
    }
}

} // verus!

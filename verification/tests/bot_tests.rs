use trade_engine::bot::{Bot, BotError, DEACTIVATION_FLOOR, INITIAL_CAPITAL};
use trade_engine::enums::{OrderCommand, Symbol, Timeframe};
use trade_engine::fixed::SCALE;
use trade_engine::tools::{shift_stop_loss, should_close_position, update_pnl_and_roe};

const S: i64 = SCALE;

fn test_bot() -> Bot {
    Bot::new(
        Timeframe::Min1,
        Symbol::SolUsdt,
        String::from("EmaMacd"),
        INITIAL_CAPITAL,
        10,
        80_000_000,
        40_000_000,
        10_000_000,
    )
}

#[test]
fn new_bot_derives_its_name_and_starts_idle() {
    let b = test_bot();
    assert_eq!(b.name, "EmaMacd_1m_Sol");
    assert!(!b.in_pos);
    assert!(!b.is_not_active);
    assert_eq!(b.capital, 100 * S);
    assert_eq!(b.order_type, OrderCommand::Wait);
    assert_eq!(b.wins, 0);
    assert_eq!(b.losses, 0);
}

#[test]
fn open_position_records_the_trade() {
    let mut b = test_bot();
    let r = b.open_position(&OrderCommand::Long, 100 * S, 1000);
    assert!(r.is_ok());
    assert!(b.in_pos);
    assert_eq!(b.order_type, OrderCommand::Long);
    assert_eq!(b.capital, 0);
    assert_eq!(b.order_fee, 4_000_000);
    assert_eq!(b.order_capital, 9_996_000_000);
    assert_eq!(b.order_capital_with_leverage, 99_960_000_000);
    assert_eq!(b.order_quantity, 999_600_000);
    assert_eq!(b.order_entry_price, 100 * S);
    assert_eq!(b.order_stop_loss, 9_960_000_000);
    assert_eq!(b.order_take_profit, 10_080_000_000);
    assert_eq!(b.order_created_at, 1000);
}

#[test]
fn second_open_fails_with_already_in_position() {
    let mut b = test_bot();
    assert!(b.open_position(&OrderCommand::Long, 100 * S, 1000).is_ok());
    let second = b.open_position(&OrderCommand::Long, 100 * S, 1000);
    assert_eq!(second, Err(BotError::AlreadyInPosition));
}

#[test]
fn second_close_fails_with_no_open_position() {
    let mut b = test_bot();
    assert!(b.open_position(&OrderCommand::Short, 100 * S, 1000).is_ok());
    assert!(b.close_position(100 * S, 2000).is_ok());
    let second = b.close_position(100 * S, 2000);
    assert!(matches!(second, Err(BotError::NoOpenPosition)));
}

#[test]
fn deactivated_bot_cannot_open() {
    let mut b = test_bot();
    b.is_not_active = true;
    assert_eq!(b.open_position(&OrderCommand::Long, 100 * S, 0), Err(BotError::NotActive));
    assert_eq!(b.can_open_position(), Err(BotError::NotActive));
}

#[test]
fn undercapitalized_bot_cannot_open() {
    let mut b = test_bot();
    b.capital = DEACTIVATION_FLOOR;
    assert_eq!(
        b.open_position(&OrderCommand::Long, 100 * S, 0),
        Err(BotError::InsufficientCapital)
    );
}

#[test]
fn flat_round_trip_costs_exactly_the_two_fees() {
    // open and close at the same price: no P&L, fees only
    let mut b = test_bot();
    assert!(b.open_position(&OrderCommand::Long, 100 * S, 0).is_ok());
    let order = b.close_position(100 * S, 1).unwrap();
    assert_eq!(order.pnl, 0);
    // taker fee 0.04, maker fee 0.019992
    assert_eq!(b.capital, 100 * S - 4_000_000 - 1_999_200);
    assert_eq!(order.fee, 4_000_000 + 1_999_200);
    assert!(!b.in_pos);
    assert_eq!(b.losses, 1);
    assert_eq!(b.wins, 0);
}

#[test]
fn profitable_close_counts_a_win_and_credits_the_gain() {
    let mut b = test_bot();
    assert!(b.open_position(&OrderCommand::Long, 100 * S, 0).is_ok());
    let order = b.close_position(110 * S, 1).unwrap();
    // value: 110.0 * 9.996 units = 1099.56; pnl = 1099.56 - 999.60
    assert_eq!(order.pnl, 9_996_000_000);
    assert_eq!(order.exit_price, 110 * S);
    assert_eq!(b.wins, 1);
    assert!(b.capital > 100 * S);
    assert!(!b.is_not_active);
}

#[test]
fn losing_close_through_the_floor_deactivates_the_bot() {
    let mut b = test_bot();
    b.capital = 8_600_000_000; // 86.0, just above the floor
    assert!(b.open_position(&OrderCommand::Long, 100 * S, 0).is_ok());
    let order = b.close_position(99 * S, 1).unwrap();
    assert_eq!(order.pnl, -859_656_000);
    assert_eq!(b.capital, 7_735_184_688);
    assert!(b.is_not_active);
    assert_eq!(b.losses, 1);
    assert!(b.is_not_allowed_for_scanning(0));
    assert_eq!(b.can_open_position(), Err(BotError::NotActive));
}

#[test]
fn reset_restores_the_starting_state() {
    let mut b = test_bot();
    b.capital = 0;
    b.is_not_active = true;
    b.wins = 3;
    b.losses = 7;
    b.reset();
    assert_eq!(b.capital, INITIAL_CAPITAL);
    assert!(!b.is_not_active);
    assert!(!b.in_pos);
    assert_eq!(b.wins, 0);
    assert_eq!(b.losses, 0);
    assert_eq!(b.order_type, OrderCommand::Wait);
    assert_eq!(b.name, "EmaMacd_1m_Sol");
}

#[test]
fn close_condition_uses_the_protective_levels() {
    let mut b = test_bot();
    assert!(b.open_position(&OrderCommand::Long, 100 * S, 0).is_ok());
    assert!(!should_close_position(100 * S, &b));
    assert!(should_close_position(9_960_000_000, &b)); // at the stop
    assert!(should_close_position(10_080_000_000, &b)); // at the take
    assert!(!should_close_position(10_079_999_999, &b));
}

#[test]
fn trailing_stop_only_tightens_for_longs() {
    let mut b = test_bot();
    assert!(b.open_position(&OrderCommand::Long, 100 * S, 0).is_ok());
    let stop0 = b.order_stop_loss;
    update_pnl_and_roe(&mut b, 102 * S);
    assert!(b.roe > 0);
    shift_stop_loss(&mut b);
    let stop1 = b.order_stop_loss;
    assert!(stop1 > stop0);
    // a second shift under the same conditions never loosens the stop
    shift_stop_loss(&mut b);
    assert_eq!(b.order_stop_loss, stop1);
    // price falling back: the candidate drops below the stored stop
    update_pnl_and_roe(&mut b, 101 * S);
    shift_stop_loss(&mut b);
    assert!(b.order_stop_loss >= stop1);
}

#[test]
fn trailing_stop_waits_for_the_activation_point() {
    let mut b = test_bot();
    assert!(b.open_position(&OrderCommand::Long, 100 * S, 0).is_ok());
    let stop0 = b.order_stop_loss;
    // a move of 0.005% de-leveraged stays under the 0.1 activation point
    update_pnl_and_roe(&mut b, 10_000_500_000);
    shift_stop_loss(&mut b);
    assert_eq!(b.order_stop_loss, stop0);
}

#[test]
fn trailing_stop_only_tightens_for_shorts() {
    let mut b = test_bot();
    assert!(b.open_position(&OrderCommand::Short, 100 * S, 0).is_ok());
    let stop0 = b.order_stop_loss;
    update_pnl_and_roe(&mut b, 98 * S);
    shift_stop_loss(&mut b);
    assert!(b.order_stop_loss < stop0);
}

#[test]
fn scan_cadence_follows_the_minute_rule() {
    let mut b = test_bot();
    b.timeframe = Timeframe::Min15;
    for minute in 0u32..60 {
        let denied = b.is_not_allowed_for_scanning(minute);
        assert_eq!(!denied, minute % 15 == 0);
    }
    b.timeframe = Timeframe::Min1;
    for minute in 0u32..60 {
        assert!(!b.is_not_allowed_for_scanning(minute));
    }
}

#[test]
fn a_bot_at_the_deactivation_floor_is_not_scanned() {
    // eligibility requires capital strictly above the floor, matching the
    // open guard: a bot at exactly the floor could never open
    let mut b = test_bot();
    b.capital = DEACTIVATION_FLOOR;
    assert!(b.is_not_allowed_for_scanning(0));
    b.capital = DEACTIVATION_FLOOR + 1;
    assert!(!b.is_not_allowed_for_scanning(0));
}

#[test]
fn well_formedness_check_mirrors_the_invariant() {
    let mut b = test_bot();
    assert!(b.is_well_formed());
    assert!(b.open_position(&OrderCommand::Long, 100 * S, 0).is_ok());
    assert!(b.is_well_formed());
    let mut bad = test_bot();
    bad.leverage = 0;
    assert!(!bad.is_well_formed());
    let mut torn = test_bot();
    torn.in_pos = true; // claims a position without any order fields
    assert!(!torn.is_well_formed());
}

#[test]
fn bot_error_messages_name_the_rule() {
    assert_eq!(
        BotError::NoOpenPosition.to_string(),
        "No open position to close"
    );
    assert_eq!(
        BotError::NotActive.to_string(),
        "bot can't open position, bot not active"
    );
}

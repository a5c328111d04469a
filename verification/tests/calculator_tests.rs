use trade_engine::calculator::{
    calculate_buy_quantity, calculate_maker_fee, calculate_pnl, calculate_roe, calculate_stop_loss,
    calculate_take_profit, calculate_taker_fee,
};
use trade_engine::enums::OrderCommand;
use trade_engine::fixed::SCALE;

const S: i64 = SCALE;

#[test]
fn stop_and_take_levels_bracket_the_price_for_longs() {
    // 0.4 percent of 100.0
    let stop = calculate_stop_loss(100 * S, 40_000_000, &OrderCommand::Long);
    let take = calculate_take_profit(100 * S, 80_000_000, &OrderCommand::Long);
    assert_eq!(stop, 9_960_000_000); // 99.60
    assert_eq!(take, 10_080_000_000); // 100.80
    assert!(stop < 100 * S && 100 * S < take);
}

#[test]
fn stop_and_take_levels_bracket_the_price_for_shorts() {
    let stop = calculate_stop_loss(100 * S, 40_000_000, &OrderCommand::Short);
    let take = calculate_take_profit(100 * S, 80_000_000, &OrderCommand::Short);
    assert_eq!(stop, 10_040_000_000); // 100.40
    assert_eq!(take, 9_920_000_000); // 99.20
    assert!(take < 100 * S && 100 * S < stop);
}

#[test]
fn stop_level_moves_even_for_a_one_tick_price() {
    // any positive percentage of a positive price moves the level
    let stop = calculate_stop_loss(1, 1, &OrderCommand::Long);
    let take = calculate_take_profit(1, 1, &OrderCommand::Long);
    assert_eq!(stop, 0);
    assert_eq!(take, 2);
}

#[test]
fn wait_side_has_no_levels() {
    assert_eq!(calculate_stop_loss(100 * S, 40_000_000, &OrderCommand::Wait), 0);
    assert_eq!(calculate_take_profit(100 * S, 80_000_000, &OrderCommand::Wait), 0);
}

#[test]
fn taker_fee_is_twice_the_maker_fee() {
    for c in [0i64, 1, 3, 2_500, 5_000, 100 * S, 86 * S, 12_345_678_901] {
        assert_eq!(calculate_taker_fee(c), 2 * calculate_maker_fee(c));
    }
}

#[test]
fn fee_reference_values() {
    // 0.04% and 0.02% of 100.0
    assert_eq!(calculate_taker_fee(100 * S), 4_000_000);
    assert_eq!(calculate_maker_fee(100 * S), 2_000_000);
}

#[test]
fn buy_quantity_divides_leveraged_capital_by_price() {
    assert_eq!(calculate_buy_quantity(100 * S, 100 * S), 1 * S);
    assert_eq!(calculate_buy_quantity(2 * S, 100 * S), 50 * S);
    assert_eq!(calculate_buy_quantity(0, 100 * S), 0);
}

#[test]
fn pnl_sign_matches_the_side() {
    // entry 100, quantity 1, close at 110
    let long = calculate_pnl(110 * S, 100 * S, 1 * S, &OrderCommand::Long);
    let short = calculate_pnl(110 * S, 100 * S, 1 * S, &OrderCommand::Short);
    assert_eq!(long, 10 * S);
    assert_eq!(short, -10 * S);
}

#[test]
fn pnl_is_zero_without_a_quantity() {
    assert_eq!(calculate_pnl(110 * S, 100 * S, 0, &OrderCommand::Long), 0);
}

#[test]
fn roe_scales_with_leverage() {
    let roe = calculate_roe(100 * S, 105 * S, 10, &OrderCommand::Long);
    assert_eq!(roe, 50 * S);
    let roe_short = calculate_roe(100 * S, 105 * S, 10, &OrderCommand::Short);
    assert_eq!(roe_short, -50 * S);
}

#[test]
fn roe_is_zero_at_zero_entry() {
    assert_eq!(calculate_roe(0, 105 * S, 10, &OrderCommand::Long), 0);
}

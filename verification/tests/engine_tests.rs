use trade_engine::bot::INITIAL_CAPITAL;
use trade_engine::entry_manager::{groups_due, init_bots, reset_all};
use trade_engine::enums::{OrderCommand, Symbol, Timeframe};
use trade_engine::fixed::SCALE;
use trade_engine::models::{BotStatistic, Candle, StatisticResult, StrategyContainer};
use trade_engine::position_manager::{monitor_bot, symbols_with_open_positions};
use trade_engine::stats::{get_win_loss_capital, sort_bot_statistics, sort_bots};
use trade_engine::strategy::{get_strategy, DummyStrategy, EmaBounce, EmaMacd, EmaMacd2, StrategyKind};
use trade_engine::tools::{aligned_wait_nanos, format_timeframe, get_date, hour_of, minute_of};

const S: i64 = SCALE;

fn candle(close: i64) -> Candle {
    Candle { close, open: close, high: close, low: close, open_time: 0, volume: 0 }
}

fn flat_candles(n: usize, close: i64) -> Vec<Candle> {
    let mut v = Vec::new();
    for _ in 0..n {
        v.push(candle(close));
    }
    v
}

#[test]
fn strategy_registry_is_case_insensitive_with_a_safe_fallback() {
    assert_eq!(get_strategy("emamacd"), StrategyKind::EmaMacd(EmaMacd {}));
    assert_eq!(get_strategy("EmaMacd"), StrategyKind::EmaMacd(EmaMacd {}));
    assert_eq!(get_strategy("EMAMACD2"), StrategyKind::EmaMacd2(EmaMacd2 {}));
    assert_eq!(get_strategy("emabounce"), StrategyKind::EmaBounce(EmaBounce {}));
    assert_eq!(get_strategy("unheard-of"), StrategyKind::Dummy(DummyStrategy));
    assert_eq!(get_strategy(""), StrategyKind::Dummy(DummyStrategy));
}

#[test]
fn strategies_wait_on_an_empty_cache() {
    let sc = StrategyContainer::new();
    let tf = Timeframe::Min1;
    let sym = Symbol::SolUsdt;
    assert_eq!(EmaMacd {}.run(&sc, &tf, &sym).0, OrderCommand::Wait);
    assert_eq!(EmaMacd2 {}.run(&sc, &tf, &sym).0, OrderCommand::Wait);
    assert_eq!(EmaBounce {}.run(&sc, &tf, &sym).0, OrderCommand::Wait);
    assert_eq!(DummyStrategy.run(&sc, &tf, &sym).0, OrderCommand::Wait);
}

#[test]
fn strategies_wait_on_single_element_candles() {
    let mut sc = StrategyContainer::new();
    let tf = Timeframe::Min5;
    let sym = Symbol::BtcUsdt;
    sc.insert_candles(&tf, &sym, flat_candles(1, 5 * S));
    sc.calculate_all();
    assert_eq!(EmaMacd {}.run(&sc, &tf, &sym).0, OrderCommand::Wait);
    assert_eq!(EmaMacd2 {}.run(&sc, &tf, &sym).0, OrderCommand::Wait);
    assert_eq!(EmaBounce {}.run(&sc, &tf, &sym).0, OrderCommand::Wait);
}

#[test]
fn strategies_wait_on_a_flat_market() {
    let mut sc = StrategyContainer::new();
    let tf = Timeframe::Min15;
    let sym = Symbol::EthUsdt;
    sc.insert_candles(&tf, &sym, flat_candles(202, 5 * S));
    sc.calculate_all();
    assert!(sc.get_macd(&tf, &sym).is_some());
    assert_eq!(EmaMacd {}.run(&sc, &tf, &sym).0, OrderCommand::Wait);
    assert_eq!(EmaMacd2 {}.run(&sc, &tf, &sym).0, OrderCommand::Wait);
    assert_eq!(EmaBounce {}.run(&sc, &tf, &sym).0, OrderCommand::Wait);
}

#[test]
fn container_computes_indicators_once_per_ready_group() {
    let mut sc = StrategyContainer::new();
    let tf = Timeframe::Min1;
    let sym = Symbol::SolUsdt;
    sc.insert_candles(&tf, &sym, flat_candles(202, 7 * S));
    sc.insert_candles(&Timeframe::Min5, &Symbol::BtcUsdt, flat_candles(10, 7 * S));
    sc.calculate_all();
    let macd = sc.get_macd(&tf, &sym).unwrap();
    assert_eq!(macd.macd.len(), 202);
    assert_eq!(macd.signal.len(), 202);
    assert_eq!(macd.histogram.len(), 202);
    let e200 = sc.get_ema(&tf, &sym, 200).unwrap();
    assert_eq!(e200.len(), 202);
    assert_eq!(e200[201], 7 * S);
    assert!(sc.get_ema(&tf, &sym, 30).is_none());
    // the short group is below the indicator window and stays vacant
    assert!(sc.get_macd(&Timeframe::Min5, &Symbol::BtcUsdt).is_none());
    sc.reset();
    assert!(sc.get_macd(&tf, &sym).is_none());
}

#[test]
fn fleet_is_the_full_configuration_product() {
    let bots = init_bots();
    assert_eq!(bots.len(), 60);
    for b in bots.iter() {
        assert_eq!(b.capital, INITIAL_CAPITAL);
        assert!(!b.in_pos);
        assert_eq!(b.leverage, 10);
    }
    assert_eq!(bots[0].name, "EmaMacd_1m_Sol");
    // slot (timeframe 1, strategy 2, symbol 3) of the product
    assert_eq!(bots[1 * 12 + 2 * 4 + 3].name, "EmaBounce_5m_Bnb");
    assert_eq!(bots[59].name, "EmaBounce_1h_Bnb");
}

#[test]
fn groups_due_follow_the_minute_rule() {
    let bots = init_bots();
    let at_7 = groups_due(&bots, 7);
    assert_eq!(at_7.len(), 4); // only the 1m groups
    for (tf, _) in at_7.iter() {
        assert_eq!(*tf, Timeframe::Min1);
    }
    let at_0 = groups_due(&bots, 0);
    assert_eq!(at_0.len(), 20); // every timeframe on the hour
    let at_30 = groups_due(&bots, 30);
    assert_eq!(at_30.len(), 16); // all but the hourly groups
}

#[test]
fn reset_all_restores_every_bot() {
    let mut bots = init_bots();
    bots[3].capital = 0;
    bots[3].is_not_active = true;
    reset_all(&mut bots);
    assert_eq!(bots.len(), 60);
    for b in bots.iter() {
        assert_eq!(b.capital, INITIAL_CAPITAL);
        assert!(!b.is_not_active);
    }
}

#[test]
fn monitor_skips_idle_bots() {
    let mut bots = init_bots();
    assert!(symbols_with_open_positions(&bots).is_empty());
    let r = monitor_bot(&mut bots[0], 100 * S, 1);
    assert!(r.is_none());
    assert!(!bots[0].in_pos);
}

#[test]
fn monitor_updates_a_position_inside_the_band() {
    let mut bots = init_bots();
    assert!(bots[0].open_position(&OrderCommand::Long, 100 * S, 0).is_ok());
    let symbols = symbols_with_open_positions(&bots);
    assert_eq!(symbols, vec![Symbol::SolUsdt]);
    let r = monitor_bot(&mut bots[0], 10_050_000_000, 9); // 100.50, inside
    assert!(r.is_none());
    assert!(bots[0].in_pos);
    assert!(bots[0].pnl > 0);
    assert_eq!(bots[0].last_scanned, 9);
}

#[test]
fn monitor_closes_at_the_take_profit() {
    let mut bots = init_bots();
    assert!(bots[0].open_position(&OrderCommand::Long, 100 * S, 0).is_ok());
    let r = monitor_bot(&mut bots[0], 101 * S, 9); // beyond the 100.8 take
    let order = r.unwrap();
    assert_eq!(order.exit_price, 101 * S);
    assert!(order.pnl > 0);
    assert!(!bots[0].in_pos);
    assert!(bots[0].capital > INITIAL_CAPITAL);
    assert_eq!(bots[0].wins, 1);
}

#[test]
fn bots_sort_by_activity_then_equity_then_timeframe() {
    let mut bots = init_bots();
    let mut a = bots[5].clone();
    a.is_not_active = true;
    let mut b = bots[20].clone(); // a slower timeframe
    b.capital = 50 * S;
    let mut c = bots[1].clone();
    c.capital = 200 * S;
    let mut v = vec![a.clone(), b.clone(), c.clone()];
    sort_bots(&mut v);
    assert_eq!(v[0].name, c.name);
    assert_eq!(v[1].name, b.name);
    assert_eq!(v[2].name, a.name);
}

#[test]
fn statistics_sort_by_capital_then_name() {
    let row = |name: &str, capital: i64| BotStatistic {
        bot_name: String::from(name),
        win_days: 0,
        lose_days: 0,
        capital,
        results: Vec::new(),
    };
    let mut v = vec![row("b", 100 * S), row("a", 100 * S), row("c", 300 * S)];
    sort_bot_statistics(&mut v);
    assert_eq!(v[0].bot_name, "c");
    assert_eq!(v[1].bot_name, "a");
    assert_eq!(v[2].bot_name, "b");
}

#[test]
fn win_loss_capital_aggregates_daily_rows() {
    let row = |capital: i64| StatisticResult {
        name: String::from("x"),
        capital,
        wins: 0,
        losses: 0,
        start_time: 0,
        end_time: 0,
    };
    let rows = vec![row(120 * S), row(80 * S), row(100 * S)];
    let (w, l, c) = get_win_loss_capital(&rows);
    assert_eq!(w, 1);
    assert_eq!(l, 1);
    assert_eq!(c, 0);
    let rows2 = vec![row(110 * S), row(105 * S)];
    assert_eq!(get_win_loss_capital(&rows2), (2, 0, 15 * S));
}

#[test]
fn tick_alignment_always_waits_into_the_next_interval() {
    let minute: u128 = 60_000_000_000;
    assert_eq!(aligned_wait_nanos(0, minute), minute);
    assert_eq!(aligned_wait_nanos(10, minute), minute - 10);
    assert_eq!(aligned_wait_nanos(minute, minute), minute);
    assert_eq!(aligned_wait_nanos(3 * minute - 1, minute), 1);
}

#[test]
fn clock_helpers_read_wall_time_components() {
    assert_eq!(minute_of(3_661), 1);
    assert_eq!(hour_of(3_661), 1);
    assert_eq!(minute_of(0), 0);
    assert!(get_date(3) >= 0);
}

#[test]
fn display_names_are_stable() {
    assert_eq!(Symbol::SolUsdt.to_string(), "SOLUSDT");
    assert_eq!(Timeframe::Min15.to_string(), "15m");
    assert_eq!(OrderCommand::Long.to_string(), "Long");
    assert_eq!(format_timeframe(&Timeframe::Hour1), "1h");
}

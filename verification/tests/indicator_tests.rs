use trade_engine::fixed::SCALE;
use trade_engine::ta::{
    bollinger_bands_b, bollinger_percent_b_slice, ema, ema_slice, macd, macd_slice, slma,
    slma_slice,
};

const S: i64 = SCALE;

#[test]
fn ema_signals_insufficient_data() {
    let short = vec![1 * S; 199];
    assert_eq!(ema(&short, 200), None);
    let enough = vec![1 * S; 200];
    assert_eq!(ema(&enough, 200), Some(1 * S));
}

#[test]
fn ema_rejects_zero_period() {
    assert_eq!(ema(&[1 * S, 2 * S], 0), None);
}

#[test]
fn ema_follows_the_recurrence() {
    let prices = vec![10i64, 20, 30, 40];
    assert_eq!(ema(&prices, 2), Some(35));
}

#[test]
fn ema_slice_reports_zero_before_the_first_window() {
    let prices = vec![10i64, 20, 30, 40];
    let r = ema_slice(&prices, 2);
    assert_eq!(r, vec![0, 15, 25, 35]);
}

#[test]
fn ema_slice_of_empty_input_is_empty() {
    let r = ema_slice(&[], 5);
    assert_eq!(r.len(), 0);
}

#[test]
fn macd_of_flat_zero_series_is_zero() {
    let prices = vec![0i64; 202];
    assert_eq!(macd(&prices), (0, 0, 0));
}

#[test]
fn macd_line_is_fast_minus_slow() {
    let mut prices: Vec<i64> = Vec::new();
    for i in 0..120i64 {
        prices.push((i * 37 % 91) * S / 10);
    }
    let fast = ema_slice(&prices, 12);
    let slow = ema_slice(&prices, 25);
    let (line, signal, hist) = macd_slice(&prices);
    assert_eq!(line.len(), prices.len());
    for i in 0..prices.len() {
        assert_eq!(line[i], fast[i] - slow[i]);
        assert_eq!(hist[i], line[i] - signal[i]);
    }
    let sig = ema_slice(&line, 9);
    assert_eq!(signal, sig);
}

#[test]
fn slma_weights_recent_prices_heavier() {
    let prices = vec![1 * S, 2 * S, 3 * S];
    assert_eq!(slma(&prices, 2), 266_666_666);
    assert_eq!(slma(&prices, 5), 0);
}

#[test]
fn slma_slice_walks_every_window() {
    let prices = vec![1 * S, 2 * S, 3 * S];
    assert_eq!(slma_slice(&prices, 2), vec![166_666_666, 266_666_666]);
    assert_eq!(slma_slice(&prices, 4).len(), 0);
}

#[test]
fn bollinger_position_inside_the_band() {
    // window [1.0, 3.0]: mean 2.0, deviation 1.0, band [0.0, 4.0],
    // last price 3.0 sits at three quarters
    let prices = vec![1 * S, 3 * S];
    assert_eq!(bollinger_bands_b(&prices, 2), Some(75_000_000));
}

#[test]
fn bollinger_is_undefined_on_a_flat_window() {
    let prices = vec![5 * S; 10];
    assert_eq!(bollinger_bands_b(&prices, 2), None);
}

#[test]
fn bollinger_is_undefined_on_insufficient_data() {
    let prices = vec![1 * S, 3 * S];
    assert_eq!(bollinger_bands_b(&prices, 3), None);
    assert_eq!(bollinger_bands_b(&prices, 0), None);
}

#[test]
fn bollinger_slice_reports_zero_where_undefined() {
    let prices = vec![1 * S, 3 * S];
    assert_eq!(bollinger_percent_b_slice(&prices, 2), vec![0, 75_000_000]);
}

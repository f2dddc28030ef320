use indicators::backtest::{backtest_sma_strategy, run_backtest};
use indicators::crossover::{Cross, CrossoverDetector};
use indicators::engine::{crossing_signals, simple_signals, StrategyConfig};
use indicators::moving_average::{is_above, Mean, MovingAverage};
use indicators::position_book::{Lot, Position, PositionBook};
use indicators::price::{parse_decimal, Candle, PRICE_UNIT};
use indicators::signal::{Signal, SignalError};

fn candle(close: &str) -> Candle {
    Candle {
        close: close.to_string(),
        start: "2023-10-01T00:00:00Z".to_string(),
        low: close.to_string(),
        high: close.to_string(),
        open: close.to_string(),
        volume: "1.0".to_string(),
    }
}

fn candles(closes: &[i64]) -> Vec<Candle> {
    closes.iter().map(|c| candle(&c.to_string())).collect()
}

fn units(v: i64) -> i64 {
    v * PRICE_UNIT
}

fn position(price: &str, size: &str) -> Position {
    Position { average_filled_price: price.to_string(), filled_size: size.to_string() }
}

const SCENARIO: [i64; 10] = [10, 10, 10, 12, 14, 16, 14, 12, 10, 8];

#[test]
fn test_sma_cross_strategy_buy_and_sell_signal() {
    let data = candles(&SCENARIO);
    let signals = simple_signals(&data, 2, 3).unwrap();
    assert!(signals.iter().any(|s| s.is_buy()), "Should generate a buy signal");
    assert!(signals.iter().any(|s| s.is_sell()), "Should generate a sell signal");
}

#[test]
fn simple_signals_exact_on_regression_series() {
    let data = candles(&SCENARIO);
    let signals = simple_signals(&data, 2, 3).unwrap();
    assert_eq!(signals, vec![Signal::Buy { price: units(12) }, Signal::Sell { price: units(12) }]);
}

#[test]
fn test_sma_cross_strategy_buy_and_sell_signal_with_positions() {
    let data = candles(&SCENARIO);
    let positions = vec![position("1.0", "10.0")];
    let signals = crossing_signals(&data, 2, 3, &positions, StrategyConfig::standard()).unwrap();
    // the seeded lot at 1.0 is far below every price: profit is taken on the first tick
    assert_eq!(
        signals[0],
        Signal::TakeProfit { price: units(10), size: units(10), entry: units(1) }
    );
    assert!(signals.iter().any(|s| s.is_buy()));
}

#[test]
fn crossing_signals_exact_without_seed() {
    let data = candles(&SCENARIO);
    let signals = crossing_signals(&data, 2, 3, &[], StrategyConfig::standard()).unwrap();
    assert_eq!(
        signals,
        vec![
            Signal::Buy { price: units(12) },
            Signal::TakeProfit { price: units(14), size: 100_000, entry: units(12) },
        ]
    );
}

#[test]
fn crossing_bearish_cross_closes_oldest_lot() {
    let data = candles(&[100, 100, 100, 99, 98, 97]);
    let positions = vec![position("100", "2"), position("99", "3")];
    let signals = crossing_signals(&data, 2, 3, &positions, StrategyConfig::standard()).unwrap();
    assert_eq!(
        signals,
        vec![Signal::SellWithSize { price: units(99), size: units(2), entry: units(100) }]
    );
}

#[test]
fn crossing_rejects_zero_period() {
    let data = candles(&SCENARIO);
    assert_eq!(
        crossing_signals(&data, 0, 3, &[], StrategyConfig::standard()),
        Err(SignalError::PeriodOutOfRange)
    );
}

#[test]
fn test_sma_windows() {
    let balance: i64 = units(20000);
    // a triangle wave within 4% of the seeded entry: no lot reaches a stop or take level
    let mut closes: Vec<i64> = Vec::new();
    for i in 0..1000i64 {
        let phase = i % 100;
        let offset = if phase < 50 { phase } else { 100 - phase };
        closes.push(107_000 + offset * 160);
    }
    let data: Vec<Candle> = candles(&closes).into_iter().rev().collect();
    let n1s_fast: Vec<usize> = vec![5, 7, 9, 10, 12, 14, 20];
    let n2s_slow: Vec<usize> = vec![20, 30, 50, 100, 200];
    let positions = vec![position("111095.09", "0.00187398")];
    for n1 in &n1s_fast {
        for n2 in &n2s_slow {
            if n1 >= n2 {
                continue;
            }
            let results = backtest_sma_strategy(&data, *n1, *n2, &positions, balance).unwrap();
            assert!(results.final_balance > balance as i128, "Final balance should be greater than initial balance");
            assert_eq!(results.profit_loss, results.final_balance - balance as i128);
        }
    }
}

#[test]
fn moving_average_partial_windows() {
    let mut ma = MovingAverage::new(5).unwrap();
    assert_eq!(ma.next(10), Mean { total: 10, count: 1 });
    assert_eq!(ma.next(20), Mean { total: 30, count: 2 });
    assert_eq!(ma.next(60), Mean { total: 90, count: 3 });
}

#[test]
fn moving_average_evicts_oldest() {
    let mut ma = MovingAverage::new(2).unwrap();
    ma.next(1);
    ma.next(2);
    assert_eq!(ma.next(7), Mean { total: 9, count: 2 });
    assert_eq!(ma.period(), 2);
}

#[test]
fn moving_average_rejects_zero_period() {
    assert!(MovingAverage::new(0).is_none());
}

#[test]
fn mean_comparison_is_exact() {
    // 7/3 against 5/2
    assert!(!is_above(Mean { total: 7, count: 3 }, Mean { total: 5, count: 2 }));
    assert!(is_above(Mean { total: 5, count: 2 }, Mean { total: 7, count: 3 }));
    assert!(!is_above(Mean { total: 4, count: 2 }, Mean { total: 6, count: 3 }));
}

#[test]
fn crossover_first_tick_never_crosses() {
    let mut d = CrossoverDetector::new(1, 3).unwrap();
    assert_eq!(d.next(100), Cross::NoCross);
    let mut d = CrossoverDetector::new(1, 3).unwrap();
    assert_eq!(d.next(1), Cross::NoCross);
    assert_eq!(d.next(5), Cross::Bullish);
    assert_eq!(d.next(0), Cross::Bearish);
    assert_eq!(d.next(0), Cross::NoCross);
}

#[test]
fn simple_signals_alternate() {
    let data = candles(&[10, 12, 14, 12, 10, 12, 14, 16, 12, 8, 6, 9, 13]);
    let signals = simple_signals(&data, 2, 3).unwrap();
    assert!(!signals.is_empty());
    for pair in signals.windows(2) {
        assert_ne!(pair[0].is_buy(), pair[1].is_buy());
    }
}

#[test]
fn simple_signals_fast_not_below_slow() {
    let data = candles(&[10; 100]);
    assert_eq!(simple_signals(&data, 60, 30), Err(SignalError::FastNotBelowSlow));
    assert_eq!(simple_signals(&data, 30, 30), Err(SignalError::FastNotBelowSlow));
}

#[test]
fn simple_signals_insufficient_data() {
    let data = candles(&SCENARIO);
    assert_eq!(simple_signals(&data, 30, 60), Err(SignalError::InsufficientData));
    assert_eq!(simple_signals(&data, 60, 30), Err(SignalError::InsufficientData));
}

#[test]
fn simple_signals_zero_fast_period() {
    let data = candles(&SCENARIO);
    assert_eq!(simple_signals(&data, 0, 3), Err(SignalError::PeriodOutOfRange));
}

#[test]
fn simple_signals_ties_emit_nothing() {
    let data = candles(&[10, 10, 10, 10]);
    assert_eq!(simple_signals(&data, 2, 3), Ok(vec![]));
}

#[test]
fn sweep_exits_stop_take_and_keep() {
    let mut book = PositionBook::new();
    book.open(units(100), 1);
    book.open(units(80), 2);
    book.open(units(120), 3);
    // 95 is 5% under 100, 18.75% over 80, 20.8% under 120
    let exits = book.sweep_exits(units(95), 5, 10);
    assert_eq!(
        exits,
        vec![
            Signal::StopLoss { price: units(95), size: 1, entry: units(100) },
            Signal::TakeProfit { price: units(95), size: 2, entry: units(80) },
            Signal::StopLoss { price: units(95), size: 3, entry: units(120) },
        ]
    );
    assert!(book.is_empty());
}

#[test]
fn sweep_exits_keeps_lots_between_levels() {
    let mut book = PositionBook::new();
    book.open(units(100), 1);
    assert!(book.sweep_exits(units(96), 5, 10).is_empty());
    assert!(book.sweep_exits(units(109), 5, 10).is_empty());
    assert_eq!(book.len(), 1);
    assert_eq!(
        book.sweep_exits(units(110), 5, 10),
        vec![Signal::TakeProfit { price: units(110), size: 1, entry: units(100) }]
    );
}

#[test]
fn close_oldest_is_fifo() {
    let mut book = PositionBook::new();
    assert_eq!(book.close_oldest(), None);
    book.open(5, 1);
    book.open(6, 2);
    assert_eq!(book.close_oldest(), Some(Lot { entry: 5, size: 1 }));
    assert_eq!(book.len(), 1);
}

#[test]
fn seeding_drops_malformed_positions() {
    let positions = vec![position("1.5", "2"), position("abc", "1"), position("3", ""), position("4", "0.5")];
    let mut book = PositionBook::from_positions(&positions);
    assert_eq!(book.len(), 2);
    assert_eq!(book.close_oldest(), Some(Lot { entry: 150_000_000, size: units(2) }));
    assert_eq!(book.close_oldest(), Some(Lot { entry: units(4), size: 50_000_000 }));
}

#[test]
fn parse_decimal_values() {
    assert_eq!(parse_decimal(b"111095.09"), Some(11_109_509_000_000));
    assert_eq!(parse_decimal(b"-1.5"), Some(-150_000_000));
    assert_eq!(parse_decimal(b"+2"), Some(200_000_000));
    assert_eq!(parse_decimal(b"0.00187398"), Some(187_398));
    assert_eq!(parse_decimal(b"1.123456789"), Some(112_345_678));
    assert_eq!(parse_decimal(b"7."), Some(700_000_000));
    assert_eq!(parse_decimal(b".25"), Some(25_000_000));
}

#[test]
fn parse_decimal_rejects_malformed() {
    assert_eq!(parse_decimal(b""), None);
    assert_eq!(parse_decimal(b"."), None);
    assert_eq!(parse_decimal(b"-"), None);
    assert_eq!(parse_decimal(b"abc"), None);
    assert_eq!(parse_decimal(b"1.2.3"), None);
    assert_eq!(parse_decimal(b"1-2"), None);
    assert_eq!(parse_decimal(b"1e5"), None);
    assert_eq!(parse_decimal(b"10000000000"), None);
}

#[test]
fn malformed_close_reads_as_zero() {
    assert_eq!(candle("not a number").close_price(), 0);
    assert_eq!(candle("42000.5").close_price(), 4_200_050_000_000);
}

#[test]
fn backtest_buy_then_sell() {
    let data = candles(&[100, 150]);
    let signals = vec![Signal::Buy { price: units(100) }, Signal::Sell { price: units(150) }];
    let r = run_backtest(&data, signals, units(1000), false);
    assert_eq!(r.final_balance, units(1050) as i128);
    assert_eq!(r.profit_loss, units(50) as i128);
    assert_eq!(r.trade_count, 1);
    assert!(!r.open_position);
    assert_eq!(r.open_position_entry, None);
    assert_eq!(r.unrealized_pnl, 0);
}

#[test]
fn backtest_trailing_buy_stays_open() {
    let data = candles(&[180, 200]);
    let signals = vec![Signal::Buy { price: units(180) }];
    let r = run_backtest(&data, signals, units(1000), false);
    assert!(r.open_position);
    assert_eq!(r.open_position_entry, Some(units(180)));
    assert_eq!(r.unrealized_pnl, units(20) as i128);
    assert_eq!(r.final_balance, units(1000) as i128);
    assert_eq!(r.trade_count, 0);
}

#[test]
fn backtest_ignores_exits_and_prices_by_index() {
    let data = candles(&[100, 120, 130, 90]);
    let signals = vec![
        Signal::Buy { price: 1 },
        Signal::StopLoss { price: 2, size: 1, entry: 3 },
        Signal::SellWithSize { price: 4, size: 1, entry: 5 },
        Signal::TakeProfit { price: 6, size: 1, entry: 7 },
        Signal::Sell { price: 8 },
    ];
    let r = run_backtest(&data, signals, 0, false);
    // buy at 100, sell at the third close, 130; the last Sell finds no position
    assert_eq!(r.final_balance, units(30) as i128);
    assert_eq!(r.profit_loss, units(30) as i128);
    assert_eq!(r.trade_count, 1);
    assert!(!r.open_position);
}

#[test]
fn backtest_starting_in_position_sells_from_zero_entry() {
    let data = candles(&[50, 60]);
    let signals = vec![Signal::Sell { price: 0 }];
    let r = run_backtest(&data, signals, units(10), true);
    assert_eq!(r.final_balance, units(60) as i128);
    assert_eq!(r.profit_loss, units(50) as i128);
    assert_eq!(r.trade_count, 1);
}

#[test]
fn backtest_strategy_rejects_zero_period() {
    let data = candles(&SCENARIO);
    assert!(matches!(backtest_sma_strategy(&data, 2, 0, &[], 0), Err(SignalError::PeriodOutOfRange)));
}

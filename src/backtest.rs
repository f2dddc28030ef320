use vstd::prelude::*;
use crate::engine::{crossing_signals, crossing_trace, StrategyConfig};
use crate::moving_average::MAX_PERIOD;
use crate::position_book::{seed_lots, Position};
use crate::price::{closes_of, closing_prices, Candle, MAX_PRICE};
use crate::signal::{Signal, SignalError};

verus! {

/// The state of the single-position replay.
pub struct ReplayState {
    pub balance: int,
    pub in_position: bool,
    pub entry: Option<i64>,
    pub trades: nat,
}

/// The closing price that stands beside signal `i`, or zero past the end.
pub open spec fn price_at(closes: Seq<i64>, i: int) -> i64 {
    if 0 <= i < closes.len() {
        closes[i]
    } else {
        0
    }
}

pub open spec fn entry_or_zero(e: Option<i64>) -> int {
    match e {
        Some(v) => v as int,
        None => 0,
    }
}

/// Replays signals against the closes of the same index: a Buy while flat
/// enters at that close, a Sell while in position books the difference.
pub open spec fn replay(closes: Seq<i64>, sigs: Seq<Signal>, initial: int, start_in: bool) -> ReplayState
    decreases sigs.len(),
{
    if sigs.len() == 0 {
        ReplayState { balance: initial, in_position: start_in, entry: None, trades: 0 }
    } else {
        let st = replay(closes, sigs.drop_last(), initial, start_in);
        let price = price_at(closes, sigs.len() - 1);
        if sigs.last().is_buy_like() && !st.in_position {
            ReplayState { in_position: true, entry: Some(price), ..st }
        } else if sigs.last().is_sell_like() && st.in_position {
            ReplayState {
                balance: st.balance + price - entry_or_zero(st.entry),
                in_position: false,
                entry: None,
                trades: st.trades + 1,
            }
        } else {
            st
        }
    }
}

/// The outcome of a backtest. Amounts are in units of 10^-8.
#[derive(Clone, Debug)]
pub struct BacktestReport {
    pub final_balance: i128,
    pub initial_balance: i64,
    pub profit_loss: i128,
    pub trade_count: u64,
    pub open_position: bool,
    pub open_position_entry: Option<i64>,
    pub unrealized_pnl: i128,
    pub signals: Vec<Signal>,
}

impl BacktestReport {
    /// The report is the replay of `sigs` over `closes`.
    pub open spec fn describes(&self, closes: Seq<i64>, sigs: Seq<Signal>, initial: i64, start_in: bool) -> bool {
        let st = replay(closes, sigs, initial as int, start_in);
        let last = if closes.len() > 0 { closes.last() as int } else { 0 };
        &&& self.final_balance == st.balance
        &&& self.initial_balance == initial
        &&& self.profit_loss == self.final_balance - self.initial_balance
        &&& self.trade_count == st.trades
        &&& self.open_position == st.in_position
        &&& self.open_position_entry == st.entry
        &&& self.unrealized_pnl == if st.in_position { last - entry_or_zero(st.entry) } else { 0 }
        &&& self.signals@ == sigs
    }
}

/// Profit and loss is the final balance less the initial balance.
pub proof fn lemma_profit_loss(r: BacktestReport, closes: Seq<i64>, sigs: Seq<Signal>, initial: i64, start_in: bool)
    requires
        r.describes(closes, sigs, initial, start_in),
    ensures
        r.profit_loss == r.final_balance - r.initial_balance,
{
}

/// Replays `signals` against the closes of `data`, index by index, starting
/// with `initial_balance` and in position when `start_in_position` holds.
pub fn run_backtest(data: &[Candle], signals: Vec<Signal>, initial_balance: i64, start_in_position: bool) -> (r:
    BacktestReport)
    ensures
        r.describes(closes_of(data@), signals@, initial_balance, start_in_position),
        r.profit_loss == r.final_balance - r.initial_balance,
{
    let closes = closing_prices(data);
    let mut balance: i128 = initial_balance as i128;
    let mut in_position = start_in_position;
    let mut entry: Option<i64> = None;
    let mut trades: u64 = 0;
    let mut i: usize = 0;
    while i < signals.len()
        invariant
            i <= signals@.len(),
            closes@ == closes_of(data@),
            forall|j: int| 0 <= j < closes@.len() ==> -MAX_PRICE <= #[trigger] closes@[j] <= MAX_PRICE,
            trades <= i,
            -0x8000_0000_0000_0000 - trades * 0x400_0000_0000_0000 <= balance,
            balance <= 0x8000_0000_0000_0000 + trades * 0x400_0000_0000_0000,
            entry matches Some(e) ==> -MAX_PRICE <= e <= MAX_PRICE,
            replay(closes@, signals@.take(i as int), initial_balance as int, start_in_position) == (ReplayState {
                balance: balance as int,
                in_position,
                entry,
                trades: trades as nat,
            }),
        decreases signals@.len() - i,
    {
        proof {
            assert(signals@.take(i as int + 1).drop_last() =~= signals@.take(i as int));
        }
        let price: i64 = if i < closes.len() {
            closes[i]
        } else {
            0
        };
        let s = &signals[i];
        if s.is_buy() && !in_position {
            entry = Some(price);
            in_position = true;
        } else if s.is_sell() && in_position {
            let e: i64 = match entry {
                Some(v) => v,
                None => 0,
            };
            balance = balance + (price as i128 - e as i128);
            in_position = false;
            entry = None;
            trades = trades + 1;
        }
        i = i + 1;
    }
    proof {
        assert(signals@.take(signals@.len() as int) =~= signals@);
    }
    let unrealized: i128 = if in_position {
        let last: i64 = if closes.len() > 0 {
            closes[closes.len() - 1]
        } else {
            0
        };
        let e: i64 = match entry {
            Some(v) => v,
            None => 0,
        };
        last as i128 - e as i128
    } else {
        0
    };
    BacktestReport {
        final_balance: balance,
        initial_balance,
        profit_loss: balance - initial_balance as i128,
        trade_count: trades,
        open_position: in_position,
        open_position_entry: entry,
        unrealized_pnl: unrealized,
        signals,
    }
}

/// Runs the crossing strategy with the standard exit levels over `data`,
/// seeded with `positions`, and replays its signals from `initial_balance`;
/// the replay starts in position when any position is given.
pub fn backtest_sma_strategy(
    data: &[Candle],
    n1: usize,
    n2: usize,
    positions: &[Position],
    initial_balance: i64,
) -> (r: Result<BacktestReport, SignalError>)
    ensures
        !(1 <= n1 <= MAX_PERIOD && 1 <= n2 <= MAX_PERIOD) ==> r == Err::<BacktestReport, SignalError>(
            SignalError::PeriodOutOfRange,
        ),
        1 <= n1 <= MAX_PERIOD && 1 <= n2 <= MAX_PERIOD ==> r is Ok && r->Ok_0.describes(
            closes_of(data@),
            crossing_trace(closes_of(data@), n1 as nat, n2 as nat, seed_lots(positions@), StrategyConfig::standard_spec()).0,
            initial_balance,
            positions@.len() > 0,
        ),
{
    let signals = crossing_signals(data, n1, n2, positions, StrategyConfig::standard())?;
    Ok(run_backtest(data, signals, initial_balance, positions.len() > 0))
}

} // verus!

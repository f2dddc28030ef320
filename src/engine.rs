use vstd::prelude::*;
use crate::moving_average::{is_above, mean_above, window_of, MovingAverage, MAX_PERIOD};
use crate::price::{closes_of, closing_prices, Candle};
use crate::signal::{Signal, SignalError};
use crate::crossover::{cross_at, Cross, CrossoverDetector};
use crate::position_book::{
    seed_lots, sweep, Lot, Position, PositionBook, DEFAULT_LOT_SIZE, DEFAULT_STOP_PCT, DEFAULT_TAKE_PCT,
};

verus! {

/// The signals of the simple strategy over a price history, and the position
/// it ends in (0 flat, 1 long, -1 short).
pub open spec fn simple_trace(p: Seq<i64>, n1: nat, n2: nat) -> (Seq<Signal>, int)
    decreases p.len(),
{
    if p.len() == 0 {
        (Seq::empty(), 0)
    } else {
        let prev = simple_trace(p.drop_last(), n1, n2);
        let fast = window_of(p, n1);
        let slow = window_of(p, n2);
        if mean_above(fast, slow) && prev.1 <= 0 {
            (prev.0.push(Signal::Buy { price: p.last() }), 1)
        } else if mean_above(slow, fast) && prev.1 >= 0 {
            (prev.0.push(Signal::Sell { price: p.last() }), -1)
        } else {
            prev
        }
    }
}

/// In simple mode the position is always flat, long or short; every signal
/// is a Buy or a Sell, and no two consecutive signals go the same way.
pub proof fn lemma_simple_alternates(p: Seq<i64>, n1: nat, n2: nat)
    ensures
        ({
            let (sigs, pos) = simple_trace(p, n1, n2);
            &&& pos == 0 || pos == 1 || pos == -1
            &&& forall|i: int| 0 <= i < sigs.len() ==> (#[trigger] sigs[i] is Buy || sigs[i] is Sell)
            &&& forall|i: int| 0 <= i < sigs.len() - 1 ==> (#[trigger] sigs[i] is Buy <==> sigs[i + 1] is Sell)
            &&& sigs.len() == 0 <==> pos == 0
            &&& sigs.len() > 0 ==> (sigs.last() is Buy <==> pos == 1)
        }),
    decreases p.len(),
{
    if p.len() > 0 {
        lemma_simple_alternates(p.drop_last(), n1, n2);
        let prev = simple_trace(p.drop_last(), n1, n2);
        let cur = simple_trace(p, n1, n2);
        assert forall|i: int| 0 <= i < cur.0.len() - 1 implies (#[trigger] cur.0[i] is Buy <==> cur.0[i + 1] is Sell) by {
            if cur.0.len() > prev.0.len() && i == cur.0.len() - 2 {
                assert(cur.0[i] == prev.0.last());
            } else {
                assert(cur.0[i] == prev.0[i]);
                assert(cur.0[i + 1] == prev.0[i + 1]);
            }
        }
        assert forall|i: int| 0 <= i < cur.0.len() implies (#[trigger] cur.0[i] is Buy || cur.0[i] is Sell) by {
            if i < prev.0.len() {
                assert(cur.0[i] == prev.0[i]);
            }
        }
    }
}

/// The error, if any, with which the simple strategy refuses its parameters.
pub open spec fn simple_error(len: nat, n1: nat, n2: nat) -> Option<SignalError> {
    if len < n2 {
        Some(SignalError::InsufficientData)
    } else if n1 >= n2 {
        Some(SignalError::FastNotBelowSlow)
    } else if n1 == 0 || n2 > MAX_PERIOD {
        Some(SignalError::PeriodOutOfRange)
    } else {
        None
    }
}

/// Simple mode: a Buy whenever the fast mean is above the slow mean while not
/// long, a Sell whenever it is below while not short.
pub fn simple_signals(data: &[Candle], n1: usize, n2: usize) -> (r: Result<Vec<Signal>, SignalError>)
    ensures
        match simple_error(data@.len(), n1 as nat, n2 as nat) {
            Some(e) => r == Err::<Vec<Signal>, SignalError>(e),
            None => r is Ok && r->Ok_0@ == simple_trace(closes_of(data@), n1 as nat, n2 as nat).0,
        },
{
    if data.len() < n2 {
        return Err(SignalError::InsufficientData);
    }
    if n1 >= n2 {
        return Err(SignalError::FastNotBelowSlow);
    }
    if n1 == 0 || n2 > MAX_PERIOD {
        return Err(SignalError::PeriodOutOfRange);
    }
    let prices = closing_prices(data);
    let mut fast = MovingAverage::new(n1).unwrap();
    let mut slow = MovingAverage::new(n2).unwrap();
    let mut position: i8 = 0;
    let mut signals: Vec<Signal> = Vec::new();
    let mut i: usize = 0;
    while i < prices.len()
        invariant
            i <= prices@.len(),
            fast.wf(),
            slow.wf(),
            fast.period_spec() == n1,
            slow.period_spec() == n2,
            fast.history() == prices@.take(i as int),
            slow.history() == prices@.take(i as int),
            simple_trace(prices@.take(i as int), n1 as nat, n2 as nat) == (signals@, position as int),
        decreases prices@.len() - i,
    {
        let price = prices[i];
        proof {
            assert(prices@.take(i as int).push(price) =~= prices@.take(i as int + 1));
            assert(prices@.take(i as int + 1).drop_last() =~= prices@.take(i as int));
        }
        let fm = fast.next(price);
        let sm = slow.next(price);
        if is_above(fm, sm) && position <= 0 {
            signals.push(Signal::Buy { price });
            position = 1;
        } else if is_above(sm, fm) && position >= 0 {
            signals.push(Signal::Sell { price });
            position = -1;
        }
        i = i + 1;
    }
    proof {
        assert(prices@.take(prices@.len() as int) =~= prices@);
    }
    Ok(signals)
}

/// The exit levels and the lot size of the crossing strategy.
#[derive(Clone, Copy, Debug, PartialEq, Eq, Structural)]
pub struct StrategyConfig {
    /// Percentage loss from entry at which a lot is stopped out.
    pub stop_pct: u32,
    /// Percentage gain from entry at which profit is taken.
    pub take_pct: u32,
    /// Size of a lot opened on a bullish cross, in units of 10^-8.
    pub lot_size: i64,
}

impl StrategyConfig {
    pub open spec fn standard_spec() -> StrategyConfig {
        StrategyConfig { stop_pct: DEFAULT_STOP_PCT, take_pct: DEFAULT_TAKE_PCT, lot_size: DEFAULT_LOT_SIZE }
    }

    /// Stop at 5% down, take profit at 10% up, lots of 0.001 units.
    pub fn standard() -> (r: StrategyConfig)
        ensures
            r == Self::standard_spec(),
    {
        StrategyConfig { stop_pct: DEFAULT_STOP_PCT, take_pct: DEFAULT_TAKE_PCT, lot_size: DEFAULT_LOT_SIZE }
    }
}

/// The signals and the open lots after one tick at `price` with the cross
/// `cross`, starting from `state`: first the cross, then the sweep of every lot.
pub open spec fn tick_effect(state: (Seq<Signal>, Seq<Lot>), cross: Cross, price: i64, cfg: StrategyConfig) -> (
    Seq<Signal>,
    Seq<Lot>,
) {
    let after = match cross {
        Cross::Bullish => (
            state.0.push(Signal::Buy { price }),
            state.1.push(Lot { entry: price, size: cfg.lot_size }),
        ),
        Cross::Bearish => if state.1.len() > 0 {
            (
                state.0.push(Signal::SellWithSize { price, size: state.1[0].size, entry: state.1[0].entry }),
                state.1.drop_first(),
            )
        } else {
            state
        },
        Cross::NoCross => state,
    };
    let swept = sweep(after.1, price, cfg.stop_pct as int, cfg.take_pct as int);
    (after.0 + swept.1, swept.0)
}

fn apply_tick(book: &mut PositionBook, signals: &mut Vec<Signal>, cross: Cross, price: i64, cfg: StrategyConfig)
    ensures
        (final(signals)@, final(book).lots()) == tick_effect((old(signals)@, old(book).lots()), cross, price, cfg),
{
    match cross {
        Cross::Bullish => {
            signals.push(Signal::Buy { price });
            book.open(price, cfg.lot_size);
        },
        Cross::Bearish => {
            if let Some(lot) = book.close_oldest() {
                signals.push(Signal::SellWithSize { price, size: lot.size, entry: lot.entry });
            }
        },
        Cross::NoCross => {},
    }
    let mut exits = book.sweep_exits(price, cfg.stop_pct, cfg.take_pct);
    signals.append(&mut exits);
}

/// The signals of the crossing strategy over a price history, and the lots
/// still open at its end.
pub open spec fn crossing_trace(p: Seq<i64>, n1: nat, n2: nat, seed: Seq<Lot>, cfg: StrategyConfig) -> (
    Seq<Signal>,
    Seq<Lot>,
)
    decreases p.len(),
{
    if p.len() == 0 {
        (Seq::empty(), seed)
    } else {
        tick_effect(crossing_trace(p.drop_last(), n1, n2, seed, cfg), cross_at(p, n1, n2), p.last(), cfg)
    }
}

/// On the first tick the crossing strategy emits no Buy and no Sell: only the
/// exits of the seeded lots.
pub proof fn lemma_first_tick_no_cross(p: Seq<i64>, n1: nat, n2: nat, seed: Seq<Lot>, cfg: StrategyConfig)
    requires
        p.len() == 1,
    ensures
        cross_at(p, n1, n2) == Cross::NoCross,
        crossing_trace(p, n1, n2, seed, cfg).0 == sweep(seed, p[0], cfg.stop_pct as int, cfg.take_pct as int).1,
{
    assert(p.drop_last() =~= Seq::<i64>::empty());
    assert(p.last() == p[0]);
    assert(crossing_trace(p.drop_last(), n1, n2, seed, cfg) == (Seq::<Signal>::empty(), seed));
    assert(Seq::<Signal>::empty() + sweep(seed, p[0], cfg.stop_pct as int, cfg.take_pct as int).1
        =~= sweep(seed, p[0], cfg.stop_pct as int, cfg.take_pct as int).1);
}

/// Crossing mode: seeds the book from `positions`, then on each tick opens a
/// lot on a bullish cross, closes the oldest lot on a bearish cross, and
/// sweeps every lot against its stop and take levels.
pub fn crossing_signals(data: &[Candle], n1: usize, n2: usize, positions: &[Position], cfg: StrategyConfig) -> (r:
    Result<Vec<Signal>, SignalError>)
    ensures
        !(1 <= n1 <= MAX_PERIOD && 1 <= n2 <= MAX_PERIOD) ==> r == Err::<Vec<Signal>, SignalError>(
            SignalError::PeriodOutOfRange,
        ),
        1 <= n1 <= MAX_PERIOD && 1 <= n2 <= MAX_PERIOD ==> r is Ok && r->Ok_0@ == crossing_trace(
            closes_of(data@),
            n1 as nat,
            n2 as nat,
            seed_lots(positions@),
            cfg,
        ).0,
{
    let mut detector = match CrossoverDetector::new(n1, n2) {
        Some(d) => d,
        None => {
            return Err(SignalError::PeriodOutOfRange);
        },
    };
    let prices = closing_prices(data);
    let mut book = PositionBook::from_positions(positions);
    let mut signals: Vec<Signal> = Vec::new();
    let mut i: usize = 0;
    while i < prices.len()
        invariant
            i <= prices@.len(),
            detector.wf(),
            detector.fast_period() == n1,
            detector.slow_period() == n2,
            detector.history() == prices@.take(i as int),
            crossing_trace(prices@.take(i as int), n1 as nat, n2 as nat, seed_lots(positions@), cfg) == (
                signals@,
                book.lots(),
            ),
        decreases prices@.len() - i,
    {
        let price = prices[i];
        proof {
            assert(prices@.take(i as int).push(price) =~= prices@.take(i as int + 1));
            assert(prices@.take(i as int + 1).drop_last() =~= prices@.take(i as int));
        }
        let cross = detector.next(price);
        apply_tick(&mut book, &mut signals, cross, price, cfg);
        i = i + 1;
    }
    proof {
        assert(prices@.take(prices@.len() as int) =~= prices@);
    }
    Ok(signals)
}

} // verus!

use vstd::prelude::*;
use vstd::utf8::encode_utf8;
use crate::price::{decimal_value, parse_decimal};
use crate::signal::Signal;

verus! {

/// Percentage loss from entry at which a lot is stopped out.
pub const DEFAULT_STOP_PCT: u32 = 5;

/// Percentage gain from entry at which profit is taken.
pub const DEFAULT_TAKE_PCT: u32 = 10;

/// Size of a lot opened on a bullish cross: 0.001 units.
pub const DEFAULT_LOT_SIZE: i64 = 100_000;

/// One open entry awaiting an exit.
#[derive(Clone, Copy, Debug, PartialEq, Eq, Structural)]
pub struct Lot {
    pub entry: i64,
    pub size: i64,
}

/// An already filled order; only its average price and its size are read.
#[derive(Clone, Debug)]
pub struct Position {
    pub average_filled_price: String,
    pub filled_size: String,
}

/// The lot a position stands for, when both of its numbers read as decimals.
pub open spec fn lot_of(p: Position) -> Option<Lot> {
    match (decimal_value(encode_utf8(p.average_filled_price@)), decimal_value(encode_utf8(p.filled_size@))) {
        (Some(e), Some(s)) => Some(Lot { entry: e as i64, size: s as i64 }),
        _ => None,
    }
}

/// The lots of the positions that read well, in order.
pub open spec fn seed_lots(ps: Seq<Position>) -> Seq<Lot>
    decreases ps.len(),
{
    if ps.len() == 0 {
        Seq::empty()
    } else {
        match lot_of(ps.last()) {
            Some(l) => seed_lots(ps.drop_last()).push(l),
            None => seed_lots(ps.drop_last()),
        }
    }
}

/// `price` is at or below `entry` lowered by `stop_pct` percent.
pub open spec fn hits_stop(price: int, entry: int, stop_pct: int) -> bool {
    100 * price <= (100 - stop_pct) * entry
}

/// `price` is at or above `entry` raised by `take_pct` percent.
pub open spec fn hits_take(price: int, entry: int, take_pct: int) -> bool {
    100 * price >= (100 + take_pct) * entry
}

/// The lots kept and the exits taken when every lot is tested at `price`.
pub open spec fn sweep(lots: Seq<Lot>, price: i64, stop_pct: int, take_pct: int) -> (Seq<Lot>, Seq<Signal>)
    decreases lots.len(),
{
    if lots.len() == 0 {
        (Seq::empty(), Seq::empty())
    } else {
        let prev = sweep(lots.drop_last(), price, stop_pct, take_pct);
        let l = lots.last();
        if hits_stop(price as int, l.entry as int, stop_pct) {
            (prev.0, prev.1.push(Signal::StopLoss { price, size: l.size, entry: l.entry }))
        } else if hits_take(price as int, l.entry as int, take_pct) {
            (prev.0, prev.1.push(Signal::TakeProfit { price, size: l.size, entry: l.entry }))
        } else {
            (prev.0.push(l), prev.1)
        }
    }
}

/// Every exit of a sweep carries the sweep's price and meets its own rule.
pub proof fn lemma_sweep_exits(lots: Seq<Lot>, price: i64, stop_pct: int, take_pct: int)
    ensures
        forall|i: int| 0 <= i < sweep(lots, price, stop_pct, take_pct).1.len() ==> {
            let s = #[trigger] sweep(lots, price, stop_pct, take_pct).1[i];
            &&& s is StopLoss ==> s->StopLoss_price == price
                && hits_stop(price as int, s->StopLoss_entry as int, stop_pct)
            &&& s is TakeProfit ==> s->TakeProfit_price == price
                && !hits_stop(price as int, s->TakeProfit_entry as int, stop_pct)
                && hits_take(price as int, s->TakeProfit_entry as int, take_pct)
            &&& s is StopLoss || s is TakeProfit
        },
    decreases lots.len(),
{
    if lots.len() > 0 {
        lemma_sweep_exits(lots.drop_last(), price, stop_pct, take_pct);
        let prev = sweep(lots.drop_last(), price, stop_pct, take_pct);
        let cur = sweep(lots, price, stop_pct, take_pct);
        assert forall|i: int| 0 <= i < prev.1.len() implies cur.1[i] == prev.1[i] by {}
    }
}

/// A StopLoss (of non-negative entry) is not above the take-profit level,
/// and a TakeProfit is not below the stop level.
pub open spec fn exit_within_levels(s: Signal, stop_pct: int, take_pct: int) -> bool {
    &&& s is StopLoss && s->StopLoss_entry >= 0 ==> 100 * s->StopLoss_price <= (100 + take_pct)
        * s->StopLoss_entry
    &&& s is TakeProfit ==> 100 * s->TakeProfit_price >= (100 - stop_pct) * s->TakeProfit_entry
}

/// With positive percentages a sweep never stops out a lot (of non-negative
/// entry) above its take-profit level, nor takes profit below its stop level.
pub proof fn lemma_sweep_exclusive(lots: Seq<Lot>, price: i64, stop_pct: int, take_pct: int)
    requires
        stop_pct > 0,
        take_pct > 0,
    ensures
        forall|i: int|
            0 <= i < sweep(lots, price, stop_pct, take_pct).1.len() ==> exit_within_levels(
                #[trigger] sweep(lots, price, stop_pct, take_pct).1[i],
                stop_pct,
                take_pct,
            ),
{
    lemma_sweep_exits(lots, price, stop_pct, take_pct);
    assert forall|i: int| 0 <= i < sweep(lots, price, stop_pct, take_pct).1.len() implies exit_within_levels(
        #[trigger] sweep(lots, price, stop_pct, take_pct).1[i],
        stop_pct,
        take_pct,
    ) by {
        let s = sweep(lots, price, stop_pct, take_pct).1[i];
        if s is StopLoss && s->StopLoss_entry >= 0 {
            let e = s->StopLoss_entry as int;
            assert((100 - stop_pct) * e <= (100 + take_pct) * e) by (nonlinear_arith)
                requires
                    e >= 0,
                    stop_pct > 0,
                    take_pct > 0,
            ;
        }
    }
}

/// The open lots, oldest first.
pub struct PositionBook {
    lots: Vec<Lot>,
}

impl PositionBook {
    pub closed spec fn lots(&self) -> Seq<Lot> {
        self.lots@
    }

    pub fn new() -> (r: PositionBook)
        ensures
            r.lots() == Seq::<Lot>::empty(),
    {
        PositionBook { lots: Vec::new() }
    }

    /// A book seeded with the positions whose price and size both read as
    /// decimals; the others are left out.
    pub fn from_positions(positions: &[Position]) -> (r: PositionBook)
        ensures
            r.lots() == seed_lots(positions@),
    {
        let mut lots: Vec<Lot> = Vec::new();
        let mut i: usize = 0;
        while i < positions.len()
            invariant
                i <= positions@.len(),
                lots@ == seed_lots(positions@.take(i as int)),
            decreases positions@.len() - i,
        {
            proof {
                assert(positions@.take(i as int + 1).drop_last() =~= positions@.take(i as int));
            }
            let p = &positions[i];
            let price = parse_decimal(p.average_filled_price.as_str().as_bytes());
            let size = parse_decimal(p.filled_size.as_str().as_bytes());
            match (price, size) {
                (Some(e), Some(s)) => {
                    lots.push(Lot { entry: e, size: s });
                },
                _ => {},
            }
            i = i + 1;
        }
        proof {
            assert(positions@.take(positions@.len() as int) =~= positions@);
        }
        PositionBook { lots }
    }

    pub fn len(&self) -> (r: usize)
        ensures
            r == self.lots().len(),
    {
        self.lots.len()
    }

    pub fn is_empty(&self) -> (r: bool)
        ensures
            r == (self.lots().len() == 0),
    {
        self.lots.len() == 0
    }

    /// Appends a lot at the end.
    pub fn open(&mut self, entry: i64, size: i64)
        ensures
            final(self).lots() == old(self).lots().push(Lot { entry, size }),
    {
        self.lots.push(Lot { entry, size });
    }

    /// Removes and returns the oldest lot; `None`, and no change, when empty.
    pub fn close_oldest(&mut self) -> (r: Option<Lot>)
        ensures
            old(self).lots().len() == 0 ==> r is None && final(self).lots() == old(self).lots(),
            old(self).lots().len() > 0 ==> r == Some(old(self).lots()[0]) && final(self).lots()
                == old(self).lots().drop_first(),
    {
        if self.lots.len() == 0 {
            None
        } else {
            let l = self.lots.remove(0);
            proof {
                assert(self.lots@ =~= old(self).lots@.drop_first());
            }
            Some(l)
        }
    }

    /// Tests every lot at `price`: a lot at or below its stop level leaves as
    /// a StopLoss, else one at or above its take level leaves as a
    /// TakeProfit; the rest stay, in order. Returns the exits, in order.
    pub fn sweep_exits(&mut self, price: i64, stop_pct: u32, take_pct: u32) -> (r: Vec<Signal>)
        ensures
            (final(self).lots(), r@) == sweep(old(self).lots(), price, stop_pct as int, take_pct as int),
    {
        let mut kept: Vec<Lot> = Vec::new();
        let mut exits: Vec<Signal> = Vec::new();
        let mut i: usize = 0;
        let ghost lots = self.lots@;
        while i < self.lots.len()
            invariant
                i <= lots.len(),
                self.lots@ == lots,
                sweep(lots.take(i as int), price, stop_pct as int, take_pct as int) == (kept@, exits@),
            decreases lots.len() - i,
        {
            proof {
                assert(lots.take(i as int + 1).drop_last() =~= lots.take(i as int));
            }
            let l = self.lots[i];
            let p = price as i128;
            let e = l.entry as i128;
            let down: i128 = 100 - stop_pct as i128;
            let up: i128 = 100 + take_pct as i128;
            assert(-0x1_0000_0000_0000_0000_0000_0000 <= down * e <= 0x1_0000_0000_0000_0000_0000_0000) by (nonlinear_arith)
                requires
                    -0x1_0000_0000 <= down <= 100,
                    -0x8000_0000_0000_0000 <= e <= 0x8000_0000_0000_0000,
            ;
            assert(-0x1_0000_0000_0000_0000_0000_0000 <= up * e <= 0x1_0000_0000_0000_0000_0000_0000) by (nonlinear_arith)
                requires
                    100 <= up <= 0x2_0000_0000,
                    -0x8000_0000_0000_0000 <= e <= 0x8000_0000_0000_0000,
            ;
            if 100 * p <= down * e {
                exits.push(Signal::StopLoss { price, size: l.size, entry: l.entry });
            } else if 100 * p >= up * e {
                exits.push(Signal::TakeProfit { price, size: l.size, entry: l.entry });
            } else {
                kept.push(l);
            }
            i = i + 1;
        }
        proof {
            assert(lots.take(lots.len() as int) =~= lots);
        }
        self.lots = kept;
        exits
    }
}

} // verus!

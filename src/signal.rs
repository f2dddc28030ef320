use vstd::prelude::*;

verus! {

/// A trade signal. Prices, sizes and entries are in units of 10^-8.
#[derive(Clone, Copy, Debug, PartialEq, Eq, Structural)]
pub enum Signal {
    Buy { price: i64 },
    Sell { price: i64 },
    SellWithSize { price: i64, size: i64, entry: i64 },
    StopLoss { price: i64, size: i64, entry: i64 },
    TakeProfit { price: i64, size: i64, entry: i64 },
}

impl Signal {
    /// Signals that open a position.
    pub open spec fn is_buy_like(self) -> bool {
        self is Buy
    }

    /// Signals that close a position through a moving-average cross.
    pub open spec fn is_sell_like(self) -> bool {
        self is Sell || self is SellWithSize
    }

    pub fn is_buy(&self) -> (r: bool)
        ensures
            r == self.is_buy_like(),
    {
        matches!(self, Signal::Buy { .. })
    }

    pub fn is_sell(&self) -> (r: bool)
        ensures
            r == self.is_sell_like(),
    {
        matches!(self, Signal::Sell { .. } | Signal::SellWithSize { .. })
    }
}

/// Why a strategy refuses to run.
#[derive(Clone, Copy, Debug, PartialEq, Eq, Structural)]
pub enum SignalError {
    /// Fewer candles than the slow period.
    InsufficientData,
    /// The fast period is not below the slow period.
    FastNotBelowSlow,
    /// A period is zero or above `MAX_PERIOD`.
    PeriodOutOfRange,
}

} // verus!

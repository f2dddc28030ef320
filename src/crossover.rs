use vstd::prelude::*;
use crate::moving_average::{is_above, mean_above, mean_in_range, window_of, Mean, MovingAverage, MAX_PERIOD};

verus! {

/// How the fast mean moved against the slow mean on one tick.
#[derive(Clone, Copy, Debug, PartialEq, Eq, Structural)]
pub enum Cross {
    Bullish,
    Bearish,
    NoCross,
}

/// The cross between the previous windows `pf`, `ps` and the current ones.
pub open spec fn cross_of(pf: Seq<i64>, ps: Seq<i64>, cf: Seq<i64>, cs: Seq<i64>) -> Cross {
    if !mean_above(pf, ps) && mean_above(cf, cs) {
        Cross::Bullish
    } else if !mean_above(ps, pf) && mean_above(cs, cf) {
        Cross::Bearish
    } else {
        Cross::NoCross
    }
}

/// The cross seen at the last price of `h`: none before there is a previous
/// tick to compare with.
pub open spec fn cross_at(h: Seq<i64>, n1: nat, n2: nat) -> Cross {
    if h.len() < 2 {
        Cross::NoCross
    } else {
        let p = h.drop_last();
        cross_of(window_of(p, n1), window_of(p, n2), window_of(h, n1), window_of(h, n2))
    }
}

/// Two moving averages and the pair of means of the previous tick.
pub struct CrossoverDetector {
    fast: MovingAverage,
    slow: MovingAverage,
    prev: Option<(Mean, Mean)>,
}

impl CrossoverDetector {
    pub closed spec fn history(&self) -> Seq<i64> {
        self.fast.history()
    }

    pub closed spec fn fast_period(&self) -> nat {
        self.fast.period_spec()
    }

    pub closed spec fn slow_period(&self) -> nat {
        self.slow.period_spec()
    }

    pub closed spec fn wf(&self) -> bool {
        &&& self.fast.wf()
        &&& self.slow.wf()
        &&& self.fast.history() == self.slow.history()
        &&& match self.prev {
            None => self.fast.history().len() == 0,
            Some((f, s)) => {
                &&& self.fast.history().len() > 0
                &&& f.is_mean_of(window_of(self.fast.history(), self.fast.period_spec()))
                &&& s.is_mean_of(window_of(self.fast.history(), self.slow.period_spec()))
                &&& mean_in_range(f)
                &&& mean_in_range(s)
            },
        }
    }

    /// A detector over a fast and a slow period; `None` when either is 0 or
    /// above `MAX_PERIOD`.
    pub fn new(fast_period: usize, slow_period: usize) -> (r: Option<CrossoverDetector>)
        ensures
            r is Some <==> 1 <= fast_period <= MAX_PERIOD && 1 <= slow_period <= MAX_PERIOD,
            r matches Some(d) ==> d.wf() && d.history().len() == 0 && d.fast_period() == fast_period
                && d.slow_period() == slow_period,
    {
        match (MovingAverage::new(fast_period), MovingAverage::new(slow_period)) {
            (Some(fast), Some(slow)) => Some(CrossoverDetector { fast, slow, prev: None }),
            _ => None,
        }
    }

    /// Feeds one price to both averages and classifies the move against the
    /// previous tick. The first tick never crosses.
    pub fn next(&mut self, price: i64) -> (r: Cross)
        requires
            old(self).wf(),
        ensures
            final(self).wf(),
            final(self).fast_period() == old(self).fast_period(),
            final(self).slow_period() == old(self).slow_period(),
            final(self).history() == old(self).history().push(price),
            r == cross_at(final(self).history(), final(self).fast_period(), final(self).slow_period()),
            old(self).history().len() == 0 ==> r == Cross::NoCross,
    {
        let f = self.fast.next(price);
        let s = self.slow.next(price);
        let r = match self.prev {
            None => Cross::NoCross,
            Some((pf, ps)) => {
                proof {
                    assert(self.fast.history().drop_last() =~= old(self).fast.history());
                }
                if !is_above(pf, ps) && is_above(f, s) {
                    Cross::Bullish
                } else if !is_above(ps, pf) && is_above(s, f) {
                    Cross::Bearish
                } else {
                    Cross::NoCross
                }
            },
        };
        self.prev = Some((f, s));
        r
    }
}

} // verus!

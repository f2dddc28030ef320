use vstd::prelude::*;

verus! {

/// Largest window length accepted by `MovingAverage::new`; it keeps every
/// cross-multiplied comparison of two means inside `i128`.
pub const MAX_PERIOD: usize = 2147483648;

/// Sum of a sequence of prices.
pub open spec fn sum_of(s: Seq<i64>) -> int
    decreases s.len(),
{
    if s.len() == 0 {
        0
    } else {
        sum_of(s.drop_last()) + s.last() as int
    }
}

/// The trailing window of at most `n` prices of a history.
pub open spec fn window_of(s: Seq<i64>, n: nat) -> Seq<i64> {
    if s.len() <= n {
        s
    } else {
        s.subrange(s.len() - n, s.len() as int)
    }
}

/// The mean of a non-empty window, kept exact as a total and a count.
#[derive(Clone, Copy, Debug, PartialEq, Eq)]
pub struct Mean {
    pub total: i128,
    pub count: u64,
}

impl Mean {
    /// `self` is the arithmetic mean of the prices in `s`.
    pub open spec fn is_mean_of(self, s: Seq<i64>) -> bool {
        &&& self.total as int == sum_of(s)
        &&& self.count as int == s.len()
        &&& s.len() >= 1
    }
}

/// The mean of window `a` lies strictly above the mean of window `b`.
pub open spec fn mean_above(a: Seq<i64>, b: Seq<i64>) -> bool {
    sum_of(a) * b.len() > sum_of(b) * a.len()
}

/// A mean small enough to be compared exactly.
pub open spec fn mean_in_range(m: Mean) -> bool {
    &&& 1 <= m.count <= MAX_PERIOD
    &&& -(m.count as int) * 0x8000_0000_0000_0000 <= m.total <= (m.count as int) * 0x7fff_ffff_ffff_ffff
}

/// Whether the mean `a` lies strictly above the mean `b`.
pub fn is_above(a: Mean, b: Mean) -> (r: bool)
    requires
        mean_in_range(a),
        mean_in_range(b),
    ensures
        r == (a.total * b.count > b.total * a.count),
{
    proof {
        lemma_product_in_range(a, b);
        lemma_product_in_range(b, a);
    }
    a.total * (b.count as i128) > b.total * (a.count as i128)
}

proof fn lemma_product_in_range(a: Mean, b: Mean)
    requires
        mean_in_range(a),
        mean_in_range(b),
    ensures
        -0x4000_0000_0000_0000_0000_0000_0000_0000 <= a.total * b.count <= 0x4000_0000_0000_0000_0000_0000_0000_0000,
{
    let t = a.total as int;
    let n = a.count as int;
    let m = b.count as int;
    assert(n * m <= 0x8000_0000 * 0x8000_0000) by (nonlinear_arith)
        requires 1 <= n <= 0x8000_0000, 1 <= m <= 0x8000_0000;
    assert(-(n * m) * 0x8000_0000_0000_0000 <= t * m <= (n * m) * 0x8000_0000_0000_0000) by (nonlinear_arith)
        requires -n * 0x8000_0000_0000_0000 <= t <= n * 0x7fff_ffff_ffff_ffff, 1 <= m;
    assert((n * m) * 0x8000_0000_0000_0000 <= 0x4000_0000_0000_0000_0000_0000_0000_0000) by (nonlinear_arith)
        requires n * m <= 0x8000_0000 * 0x8000_0000, 0 <= n * m;
}

pub proof fn lemma_sum_bound(s: Seq<i64>)
    ensures
        -(s.len() as int) * 0x8000_0000_0000_0000 <= sum_of(s) <= (s.len() as int) * 0x7fff_ffff_ffff_ffff,
    decreases s.len(),
{
    if s.len() > 0 {
        lemma_sum_bound(s.drop_last());
    }
}

pub proof fn lemma_sum_first(s: Seq<i64>)
    requires
        s.len() >= 1,
    ensures
        sum_of(s) == s[0] as int + sum_of(s.drop_first()),
    decreases s.len(),
{
    if s.len() > 1 {
        lemma_sum_first(s.drop_last());
        assert(s.drop_last().drop_first() =~= s.drop_first().drop_last());
        assert(s.drop_first().last() == s.last());
    } else {
        assert(s.drop_first().len() == 0);
        assert(s.drop_last().len() == 0);
        assert(sum_of(s.drop_first()) == 0);
        assert(sum_of(s.drop_last()) == 0);
    }
}

proof fn lemma_window_push(h: Seq<i64>, x: i64, n: nat)
    requires
        n >= 1,
    ensures
        window_of(h, n).len() < n ==> window_of(h.push(x), n) =~= window_of(h, n).push(x),
        window_of(h, n).len() == n ==> window_of(h.push(x), n) =~= window_of(h, n).drop_first().push(x),
        window_of(h, n).len() <= n,
{
}

/// Incremental mean over the trailing `period` prices.
pub struct MovingAverage {
    period: usize,
    window: Vec<i64>,
    total: i128,
    history: Ghost<Seq<i64>>,
}

impl MovingAverage {
    pub closed spec fn period_spec(&self) -> nat {
        self.period as nat
    }

    /// Every price fed so far, oldest first.
    pub closed spec fn history(&self) -> Seq<i64> {
        self.history@
    }

    pub closed spec fn wf(&self) -> bool {
        &&& 1 <= self.period <= MAX_PERIOD
        &&& self.window@ == window_of(self.history@, self.period as nat)
        &&& self.total as int == sum_of(self.window@)
    }

    /// A moving average over `period` prices; `None` when `period` is 0 or
    /// above `MAX_PERIOD`.
    pub fn new(period: usize) -> (r: Option<MovingAverage>)
        ensures
            r is Some <==> 1 <= period <= MAX_PERIOD,
            r matches Some(m) ==> m.wf() && m.period_spec() == period && m.history() == Seq::<i64>::empty(),
    {
        if period == 0 || period > MAX_PERIOD {
            None
        } else {
            Some(MovingAverage { period, window: Vec::new(), total: 0, history: Ghost(Seq::empty()) })
        }
    }

    pub fn period(&self) -> (r: usize)
        ensures
            r == self.period_spec(),
    {
        self.period
    }

    /// Feeds one price and returns the mean of the window that now ends with
    /// it, also while fewer than `period` prices have been seen.
    pub fn next(&mut self, price: i64) -> (m: Mean)
        requires
            old(self).wf(),
        ensures
            final(self).wf(),
            final(self).period_spec() == old(self).period_spec(),
            final(self).history() == old(self).history().push(price),
            m.is_mean_of(window_of(final(self).history(), final(self).period_spec())),
            mean_in_range(m),
    {
        let ghost h = self.history@;
        let ghost n = self.period as nat;
        proof {
            lemma_window_push(h, price, n);
        }
        if self.window.len() == self.period {
            proof {
                lemma_sum_first(self.window@);
                lemma_sum_bound(self.window@.drop_first());
            }
            let oldest = self.window.remove(0);
            self.total = self.total - oldest as i128;
        }
        proof {
            lemma_sum_bound(self.window@);
            assert(self.window@.push(price).drop_last() =~= self.window@);
        }
        self.window.push(price);
        self.total = self.total + price as i128;
        self.history = Ghost(h.push(price));
        proof {
            assert(self.window@ == window_of(self.history@, n));
            lemma_sum_bound(self.window@);
        }
        Mean { total: self.total, count: self.window.len() as u64 }
    }
}

} // verus!

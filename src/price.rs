use vstd::prelude::*;
use vstd::utf8::encode_utf8;

verus! {

/// Largest magnitude of a price, in units of 10^-8.
pub const MAX_PRICE: i64 = 100_000_000_000_000_000;

/// One unit of price or size: prices carry eight decimal places.
pub const PRICE_UNIT: i64 = 100_000_000;

pub open spec fn pow10(n: nat) -> int
    decreases n,
{
    if n == 0 {
        1
    } else {
        10 * pow10((n - 1) as nat)
    }
}

/// The state of a left-to-right scan of a decimal number.
pub struct DecimalScan {
    pub ok: bool,
    pub neg: bool,
    pub dot: bool,
    pub digits: nat,
    pub frac: nat,
    pub value: int,
}

pub open spec fn is_digit(b: u8) -> bool {
    48 <= b <= 57
}

/// One byte of the grammar `[+-]? digits [. digits]`; fraction digits past
/// the eighth are read and dropped.
pub open spec fn scan_step(st: DecimalScan, b: u8, at: int) -> DecimalScan {
    if !st.ok {
        st
    } else if at == 0 && (b == 45u8 || b == 43u8) {
        DecimalScan { neg: b == 45u8, ..st }
    } else if b == 46u8 && !st.dot {
        DecimalScan { dot: true, ..st }
    } else if is_digit(b) {
        if st.dot && st.frac >= 8 {
            DecimalScan { digits: st.digits + 1, ..st }
        } else if st.value * 10 + (b - 48) > MAX_PRICE {
            DecimalScan { ok: false, ..st }
        } else {
            DecimalScan {
                digits: st.digits + 1,
                frac: if st.dot { st.frac + 1 } else { st.frac },
                value: st.value * 10 + (b - 48),
                ..st
            }
        }
    } else {
        DecimalScan { ok: false, ..st }
    }
}

pub open spec fn scan(b: Seq<u8>) -> DecimalScan
    decreases b.len(),
{
    if b.len() == 0 {
        DecimalScan { ok: true, neg: false, dot: false, digits: 0, frac: 0, value: 0 }
    } else {
        scan_step(scan(b.drop_last()), b.last(), b.len() - 1)
    }
}

/// The value of a decimal text in units of 10^-8, or `None` when the text is
/// not a decimal number or its magnitude exceeds `MAX_PRICE`.
pub open spec fn decimal_value(b: Seq<u8>) -> Option<int> {
    let st = scan(b);
    let scaled = st.value * pow10((8 - st.frac) as nat);
    if st.ok && st.digits >= 1 && scaled <= MAX_PRICE {
        Some(if st.neg { -scaled } else { scaled })
    } else {
        None
    }
}

/// The lossy reading of a price: malformed text counts as zero.
pub open spec fn price_or_zero(b: Seq<u8>) -> int {
    match decimal_value(b) {
        Some(v) => v,
        None => 0,
    }
}

proof fn lemma_scan_bounds(b: Seq<u8>)
    ensures
        0 <= scan(b).value <= MAX_PRICE,
        scan(b).frac <= 8,
        scan(b).digits <= b.len(),
    decreases b.len(),
{
    if b.len() > 0 {
        lemma_scan_bounds(b.drop_last());
    }
}

proof fn lemma_pow10_table()
    ensures
        pow10(0) == 1,
        pow10(1) == 10,
        pow10(2) == 100,
        pow10(3) == 1000,
        pow10(4) == 10000,
        pow10(5) == 100000,
        pow10(6) == 1000000,
        pow10(7) == 10000000,
        pow10(8) == 100000000,
{
    assert(pow10(1) == 10 * pow10(0));
    assert(pow10(2) == 10 * pow10(1));
    assert(pow10(3) == 10 * pow10(2));
    assert(pow10(4) == 10 * pow10(3));
    assert(pow10(5) == 10 * pow10(4));
    assert(pow10(6) == 10 * pow10(5));
    assert(pow10(7) == 10 * pow10(6));
    assert(pow10(8) == 10 * pow10(7));
}

/// Reads a decimal number in units of 10^-8.
pub fn parse_decimal(b: &[u8]) -> (r: Option<i64>)
    ensures
        match r {
            Some(v) => decimal_value(b@) == Some(v as int),
            None => decimal_value(b@) is None,
        },
        r matches Some(v) ==> -MAX_PRICE <= v <= MAX_PRICE,
{
    let mut ok = true;
    let mut neg = false;
    let mut dot = false;
    let mut digits: usize = 0;
    let mut frac: usize = 0;
    let mut value: i64 = 0;
    let mut i: usize = 0;
    while i < b.len()
        invariant
            i <= b.len(),
            scan(b@.take(i as int)) == (DecimalScan {
                ok,
                neg,
                dot,
                digits: digits as nat,
                frac: frac as nat,
                value: value as int,
            }),
        decreases b.len() - i,
    {
        proof {
            lemma_scan_bounds(b@.take(i as int));
            assert(b@.take(i as int + 1).drop_last() =~= b@.take(i as int));
        }
        let c = b[i];
        if !ok {
        } else if i == 0 && (c == 45u8 || c == 43u8) {
            neg = c == 45u8;
        } else if c == 46u8 && !dot {
            dot = true;
        } else if 48u8 <= c && c <= 57u8 {
            if dot && frac >= 8 {
                digits = digits + 1;
            } else if value > (MAX_PRICE - (c - 48u8) as i64) / 10 {
                ok = false;
            } else {
                digits = digits + 1;
                if dot {
                    frac = frac + 1;
                }
                value = value * 10 + (c - 48u8) as i64;
            }
        } else {
            ok = false;
        }
        i = i + 1;
    }
    proof {
        assert(b@.take(b.len() as int) =~= b@);
        lemma_scan_bounds(b@);
        lemma_pow10_table();
    }
    if !ok || digits == 0 {
        return None;
    }
    let mut scale: i128 = 1;
    let mut k: usize = frac;
    while k < 8
        invariant
            frac <= k <= 8,
            scale as int == pow10((k - frac) as nat),
            1 <= scale <= pow10((k - frac) as nat),
            pow10((k - frac) as nat) <= pow10(8),
        decreases 8 - k,
    {
        proof {
            lemma_pow10_table();
            assert(pow10((k + 1 - frac) as nat) == 10 * pow10((k - frac) as nat));
        }
        scale = scale * 10;
        k = k + 1;
    }
    assert(0 <= value as int * scale as int <= MAX_PRICE as int * 100000000) by (nonlinear_arith)
        requires
            0 <= value <= MAX_PRICE,
            1 <= scale <= 100000000,
    ;
    let scaled: i128 = value as i128 * scale;
    if scaled > MAX_PRICE as i128 {
        None
    } else if neg {
        Some(-(scaled as i64))
    } else {
        Some(scaled as i64)
    }
}

/// One price observation. Only `close` is read by the strategies; the other
/// fields pass through as given.
#[derive(Clone, Debug)]
pub struct Candle {
    pub close: String,
    pub start: String,
    pub low: String,
    pub high: String,
    pub open: String,
    pub volume: String,
}

impl Candle {
    /// The closing price, zero when `close` does not read as a decimal.
    pub open spec fn close_value(&self) -> int {
        price_or_zero(encode_utf8(self.close@))
    }

    pub fn close_price(&self) -> (r: i64)
        ensures
            r == self.close_value(),
            -MAX_PRICE <= r <= MAX_PRICE,
    {
        match parse_decimal(self.close.as_str().as_bytes()) {
            Some(v) => v,
            None => 0,
        }
    }
}

/// The closing prices of a candle sequence.
pub open spec fn closes_of(data: Seq<Candle>) -> Seq<i64> {
    data.map_values(|c: Candle| c.close_value() as i64)
}

/// Reads every closing price, in order.
pub fn closing_prices(data: &[Candle]) -> (r: Vec<i64>)
    ensures
        r@ == closes_of(data@),
        forall|i: int| 0 <= i < r@.len() ==> r@[i] as int == #[trigger] data@[i].close_value(),
        forall|i: int| 0 <= i < r@.len() ==> -MAX_PRICE <= #[trigger] r@[i] <= MAX_PRICE,
{
    let mut r: Vec<i64> = Vec::new();
    let mut i: usize = 0;
    while i < data.len()
        invariant
            i <= data@.len(),
            r@.len() == i,
            forall|j: int| 0 <= j < i ==> r@[j] as int == #[trigger] data@[j].close_value(),
            forall|j: int| 0 <= j < i ==> -MAX_PRICE <= #[trigger] r@[j] <= MAX_PRICE,
        decreases data@.len() - i,
    {
        let p = data[i].close_price();
        r.push(p);
        i = i + 1;
    }
    assert(r@ =~= closes_of(data@));
    r
}

} // verus!

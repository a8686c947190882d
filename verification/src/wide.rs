//! Whole numbers beyond 128 bits, as far as confirming a decimal result needs
//! them: two digits to the base `10^38`.

use crate::decimal::{lemma_pow10_positive, lemma_pow10_sum, pow10};
use vstd::prelude::*;

verus! {

/// The base: `10^38`.
pub const BASE: u128 = 100_000_000_000_000_000_000_000_000_000_000_000_000;

/// `10^19`, the root of the base.
pub const ROOT: u128 = 10_000_000_000_000_000_000;

/// The number `high * 10^38 + low`.
#[derive(Clone, Copy, Debug)]
pub struct Wide {
    pub high: u128,
    pub low: u128,
}

impl Wide {
    /// The number that the two digits stand for.
    pub open spec fn value(self) -> int {
        self.high * BASE + self.low
    }

    /// The low digit is a digit.
    pub open spec fn proper(self) -> bool {
        self.low < BASE
    }

    /// Whether the two stand for one number.
    pub fn same(&self, other: &Wide) -> (b: bool)
        requires
            self.proper(),
            other.proper(),
        ensures
            b == (self.value() == other.value()),
    {
        self.high == other.high && self.low == other.low
    }
}

/// The powers of ten up to the base.
pub proof fn lemma_base()
    ensures
        pow10(19) == ROOT,
        pow10(38) == BASE,
{
    reveal_with_fuel(pow10, 20);
    assert(pow10(19) == ROOT);
    lemma_pow10_sum(19, 19);
}

/// `10^k`, up to the base.
pub fn power_of_ten(k: u32) -> (r: u128)
    requires
        k <= 38,
    ensures
        r == pow10(k as nat),
        1 <= r <= BASE,
{
    let mut r: u128 = 1;
    let mut i: u32 = 0;
    proof {
        lemma_base();
    }
    while i < k
        invariant
            i <= k <= 38,
            r == pow10(i as nat),
            pow10(38) == BASE,
        decreases k - i,
    {
        proof {
            crate::decimal::lemma_pow10_monotonic((i + 1) as nat, 38);
            lemma_pow10_positive(i as nat);
        }
        r = r * 10;
        i = i + 1;
    }
    proof {
        lemma_pow10_positive(k as nat);
        crate::decimal::lemma_pow10_monotonic(k as nat, 38);
    }
    r
}

/// `m * 10^k` in two digits; `None` where it is beyond two digits.
pub fn scaled(m: u128, k: u32) -> (r: Option<Wide>)
    requires
        k <= 76,
    ensures
        match r {
            Some(w) => w.proper() && w.value() == m * pow10(k as nat),
            None => m * pow10(k as nat) >= (u128::MAX + 1) * BASE,
        },
        k <= 38 ==> r is Some,
{
    proof {
        lemma_base();
    }
    if k <= 38 {
        let q = power_of_ten(38 - k);
        let p = power_of_ten(k);
        let high = m / q;
        let rest = m % q;
        proof {
            lemma_pow10_sum((38 - k) as nat, k as nat);
            assert(q * p == BASE);
            assert(rest * p < q * p) by (nonlinear_arith)
                requires
                    rest < q,
                    p >= 1,
            ;
            assert(m == high * q + rest) by (nonlinear_arith)
                requires
                    high == m / q,
                    rest == m % q,
                    q >= 1,
            ;
            assert(m * p == high * (q * p) + rest * p) by (nonlinear_arith)
                requires
                    m == high * q + rest,
            ;
        }
        Some(Wide { high, low: rest * p })
    } else {
        let p = power_of_ten(k - 38);
        proof {
            lemma_pow10_sum((k - 38) as nat, 38);
            assert(m * pow10(k as nat) == (m * p) * BASE) by (nonlinear_arith)
                requires
                    pow10(k as nat) == p * BASE,
            ;
        }
        match m.checked_mul(p) {
            Some(high) => Some(Wide { high, low: 0 }),
            None => {
                proof {
                    assert((m * p) * BASE >= (u128::MAX + 1) * BASE) by (nonlinear_arith)
                        requires
                            m * p >= u128::MAX + 1,
                    ;
                }
                None
            },
        }
    }
}

/// `a * b` in two digits, for factors of at most 96 bits.
pub fn product(a: u128, b: u128) -> (w: Wide)
    requires
        a < 0x1_0000_0000_0000_0000_0000_0000,
        b < 0x1_0000_0000_0000_0000_0000_0000,
    ensures
        w.proper(),
        w.value() == a * b,
{
    let a1 = a / ROOT;
    let a0 = a % ROOT;
    let b1 = b / ROOT;
    let b0 = b % ROOT;
    assert(a1 < 7_922_816_252 && b1 < 7_922_816_252);
    proof {
        assert(a1 * b1 < 7_922_816_252 * 7_922_816_252) by (nonlinear_arith)
            requires
                a1 < 7_922_816_252,
                b1 < 7_922_816_252,
        ;
        assert(a1 * b0 <= 7_922_816_252 * ROOT) by (nonlinear_arith)
            requires
                a1 < 7_922_816_252,
                b0 < ROOT,
        ;
        assert(a0 * b1 <= ROOT * 7_922_816_252) by (nonlinear_arith)
            requires
                b1 < 7_922_816_252,
                a0 < ROOT,
        ;
        assert(a0 * b0 < ROOT * ROOT) by (nonlinear_arith)
            requires
                a0 < ROOT,
                b0 < ROOT,
        ;
        assert(ROOT * ROOT == BASE);
    }
    let top = a1 * b1;
    let cross = a1 * b0 + a0 * b1;
    let bottom = a0 * b0;
    let c1 = cross / ROOT;
    let c0 = cross % ROOT;
    let low = c0 * ROOT + bottom;
    proof {
        assert(a * b == top * BASE + cross * ROOT + bottom) by (nonlinear_arith)
            requires
                a == a1 * ROOT + a0,
                b == b1 * ROOT + b0,
                top == a1 * b1,
                cross == a1 * b0 + a0 * b1,
                bottom == a0 * b0,
                ROOT * ROOT == BASE,
        ;
        assert(cross * ROOT == c1 * BASE + c0 * ROOT);
    }
    if low >= BASE {
        Wide { high: top + c1 + 1, low: low - BASE }
    } else {
        Wide { high: top + c1, low }
    }
}

} // verus!

//! Exact decimal numbers of the form `mantissa / 10^scale`.
//!
//! The arithmetic itself is done by the `rust_decimal` crate, which rounds
//! where a result needs more than 96 bits or 28 places. Every result that
//! comes back from it is therefore compared here, in whole numbers, with the
//! exact result, and handed on only where the two agree: a [`Decimal`] that
//! this module returns for a sum, a difference or a product stands for
//! exactly that number.

use crate::wide::{lemma_base, product, scaled, Wide, BASE};
use vstd::prelude::*;

verus! {

/// The largest magnitude of a mantissa: `2^96 - 1`.
pub const MAX_MANTISSA: i128 = 79_228_162_514_264_337_593_543_950_335;

/// The largest scale: a value has at most 28 digits after the decimal point.
pub const MAX_SCALE: u32 = 28;

/// `10^n`.
pub open spec fn pow10(n: nat) -> int
    decreases n,
{
    if n == 0 {
        1
    } else {
        10 * pow10((n - 1) as nat)
    }
}

/// The number `mantissa / 10^scale`.
pub open spec fn ratio(mantissa: int, scale: nat) -> real {
    mantissa as real / pow10(scale) as real
}

/// The magnitude of a number.
pub open spec fn magnitude(x: real) -> real {
    if x < 0real {
        -x
    } else {
        x
    }
}

/// The larger of two numbers.
pub open spec fn larger(x: real, y: real) -> real {
    if x < y {
        y
    } else {
        x
    }
}

/// Whether `mantissa / 10^scale` is a decimal that 96 bits and 28 places hold.
pub open spec fn representable(mantissa: int, scale: nat) -> bool {
    -MAX_MANTISSA <= mantissa <= MAX_MANTISSA && scale <= MAX_SCALE
}

pub proof fn lemma_pow10_positive(n: nat)
    ensures
        pow10(n) > 0,
    decreases n,
{
    if n > 0 {
        lemma_pow10_positive((n - 1) as nat);
    }
}

pub proof fn lemma_pow10_sum(a: nat, b: nat)
    ensures
        pow10(a + b) == pow10(a) * pow10(b),
    decreases a,
{
    if a > 0 {
        lemma_pow10_sum((a - 1) as nat, b);
        let x = pow10((a - 1) as nat);
        let y = pow10(b);
        assert(pow10(a + b) == 10 * pow10((a + b - 1) as nat));
        assert(10 * (x * y) == (10 * x) * y) by (nonlinear_arith);
    } else {
        assert(pow10(a) == 1);
        assert(pow10(a + b) == pow10(b));
    }
}

pub proof fn lemma_pow10_monotonic(a: nat, b: nat)
    requires
        a <= b,
    ensures
        pow10(a) <= pow10(b),
    decreases b,
{
    if a < b {
        lemma_pow10_monotonic(a, (b - 1) as nat);
        lemma_pow10_positive((b - 1) as nat);
    }
}

/// Scaling mantissa and power of ten together leaves the number unchanged.
pub proof fn lemma_ratio_rescaled(mantissa: int, scale: nat, k: nat)
    ensures
        ratio(mantissa * pow10(k), scale + k) == ratio(mantissa, scale),
{
    lemma_pow10_sum(scale, k);
    lemma_pow10_positive(scale);
    lemma_pow10_positive(k);
    let ps = pow10(scale);
    let pk = pow10(k);
    let x = mantissa as real;
    let p = ps as real;
    let q = pk as real;
    assert((mantissa * pk) as real == x * q) by (nonlinear_arith)
        requires
            x == mantissa as real,
            q == pk as real,
    ;
    assert((ps * pk) as real == p * q) by (nonlinear_arith)
        requires
            p == ps as real,
            q == pk as real,
    ;
    assert((x * q) / (p * q) == x / p) by (nonlinear_arith)
        requires
            p > 0real,
            q > 0real,
    ;
}

/// Mantissas at one scale add as the numbers do.
pub proof fn lemma_ratio_sum(x: int, y: int, scale: nat)
    ensures
        ratio(x + y, scale) == ratio(x, scale) + ratio(y, scale),
{
    lemma_pow10_positive(scale);
    let p = pow10(scale) as real;
    let a = x as real;
    let b = y as real;
    assert((x + y) as real == a + b);
    assert((a + b) / p == a / p + b / p) by (nonlinear_arith)
        requires
            p > 0real,
    ;
}

/// Mantissas multiply, and scales add, as the numbers multiply.
pub proof fn lemma_ratio_product(x: int, sx: nat, y: int, sy: nat)
    ensures
        ratio(x * y, sx + sy) == ratio(x, sx) * ratio(y, sy),
{
    lemma_pow10_positive(sx);
    lemma_pow10_positive(sy);
    lemma_pow10_sum(sx, sy);
    let i = pow10(sx);
    let j = pow10(sy);
    let p = i as real;
    let q = j as real;
    let a = x as real;
    let b = y as real;
    assert((x * y) as real == a * b) by (nonlinear_arith)
        requires
            a == x as real,
            b == y as real,
    ;
    assert((i * j) as real == p * q) by (nonlinear_arith)
        requires
            p == i as real,
            q == j as real,
    ;
    assert((a * b) / (p * q) == (a / p) * (b / q)) by (nonlinear_arith)
        requires
            p > 0real,
            q > 0real,
    ;
}

/// At one scale the numbers are ordered as their mantissas are.
pub proof fn lemma_ratio_order(x: int, y: int, scale: nat)
    ensures
        ratio(x, scale) < ratio(y, scale) <==> x < y,
        ratio(x, scale) == ratio(y, scale) <==> x == y,
{
    lemma_pow10_positive(scale);
    let p = pow10(scale) as real;
    let a = x as real;
    let b = y as real;
    assert((a / p < b / p <==> a < b) && (a / p == b / p <==> a == b)) by (nonlinear_arith)
        requires
            p > 0real,
    ;
}

/// A decimal number `mantissa / 10^scale`, with a mantissa of at most 96 bits
/// and a scale of at most 28. Its view is the number it stands for.
#[derive(Clone, Copy, Debug)]
pub struct Decimal {
    mantissa: i128,
    scale: u32,
}

impl View for Decimal {
    type V = real;

    open spec fn view(&self) -> real {
        ratio(self.mantissa() as int, self.scale() as nat)
    }
}

impl Decimal {
    /// Every decimal that exists at run time is valid.
    #[verifier::type_invariant]
    pub open spec fn in_range(self) -> bool {
        self.valid()
    }

    pub closed spec fn spec_mantissa(&self) -> i128 {
        self.mantissa
    }

    pub closed spec fn spec_scale(&self) -> u32 {
        self.scale
    }

    /// The decimal with the given parts.
    pub closed spec fn of(mantissa: i128, scale: u32) -> Decimal {
        Decimal { mantissa, scale }
    }

    /// Whether the parts are in range, as they are of every decimal that
    /// exists at run time.
    pub open spec fn valid(self) -> bool {
        representable(self.mantissa() as int, self.scale() as nat)
    }

    /// The number with its sign turned, at the same scale.
    pub open spec fn negated(self) -> Decimal {
        Decimal::of((-self.mantissa()) as i128, self.scale())
    }

    /// The magnitude of the number, at the same scale.
    pub open spec fn magnitude(self) -> Decimal {
        if self.mantissa() < 0 {
            self.negated()
        } else {
            self
        }
    }

    /// The larger of the two; `self` where they stand for one number.
    pub open spec fn larger(self, other: Decimal) -> Decimal {
        if self@ < other@ {
            other
        } else {
            self
        }
    }

    /// The signed mantissa.
    #[verifier::when_used_as_spec(spec_mantissa)]
    pub fn mantissa(&self) -> (m: i128)
        ensures
            m == self.mantissa(),
            representable(m as int, self.scale() as nat),
    {
        proof {
            use_type_invariant(self);
        }
        self.mantissa
    }

    /// The number of digits after the decimal point.
    #[verifier::when_used_as_spec(spec_scale)]
    pub fn scale(&self) -> (s: u32)
        ensures
            s == self.scale(),
            s <= MAX_SCALE,
    {
        proof {
            use_type_invariant(self);
        }
        self.scale
    }

    /// The decimal `mantissa / 10^scale`, where 96 bits and 28 places hold it.
    pub fn from_parts(mantissa: i128, scale: u32) -> (r: Option<Decimal>)
        ensures
            r == if representable(mantissa as int, scale as nat) {
                Some(Decimal::of(mantissa, scale))
            } else {
                None
            },
            r matches Some(d) ==> d.mantissa() == mantissa && d.scale() == scale,
    {
        if -MAX_MANTISSA <= mantissa && mantissa <= MAX_MANTISSA && scale <= MAX_SCALE {
            Some(Decimal { mantissa, scale })
        } else {
            None
        }
    }

    /// The decimal `num / 10^scale`.
    pub fn new(num: i64, scale: u32) -> (r: Decimal)
        requires
            scale <= MAX_SCALE,
        ensures
            r == Decimal::of(num as i128, scale),
            r.mantissa() == num,
            r.scale() == scale,
    {
        Decimal { mantissa: num as i128, scale }
    }

    /// Zero.
    pub fn zero() -> (r: Decimal)
        ensures
            r == Decimal::of(0, 0),
            r.mantissa() == 0,
            r.scale() == 0,
            r@ == 0real,
    {
        proof {
            lemma_ratio_whole(0);
        }
        Decimal { mantissa: 0, scale: 0 }
    }

    /// One.
    pub fn one() -> (r: Decimal)
        ensures
            r == Decimal::of(1, 0),
            r.mantissa() == 1,
            r.scale() == 0,
            r@ == 1real,
    {
        proof {
            lemma_ratio_whole(1);
        }
        Decimal { mantissa: 1, scale: 0 }
    }

    /// The whole number `n`.
    pub fn from_isize(n: isize) -> (r: Decimal)
        ensures
            r == Decimal::of(n as i128, 0),
            r.mantissa() == n,
            r.scale() == 0,
            r@ == n as real,
    {
        proof {
            lemma_ratio_whole(n as int);
        }
        Decimal { mantissa: n as i128, scale: 0 }
    }

    /// The whole number `n`.
    pub fn from_i32(n: i32) -> (r: Decimal)
        ensures
            r == Decimal::of(n as i128, 0),
            r.mantissa() == n,
            r.scale() == 0,
            r@ == n as real,
    {
        proof {
            lemma_ratio_whole(n as int);
        }
        Decimal { mantissa: n as i128, scale: 0 }
    }

    /// Whether the number is zero.
    pub fn is_zero(&self) -> (b: bool)
        ensures
            b == (self.mantissa() == 0),
            b == (self@ == 0real),
    {
        proof {
            self.lemma_sign();
        }
        self.mantissa == 0
    }

    /// Whether the number is zero or above.
    pub fn is_sign_positive(&self) -> (b: bool)
        ensures
            b == (self.mantissa() >= 0),
            b == (self@ >= 0real),
    {
        proof {
            self.lemma_sign();
        }
        self.mantissa >= 0
    }

    /// Whether the number is below zero.
    pub fn is_sign_negative(&self) -> (b: bool)
        ensures
            b == (self.mantissa() < 0),
            b == (self@ < 0real),
    {
        proof {
            self.lemma_sign();
        }
        self.mantissa < 0
    }

    /// The magnitude of the number, at the same scale.
    pub fn abs(&self) -> (r: Decimal)
        ensures
            r == self.magnitude(),
            r.scale() == self.scale(),
            r@ == magnitude(self@),
    {
        proof {
            use_type_invariant(self);
            self.lemma_sign();
            lemma_ratio_negated(self.mantissa as int, self.scale as nat);
        }
        if self.mantissa < 0 {
            Decimal { mantissa: -self.mantissa, scale: self.scale }
        } else {
            *self
        }
    }

    /// The number with its sign turned, at the same scale.
    pub fn neg(&self) -> (r: Decimal)
        ensures
            r == self.negated(),
            r.mantissa() == -self.mantissa(),
            r.scale() == self.scale(),
            r@ == -self@,
    {
        proof {
            use_type_invariant(self);
            lemma_ratio_negated(self.mantissa as int, self.scale as nat);
        }
        Decimal { mantissa: -self.mantissa, scale: self.scale }
    }

    /// Whether the two numbers lie on opposite sides of zero.
    pub fn opposes(&self, other: &Decimal) -> (b: bool)
        ensures
            b == (self@ * other@ < 0real),
            b == ((self@ < 0real && other@ > 0real) || (self@ > 0real && other@ < 0real)),
    {
        proof {
            self.lemma_sign();
            other.lemma_sign();
            let x = self@;
            let y = other@;
            assert((x * y < 0real) == ((x < 0real && y > 0real) || (x > 0real && y < 0real)))
                by (nonlinear_arith);
        }
        (self.mantissa < 0 && other.mantissa > 0) || (self.mantissa > 0 && other.mantissa < 0)
    }

    /// The number has the sign of its mantissa.
    pub proof fn lemma_sign(self)
        ensures
            self@ == 0real <==> self.mantissa() == 0,
            self@ < 0real <==> self.mantissa() < 0,
            self@ > 0real <==> self.mantissa() > 0,
    {
        lemma_ratio_order(self.mantissa() as int, 0, self.scale() as nat);
        lemma_ratio_order(0, self.mantissa() as int, self.scale() as nat);
        lemma_ratio_zero(self.scale() as nat);
    }
}

/// Zero at any scale is zero.
pub proof fn lemma_ratio_zero(scale: nat)
    ensures
        ratio(0, scale) == 0real,
{
    lemma_pow10_positive(scale);
    let p = pow10(scale) as real;
    assert(0real / p == 0real) by (nonlinear_arith)
        requires
            p > 0real,
    ;
}

/// At scale zero the number is its mantissa.
pub proof fn lemma_ratio_whole(mantissa: int)
    ensures
        ratio(mantissa, 0) == mantissa as real,
{
    assert(pow10(0) == 1);
    let a = mantissa as real;
    assert(a / 1real == a) by (nonlinear_arith);
}

/// Turning the mantissa's sign turns the number's.
pub proof fn lemma_ratio_negated(mantissa: int, scale: nat)
    ensures
        ratio(-mantissa, scale) == -ratio(mantissa, scale),
{
    lemma_pow10_positive(scale);
    let p = pow10(scale) as real;
    let a = mantissa as real;
    assert((-mantissa) as real == -a);
    assert((-a) / p == -(a / p)) by (nonlinear_arith)
        requires
            p > 0real,
    ;
}

/// What `rust_decimal` returns for the sum of `am / 10^asc` and `bm / 10^bsc`,
/// as mantissa and scale; `None` where it reports an overflow.
pub uninterp spec fn decimal_sum(am: i128, asc: u32, bm: i128, bsc: u32) -> Option<(i128, u32)>;

/// What `rust_decimal` returns for `am / 10^asc` less `bm / 10^bsc`.
pub uninterp spec fn decimal_difference(am: i128, asc: u32, bm: i128, bsc: u32) -> Option<
    (i128, u32),
>;

/// What `rust_decimal` returns for the product of `am / 10^asc` and `bm / 10^bsc`.
pub uninterp spec fn decimal_product(am: i128, asc: u32, bm: i128, bsc: u32) -> Option<
    (i128, u32),
>;

/// Calls `rust_decimal::Decimal::checked_add` on the two decimals built from
/// the given parts and takes the result apart again. Nothing is claimed of the
/// result but that it is a function of the four numbers: the crate rounds where
/// a sum needs more than 96 bits, so callers confirm what comes back.
#[verifier::external_body]
fn outside_sum(am: i128, asc: u32, bm: i128, bsc: u32) -> (r: Option<(i128, u32)>)
    requires
        representable(am as int, asc as nat),
        representable(bm as int, bsc as nat),
    ensures
        r == decimal_sum(am, asc, bm, bsc),
{
    let a = rust_decimal::Decimal::from_i128_with_scale(am, asc);
    let b = rust_decimal::Decimal::from_i128_with_scale(bm, bsc);
    match a.checked_add(b) {
        Some(d) => Some((d.mantissa(), d.scale())),
        None => None,
    }
}

/// Calls `rust_decimal::Decimal::checked_sub` in the same way; again only the
/// result's dependence on the four numbers is claimed.
#[verifier::external_body]
fn outside_difference(am: i128, asc: u32, bm: i128, bsc: u32) -> (r: Option<(i128, u32)>)
    requires
        representable(am as int, asc as nat),
        representable(bm as int, bsc as nat),
    ensures
        r == decimal_difference(am, asc, bm, bsc),
{
    let a = rust_decimal::Decimal::from_i128_with_scale(am, asc);
    let b = rust_decimal::Decimal::from_i128_with_scale(bm, bsc);
    match a.checked_sub(b) {
        Some(d) => Some((d.mantissa(), d.scale())),
        None => None,
    }
}

/// Calls `rust_decimal::Decimal::checked_mul` in the same way; the crate rounds
/// a product that needs more than 96 bits or 28 places, so again only the
/// result's dependence on the four numbers is claimed.
#[verifier::external_body]
fn outside_product(am: i128, asc: u32, bm: i128, bsc: u32) -> (r: Option<(i128, u32)>)
    requires
        representable(am as int, asc as nat),
        representable(bm as int, bsc as nat),
    ensures
        r == decimal_product(am, asc, bm, bsc),
{
    let a = rust_decimal::Decimal::from_i128_with_scale(am, asc);
    let b = rust_decimal::Decimal::from_i128_with_scale(bm, bsc);
    match a.checked_mul(b) {
        Some(d) => Some((d.mantissa(), d.scale())),
        None => None,
    }
}

/// Compares the two decimals built from the given parts with `<`, which
/// `rust_decimal` defines by the numbers they stand for, whatever their scales.
#[verifier::external_body]
fn outside_less(am: i128, asc: u32, bm: i128, bsc: u32) -> (r: bool)
    requires
        representable(am as int, asc as nat),
        representable(bm as int, bsc as nat),
    ensures
        r == (ratio(am as int, asc as nat) < ratio(bm as int, bsc as nat)),
{
    let a = rust_decimal::Decimal::from_i128_with_scale(am, asc);
    let b = rust_decimal::Decimal::from_i128_with_scale(bm, bsc);
    a < b
}

/// Whether `xm / 10^xs + ym / 10^ys == zm / 10^zs`.
pub open spec fn is_sum(xm: int, xs: nat, ym: int, ys: nat, zm: int, zs: nat) -> bool {
    ratio(xm, xs) + ratio(ym, ys) == ratio(zm, zs)
}

/// Whether `(xm / 10^xs) * (ym / 10^ys) == zm / 10^zs`.
pub open spec fn is_product(xm: int, xs: nat, ym: int, ys: nat, zm: int, zs: nat) -> bool {
    ratio(xm, xs) * ratio(ym, ys) == ratio(zm, zs)
}

/// A sum of decimals is an equation between their mantissas, brought to a
/// scale `t` that none of the three exceeds.
pub proof fn lemma_sum_aligned(xm: int, xs: nat, ym: int, ys: nat, zm: int, zs: nat, t: nat)
    requires
        xs <= t,
        ys <= t,
        zs <= t,
    ensures
        is_sum(xm, xs, ym, ys, zm, zs) <==> xm * pow10((t - xs) as nat) + ym * pow10(
            (t - ys) as nat,
        ) == zm * pow10((t - zs) as nat),
{
    let x = xm * pow10((t - xs) as nat);
    let y = ym * pow10((t - ys) as nat);
    let z = zm * pow10((t - zs) as nat);
    lemma_ratio_rescaled(xm, xs, (t - xs) as nat);
    lemma_ratio_rescaled(ym, ys, (t - ys) as nat);
    lemma_ratio_rescaled(zm, zs, (t - zs) as nat);
    lemma_ratio_sum(x, y, t);
    lemma_ratio_order(x + y, z, t);
}

/// A product of decimals is an equation between the product of the factors'
/// mantissas and the result's mantissa, brought to a scale `t` that neither
/// the sum of the factors' scales nor the result's scale exceeds.
pub proof fn lemma_product_aligned(xm: int, xs: nat, ym: int, ys: nat, zm: int, zs: nat, t: nat)
    requires
        xs + ys <= t,
        zs <= t,
    ensures
        is_product(xm, xs, ym, ys, zm, zs) <==> (xm * ym) * pow10((t - (xs + ys)) as nat) == zm
            * pow10((t - zs) as nat),
{
    let p = xm * ym;
    let x = p * pow10((t - (xs + ys)) as nat);
    let z = zm * pow10((t - zs) as nat);
    lemma_ratio_product(xm, xs, ym, ys);
    lemma_ratio_rescaled(p, xs + ys, (t - (xs + ys)) as nat);
    lemma_ratio_rescaled(zm, zs, (t - zs) as nat);
    lemma_ratio_order(x, z, t);
}

/// The magnitude of a mantissa.
fn magnitude_of(m: i128) -> (r: u128)
    requires
        -MAX_MANTISSA <= m <= MAX_MANTISSA,
    ensures
        r == if m < 0 {
            -m
        } else {
            m as int
        },
        r <= MAX_MANTISSA,
{
    if m < 0 {
        (-m) as u128
    } else {
        m as u128
    }
}

/// `m * 10^k` as a wide number, for a mantissa and a difference of scales.
fn aligned(m: i128, k: u32) -> (w: Wide)
    requires
        -MAX_MANTISSA <= m <= MAX_MANTISSA,
        k <= MAX_SCALE,
    ensures
        w.proper(),
        w.high <= MAX_MANTISSA,
        w.value() == if m < 0 {
            -(m * pow10(k as nat))
        } else {
            m * pow10(k as nat)
        },
{
    let size = magnitude_of(m);
    let scaled = scaled(size, k);
    proof {
        let p = pow10(k as nat);
        lemma_base();
        lemma_pow10_monotonic(k as nat, 38);
        lemma_pow10_positive(k as nat);
        assert((-m) * p == -(m * p)) by (nonlinear_arith);
        let w = scaled->Some_0;
        assert(size * p <= size * BASE) by (nonlinear_arith)
            requires
                0 < p <= BASE,
                size >= 0,
        ;
        assert(w.high <= size) by (nonlinear_arith)
            requires
                w.high * BASE + w.low <= size * BASE,
                w.low >= 0,
                BASE > 0,
        ;
    }
    scaled.unwrap()
}

/// The sum of three wide numbers whose high digits are mantissas.
fn sum_of_three(a: Wide, b: Wide, c: Wide) -> (w: Wide)
    requires
        a.proper() && a.high <= MAX_MANTISSA,
        b.proper() && b.high <= MAX_MANTISSA,
        c.proper() && c.high <= MAX_MANTISSA,
    ensures
        w.proper(),
        w.value() == a.value() + b.value() + c.value(),
{
    let low = a.low + b.low + c.low;
    Wide { high: a.high + b.high + c.high + low / BASE, low: low % BASE }
}

/// Decides [`is_sum`] for three decimals given by their parts.
pub fn sum_holds(xm: i128, xs: u32, ym: i128, ys: u32, zm: i128, zs: u32) -> (ok: bool)
    requires
        representable(xm as int, xs as nat),
        representable(ym as int, ys as nat),
        representable(zm as int, zs as nat),
    ensures
        ok == is_sum(xm as int, xs as nat, ym as int, ys as nat, zm as int, zs as nat),
{
    let t0: u32 = if xs >= ys {
        xs
    } else {
        ys
    };
    let t: u32 = if t0 >= zs {
        t0
    } else {
        zs
    };
    proof {
        lemma_sum_aligned(
            xm as int,
            xs as nat,
            ym as int,
            ys as nat,
            zm as int,
            zs as nat,
            t as nat,
        );
    }
    let x = aligned(xm, t - xs);
    let y = aligned(ym, t - ys);
    let z = aligned(zm, t - zs);
    let none = Wide { high: 0, low: 0 };
    let left = sum_of_three(
        if xm < 0 {
            none
        } else {
            x
        },
        if ym < 0 {
            none
        } else {
            y
        },
        if zm < 0 {
            z
        } else {
            none
        },
    );
    let right = sum_of_three(
        if xm < 0 {
            x
        } else {
            none
        },
        if ym < 0 {
            y
        } else {
            none
        },
        if zm < 0 {
            none
        } else {
            z
        },
    );
    left.same(&right)
}

/// Decides [`is_product`] for three decimals given by their parts.
pub fn product_holds(xm: i128, xs: u32, ym: i128, ys: u32, zm: i128, zs: u32) -> (ok: bool)
    requires
        representable(xm as int, xs as nat),
        representable(ym as int, ys as nat),
        representable(zm as int, zs as nat),
    ensures
        ok == is_product(xm as int, xs as nat, ym as int, ys as nat, zm as int, zs as nat),
{
    let sp: u32 = xs + ys;
    let t: u32 = if sp >= zs {
        sp
    } else {
        zs
    };
    let x = magnitude_of(xm);
    let y = magnitude_of(ym);
    let z = magnitude_of(zm);
    let p = product(x, y);
    let ghost qa = pow10((t - sp) as nat);
    let ghost qc = pow10((t - zs) as nat);
    let ghost left_size = (x * y) * qa;
    let ghost right_size = z * qc;
    proof {
        lemma_product_aligned(
            xm as int,
            xs as nat,
            ym as int,
            ys as nat,
            zm as int,
            zs as nat,
            t as nat,
        );
        lemma_base();
        lemma_pow10_positive((t - sp) as nat);
        lemma_pow10_positive((t - zs) as nat);
        lemma_product_size(xm as int, ym as int, qa);
        lemma_size(zm as int, qc);
        assert(pow10(0) == 1);
    }
    let same_size = if t == sp {
        assert(left_size == p.value()) by (nonlinear_arith)
            requires
                left_size == (x * y) * qa,
                p.value() == x * y,
                qa == 1,
        ;
        match scaled(z, t - zs) {
            Some(w) => p.same(&w),
            None => false,
        }
    } else {
        assert(right_size == z) by (nonlinear_arith)
            requires
                right_size == z * qc,
                qc == 1,
        ;
        if p.high != 0 {
            proof {
                let v = p.value();
                assert(v * qa >= v) by (nonlinear_arith)
                    requires
                        v >= 0,
                        qa >= 1,
                ;
            }
            false
        } else {
            match scaled(p.low, t - sp) {
                Some(w) => w.same(&Wide { high: 0, low: z }),
                None => false,
            }
        }
    };
    assert(same_size == (left_size == right_size));
    let left_negative = (xm < 0) != (ym < 0);
    let right_negative = zm < 0;
    same_size && (z == 0 || left_negative == right_negative)
}

/// The magnitude and the sign of `a * q`, for a positive `q`.
proof fn lemma_size(a: int, q: int)
    requires
        q > 0,
    ensures
        ({
            let size = (if a < 0 {
                -a
            } else {
                a
            }) * q;
            &&& size >= 0
            &&& (size == 0 <==> a == 0)
            &&& a * q == if a < 0 {
                -size
            } else {
                size
            }
        }),
{
    assert((-a) * q == -(a * q)) by (nonlinear_arith);
    assert(a > 0 ==> a * q > 0) by (nonlinear_arith)
        requires
            q > 0,
    ;
    assert(a < 0 ==> a * q < 0) by (nonlinear_arith)
        requires
            q > 0,
    ;
    assert(a == 0 ==> a * q == 0) by (nonlinear_arith);
}

/// The magnitude and the sign of `(a * b) * q`, for a positive `q`.
proof fn lemma_product_size(a: int, b: int, q: int)
    requires
        q > 0,
    ensures
        ({
            let size = ((if a < 0 {
                -a
            } else {
                a
            }) * (if b < 0 {
                -b
            } else {
                b
            })) * q;
            &&& size >= 0
            &&& (size == 0 <==> (a == 0 || b == 0))
            &&& (a * b) * q == if (a < 0) != (b < 0) {
                -size
            } else {
                size
            }
        }),
{
    let x = if a < 0 {
        -a
    } else {
        a
    };
    let y = if b < 0 {
        -b
    } else {
        b
    };
    assert((-a) * b == -(a * b) && a * (-b) == -(a * b) && (-a) * (-b) == a * b)
        by (nonlinear_arith);
    assert(x * y >= 0 && (x * y == 0 <==> (x == 0 || y == 0))) by (nonlinear_arith)
        requires
            x >= 0,
            y >= 0,
    ;
    lemma_size(x * y, q);
    lemma_size(a * b, q);
}

impl Decimal {
    /// The parts of a decimal made of parts are those parts.
    pub proof fn lemma_of(mantissa: i128, scale: u32)
        ensures
            Decimal::of(mantissa, scale).mantissa() == mantissa,
            Decimal::of(mantissa, scale).scale() == scale,
    {
    }

    /// A decimal made of the parts of a decimal is that decimal: nothing is
    /// lost where a decimal travels as its mantissa and its scale.
    pub proof fn lemma_parts(self)
        ensures
            Decimal::of(self.mantissa(), self.scale()) == self,
    {
    }

    /// What is made of a result `raw` that came back for `self + other`: the
    /// decimal with those parts where they are in range and stand for the
    /// sum of the two numbers, and nothing otherwise.
    pub open spec fn confirmed_sum(self, other: Decimal, raw: Option<(i128, u32)>) -> Option<
        Decimal,
    > {
        match raw {
            Some((m, s)) => if representable(m as int, s as nat) && ratio(m as int, s as nat)
                == self@ + other@ {
                Some(Decimal::of(m, s))
            } else {
                None
            },
            None => None,
        }
    }

    /// What is made of a result `raw` that came back for `self - other`: the
    /// decimal with those parts where they are in range and stand for the
    /// difference of the two numbers, and nothing otherwise.
    pub open spec fn confirmed_difference(
        self,
        other: Decimal,
        raw: Option<(i128, u32)>,
    ) -> Option<Decimal> {
        match raw {
            Some((m, s)) => if representable(m as int, s as nat) && ratio(m as int, s as nat)
                == self@ - other@ {
                Some(Decimal::of(m, s))
            } else {
                None
            },
            None => None,
        }
    }

    /// What is made of a result `raw` that came back for `self * other`: the
    /// decimal with those parts where they are in range and stand for the
    /// product of the two numbers, and nothing otherwise.
    pub open spec fn confirmed_product(
        self,
        other: Decimal,
        raw: Option<(i128, u32)>,
    ) -> Option<Decimal> {
        match raw {
            Some((m, s)) => if representable(m as int, s as nat) && ratio(m as int, s as nat)
                == self@ * other@ {
                Some(Decimal::of(m, s))
            } else {
                None
            },
            None => None,
        }
    }

    /// The result of [`Decimal::checked_add`].
    pub open spec fn sum(self, other: Decimal) -> Option<Decimal> {
        self.confirmed_sum(
            other,
            decimal_sum(self.mantissa(), self.scale(), other.mantissa(), other.scale()),
        )
    }

    /// The result of [`Decimal::checked_sub`].
    pub open spec fn difference(self, other: Decimal) -> Option<Decimal> {
        self.confirmed_difference(
            other,
            decimal_difference(self.mantissa(), self.scale(), other.mantissa(), other.scale()),
        )
    }

    /// The result of [`Decimal::checked_mul`].
    pub open spec fn product(self, other: Decimal) -> Option<Decimal> {
        self.confirmed_product(
            other,
            decimal_product(self.mantissa(), self.scale(), other.mantissa(), other.scale()),
        )
    }

    /// A sum that is returned is the sum of the numbers.
    pub proof fn lemma_sum_exact(self, other: Decimal)
        ensures
            self.sum(other) matches Some(d) ==> d.valid() && d@ == self@ + other@,
    {
    }

    /// A difference that is returned is the difference of the numbers.
    pub proof fn lemma_difference_exact(self, other: Decimal)
        ensures
            self.difference(other) matches Some(d) ==> d.valid() && d@ == self@ - other@,
    {
    }

    /// A product that is returned is the product of the numbers.
    pub proof fn lemma_product_exact(self, other: Decimal)
        ensures
            self.product(other) matches Some(d) ==> d.valid() && d@ == self@ * other@,
    {
    }

    /// The number of the negated decimal and of the magnitude.
    pub proof fn lemma_negated(self)
        requires
            self.valid(),
        ensures
            self.negated().valid(),
            self.magnitude().valid(),
            self.negated()@ == -self@,
            self.magnitude()@ == magnitude(self@),
    {
        lemma_ratio_negated(self.mantissa() as int, self.scale() as nat);
        self.lemma_sign();
    }

    /// Accepts `raw` as the sum of `self` and `other` only where it is exactly
    /// that.
    pub fn confirm_sum(self, other: Decimal, raw: Option<(i128, u32)>) -> (r: Option<Decimal>)
        ensures
            r == self.confirmed_sum(other, raw),
            r matches Some(d) ==> d@ == self@ + other@,
    {
        proof {
            use_type_invariant(self);
            use_type_invariant(other);
        }
        match raw {
            Some((m, s)) => {
                if -MAX_MANTISSA <= m && m <= MAX_MANTISSA && s <= MAX_SCALE && sum_holds(
                    self.mantissa,
                    self.scale,
                    other.mantissa,
                    other.scale,
                    m,
                    s,
                ) {
                    Some(Decimal { mantissa: m, scale: s })
                } else {
                    None
                }
            },
            None => None,
        }
    }

    /// Accepts `raw` as `self` less `other` only where it is exactly that.
    pub fn confirm_difference(self, other: Decimal, raw: Option<(i128, u32)>) -> (r: Option<
        Decimal,
    >)
        ensures
            r == self.confirmed_difference(other, raw),
            r matches Some(d) ==> d@ == self@ - other@,
    {
        proof {
            use_type_invariant(self);
            use_type_invariant(other);
        }
        match raw {
            Some((m, s)) => {
                if -MAX_MANTISSA <= m && m <= MAX_MANTISSA && s <= MAX_SCALE && sum_holds(
                    m,
                    s,
                    other.mantissa,
                    other.scale,
                    self.mantissa,
                    self.scale,
                ) {
                    Some(Decimal { mantissa: m, scale: s })
                } else {
                    None
                }
            },
            None => None,
        }
    }

    /// Accepts `raw` as the product of `self` and `other` only where it is
    /// exactly that.
    pub fn confirm_product(self, other: Decimal, raw: Option<(i128, u32)>) -> (r: Option<Decimal>)
        ensures
            r == self.confirmed_product(other, raw),
            r matches Some(d) ==> d@ == self@ * other@,
    {
        proof {
            use_type_invariant(self);
            use_type_invariant(other);
        }
        match raw {
            Some((m, s)) => {
                if -MAX_MANTISSA <= m && m <= MAX_MANTISSA && s <= MAX_SCALE && product_holds(
                    self.mantissa,
                    self.scale,
                    other.mantissa,
                    other.scale,
                    m,
                    s,
                ) {
                    Some(Decimal { mantissa: m, scale: s })
                } else {
                    None
                }
            },
            None => None,
        }
    }

    /// The exact sum, or `None` where no exact sum came back.
    pub fn checked_add(self, other: Decimal) -> (r: Option<Decimal>)
        ensures
            r == self.sum(other),
            r matches Some(d) ==> d@ == self@ + other@,
    {
        proof {
            use_type_invariant(self);
            use_type_invariant(other);
        }
        let raw = outside_sum(self.mantissa, self.scale, other.mantissa, other.scale);
        self.confirm_sum(other, raw)
    }

    /// The exact difference, or `None` where no exact difference came back.
    pub fn checked_sub(self, other: Decimal) -> (r: Option<Decimal>)
        ensures
            r == self.difference(other),
            r matches Some(d) ==> d@ == self@ - other@,
    {
        proof {
            use_type_invariant(self);
            use_type_invariant(other);
        }
        let raw = outside_difference(self.mantissa, self.scale, other.mantissa, other.scale);
        self.confirm_difference(other, raw)
    }

    /// The exact product, or `None` where no exact product came back.
    pub fn checked_mul(self, other: Decimal) -> (r: Option<Decimal>)
        ensures
            r == self.product(other),
            r matches Some(d) ==> d@ == self@ * other@,
    {
        proof {
            use_type_invariant(self);
            use_type_invariant(other);
        }
        let raw = outside_product(self.mantissa, self.scale, other.mantissa, other.scale);
        self.confirm_product(other, raw)
    }

    /// Whether `self` is the smaller number.
    pub fn less_than(&self, other: &Decimal) -> (b: bool)
        ensures
            b == (self@ < other@),
    {
        proof {
            use_type_invariant(self);
            use_type_invariant(other);
        }
        outside_less(self.mantissa, self.scale, other.mantissa, other.scale)
    }

    /// Whether `self` is the larger number.
    pub fn greater_than(&self, other: &Decimal) -> (b: bool)
        ensures
            b == (self@ > other@),
    {
        other.less_than(self)
    }

    /// Whether `self` is the larger number or the same.
    pub fn at_least(&self, other: &Decimal) -> (b: bool)
        ensures
            b == (self@ >= other@),
    {
        !self.less_than(other)
    }

    /// Whether the two stand for one number, whatever their scales.
    pub fn same_number(&self, other: &Decimal) -> (b: bool)
        ensures
            b == (self@ == other@),
    {
        !self.less_than(other) && !other.less_than(self)
    }

    /// The larger of the two; `self` where they stand for one number.
    pub fn max(self, other: Decimal) -> (r: Decimal)
        ensures
            r == self.larger(other),
    {
        if self.less_than(&other) {
            other
        } else {
            self
        }
    }
}

/// `==` between decimals compares the numbers: `1.0 == 1.00`.
impl PartialEq for Decimal {
    fn eq(&self, other: &Decimal) -> (b: bool) {
        self.same_number(other)
    }
}

impl vstd::std_specs::cmp::PartialEqSpecImpl for Decimal {
    open spec fn obeys_eq_spec() -> bool {
        true
    }

    open spec fn eq_spec(&self, other: &Decimal) -> bool {
        self@ == other@
    }
}

} // verus!

//! The account as numbers: cash, positions, and the exposure, margin and
//! buying-power figures that follow from them. But for the names of the
//! figures nothing here runs: these are the real numbers that the stored
//! account stands for, the rules stated over them, and the laws that follow.

use crate::decimal::{larger, magnitude};
use vstd::prelude::*;

verus! {

/// The share of a position's value held back when it is opened.
pub open spec fn initial_margin_rate() -> real {
    1real / 2real
}

/// The reduced maintenance rate, for positions priced at or above the
/// threshold of their side.
pub open spec fn reduced_maintenance_rate() -> real {
    3real / 10real
}

/// The price from which a long position is held at the reduced rate.
pub open spec fn long_price_threshold() -> real {
    5real / 2real
}

/// The price from which a short position is held at the reduced rate.
pub open spec fn short_price_threshold() -> real {
    5real
}

/// The equity below which a pattern day trader has no leverage.
pub open spec fn minimum_equity() -> real {
    2000real
}

/// The equity at which the leverage tier changes.
pub open spec fn day_trading_equity() -> real {
    25000real
}

/// A figure that is summed over the positions.
#[derive(Clone, Copy, Debug)]
pub enum Measure {
    /// Value of the long positions.
    Long,
    /// Value of the short positions, as a positive number.
    Short,
    /// Value of all positions, each taken as positive.
    Gross,
    /// Value of all positions, shorts counted negative.
    Net,
    /// Margin to open the positions.
    InitialMargin,
    /// Margin to keep the positions.
    MaintenanceMargin,
}

/// One position: shares of a ticker, negative when short, and its latest
/// price.
pub struct Holding {
    pub ticker: Seq<char>,
    pub shares: real,
    pub price: real,
}

impl Holding {
    /// The maintenance rate of this position: reduced from the threshold of
    /// its side upward, full below it.
    pub open spec fn maintenance_rate(self) -> real {
        if self.shares >= 0real {
            if self.price >= long_price_threshold() {
                reduced_maintenance_rate()
            } else {
                1real
            }
        } else if self.price >= short_price_threshold() {
            reduced_maintenance_rate()
        } else {
            1real
        }
    }

    /// What this position adds to the figure `kind`.
    pub open spec fn amount(self, kind: Measure) -> real {
        match kind {
            Measure::Long => if self.shares > 0real {
                self.shares * self.price
            } else {
                0real
            },
            Measure::Short => if self.shares < 0real {
                (-self.shares) * self.price
            } else {
                0real
            },
            Measure::Gross => magnitude(self.shares) * self.price,
            Measure::Net => self.shares * self.price,
            Measure::InitialMargin => magnitude(self.shares) * self.price * initial_margin_rate(),
            Measure::MaintenanceMargin => magnitude(self.shares) * self.price
                * self.maintenance_rate(),
        }
    }
}

/// The figure `kind` summed over `positions`.
pub open spec fn total(positions: Seq<Holding>, kind: Measure) -> real
    decreases positions.len(),
{
    if positions.len() == 0 {
        0real
    } else {
        total(positions.drop_last(), kind) + positions.last().amount(kind)
    }
}

/// The outcome of an admission check.
pub enum Verdict {
    Granted,
    /// Denied: the trade would carry the position to the other side.
    ChangeInPositionSide,
    /// Denied: the trade needs more than the buying power, which is reported.
    InsufficientBuyingPower { buying_power: real },
}

/// The admission rule. `held` is the shares held of the trade's ticker, if
/// any; `qty` the signed quantity proposed; `required` what the trade needs
/// and `buying_power` what the account has.
///
/// A trade against a held position is granted up to the size of the position
/// and denied beyond it, whatever the buying power. Any other trade is granted
/// exactly where the buying power exceeds what it needs.
pub open spec fn admission(held: Option<real>, qty: int, required: real, buying_power: real)
    -> Verdict {
    if is_reducing(held, qty) {
        if magnitude(qty as real) > magnitude(held->Some_0) {
            Verdict::ChangeInPositionSide
        } else {
            Verdict::Granted
        }
    } else if buying_power > required {
        Verdict::Granted
    } else {
        Verdict::InsufficientBuyingPower { buying_power }
    }
}

/// Whether a trade of `qty` shares goes against the position held.
pub open spec fn is_reducing(held: Option<real>, qty: int) -> bool {
    match held {
        Some(shares) => (qty < 0 && shares > 0real) || (qty > 0 && shares < 0real),
        None => false,
    }
}

/// Whether one of `positions` is in `ticker`.
pub open spec fn has_position(positions: Seq<Holding>, ticker: Seq<char>) -> bool {
    exists|i: int| 0 <= i < positions.len() && positions[i].ticker == ticker
}

/// Where among `positions` the one in `ticker` stands, if there is one.
pub open spec fn position_of(positions: Seq<Holding>, ticker: Seq<char>) -> int {
    choose|i: int| 0 <= i < positions.len() && positions[i].ticker == ticker
}

/// The account: cash, one position per ticker, and the flags taken over from
/// the broker when the account was loaded.
pub struct Portfolio {
    pub cash: real,
    pub positions: Seq<Holding>,
    pub pattern_day_trader: bool,
    pub last_equity: real,
    pub last_maintenance_margin: real,
}

impl Portfolio {
    /// No ticker has two positions.
    pub open spec fn well_formed(self) -> bool {
        forall|i: int, j: int|
            0 <= i < j < self.positions.len() ==> self.positions[i].ticker
                != self.positions[j].ticker
    }

    /// Whether there is a position in `ticker`.
    pub open spec fn holds(self, ticker: Seq<char>) -> bool {
        has_position(self.positions, ticker)
    }

    /// Where the position in `ticker` stands, if there is one.
    pub open spec fn place(self, ticker: Seq<char>) -> int {
        position_of(self.positions, ticker)
    }

    /// The shares held of `ticker`; `None` where there is no position.
    pub open spec fn held(self, ticker: Seq<char>) -> Option<real> {
        if self.holds(ticker) {
            Some(self.positions[self.place(ticker)].shares)
        } else {
            None
        }
    }

    /// The account after a fill of `delta` shares of `ticker` at `price`:
    /// the shares are added to the position, or open one; the position's price
    /// becomes the fill price; cash pays for the shares at that price.
    pub open spec fn fill(self, ticker: Seq<char>, delta: real, price: real) -> Portfolio {
        let positions = if self.holds(ticker) {
            let i = self.place(ticker);
            self.positions.update(
                i,
                Holding { ticker, shares: self.positions[i].shares + delta, price },
            )
        } else {
            self.positions.push(Holding { ticker, shares: delta, price })
        };
        Portfolio { cash: self.cash - delta * price, positions, ..self }
    }

    /// The account after the price of `ticker` was refreshed: the position's
    /// price changes if there is one, and nothing else.
    pub open spec fn refresh(self, ticker: Seq<char>, price: real) -> Portfolio {
        if self.holds(ticker) {
            let i = self.place(ticker);
            Portfolio {
                positions: self.positions.update(i, Holding { price, ..self.positions[i] }),
                ..self
            }
        } else {
            self
        }
    }

    /// Value of the long positions: shares times price, summed.
    pub open spec fn long_exposure(self) -> real {
        total(self.positions, Measure::Long)
    }

    /// Value of the short positions, as a positive number.
    pub open spec fn short_exposure(self) -> real {
        total(self.positions, Measure::Short)
    }

    /// Value of all positions, each taken as positive.
    pub open spec fn gross_exposure(self) -> real {
        total(self.positions, Measure::Gross)
    }

    /// Value of all positions, shorts counted negative.
    pub open spec fn net_exposure(self) -> real {
        total(self.positions, Measure::Net)
    }

    /// Net exposure plus cash.
    pub open spec fn equity(self) -> real {
        self.net_exposure() + self.cash
    }

    /// Half the value of all positions.
    pub open spec fn initial_margin(self) -> real {
        total(self.positions, Measure::InitialMargin)
    }

    /// The value of each position at its maintenance rate, summed.
    pub open spec fn maintenance_margin(self) -> real {
        total(self.positions, Measure::MaintenanceMargin)
    }

    /// The leverage on the day-trading buying power. The tiers of a pattern
    /// day trader end below their bounds; the one tier of any other account
    /// starts above its bound.
    pub open spec fn multiplier(self) -> real {
        if self.pattern_day_trader {
            if self.equity() < minimum_equity() {
                1real
            } else if self.equity() < day_trading_equity() {
                2real
            } else {
                4real
            }
        } else if self.equity() > day_trading_equity() {
            2real
        } else {
            1real
        }
    }

    /// Twice the equity less the initial margin, and no less than zero.
    pub open spec fn regt_buying_power(self) -> real {
        larger((self.equity() - self.initial_margin()) * 2real, 0real)
    }

    /// The equity of the day before less its maintenance margin, times the
    /// leverage, less the gross exposure, and no less than zero.
    pub open spec fn daytrading_buying_power(self) -> real {
        larger(
            (self.last_equity - self.last_maintenance_margin) * self.multiplier()
                - self.gross_exposure(),
            0real,
        )
    }

    /// The larger of the two buying powers.
    pub open spec fn buying_power(self) -> real {
        larger(self.regt_buying_power(), self.daytrading_buying_power())
    }

    /// The verdict on a trade of `qty` shares of `ticker` that needs
    /// `required`.
    pub open spec fn verdict(self, ticker: Seq<char>, qty: int, required: real) -> Verdict {
        admission(self.held(ticker), qty, required, self.buying_power())
    }
}

/// A fill: `shares` of `ticker`, negative when sold, at `price`.
pub struct Fill {
    pub ticker: Seq<char>,
    pub shares: real,
    pub price: real,
}

impl Portfolio {
    /// The account after the fills of `fills`, in their order.
    pub open spec fn fill_all(self, fills: Seq<Fill>) -> Portfolio
        decreases fills.len(),
    {
        if fills.len() == 0 {
            self
        } else {
            let last = fills.last();
            self.fill_all(fills.drop_last()).fill(last.ticker, last.shares, last.price)
        }
    }
}

/// Whatever fills an account has seen, its equity is its net exposure plus its
/// cash.
pub proof fn lemma_equity_after_fills(start: Portfolio, fills: Seq<Fill>)
    ensures
        start.fill_all(fills).equity() == start.fill_all(fills).net_exposure() + start.fill_all(
            fills,
        ).cash,
{
}

/// A fill leaves one position per ticker.
pub proof fn lemma_fill_well_formed(before: Portfolio, ticker: Seq<char>, delta: real, price: real)
    requires
        before.well_formed(),
    ensures
        before.fill(ticker, delta, price).well_formed(),
{
    let after = before.fill(ticker, delta, price);
    if before.holds(ticker) {
        let k = before.place(ticker);
        assert forall|i: int, j: int| 0 <= i < j < after.positions.len() implies
            after.positions[i].ticker != after.positions[j].ticker by {
            assert(after.positions[i].ticker == before.positions[i].ticker);
            assert(after.positions[j].ticker == before.positions[j].ticker);
        }
    } else {
        assert forall|i: int, j: int| 0 <= i < j < after.positions.len() implies
            after.positions[i].ticker != after.positions[j].ticker by {
            if j < before.positions.len() {
                assert(after.positions[i].ticker == before.positions[i].ticker);
                assert(after.positions[j].ticker == before.positions[j].ticker);
            } else {
                assert(after.positions[i].ticker == before.positions[i].ticker);
                assert(after.positions[j].ticker == ticker);
            }
        }
    }
}

/// Every sequence of fills leaves one position per ticker.
pub proof fn lemma_fills_well_formed(start: Portfolio, fills: Seq<Fill>)
    requires
        start.well_formed(),
    ensures
        start.fill_all(fills).well_formed(),
    decreases fills.len(),
{
    if fills.len() > 0 {
        let last = fills.last();
        lemma_fills_well_formed(start, fills.drop_last());
        lemma_fill_well_formed(
            start.fill_all(fills.drop_last()),
            last.ticker,
            last.shares,
            last.price,
        );
    }
}

/// Each position counts toward the gross figure what it counts toward the long
/// and the short figure together.
pub proof fn lemma_gross_amount(h: Holding)
    ensures
        h.amount(Measure::Gross) == h.amount(Measure::Long) + h.amount(Measure::Short),
{
    let s = h.shares;
    let p = h.price;
    assert(s == 0real ==> s * p == 0real) by (nonlinear_arith);
}

/// Summed over any positions, the gross figure is the long and the short
/// figure together.
pub proof fn lemma_gross_total(positions: Seq<Holding>)
    ensures
        total(positions, Measure::Gross) == total(positions, Measure::Long) + total(
            positions,
            Measure::Short,
        ),
    decreases positions.len(),
{
    if positions.len() > 0 {
        lemma_gross_total(positions.drop_last());
        lemma_gross_amount(positions.last());
    }
}

/// The gross exposure of an account is its long and its short exposure
/// together.
pub proof fn lemma_gross_exposure(account: Portfolio)
    ensures
        account.gross_exposure() == account.long_exposure() + account.short_exposure(),
{
    lemma_gross_total(account.positions);
}

/// Each position counts toward the net figure what it counts toward the long
/// figure, less what it counts toward the short one.
pub proof fn lemma_net_total(positions: Seq<Holding>)
    ensures
        total(positions, Measure::Net) == total(positions, Measure::Long) - total(
            positions,
            Measure::Short,
        ),
    decreases positions.len(),
{
    if positions.len() > 0 {
        lemma_net_total(positions.drop_last());
        let s = positions.last().shares;
        let p = positions.last().price;
        assert(s == 0real ==> s * p == 0real) by (nonlinear_arith);
        assert((-s) * p == -(s * p)) by (nonlinear_arith);
    }
}

/// A trade that is granted stays granted when the buying power grows and what
/// the trade needs stays the same.
pub proof fn lemma_granting_monotonic(
    held: Option<real>,
    qty: int,
    required: real,
    buying_power: real,
    more_buying_power: real,
)
    requires
        admission(held, qty, required, buying_power) == Verdict::Granted,
        more_buying_power > buying_power,
    ensures
        admission(held, qty, required, more_buying_power) == Verdict::Granted,
{
}

/// A trade against a held position, no larger than the position, is granted
/// whatever the buying power.
pub proof fn lemma_reduction_granted(shares: real, qty: int, required: real, buying_power: real)
    requires
        is_reducing(Some(shares), qty),
        magnitude(qty as real) <= magnitude(shares),
    ensures
        admission(Some(shares), qty, required, buying_power) == Verdict::Granted,
{
}

/// A trade against a held position, larger than the position, is denied for
/// the change of side, whatever the buying power.
pub proof fn lemma_flip_denied(shares: real, qty: int, required: real, buying_power: real)
    requires
        is_reducing(Some(shares), qty),
        magnitude(qty as real) > magnitude(shares),
    ensures
        admission(Some(shares), qty, required, buying_power) == Verdict::ChangeInPositionSide,
{
}

/// Where no price is negative, the long, the short and the gross figure of any
/// positions are zero or more.
pub proof fn lemma_exposure_not_negative(positions: Seq<Holding>)
    requires
        forall|i: int| 0 <= i < positions.len() ==> (#[trigger] positions[i]).price >= 0real,
    ensures
        total(positions, Measure::Long) >= 0real,
        total(positions, Measure::Short) >= 0real,
        total(positions, Measure::Gross) >= 0real,
    decreases positions.len(),
{
    if positions.len() > 0 {
        let rest = positions.drop_last();
        assert forall|i: int| 0 <= i < rest.len() implies (#[trigger] rest[i]).price >= 0real by {
            assert(rest[i] == positions[i]);
        }
        lemma_exposure_not_negative(rest);
        let s = positions.last().shares;
        let p = positions.last().price;
        assert(s >= 0real && p >= 0real ==> s * p >= 0real) by (nonlinear_arith);
        assert(s <= 0real && p >= 0real ==> (-s) * p >= 0real) by (nonlinear_arith);
    }
}

/// No buying power is negative.
pub proof fn lemma_buying_power_not_negative(account: Portfolio)
    ensures
        account.regt_buying_power() >= 0real,
        account.daytrading_buying_power() >= 0real,
        account.buying_power() >= 0real,
{
}

/// Replacing one position changes a figure by what the new position adds
/// more than the old one.
pub proof fn lemma_total_replaced(positions: Seq<Holding>, i: int, h: Holding, kind: Measure)
    requires
        0 <= i < positions.len(),
    ensures
        total(positions.update(i, h), kind) == total(positions, kind) - positions[i].amount(kind)
            + h.amount(kind),
    decreases positions.len(),
{
    let after = positions.update(i, h);
    if i == positions.len() - 1 {
        assert(after.drop_last() =~= positions.drop_last());
    } else {
        assert(after.drop_last() =~= positions.drop_last().update(i, h));
        lemma_total_replaced(positions.drop_last(), i, h, kind);
    }
}

/// A fill changes the equity by what the position held before gains from the
/// change of its price to the fill price: the shares bought are paid for at
/// the price at which they are then valued. A fill in a ticker not held
/// before leaves the equity as it was.
pub proof fn lemma_fill_equity(before: Portfolio, ticker: Seq<char>, delta: real, price: real)
    ensures
        before.fill(ticker, delta, price).equity() == before.equity() + if before.holds(ticker) {
            let held = before.positions[before.place(ticker)];
            held.shares * (price - held.price)
        } else {
            0real
        },
{
    let after = before.fill(ticker, delta, price);
    if before.holds(ticker) {
        let i = before.place(ticker);
        let held = before.positions[i];
        lemma_total_replaced(
            before.positions,
            i,
            Holding { ticker, shares: held.shares + delta, price },
            Measure::Net,
        );
        let s = held.shares;
        let p = held.price;
        assert((s + delta) * price - s * p - delta * price == s * (price - p))
            by (nonlinear_arith);
    } else {
        assert(after.positions.drop_last() =~= before.positions);
    }
}

} // verus!

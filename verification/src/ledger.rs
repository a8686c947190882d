//! The account as it is stored: cash and positions as decimals, and the
//! figures as the decimal arithmetic yields them. Each figure is `None` where
//! a step of its computation has no exact decimal result, and otherwise stands
//! for the number that the account's [`Portfolio`] gives.

use crate::decimal::{lemma_ratio_whole, magnitude, pow10, Decimal};
use crate::portfolio::{
    day_trading_equity, has_position, initial_margin_rate, is_reducing, long_price_threshold,
    minimum_equity, position_of, reduced_maintenance_rate, short_price_threshold, total,
    Holding, Measure, Portfolio,
};
use crate::trade::{DenyReason, OrderType, RiskError};
use vstd::prelude::*;

verus! {

/// One stored position.
pub struct Entry {
    pub ticker: Seq<char>,
    pub shares: Decimal,
    pub price: Decimal,
}

impl Entry {
    /// The position as numbers.
    pub open spec fn value(self) -> Holding {
        Holding { ticker: self.ticker, shares: self.shares@, price: self.price@ }
    }

    /// Both decimals are in range.
    pub open spec fn valid(self) -> bool {
        self.shares.valid() && self.price.valid()
    }

    /// Whether the position takes part in the figure `kind`.
    pub open spec fn counts(self, kind: Measure) -> bool {
        match kind {
            Measure::Long => self.shares@ >= 0real,
            Measure::Short => self.shares@ < 0real,
            _ => true,
        }
    }

    /// The maintenance rate of the position, as a decimal.
    pub open spec fn maintenance_rate(self) -> Decimal {
        if self.value().maintenance_rate() == 1real {
            Decimal::of(1, 0)
        } else {
            Decimal::of(3, 1)
        }
    }

    /// What the position adds to the figure `kind`.
    pub open spec fn amount(self, kind: Measure) -> Option<Decimal> {
        match kind {
            Measure::Long => self.shares.product(self.price),
            Measure::Short => self.shares.negated().product(self.price),
            Measure::Gross => self.shares.magnitude().product(self.price),
            Measure::Net => self.shares.product(self.price),
            Measure::InitialMargin => match self.shares.magnitude().product(self.price) {
                Some(worth) => worth.product(Decimal::of(5, 1)),
                None => None,
            },
            Measure::MaintenanceMargin => match self.shares.magnitude().product(self.price) {
                Some(worth) => worth.product(self.maintenance_rate()),
                None => None,
            },
        }
    }

    /// The running sum `so_far` of the figure `kind` after this position.
    pub open spec fn tally(self, so_far: Decimal, kind: Measure) -> Option<Decimal> {
        if self.counts(kind) {
            match self.amount(kind) {
                Some(amount) => so_far.sum(amount),
                None => None,
            }
        } else {
            Some(so_far)
        }
    }
}

/// The positions as numbers.
pub open spec fn values(entries: Seq<Entry>) -> Seq<Holding> {
    entries.map_values(|e: Entry| e.value())
}

/// The figure `kind` summed over `entries` from the first to the last.
pub open spec fn tally_all(entries: Seq<Entry>, kind: Measure) -> Option<Decimal>
    decreases entries.len(),
{
    if entries.len() == 0 {
        Some(Decimal::of(0, 0))
    } else {
        match tally_all(entries.drop_last(), kind) {
            Some(so_far) => entries.last().tally(so_far, kind),
            None => None,
        }
    }
}

/// The reduced maintenance rate and the initial margin rate as decimals.
pub proof fn lemma_rates()
    ensures
        Decimal::of(3, 1)@ == reduced_maintenance_rate(),
        Decimal::of(5, 1)@ == initial_margin_rate(),
        Decimal::of(1, 0)@ == 1real,
        Decimal::of(0, 0)@ == 0real,
        Decimal::of(25, 1)@ == long_price_threshold(),
        Decimal::of(5, 0)@ == short_price_threshold(),
{
    Decimal::lemma_of(3, 1);
    Decimal::lemma_of(5, 1);
    Decimal::lemma_of(1, 0);
    Decimal::lemma_of(0, 0);
    Decimal::lemma_of(25, 1);
    Decimal::lemma_of(5, 0);
    lemma_ratio_whole(0);
    lemma_ratio_whole(1);
    lemma_ratio_whole(5);
    assert(pow10(0) == 1);
    assert(pow10(1) == 10) by {
        assert(pow10(1) == 10 * pow10(0));
    }
}

/// What a position adds to a figure stands for what it adds as a number.
pub proof fn lemma_amount(entry: Entry, kind: Measure)
    requires
        entry.valid(),
    ensures
        entry.counts(kind) ==> (entry.amount(kind) matches Some(d) ==> d@ == entry.value().amount(
            kind,
        )),
        !entry.counts(kind) ==> entry.value().amount(kind) == 0real,
{
    let s = entry.shares;
    let p = entry.price;
    lemma_rates();
    s.lemma_negated();
    s.lemma_sign();
    s.lemma_product_exact(p);
    s.negated().lemma_product_exact(p);
    s.magnitude().lemma_product_exact(p);
    assert(s@ == 0real ==> s@ * p@ == 0real) by (nonlinear_arith);
    if let Some(worth) = s.magnitude().product(p) {
        worth.lemma_product_exact(Decimal::of(5, 1));
        worth.lemma_product_exact(entry.maintenance_rate());
    }
}

/// A running sum after a position stands for the sum of the numbers.
pub proof fn lemma_tally(entry: Entry, so_far: Decimal, kind: Measure)
    requires
        entry.valid(),
    ensures
        entry.tally(so_far, kind) matches Some(d) ==> d@ == so_far@ + entry.value().amount(kind),
{
    lemma_amount(entry, kind);
    if entry.counts(kind) {
        if let Some(amount) = entry.amount(kind) {
            so_far.lemma_sum_exact(amount);
        }
    }
}

/// A figure summed over the positions stands for the sum of the numbers.
pub proof fn lemma_tally_all(entries: Seq<Entry>, kind: Measure)
    requires
        forall|i: int| 0 <= i < entries.len() ==> (#[trigger] entries[i]).valid(),
    ensures
        tally_all(entries, kind) matches Some(d) ==> d@ == total(values(entries), kind),
    decreases entries.len(),
{
    lemma_rates();
    if entries.len() > 0 {
        lemma_tally_all(entries.drop_last(), kind);
        assert(values(entries).drop_last() =~= values(entries.drop_last()));
        assert(values(entries).last() == entries.last().value());
        if let Some(so_far) = tally_all(entries.drop_last(), kind) {
            lemma_tally(entries.last(), so_far, kind);
        }
    }
}

/// The sum of two results, where both exist.
pub open spec fn sum_of(a: Option<Decimal>, b: Option<Decimal>) -> Option<Decimal> {
    match (a, b) {
        (Some(x), Some(y)) => x.sum(y),
        _ => None,
    }
}

/// The difference of two results, where both exist.
pub open spec fn difference_of(a: Option<Decimal>, b: Option<Decimal>) -> Option<Decimal> {
    match (a, b) {
        (Some(x), Some(y)) => x.difference(y),
        _ => None,
    }
}

/// The product of two results, where both exist.
pub open spec fn product_of(a: Option<Decimal>, b: Option<Decimal>) -> Option<Decimal> {
    match (a, b) {
        (Some(x), Some(y)) => x.product(y),
        _ => None,
    }
}

/// The larger of two results, where both exist.
pub open spec fn larger_of(a: Option<Decimal>, b: Option<Decimal>) -> Option<Decimal> {
    match (a, b) {
        (Some(x), Some(y)) => Some(x.larger(y)),
        _ => None,
    }
}

/// The leverage at an equity of `equity`, as a decimal.
pub open spec fn leverage(pattern_day_trader: bool, equity: Decimal) -> Decimal {
    if pattern_day_trader {
        if equity@ < minimum_equity() {
            Decimal::of(1, 0)
        } else if equity@ < day_trading_equity() {
            Decimal::of(2, 0)
        } else {
            Decimal::of(4, 0)
        }
    } else if equity@ > day_trading_equity() {
        Decimal::of(2, 0)
    } else {
        Decimal::of(1, 0)
    }
}

/// The stored account.
pub struct Ledger {
    pub cash: Decimal,
    pub entries: Seq<Entry>,
    pub pattern_day_trader: bool,
    pub last_equity: Decimal,
    pub last_maintenance_margin: Decimal,
}

impl Ledger {
    /// The account as numbers.
    pub open spec fn value(self) -> Portfolio {
        Portfolio {
            cash: self.cash@,
            positions: values(self.entries),
            pattern_day_trader: self.pattern_day_trader,
            last_equity: self.last_equity@,
            last_maintenance_margin: self.last_maintenance_margin@,
        }
    }

    /// Every decimal is in range, and no ticker has two positions.
    pub open spec fn valid(self) -> bool {
        &&& self.cash.valid()
        &&& self.last_equity.valid()
        &&& self.last_maintenance_margin.valid()
        &&& forall|i: int| 0 <= i < self.entries.len() ==> (#[trigger] self.entries[i]).valid()
        &&& forall|i: int, j: int|
            0 <= i < j < self.entries.len() ==> self.entries[i].ticker != self.entries[j].ticker
    }

    /// The figure `kind` summed over the positions.
    pub open spec fn figure(self, kind: Measure) -> Option<Decimal> {
        tally_all(self.entries, kind)
    }

    /// Net exposure plus cash.
    pub open spec fn equity(self) -> Option<Decimal> {
        sum_of(self.figure(Measure::Net), Some(self.cash))
    }

    /// The leverage at the account's equity.
    pub open spec fn multiplier(self) -> Option<Decimal> {
        match self.equity() {
            Some(equity) => Some(leverage(self.pattern_day_trader, equity)),
            None => None,
        }
    }

    /// Twice the equity less the initial margin, and no less than zero.
    pub open spec fn regt_buying_power(self) -> Option<Decimal> {
        larger_of(
            product_of(
                difference_of(self.equity(), self.figure(Measure::InitialMargin)),
                Some(Decimal::of(2, 0)),
            ),
            Some(Decimal::of(0, 0)),
        )
    }

    /// The equity of the day before less its maintenance margin, times the
    /// leverage, less the gross exposure, and no less than zero.
    pub open spec fn daytrading_buying_power(self) -> Option<Decimal> {
        larger_of(
            difference_of(
                product_of(
                    self.last_equity.difference(self.last_maintenance_margin),
                    self.multiplier(),
                ),
                self.figure(Measure::Gross),
            ),
            Some(Decimal::of(0, 0)),
        )
    }

    /// The larger of the two buying powers.
    pub open spec fn buying_power(self) -> Option<Decimal> {
        larger_of(self.regt_buying_power(), self.daytrading_buying_power())
    }

    /// Every figure that exists stands for the number that the account as
    /// numbers gives.
    pub proof fn lemma_figures(self)
        requires
            self.valid(),
        ensures
            self.figure(Measure::Long) matches Some(d) ==> d@ == self.value().long_exposure(),
            self.figure(Measure::Short) matches Some(d) ==> d@ == self.value().short_exposure(),
            self.figure(Measure::Gross) matches Some(d) ==> d@ == self.value().gross_exposure(),
            self.figure(Measure::Net) matches Some(d) ==> d@ == self.value().net_exposure(),
            self.figure(Measure::InitialMargin) matches Some(d) ==> d@
                == self.value().initial_margin(),
            self.figure(Measure::MaintenanceMargin) matches Some(d) ==> d@
                == self.value().maintenance_margin(),
            self.equity() matches Some(d) ==> d@ == self.value().equity(),
            self.multiplier() matches Some(d) ==> d@ == self.value().multiplier(),
            self.regt_buying_power() matches Some(d) ==> d@ == self.value().regt_buying_power(),
            self.daytrading_buying_power() matches Some(d) ==> d@
                == self.value().daytrading_buying_power(),
            self.buying_power() matches Some(d) ==> d@ == self.value().buying_power(),
    {
        lemma_rates();
        lemma_whole_decimals();
        lemma_tally_all(self.entries, Measure::Long);
        lemma_tally_all(self.entries, Measure::Short);
        lemma_tally_all(self.entries, Measure::Gross);
        lemma_tally_all(self.entries, Measure::Net);
        lemma_tally_all(self.entries, Measure::InitialMargin);
        lemma_tally_all(self.entries, Measure::MaintenanceMargin);
        if let Some(net) = self.figure(Measure::Net) {
            net.lemma_sum_exact(self.cash);
        }
        if let Some(equity) = self.equity() {
            if let Some(margin) = self.figure(Measure::InitialMargin) {
                equity.lemma_difference_exact(margin);
                if let Some(free) = equity.difference(margin) {
                    free.lemma_product_exact(Decimal::of(2, 0));
                }
            }
        }
        self.last_equity.lemma_difference_exact(self.last_maintenance_margin);
        if let Some(base) = self.last_equity.difference(self.last_maintenance_margin) {
            if let Some(times) = self.multiplier() {
                base.lemma_product_exact(times);
                if let Some(levered) = base.product(times) {
                    if let Some(gross) = self.figure(Measure::Gross) {
                        levered.lemma_difference_exact(gross);
                    }
                }
            }
        }
    }
}

/// The whole numbers used as decimals.
pub proof fn lemma_whole_decimals()
    ensures
        Decimal::of(0, 0)@ == 0real,
        Decimal::of(1, 0)@ == 1real,
        Decimal::of(2, 0)@ == 2real,
        Decimal::of(4, 0)@ == 4real,
        Decimal::of(2000, 0)@ == minimum_equity(),
        Decimal::of(25000, 0)@ == day_trading_equity(),
{
    Decimal::lemma_of(0, 0);
    Decimal::lemma_of(1, 0);
    Decimal::lemma_of(2, 0);
    Decimal::lemma_of(4, 0);
    Decimal::lemma_of(2000, 0);
    Decimal::lemma_of(25000, 0);
    lemma_ratio_whole(0);
    lemma_ratio_whole(1);
    lemma_ratio_whole(2);
    lemma_ratio_whole(4);
    lemma_ratio_whole(2000);
    lemma_ratio_whole(25000);
}

/// The positions after `entry` was put among them: in the place of the
/// position in its ticker, or behind the last.
pub open spec fn put(entries: Seq<Entry>, entry: Entry) -> Seq<Entry> {
    if has_position(values(entries), entry.ticker) {
        entries.update(position_of(values(entries), entry.ticker), entry)
    } else {
        entries.push(entry)
    }
}

/// The positions after each of `incoming` was put among them, first to last.
pub open spec fn put_all(entries: Seq<Entry>, incoming: Seq<Entry>) -> Seq<Entry>
    decreases incoming.len(),
{
    if incoming.len() == 0 {
        entries
    } else {
        put(put_all(entries, incoming.drop_last()), incoming.last())
    }
}

/// The markup on the latest price at which a market order is checked.
pub open spec fn market_buffer() -> real {
    103real / 100real
}

/// What a trade needs, as a number: the limit price, or the latest price with
/// the buffer, times the size of the trade.
pub open spec fn required_value(order_type: OrderType, qty: int, latest_price: real) -> real {
    match order_type {
        OrderType::Limit { limit_price } => limit_price@ * magnitude(qty as real),
        _ => latest_price * market_buffer() * magnitude(qty as real),
    }
}

/// What a trade needs, as the arithmetic yields it.
pub open spec fn required(order_type: OrderType, qty: isize, latest_price: Option<Decimal>)
    -> Result<Decimal, RiskError> {
    let size = Decimal::of(qty as i128, 0).magnitude();
    match order_type {
        OrderType::Limit { limit_price } => match limit_price.product(size) {
            Some(amount) => Ok(amount),
            None => Err(RiskError::NotRepresentable),
        },
        OrderType::Market => match latest_price {
            Some(price) => match product_of(price.product(Decimal::of(103, 2)), Some(size)) {
                Some(amount) => Ok(amount),
                None => Err(RiskError::NotRepresentable),
            },
            None => Err(RiskError::PriceUnavailable),
        },
        _ => Err(RiskError::UnsupportedOrderType),
    }
}

/// What a trade needs stands for the number it needs.
pub proof fn lemma_required(order_type: OrderType, qty: isize, latest_price: Option<Decimal>)
    ensures
        required(order_type, qty, latest_price) matches Ok(amount) ==> amount@ == required_value(
            order_type,
            qty as int,
            match latest_price {
                Some(price) => price@,
                None => 0real,
            },
        ),
{
    let whole = Decimal::of(qty as i128, 0);
    let size = whole.magnitude();
    Decimal::lemma_of(qty as i128, 0);
    Decimal::lemma_of(103, 2);
    lemma_ratio_whole(qty as int);
    whole.lemma_negated();
    assert(pow10(2) == 100) by {
        assert(pow10(1) == 10 * pow10(0));
        assert(pow10(2) == 10 * pow10(1));
    }
    match order_type {
        OrderType::Limit { limit_price } => {
            limit_price.lemma_product_exact(size);
        },
        OrderType::Market => {
            if let Some(price) = latest_price {
                price.lemma_product_exact(Decimal::of(103, 2));
                if let Some(marked) = price.product(Decimal::of(103, 2)) {
                    marked.lemma_product_exact(size);
                }
            }
        },
        _ => {},
    }
}

impl Ledger {
    /// The account after a fill of `shares` of `ticker` at `price`; `None`
    /// where the new shares, the cost or the new cash has no exact decimal.
    pub open spec fn filled(self, ticker: Seq<char>, shares: Decimal, price: Decimal) -> Option<
        Ledger,
    > {
        let cash = difference_of(Some(self.cash), shares.product(price));
        if self.value().holds(ticker) {
            let i = self.value().place(ticker);
            match (self.entries[i].shares.sum(shares), cash) {
                (Some(sum), Some(cash)) => Some(
                    Ledger {
                        cash,
                        entries: self.entries.update(i, Entry { ticker, shares: sum, price }),
                        ..self
                    },
                ),
                _ => None,
            }
        } else {
            match cash {
                Some(cash) => Some(
                    Ledger { cash, entries: self.entries.push(Entry { ticker, shares, price }), ..self },
                ),
                None => None,
            }
        }
    }

    /// The account after the price of `ticker` was refreshed.
    pub open spec fn refreshed(self, ticker: Seq<char>, price: Decimal) -> Ledger {
        if self.value().holds(ticker) {
            let i = self.value().place(ticker);
            Ledger { entries: self.entries.update(i, Entry { price, ..self.entries[i] }), ..self }
        } else {
            self
        }
    }

    /// The answer to a trade: `Ok(None)` where it is granted, `Ok(Some(..))`
    /// with the reason where it is denied, and the error where no verdict is
    /// reached.
    pub open spec fn check(
        self,
        ticker: Seq<char>,
        qty: isize,
        order_type: OrderType,
        latest_price: Option<Decimal>,
    ) -> Result<Option<DenyReason>, RiskError> {
        let held = self.value().held(ticker);
        if is_reducing(held, qty as int) {
            if magnitude(qty as real) > magnitude(held->Some_0) {
                Ok(Some(DenyReason::ChangeInPositionSide))
            } else {
                Ok(None)
            }
        } else {
            match required(order_type, qty, latest_price) {
                Ok(amount) => match self.buying_power() {
                    Some(buying_power) => if buying_power@ > amount@ {
                        Ok(None)
                    } else {
                        Ok(Some(DenyReason::InsufficientBuyingPower { buying_power }))
                    },
                    None => Err(RiskError::NotRepresentable),
                },
                Err(e) => Err(e),
            }
        }
    }

    /// A fill of the stored account is the fill of the account as numbers,
    /// and leaves the account valid.
    pub proof fn lemma_filled(self, ticker: Seq<char>, shares: Decimal, price: Decimal)
        requires
            self.valid(),
            shares.valid(),
            price.valid(),
        ensures
            self.filled(ticker, shares, price) matches Some(after) ==> after.valid()
                && after.value() == self.value().fill(ticker, shares@, price@),
    {
        shares.lemma_product_exact(price);
        if let Some(cost) = shares.product(price) {
            self.cash.lemma_difference_exact(cost);
        }
        if let Some(after) = self.filled(ticker, shares, price) {
            let target = self.value().fill(ticker, shares@, price@);
            if self.value().holds(ticker) {
                let i = self.value().place(ticker);
                self.entries[i].shares.lemma_sum_exact(shares);
                assert(after.value().positions =~= target.positions);
                assert forall|a: int, b: int| 0 <= a < b < after.entries.len() implies
                    after.entries[a].ticker != after.entries[b].ticker by {
                    assert(after.entries[a].ticker == self.entries[a].ticker);
                    assert(after.entries[b].ticker == self.entries[b].ticker);
                }
            } else {
                assert(after.value().positions =~= target.positions);
                assert forall|a: int, b: int| 0 <= a < b < after.entries.len() implies
                    after.entries[a].ticker != after.entries[b].ticker by {
                    if b == self.entries.len() {
                        assert(values(self.entries)[a].ticker == self.entries[a].ticker);
                    }
                }
            }
        }
    }

    /// A refresh of the stored account is the refresh of the account as
    /// numbers, and leaves the account valid.
    pub proof fn lemma_refreshed(self, ticker: Seq<char>, price: Decimal)
        requires
            self.valid(),
            price.valid(),
        ensures
            self.refreshed(ticker, price).valid(),
            self.refreshed(ticker, price).value() == self.value().refresh(ticker, price@),
    {
        let after = self.refreshed(ticker, price);
        let target = self.value().refresh(ticker, price@);
        if self.value().holds(ticker) {
            assert(after.value().positions =~= target.positions);
            assert forall|a: int, b: int| 0 <= a < b < after.entries.len() implies
                after.entries[a].ticker != after.entries[b].ticker by {
                assert(after.entries[a].ticker == self.entries[a].ticker);
                assert(after.entries[b].ticker == self.entries[b].ticker);
            }
        }
    }

    /// An answer that is reached is the verdict of the account as numbers on
    /// what the trade needs.
    pub proof fn lemma_check(
        self,
        ticker: Seq<char>,
        qty: isize,
        order_type: OrderType,
        latest_price: Option<Decimal>,
    )
        requires
            self.valid(),
        ensures
            self.check(ticker, qty, order_type, latest_price) matches Ok(answer) ==> {
                let needed = required_value(
                    order_type,
                    qty as int,
                    match latest_price {
                        Some(price) => price@,
                        None => 0real,
                    },
                );
                match self.value().verdict(ticker, qty as int, needed) {
                    crate::portfolio::Verdict::Granted => answer is None,
                    crate::portfolio::Verdict::ChangeInPositionSide => answer == Some(
                        DenyReason::ChangeInPositionSide,
                    ),
                    crate::portfolio::Verdict::InsufficientBuyingPower { buying_power } => {
                        &&& answer matches Some(
                            DenyReason::InsufficientBuyingPower { buying_power: reported },
                        )
                        &&& reported@ == buying_power
                    },
                }
            },
    {
        self.lemma_figures();
        lemma_required(order_type, qty, latest_price);
    }
}

} // verus!

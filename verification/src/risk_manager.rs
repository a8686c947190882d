//! The risk manager: the stored account, the figures computed from it, and
//! the admission check.

use crate::decimal::{magnitude, Decimal};
use crate::ledger::{
    lemma_rates, lemma_required, lemma_tally_all, lemma_whole_decimals, put, put_all, required,
    required_value, tally_all, Entry, Ledger,
};
use crate::portfolio::{is_reducing, total, Measure, Portfolio};
use crate::trade::{DenyReason, OrderType, RiskCheckResponse, RiskError, TradeIntent};
use vstd::prelude::*;
use vstd::string::StringExecFns;

verus! {

/// A number of shares, negative when short.
#[derive(Copy, Clone, Debug)]
pub struct Shares(pub Decimal);

/// A price per share.
#[derive(Copy, Clone, Debug)]
pub struct Price(pub Decimal);

/// The position in one ticker, as it is stored.
#[derive(Debug)]
pub struct Position {
    pub ticker: String,
    pub shares: Shares,
    pub price: Price,
}

impl Position {
    /// The position with its ticker as text.
    pub open spec fn entry(self) -> Entry {
        Entry { ticker: self.ticker@, shares: self.shares.0, price: self.price.0 }
    }

    /// The maintenance rate of the position: 0.3 from a price of 2.50 upward
    /// when long, from 5.00 upward when short, and 1 below.
    pub fn maintenance_rate(&self) -> (r: Decimal)
        ensures
            r == self.entry().maintenance_rate(),
            r@ == self.entry().value().maintenance_rate(),
    {
        proof {
            lemma_rates();
        }
        if self.shares.0.is_sign_positive() {
            if self.price.0.at_least(&Decimal::new(25, 1)) {
                Decimal::new(3, 1)
            } else {
                Decimal::one()
            }
        } else if self.price.0.at_least(&Decimal::new(5, 0)) {
            Decimal::new(3, 1)
        } else {
            Decimal::one()
        }
    }

    /// Whether the position takes part in the figure `kind`: the long figure
    /// leaves out the short positions, and the short figure the others.
    pub fn counts(&self, kind: Measure) -> (b: bool)
        ensures
            b == self.entry().counts(kind),
    {
        match kind {
            Measure::Long => self.shares.0.is_sign_positive(),
            Measure::Short => self.shares.0.is_sign_negative(),
            _ => true,
        }
    }

    /// What the position adds to the figure `kind`; `None` where a product
    /// has no exact decimal.
    pub fn amount(&self, kind: Measure) -> (r: Option<Decimal>)
        ensures
            r == self.entry().amount(kind),
    {
        let shares = self.shares.0;
        let price = self.price.0;
        match kind {
            Measure::Long => shares.checked_mul(price),
            Measure::Short => shares.neg().checked_mul(price),
            Measure::Gross => shares.abs().checked_mul(price),
            Measure::Net => shares.checked_mul(price),
            Measure::InitialMargin => match shares.abs().checked_mul(price) {
                Some(worth) => worth.checked_mul(Decimal::new(5, 1)),
                None => None,
            },
            Measure::MaintenanceMargin => match shares.abs().checked_mul(price) {
                Some(worth) => worth.checked_mul(self.maintenance_rate()),
                None => None,
            },
        }
    }

    /// The running sum `so_far` of the figure `kind` after this position.
    pub fn tally(&self, so_far: Decimal, kind: Measure) -> (r: Option<Decimal>)
        ensures
            r == self.entry().tally(so_far, kind),
    {
        if self.counts(kind) {
            match self.amount(kind) {
                Some(amount) => so_far.checked_add(amount),
                None => None,
            }
        } else {
            Some(so_far)
        }
    }
}

/// The positions with their tickers as text.
pub open spec fn entries(holdings: Seq<Position>) -> Seq<Entry> {
    holdings.map_values(|p: Position| p.entry())
}

/// The account as the broker reports it.
#[derive(Clone, Copy, Debug)]
pub struct Account {
    pub cash: Decimal,
    pub pattern_day_trader: bool,
    pub last_equity: Decimal,
    pub last_maintenance_margin: Decimal,
}

/// A position as the broker reports it: a whole number of shares, negative
/// when short, and the average price at which they were entered.
#[derive(Debug)]
pub struct BrokerPosition {
    pub symbol: String,
    pub qty: i32,
    pub avg_entry_price: Decimal,
}

impl BrokerPosition {
    /// The position as it is stored.
    pub open spec fn entry(self) -> Entry {
        Entry {
            ticker: self.symbol@,
            shares: Decimal::of(self.qty as i128, 0),
            price: self.avg_entry_price,
        }
    }
}

/// The reported positions as they are stored.
pub open spec fn reported(positions: Seq<BrokerPosition>) -> Seq<Entry> {
    positions.map_values(|p: BrokerPosition| p.entry())
}

/// Positions stored under distinct tickers, all decimals in range.
pub open spec fn orderly(all: Seq<Entry>) -> bool {
    &&& forall|i: int| 0 <= i < all.len() ==> (#[trigger] all[i]).valid()
    &&& forall|i: int, j: int| 0 <= i < j < all.len() ==> all[i].ticker != all[j].ticker
}

/// Putting a position among orderly ones leaves them orderly.
pub proof fn lemma_put_orderly(all: Seq<Entry>, entry: Entry)
    requires
        orderly(all),
        entry.valid(),
    ensures
        orderly(put(all, entry)),
{
    let after = put(all, entry);
    let numbers = crate::ledger::values(all);
    if crate::portfolio::has_position(numbers, entry.ticker) {
        let k = crate::portfolio::position_of(numbers, entry.ticker);
        assert(numbers[k].ticker == all[k].ticker);
        assert forall|i: int, j: int| 0 <= i < j < after.len() implies after[i].ticker
            != after[j].ticker by {
            assert(after[i].ticker == all[i].ticker);
            assert(after[j].ticker == all[j].ticker);
        }
    } else {
        assert forall|i: int, j: int| 0 <= i < j < after.len() implies after[i].ticker
            != after[j].ticker by {
            if j == all.len() {
                assert(numbers[i].ticker == all[i].ticker);
            }
        }
    }
}

/// A figure that fails on the first positions fails on all of them.
pub proof fn lemma_tally_fails(all: Seq<Entry>, n: int, kind: Measure)
    requires
        0 <= n <= all.len(),
        tally_all(all.take(n), kind) is None,
    ensures
        tally_all(all, kind) is None,
    decreases all.len() - n,
{
    if n < all.len() {
        assert(all.take(n + 1).drop_last() =~= all.take(n));
        lemma_tally_fails(all, n + 1, kind);
    } else {
        assert(all.take(n) =~= all);
    }
}

/// Where among `holdings` the position in `ticker` is, if there is one.
fn find_in(holdings: &Vec<Position>, ticker: &String) -> (r: Option<usize>)
    ensures
        r matches Some(i) ==> i < holdings.len() && holdings[i as int].ticker@ == ticker@,
        r is None ==> forall|k: int| 0 <= k < holdings.len() ==> holdings[k].ticker@ != ticker@,
{
    let mut i: usize = 0;
    while i < holdings.len()
        invariant
            i <= holdings.len(),
            forall|k: int| 0 <= k < i ==> holdings[k].ticker@ != ticker@,
        decreases holdings.len() - i,
    {
        if holdings[i].ticker == *ticker {
            return Some(i);
        }
        i = i + 1;
    }
    None
}

/// The account of one trader: cash, one position per ticker, and the flags
/// taken over from the broker. Its view is the account as numbers.
pub struct RiskManager {
    cash: Decimal,
    holdings: Vec<Position>,
    is_pattern_day_trader: bool,
    last_equity: Decimal,
    last_maintenance_margin: Decimal,
    datastore_url: String,
}

impl View for RiskManager {
    type V = Portfolio;

    open spec fn view(&self) -> Portfolio {
        self.ledger().value()
    }
}

impl RiskManager {
    /// The account as it is stored.
    pub closed spec fn ledger(&self) -> Ledger {
        Ledger {
            cash: self.cash,
            entries: entries(self.holdings@),
            pattern_day_trader: self.is_pattern_day_trader,
            last_equity: self.last_equity,
            last_maintenance_margin: self.last_maintenance_margin,
        }
    }

    /// Where the price service is reached.
    pub closed spec fn datastore_url(&self) -> Seq<char> {
        self.datastore_url@
    }

    /// Every account that exists at run time is valid.
    #[verifier::type_invariant]
    pub open spec fn sound(&self) -> bool {
        self.ledger().valid()
    }

    /// An empty account: no cash, no positions, not a pattern day trader, and
    /// nothing known of the day before.
    pub fn new(datastore_url: String) -> (r: RiskManager)
        ensures
            r.ledger() == (Ledger {
                cash: Decimal::of(0, 0),
                entries: Seq::empty(),
                pattern_day_trader: false,
                last_equity: Decimal::of(0, 0),
                last_maintenance_margin: Decimal::of(0, 0),
            }),
            r.datastore_url() == datastore_url@,
            r@.cash == 0real,
            r@.positions.len() == 0,
    {
        let r = RiskManager {
            cash: Decimal::zero(),
            holdings: Vec::new(),
            is_pattern_day_trader: false,
            last_equity: Decimal::zero(),
            last_maintenance_margin: Decimal::zero(),
            datastore_url,
        };
        assert(r.ledger().entries =~= Seq::empty());
        r
    }

    /// The cash of the account.
    pub fn cash(&self) -> (r: Decimal)
        ensures
            r == self.ledger().cash,
            r@ == self@.cash,
    {
        self.cash
    }

    /// Where the position in `ticker` is stored, if there is one.
    fn find(&self, ticker: &String) -> (r: Option<usize>)
        ensures
            r matches Some(i) ==> i < self.holdings.len() && self@.holds(ticker@) && self@.place(
                ticker@,
            ) == i,
            r is None ==> !self@.holds(ticker@),
    {
        proof {
            use_type_invariant(self);
            assert forall|k: int| 0 <= k < self.holdings.len() implies self@.positions[k].ticker
                == #[trigger] self.holdings[k].ticker@ by {
                assert(self@.positions[k].ticker == self.ledger().entries[k].ticker);
            }
        }
        find_in(&self.holdings, ticker)
    }

    /// The figure `kind` summed over the positions; `None` where a step has no
    /// exact decimal.
    pub fn figure(&self, kind: Measure) -> (r: Option<Decimal>)
        ensures
            r == self.ledger().figure(kind),
            r matches Some(d) ==> d@ == total(self@.positions, kind),
    {
        proof {
            use_type_invariant(self);
            lemma_tally_all(self.ledger().entries, kind);
        }
        let ghost all = self.ledger().entries;
        let mut so_far = Decimal::zero();
        let mut i: usize = 0;
        assert(all.take(0) =~= Seq::empty());
        while i < self.holdings.len()
            invariant
                i <= self.holdings.len(),
                all == self.ledger().entries,
                all.len() == self.holdings.len(),
                tally_all(all.take(i as int), kind) == Some(so_far),
            decreases self.holdings.len() - i,
        {
            let next = self.holdings[i].tally(so_far, kind);
            proof {
                assert(all.take(i + 1).drop_last() =~= all.take(i as int));
                assert(all.take(i + 1).last() == self.holdings[i as int].entry());
            }
            match next {
                Some(sum) => {
                    so_far = sum;
                },
                None => {
                    proof {
                        lemma_tally_fails(all, i + 1, kind);
                    }
                    return None;
                },
            }
            i = i + 1;
        }
        assert(all.take(i as int) =~= all);
        Some(so_far)
    }

    /// Value of the long positions.
    pub fn long_market_exposure(&self) -> (r: Option<Decimal>)
        ensures
            r == self.ledger().figure(Measure::Long),
            r matches Some(d) ==> d@ == self@.long_exposure(),
    {
        self.figure(Measure::Long)
    }

    /// Value of the short positions, as a positive number.
    pub fn short_market_exposure(&self) -> (r: Option<Decimal>)
        ensures
            r == self.ledger().figure(Measure::Short),
            r matches Some(d) ==> d@ == self@.short_exposure(),
    {
        self.figure(Measure::Short)
    }

    /// Value of all positions, each taken as positive.
    pub fn gross_market_exposure(&self) -> (r: Option<Decimal>)
        ensures
            r == self.ledger().figure(Measure::Gross),
            r matches Some(d) ==> d@ == self@.gross_exposure(),
    {
        self.figure(Measure::Gross)
    }

    /// Value of all positions, shorts counted negative.
    pub fn net_market_exposure(&self) -> (r: Option<Decimal>)
        ensures
            r == self.ledger().figure(Measure::Net),
            r matches Some(d) ==> d@ == self@.net_exposure(),
    {
        self.figure(Measure::Net)
    }

    /// Half the value of all positions: the margin to open them.
    pub fn initial_margin(&self) -> (r: Option<Decimal>)
        ensures
            r == self.ledger().figure(Measure::InitialMargin),
            r matches Some(d) ==> d@ == self@.initial_margin(),
    {
        self.figure(Measure::InitialMargin)
    }

    /// The value of each position at its maintenance rate: the margin to keep
    /// them.
    pub fn maintenance_margin(&self) -> (r: Option<Decimal>)
        ensures
            r == self.ledger().figure(Measure::MaintenanceMargin),
            r matches Some(d) ==> d@ == self@.maintenance_margin(),
    {
        self.figure(Measure::MaintenanceMargin)
    }
}

impl RiskManager {
    /// Loads the account from what the broker reports. Cash and flags are
    /// taken over; the positions held before are dropped, and each reported
    /// position is stored under its symbol, a later one in the place of an
    /// earlier one with the same symbol.
    pub fn initialize(&mut self, account: Account, positions: &Vec<BrokerPosition>)
        ensures
            final(self).ledger() == (Ledger {
                cash: account.cash,
                entries: put_all(Seq::empty(), reported(positions@)),
                pattern_day_trader: account.pattern_day_trader,
                last_equity: account.last_equity,
                last_maintenance_margin: account.last_maintenance_margin,
            }),
            final(self).datastore_url() == old(self).datastore_url(),
    {
        proof {
            use_type_invariant(&*self);
            use_type_invariant(account.cash);
            use_type_invariant(account.last_equity);
            use_type_invariant(account.last_maintenance_margin);
        }
        let ghost incoming = reported(positions@);
        let mut holdings: Vec<Position> = Vec::new();
        let mut i: usize = 0;
        assert(entries(holdings@) =~= put_all(Seq::empty(), incoming.take(0)));
        while i < positions.len()
            invariant
                i <= positions.len(),
                incoming == reported(positions@),
                entries(holdings@) == put_all(Seq::empty(), incoming.take(i as int)),
                orderly(entries(holdings@)),
            decreases positions.len() - i,
        {
            let position = &positions[i];
            let ticker = position.symbol.clone();
            let shares = Shares(Decimal::from_i32(position.qty));
            let price = Price(position.avg_entry_price);
            proof {
                use_type_invariant(shares.0);
                use_type_invariant(price.0);
                assert(incoming.take(i + 1).drop_last() =~= incoming.take(i as int));
                assert(incoming.take(i + 1).last() == position.entry());
                lemma_put_orderly(entries(holdings@), position.entry());
            }
            let ghost before = entries(holdings@);
            match find_in(&holdings, &ticker) {
                Some(k) => {
                    proof {
                        let numbers = crate::ledger::values(before);
                        assert(numbers[k as int].ticker == ticker@);
                        let chosen = crate::portfolio::position_of(numbers, ticker@);
                        assert(numbers[chosen].ticker == before[chosen].ticker);
                        assert(chosen == k);
                    }
                    holdings.set(k, Position { ticker, shares, price });
                },
                None => {
                    proof {
                        let numbers = crate::ledger::values(before);
                        assert forall|k: int| 0 <= k < numbers.len() implies numbers[k].ticker
                            != ticker@ by {
                            assert(numbers[k].ticker == holdings@[k].ticker@);
                        }
                    }
                    holdings.push(Position { ticker, shares, price });
                },
            }
            assert(entries(holdings@) =~= put(before, position.entry()));
            i = i + 1;
        }
        assert(incoming.take(i as int) =~= incoming);
        self.holdings = holdings;
        self.cash = account.cash;
        self.is_pattern_day_trader = account.pattern_day_trader;
        self.last_equity = account.last_equity;
        self.last_maintenance_margin = account.last_maintenance_margin;
    }

    /// The shares and the price of the position in `ticker`, if there is one.
    pub fn holding(&self, ticker: &str) -> (r: Option<(Shares, Price)>)
        ensures
            r is Some == self@.holds(ticker@),
            r matches Some((shares, price)) ==> {
                let entry = self.ledger().entries[self@.place(ticker@)];
                shares.0 == entry.shares && price.0 == entry.price
            },
    {
        let key = String::from_str(ticker);
        match self.find(&key) {
            Some(i) => Some((self.holdings[i].shares, self.holdings[i].price)),
            None => None,
        }
    }

    /// Where the latest price of `ticker` is asked for.
    pub fn latest_price_url(&self, ticker: &str) -> (r: String)
        ensures
            r@ == self.datastore_url() + "/last/"@ + ticker@,
    {
        self.datastore_url.clone().concat("/last/").concat(ticker)
    }
}

impl RiskManager {
    /// Net exposure plus cash.
    pub fn equity(&self) -> (r: Option<Decimal>)
        ensures
            r == self.ledger().equity(),
            r matches Some(d) ==> d@ == self@.equity(),
    {
        let net = self.net_market_exposure()?;
        net.checked_add(self.cash)
    }

    /// The leverage on the day-trading buying power. For a pattern day
    /// trader: 1 below an equity of 2,000, 2 below 25,000, and 4 from there.
    /// For any other account: 2 above 25,000, and 1 up to there.
    pub fn multiplier(&self) -> (r: Option<Decimal>)
        ensures
            r == self.ledger().multiplier(),
            r matches Some(d) ==> d@ == self@.multiplier(),
    {
        proof {
            lemma_whole_decimals();
        }
        let equity = self.equity()?;
        if self.is_pattern_day_trader {
            if equity.less_than(&Decimal::new(2000, 0)) {
                Some(Decimal::one())
            } else if equity.less_than(&Decimal::new(25000, 0)) {
                Some(Decimal::new(2, 0))
            } else {
                Some(Decimal::new(4, 0))
            }
        } else if equity.greater_than(&Decimal::new(25000, 0)) {
            Some(Decimal::new(2, 0))
        } else {
            Some(Decimal::new(1, 0))
        }
    }

    /// Twice the equity that the initial margin leaves free, and no less than
    /// zero.
    pub fn regt_buying_power(&self) -> (r: Option<Decimal>)
        ensures
            r == self.ledger().regt_buying_power(),
            r matches Some(d) ==> d@ == self@.regt_buying_power(),
    {
        proof {
            lemma_whole_decimals();
        }
        let equity = self.equity()?;
        let margin = self.initial_margin()?;
        let free = equity.checked_sub(margin)?;
        let doubled = free.checked_mul(Decimal::new(2, 0))?;
        Some(doubled.max(Decimal::zero()))
    }

    /// What the day before left free of maintenance margin, times the
    /// leverage, less the gross exposure, and no less than zero.
    pub fn daytrading_buying_power(&self) -> (r: Option<Decimal>)
        ensures
            r == self.ledger().daytrading_buying_power(),
            r matches Some(d) ==> d@ == self@.daytrading_buying_power(),
    {
        proof {
            lemma_whole_decimals();
        }
        let base = self.last_equity.checked_sub(self.last_maintenance_margin)?;
        let times = self.multiplier()?;
        let levered = base.checked_mul(times)?;
        let gross = self.gross_market_exposure()?;
        let left = levered.checked_sub(gross)?;
        Some(left.max(Decimal::zero()))
    }

    /// The larger of the two buying powers.
    pub fn buying_power(&self) -> (r: Option<Decimal>)
        ensures
            r == self.ledger().buying_power(),
            r matches Some(d) ==> d@ == self@.buying_power(),
    {
        let regt = self.regt_buying_power()?;
        let daytrading = self.daytrading_buying_power()?;
        Some(regt.max(daytrading))
    }
}

impl RiskManager {
    /// Sets the cash to `cash`, whatever it was.
    pub fn update_cash(&mut self, cash: Decimal)
        ensures
            final(self).ledger() == (Ledger { cash, ..old(self).ledger() }),
            final(self)@ == (Portfolio { cash: cash@, ..old(self)@ }),
            final(self).datastore_url() == old(self).datastore_url(),
    {
        proof {
            use_type_invariant(&*self);
            use_type_invariant(cash);
        }
        self.cash = cash;
    }

    /// Sets the price of the position in `ticker`, if there is one, and
    /// changes nothing otherwise.
    pub fn update_price(&mut self, ticker: &str, price: Price)
        ensures
            final(self).ledger() == old(self).ledger().refreshed(ticker@, price.0),
            final(self)@ == old(self)@.refresh(ticker@, price.0@),
            final(self).datastore_url() == old(self).datastore_url(),
    {
        proof {
            use_type_invariant(&*self);
            use_type_invariant(price.0);
            self.ledger().lemma_refreshed(ticker@, price.0);
        }
        let key = String::from_str(ticker);
        match self.find(&key) {
            Some(i) => {
                let mut holdings: Vec<Position> = Vec::new();
                core::mem::swap(&mut self.holdings, &mut holdings);
                holdings[i].price = price;
                assert(entries(holdings@) =~= old(self).ledger().refreshed(
                    ticker@,
                    price.0,
                ).entries);
                self.holdings = holdings;
            },
            None => {},
        }
    }

    /// Books a fill of `shares` of `ticker` at `price`: the shares are added
    /// to the position in `ticker`, or open one; the position's price becomes
    /// `price`; the cash pays for the shares at `price`. Where one of the
    /// three results has no exact decimal the account is left as it was.
    pub fn update_holdings(&mut self, ticker: &str, shares: Shares, price: Price) -> (r: Result<
        (),
        RiskError,
    >)
        ensures
            match old(self).ledger().filled(ticker@, shares.0, price.0) {
                Some(after) => r is Ok && final(self).ledger() == after,
                None => r == Err::<(), RiskError>(RiskError::NotRepresentable) && *final(self)
                    == *old(self),
            },
            r is Ok ==> final(self)@ == old(self)@.fill(ticker@, shares.0@, price.0@),
            final(self).datastore_url() == old(self).datastore_url(),
    {
        proof {
            use_type_invariant(&*self);
            use_type_invariant(shares.0);
            use_type_invariant(price.0);
            self.ledger().lemma_filled(ticker@, shares.0, price.0);
        }
        let ghost target = self.ledger().filled(ticker@, shares.0, price.0);
        let key = String::from_str(ticker);
        let cost = match shares.0.checked_mul(price.0) {
            Some(cost) => cost,
            None => {
                return Err(RiskError::NotRepresentable);
            },
        };
        let cash = match self.cash.checked_sub(cost) {
            Some(cash) => cash,
            None => {
                return Err(RiskError::NotRepresentable);
            },
        };
        match self.find(&key) {
            Some(i) => {
                let sum = match self.holdings[i].shares.0.checked_add(shares.0) {
                    Some(sum) => sum,
                    None => {
                        return Err(RiskError::NotRepresentable);
                    },
                };
                let mut holdings: Vec<Position> = Vec::new();
                core::mem::swap(&mut self.holdings, &mut holdings);
                holdings[i].shares = Shares(sum);
                holdings[i].price = price;
                assert(entries(holdings@) =~= target->Some_0.entries);
                self.holdings = holdings;
            },
            None => {
                let mut holdings: Vec<Position> = Vec::new();
                core::mem::swap(&mut self.holdings, &mut holdings);
                holdings.push(Position { ticker: key, shares, price });
                assert(entries(holdings@) =~= target->Some_0.entries);
                self.holdings = holdings;
            },
        }
        self.cash = cash;
        Ok(())
    }
}

/// What a trade of `qty` shares priced as `order_type` says needs: the limit
/// price times the size of the trade, or the latest price with a buffer of 3%
/// times the size. A market order needs a latest price; an order of another
/// type is not served.
pub fn required_buying_power(order_type: OrderType, qty: isize, latest_price: Option<Decimal>) -> (r:
    Result<Decimal, RiskError>)
    ensures
        r == required(order_type, qty, latest_price),
        r matches Ok(amount) ==> amount@ == required_value(
            order_type,
            qty as int,
            match latest_price {
                Some(price) => price@,
                None => 0real,
            },
        ),
{
    proof {
        lemma_required(order_type, qty, latest_price);
    }
    let size = Decimal::from_isize(qty).abs();
    let amount = match order_type {
        OrderType::Limit { limit_price } => limit_price.checked_mul(size),
        OrderType::Market => match latest_price {
            Some(price) => match price.checked_mul(Decimal::new(103, 2)) {
                Some(marked) => marked.checked_mul(size),
                None => None,
            },
            None => {
                return Err(RiskError::PriceUnavailable);
            },
        },
        _ => {
            return Err(RiskError::UnsupportedOrderType);
        },
    };
    match amount {
        Some(amount) => Ok(amount),
        None => Err(RiskError::NotRepresentable),
    }
}

/// The answer to a trade that does not go against a held position: granted
/// where the buying power exceeds what the trade needs, and denied with the
/// buying power reported where it does not.
pub fn open_trade(trade_intent: &TradeIntent, needed: Decimal, buying_power: Decimal) -> (r:
    RiskCheckResponse)
    ensures
        r == if buying_power@ > needed@ {
            RiskCheckResponse::Granted { intent: *trade_intent }
        } else {
            RiskCheckResponse::Denied {
                intent: *trade_intent,
                reason: DenyReason::InsufficientBuyingPower { buying_power },
            }
        },
{
    if buying_power.greater_than(&needed) {
        RiskCheckResponse::Granted { intent: trade_intent.clone() }
    } else {
        RiskCheckResponse::Denied {
            intent: trade_intent.clone(),
            reason: DenyReason::InsufficientBuyingPower { buying_power },
        }
    }
}

/// The answer to a trade that goes against a held position of `held` shares:
/// granted up to the size of the position, and denied for the change of side
/// beyond it.
pub fn closing_trade(trade_intent: &TradeIntent, held: Shares) -> (r: RiskCheckResponse)
    ensures
        r == if magnitude(trade_intent.qty as real) > magnitude(
            held.0@,
        ) {
            RiskCheckResponse::Denied {
                intent: *trade_intent,
                reason: DenyReason::ChangeInPositionSide,
            }
        } else {
            RiskCheckResponse::Granted { intent: *trade_intent }
        },
{
    let size = Decimal::from_isize(trade_intent.qty);
    if size.abs().greater_than(&held.0.abs()) {
        RiskCheckResponse::Denied {
            intent: trade_intent.clone(),
            reason: DenyReason::ChangeInPositionSide,
        }
    } else {
        RiskCheckResponse::Granted { intent: trade_intent.clone() }
    }
}

impl RiskManager {
    /// The shares held of `ticker`, where a trade of `qty` shares goes against
    /// them.
    fn opposed(&self, ticker: &String, qty: isize) -> (r: Option<Shares>)
        ensures
            r is Some == is_reducing(self@.held(ticker@), qty as int),
            r matches Some(shares) ==> self@.held(ticker@) == Some(shares.0@),
    {
        match self.find(ticker) {
            Some(i) => {
                let shares = self.holdings[i].shares;
                let size = Decimal::from_isize(qty);
                proof {
                    size.lemma_sign();
                    assert(self@.positions[i as int].shares == shares.0@);
                }
                if size.opposes(&shares.0) {
                    Some(shares)
                } else {
                    None
                }
            },
            None => None,
        }
    }

    /// Whether the check of `trade_intent` will ask for the latest price: it
    /// does for a market order that does not go against a held position.
    pub fn needs_latest_price(&self, trade_intent: &TradeIntent) -> (b: bool)
        ensures
            b == (trade_intent.order_type is Market && !is_reducing(
                self@.held(trade_intent.ticker@),
                trade_intent.qty as int,
            )),
    {
        match trade_intent.order_type {
            OrderType::Market => self.opposed(&trade_intent.ticker, trade_intent.qty).is_none(),
            _ => false,
        }
    }

    /// Grants or denies a proposed trade.
    ///
    /// A trade against a held position is granted up to the size of the
    /// position and denied beyond it for the change of side, whatever the
    /// order type and the buying power. Any other trade is granted where the
    /// buying power exceeds what the trade needs, and denied with the buying
    /// power reported otherwise. `latest_price` prices a market order.
    ///
    /// No verdict is reached where the order is neither a market nor a limit
    /// order, where a market order comes without a latest price, and where
    /// what the trade needs or the buying power has no exact decimal.
    pub fn risk_check(&self, trade_intent: &TradeIntent, latest_price: Option<Decimal>) -> (r:
        Result<RiskCheckResponse, RiskError>)
        ensures
            match self.ledger().check(
                trade_intent.ticker@,
                trade_intent.qty,
                trade_intent.order_type,
                latest_price,
            ) {
                Ok(None) => r == Ok::<RiskCheckResponse, RiskError>(
                    RiskCheckResponse::Granted { intent: *trade_intent },
                ),
                Ok(Some(reason)) => r == Ok::<RiskCheckResponse, RiskError>(
                    RiskCheckResponse::Denied { intent: *trade_intent, reason },
                ),
                Err(e) => r == Err::<RiskCheckResponse, RiskError>(e),
            },
            is_reducing(self@.held(trade_intent.ticker@), trade_intent.qty as int) ==> r == Ok::<
                RiskCheckResponse,
                RiskError,
            >(
                if magnitude(trade_intent.qty as real)
                    > magnitude(self@.held(trade_intent.ticker@)->Some_0) {
                    RiskCheckResponse::Denied {
                        intent: *trade_intent,
                        reason: DenyReason::ChangeInPositionSide,
                    }
                } else {
                    RiskCheckResponse::Granted { intent: *trade_intent }
                },
            ),
            r matches Ok(answer) ==> answer.verdict() == self@.verdict(
                trade_intent.ticker@,
                trade_intent.qty as int,
                required_value(
                    trade_intent.order_type,
                    trade_intent.qty as int,
                    match latest_price {
                        Some(price) => price@,
                        None => 0real,
                    },
                ),
            ),
    {
        proof {
            use_type_invariant(self);
            self.ledger().lemma_check(
                trade_intent.ticker@,
                trade_intent.qty,
                trade_intent.order_type,
                latest_price,
            );
        }
        if let Some(held) = self.opposed(&trade_intent.ticker, trade_intent.qty) {
            return Ok(closing_trade(trade_intent, held));
        }
        let needed = required_buying_power(trade_intent.order_type, trade_intent.qty, latest_price)?;
        match self.buying_power() {
            Some(buying_power) => Ok(open_trade(trade_intent, needed, buying_power)),
            None => Err(RiskError::NotRepresentable),
        }
    }
}

} // verus!

//! The events that the risk manager is fed, and what it asks of its host in
//! return.

use crate::decimal::Decimal;
use crate::risk_manager::{Price, RiskManager, Shares};
use crate::trade::{RiskCheckResponse, RiskError, TradeIntent};
use vstd::prelude::*;

verus! {

/// How far ahead, in seconds, the next open must lie for a closed market to
/// count as closed for the day: twelve hours. A market that opens sooner is in
/// its pre-market.
pub const PRE_MARKET_SECONDS: usize = 60 * 60 * 12;

/// The state of the market, with the seconds until it changes.
#[derive(Clone, Copy, Debug, PartialEq, Eq)]
pub enum State {
    Open { next_close: usize },
    Closed { next_open: usize },
}

/// A fill: `shares` of `ticker`, negative when sold, at `price`. The ids are
/// those of the fill and of its order; `fill_time` is in milliseconds since
/// the Unix epoch.
#[derive(Clone, Debug)]
pub struct Lot {
    pub id: u128,
    pub order_id: u128,
    pub ticker: String,
    pub fill_time: i64,
    pub price: Decimal,
    pub shares: Decimal,
}

/// An event.
#[derive(Debug)]
pub enum Input {
    Lot(Lot),
    Time(State),
    TradeIntent(TradeIntent),
}

/// What the host is to do after an event.
#[derive(Debug)]
pub enum Action {
    /// Nothing; wait for the next event.
    Continue,
    /// Publish the answer to a proposed trade.
    Publish(RiskCheckResponse),
    /// Report that the event could not be served, and wait for the next.
    Report(RiskError),
    /// Stop: the market has closed for the day.
    Shutdown,
}

impl State {
    /// Whether the market has closed for the day: it is closed, and more than
    /// twelve hours lie before its next open.
    pub fn closed_for_the_day(&self) -> (b: bool)
        ensures
            b == (*self matches State::Closed { next_open } && next_open > PRE_MARKET_SECONDS),
    {
        match self {
            State::Open { .. } => false,
            State::Closed { next_open } => *next_open > PRE_MARKET_SECONDS,
        }
    }
}

impl RiskManager {
    /// Serves one event. A fill is booked; a proposed trade is checked, with
    /// `latest_price` to price a market order, and its answer is to be
    /// published; a market that has closed for the day ends the run. Whatever
    /// cannot be served is reported and changes nothing.
    pub fn handle(&mut self, input: Input, latest_price: Option<Decimal>) -> (r: Action)
        ensures
            final(self).datastore_url() == old(self).datastore_url(),
            match input {
                Input::Lot(lot) => match old(self).ledger().filled(
                    lot.ticker@,
                    lot.shares,
                    lot.price,
                ) {
                    Some(after) => r == Action::Continue && final(self).ledger() == after
                        && final(self)@ == old(self)@.fill(lot.ticker@, lot.shares@, lot.price@),
                    None => r == Action::Report(RiskError::NotRepresentable) && *final(self)
                        == *old(self),
                },
                Input::Time(state) => *final(self) == *old(self) && r == if state matches State::Closed {
                    next_open,
                } && next_open > PRE_MARKET_SECONDS {
                    Action::Shutdown
                } else {
                    Action::Continue
                },
                Input::TradeIntent(intent) => *final(self) == *old(self) && match old(
                    self,
                ).ledger().check(intent.ticker@, intent.qty, intent.order_type, latest_price) {
                    Ok(None) => r == Action::Publish(RiskCheckResponse::Granted { intent }),
                    Ok(Some(reason)) => r == Action::Publish(
                        RiskCheckResponse::Denied { intent, reason },
                    ),
                    Err(e) => r == Action::Report(e),
                },
            },
    {
        match input {
            Input::Lot(lot) => {
                match self.update_holdings(lot.ticker.as_str(), Shares(lot.shares), Price(lot.price)) {
                    Ok(()) => Action::Continue,
                    Err(e) => Action::Report(e),
                }
            },
            Input::Time(state) => {
                if state.closed_for_the_day() {
                    Action::Shutdown
                } else {
                    Action::Continue
                }
            },
            Input::TradeIntent(intent) => {
                match self.risk_check(&intent, latest_price) {
                    Ok(answer) => Action::Publish(answer),
                    Err(e) => Action::Report(e),
                }
            },
        }
    }
}

} // verus!

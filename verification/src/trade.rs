//! A proposed trade, and what the admission check answers.

use crate::decimal::Decimal;
use crate::portfolio::Verdict;
use vstd::prelude::*;
use vstd::string::StringExecFns;

verus! {

/// How an order is to be priced.
#[derive(Clone, Copy, Debug, PartialEq)]
pub enum OrderType {
    /// At the market; checked at the latest price plus a buffer.
    Market,
    /// At `limit_price` or better.
    Limit { limit_price: Decimal },
    /// At the market once `stop_price` is reached.
    Stop { stop_price: Decimal },
    /// At `limit_price` or better once `stop_price` is reached.
    StopLimit { stop_price: Decimal, limit_price: Decimal },
}

/// A proposal to trade `qty` shares of `ticker`; `qty` is negative for a sale.
#[derive(Debug, PartialEq)]
pub struct TradeIntent {
    pub id: u128,
    pub ticker: String,
    pub qty: isize,
    pub order_type: OrderType,
}

impl Clone for TradeIntent {
    fn clone(&self) -> (r: Self)
        ensures
            r == *self,
    {
        TradeIntent {
            id: self.id,
            ticker: self.ticker.clone(),
            qty: self.qty,
            order_type: self.order_type,
        }
    }
}

impl TradeIntent {
    /// A market order for `qty` shares of `ticker`, with the id 0.
    pub fn new(ticker: &str, qty: isize) -> (r: TradeIntent)
        ensures
            r.id == 0,
            r.ticker@ == ticker@,
            r.qty == qty,
            r.order_type == OrderType::Market,
    {
        TradeIntent { id: 0, ticker: String::from_str(ticker), qty, order_type: OrderType::Market }
    }

    /// The same proposal under the id `id`.
    pub fn id(self, id: u128) -> (r: TradeIntent)
        ensures
            r == (TradeIntent { id, ..self }),
    {
        TradeIntent { id, ..self }
    }

    /// The same proposal priced as `order_type` says.
    pub fn order_type(self, order_type: OrderType) -> (r: TradeIntent)
        ensures
            r == (TradeIntent { order_type, ..self }),
    {
        TradeIntent { order_type, ..self }
    }
}

/// Why a trade was denied.
#[derive(Debug, Clone, PartialEq)]
pub enum DenyReason {
    /// The trade needs more than the buying power, which is reported.
    InsufficientBuyingPower { buying_power: Decimal },
    /// The trade would carry the position to the other side.
    ChangeInPositionSide,
}

/// The answer to a proposal, which it carries along.
#[derive(Debug, Clone, PartialEq)]
pub enum RiskCheckResponse {
    Granted { intent: TradeIntent },
    Denied { intent: TradeIntent, reason: DenyReason },
}

impl RiskCheckResponse {
    /// The proposal that was answered.
    pub open spec fn intent(self) -> TradeIntent {
        match self {
            RiskCheckResponse::Granted { intent } => intent,
            RiskCheckResponse::Denied { intent, .. } => intent,
        }
    }

    /// The reason for a denial; `None` where the trade was granted.
    pub open spec fn reason(self) -> Option<DenyReason> {
        match self {
            RiskCheckResponse::Granted { .. } => None,
            RiskCheckResponse::Denied { reason, .. } => Some(reason),
        }
    }

    /// The answer as a verdict over numbers.
    pub open spec fn verdict(self) -> Verdict {
        match self {
            RiskCheckResponse::Granted { .. } => Verdict::Granted,
            RiskCheckResponse::Denied { reason: DenyReason::ChangeInPositionSide, .. } => {
                Verdict::ChangeInPositionSide
            },
            RiskCheckResponse::Denied {
                reason: DenyReason::InsufficientBuyingPower { buying_power },
                ..
            } => Verdict::InsufficientBuyingPower { buying_power: buying_power@ },
        }
    }

    /// Whether the trade was granted.
    pub fn is_granted(&self) -> (b: bool)
        ensures
            b == (self.reason() is None),
    {
        match self {
            RiskCheckResponse::Granted { .. } => true,
            RiskCheckResponse::Denied { .. } => false,
        }
    }
}

/// Why a request could not be carried out. None of these is a denial: no
/// verdict was reached.
#[derive(Debug, Clone, Copy, PartialEq, Eq)]
pub enum RiskError {
    /// The order is neither a market nor a limit order.
    UnsupportedOrderType,
    /// A market order was to be priced and no latest price was given.
    PriceUnavailable,
    /// A step of the arithmetic has no exact decimal result.
    NotRepresentable,
}

impl RiskError {
    /// The error in words.
    pub fn message(&self) -> (r: &'static str)
        ensures
            r@ == match *self {
                RiskError::UnsupportedOrderType => {
                    "Risk manager can only deal with Market and Limit orders currently"@
                },
                RiskError::PriceUnavailable => "No latest price for a market order"@,
                RiskError::NotRepresentable => "Result is not an exact decimal"@,
            },
    {
        match self {
            RiskError::UnsupportedOrderType => {
                "Risk manager can only deal with Market and Limit orders currently"
            },
            RiskError::PriceUnavailable => "No latest price for a market order",
            RiskError::NotRepresentable => "Result is not an exact decimal",
        }
    }
}

} // verus!

//! A trade-risk admission engine: the ledger of one account's cash and
//! positions, the exposure, margin and buying-power figures derived from it,
//! and the check that grants or denies a proposed trade.

pub mod decimal;
pub mod input;
pub mod ledger;
pub mod portfolio;
pub mod risk_manager;
pub mod settings;
pub mod trade;
pub mod wide;

pub use crate::decimal::Decimal;
pub use crate::input::{Action, Input, Lot, State};
pub use crate::risk_manager::{Account, BrokerPosition, Price, RiskManager, Shares};
pub use crate::settings::{AlpacaSettings, RedisSettings};
pub use crate::trade::{DenyReason, OrderType, RiskCheckResponse, RiskError, TradeIntent};

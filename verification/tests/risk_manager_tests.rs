use risk_manager::portfolio::Measure;
use risk_manager::risk_manager::{closing_trade, open_trade, required_buying_power, Position};
use risk_manager::{
    Account, BrokerPosition, Decimal, DenyReason, OrderType, Price, RiskCheckResponse, RiskError,
    RiskManager, Shares, TradeIntent,
};

fn day_trader(last_equity: Decimal) -> RiskManager {
    let mut manager = RiskManager::new(String::new());
    manager.initialize(
        Account {
            cash: Decimal::zero(),
            pattern_day_trader: true,
            last_equity,
            last_maintenance_margin: Decimal::zero(),
        },
        &Vec::new(),
    );
    manager
}

fn plain_account(cash: i64) -> RiskManager {
    let mut manager = RiskManager::new(String::new());
    manager.update_cash(Decimal::new(cash, 0));
    manager
}

#[test]
fn realistic_equity_calculations() {
    let mut manager = day_trader(Decimal::new(99791448, 2));

    manager
        .update_holdings("TRP", Shares(Decimal::new(5118, 0)), Price(Decimal::new(4869, 2)))
        .unwrap();
    manager
        .update_holdings("MPLX", Shares(Decimal::new(8825, 0)), Price(Decimal::new(2812, 2)))
        .unwrap();
    manager
        .update_holdings("E", Shares(Decimal::new(19539, 0)), Price(Decimal::new(2556, 2)))
        .unwrap();
    manager
        .update_holdings("DVN", Shares(Decimal::new(-8146, 0)), Price(Decimal::new(3058, 2)))
        .unwrap();
    manager
        .update_holdings("CVE", Shares(Decimal::new(-27716, 0)), Price(Decimal::new(910, 2)))
        .unwrap();
    manager
        .update_holdings("COP", Shares(Decimal::new(-4005, 0)), Price(Decimal::new(6243, 2)))
        .unwrap();
    manager
        .update_holdings("BKR", Shares(Decimal::new(10527, 0)), Price(Decimal::new(2368, 2)))
        .unwrap();
    manager
        .update_holdings("APA", Shares(Decimal::new(-24754, 0)), Price(Decimal::new(2033, 2)))
        .unwrap();
    manager.update_cash(Decimal::new(99283298, 2));
    assert_eq!(manager.long_market_exposure().unwrap(), Decimal::new(124605062, 2));
    assert_eq!(manager.short_market_exposure().unwrap(), Decimal::new(125460125, 2));
    assert_eq!(manager.gross_market_exposure().unwrap(), Decimal::new(250065187, 2));
    assert_eq!(manager.net_market_exposure().unwrap(), Decimal::new(-855063, 2));
    assert_eq!(manager.equity().unwrap(), Decimal::new(98428235, 2));
    assert_eq!(manager.initial_margin().unwrap(), Decimal::new(1250325935, 3));
    assert_eq!(manager.maintenance_margin().unwrap(), Decimal::new(750195561, 3));
    assert_eq!(manager.regt_buying_power().unwrap(), Decimal::zero());
    assert_eq!(manager.daytrading_buying_power().unwrap(), Decimal::new(149100605, 2));
    assert_eq!(manager.buying_power().unwrap(), Decimal::new(149100605, 2));
}

#[test]
fn equity_calculations() {
    let mut manager = day_trader(Decimal::zero());

    manager
        .update_holdings("AAPL", Shares(Decimal::one()), Price(Decimal::new(100, 0)))
        .unwrap();
    manager.update_cash(Decimal::new(300, 0));
    assert_eq!(manager.long_market_exposure().unwrap(), Decimal::new(100, 0));
    assert_eq!(manager.short_market_exposure().unwrap(), Decimal::zero());
    assert_eq!(manager.gross_market_exposure().unwrap(), Decimal::new(100, 0));
    assert_eq!(manager.net_market_exposure().unwrap(), Decimal::new(100, 0));
    assert_eq!(manager.equity().unwrap(), Decimal::new(400, 0));
    assert_eq!(manager.initial_margin().unwrap(), Decimal::new(50, 0));
    assert_eq!(manager.maintenance_margin().unwrap(), Decimal::new(30, 0));
    assert_eq!(manager.regt_buying_power().unwrap(), Decimal::new(700, 0));
    assert_eq!(manager.daytrading_buying_power().unwrap(), Decimal::zero());
    assert_eq!(manager.buying_power().unwrap(), Decimal::new(700, 0));

    manager
        .update_holdings("TSLA", Shares(Decimal::new(-2, 0)), Price(Decimal::new(80, 0)))
        .unwrap();
    assert_eq!(manager.long_market_exposure().unwrap(), Decimal::new(100, 0));
    assert_eq!(manager.short_market_exposure().unwrap(), Decimal::new(160, 0));
    assert_eq!(manager.gross_market_exposure().unwrap(), Decimal::new(260, 0));
    assert_eq!(manager.net_market_exposure().unwrap(), Decimal::new(-60, 0));
    assert_eq!(manager.equity().unwrap(), Decimal::new(400, 0));
    assert_eq!(manager.initial_margin().unwrap(), Decimal::new(130, 0));
    assert_eq!(manager.maintenance_margin().unwrap(), Decimal::new(78, 0));
    assert_eq!(manager.regt_buying_power().unwrap(), Decimal::new(540, 0));
    assert_eq!(manager.daytrading_buying_power().unwrap(), Decimal::zero());
    assert_eq!(manager.buying_power().unwrap(), Decimal::new(540, 0));

    manager
        .update_holdings("TSLA", Shares(Decimal::new(-1, 0)), Price(Decimal::new(100, 0)))
        .unwrap();
    assert_eq!(manager.long_market_exposure().unwrap(), Decimal::new(100, 0));
    assert_eq!(manager.short_market_exposure().unwrap(), Decimal::new(300, 0));
    assert_eq!(manager.gross_market_exposure().unwrap(), Decimal::new(400, 0));
    assert_eq!(manager.net_market_exposure().unwrap(), Decimal::new(-200, 0));
    assert_eq!(manager.equity().unwrap(), Decimal::new(360, 0));
    assert_eq!(manager.initial_margin().unwrap(), Decimal::new(200, 0));
    assert_eq!(manager.maintenance_margin().unwrap(), Decimal::new(120, 0));
    assert_eq!(manager.regt_buying_power().unwrap(), Decimal::new(320, 0));
    assert_eq!(manager.daytrading_buying_power().unwrap(), Decimal::zero());
    assert_eq!(manager.buying_power().unwrap(), Decimal::new(320, 0));

    manager
        .update_holdings("TSLA", Shares(Decimal::new(3, 0)), Price(Decimal::new(90, 0)))
        .unwrap();
    assert_eq!(manager.long_market_exposure().unwrap(), Decimal::new(100, 0));
    assert_eq!(manager.short_market_exposure().unwrap(), Decimal::zero());
    assert_eq!(manager.gross_market_exposure().unwrap(), Decimal::new(100, 0));
    assert_eq!(manager.net_market_exposure().unwrap(), Decimal::new(100, 0));
    assert_eq!(manager.equity().unwrap(), Decimal::new(390, 0));
    assert_eq!(manager.initial_margin().unwrap(), Decimal::new(50, 0));
    assert_eq!(manager.maintenance_margin().unwrap(), Decimal::new(30, 0));
    assert_eq!(manager.regt_buying_power().unwrap(), Decimal::new(680, 0));
    assert_eq!(manager.daytrading_buying_power().unwrap(), Decimal::zero());
    assert_eq!(manager.buying_power().unwrap(), Decimal::new(680, 0));
}

#[test]
fn risk_check() {
    let mut manager = day_trader(Decimal::zero());

    manager
        .update_holdings("AAPL", Shares(Decimal::one()), Price(Decimal::new(100, 0)))
        .unwrap();
    manager
        .update_holdings("TSLA", Shares(Decimal::new(-2, 0)), Price(Decimal::new(80, 0)))
        .unwrap();
    manager.update_cash(Decimal::new(300, 0));

    let trade_intent = TradeIntent::new("AAPL", 1).order_type(OrderType::Limit {
        limit_price: Decimal::new(100, 0),
    });
    let response = manager.risk_check(&trade_intent, None).unwrap();
    assert_eq!(response, RiskCheckResponse::Granted { intent: trade_intent });

    let trade_intent = TradeIntent::new("AAPL", 1).order_type(OrderType::Limit {
        limit_price: Decimal::new(240, 0),
    });
    let response = manager.risk_check(&trade_intent, None).unwrap();
    assert_eq!(
        response,
        RiskCheckResponse::Denied {
            intent: trade_intent,
            reason: DenyReason::InsufficientBuyingPower { buying_power: Decimal::new(220, 0) }
        }
    );

    let trade_intent = TradeIntent::new("AAPL", -2).order_type(OrderType::Limit {
        limit_price: Decimal::new(120, 0),
    });
    let response = manager.risk_check(&trade_intent, None).unwrap();
    assert_eq!(
        response,
        RiskCheckResponse::Denied { intent: trade_intent, reason: DenyReason::ChangeInPositionSide }
    );

    let trade_intent = TradeIntent::new("AAPL", -1).order_type(OrderType::Limit {
        limit_price: Decimal::new(120, 0),
    });
    let response = manager.risk_check(&trade_intent, None).unwrap();
    assert_eq!(response, RiskCheckResponse::Granted { intent: trade_intent })
}

#[test]
fn flat_account_grants_a_first_purchase() {
    let manager = plain_account(300);
    assert_eq!(manager.buying_power().unwrap(), Decimal::new(600, 0));
    let intent = TradeIntent::new("AAPL", 1).order_type(OrderType::Limit {
        limit_price: Decimal::new(100, 0),
    });
    let response = manager.risk_check(&intent, None).unwrap();
    assert!(response.is_granted());
    assert_eq!(response, RiskCheckResponse::Granted { intent });
}

#[test]
fn sale_beyond_the_position_is_denied_for_the_change_of_side() {
    let mut manager = plain_account(400);
    manager
        .update_holdings("AAPL", Shares(Decimal::one()), Price(Decimal::new(100, 0)))
        .unwrap();
    assert_eq!(manager.cash(), Decimal::new(300, 0));
    let intent = TradeIntent::new("AAPL", -2).order_type(OrderType::Limit {
        limit_price: Decimal::new(120, 0),
    });
    assert_eq!(
        manager.risk_check(&intent, None).unwrap(),
        RiskCheckResponse::Denied { intent, reason: DenyReason::ChangeInPositionSide }
    );
}

#[test]
fn sale_of_the_whole_position_is_granted() {
    let mut manager = plain_account(400);
    manager
        .update_holdings("AAPL", Shares(Decimal::one()), Price(Decimal::new(100, 0)))
        .unwrap();
    let intent = TradeIntent::new("AAPL", -1).order_type(OrderType::Limit {
        limit_price: Decimal::new(120, 0),
    });
    assert_eq!(
        manager.risk_check(&intent, None).unwrap(),
        RiskCheckResponse::Granted { intent }
    );
}

#[test]
fn purchase_beyond_the_buying_power_reports_the_buying_power() {
    let mut manager = day_trader(Decimal::zero());
    manager
        .update_holdings("AAPL", Shares(Decimal::one()), Price(Decimal::new(100, 0)))
        .unwrap();
    manager
        .update_holdings("TSLA", Shares(Decimal::new(-2, 0)), Price(Decimal::new(80, 0)))
        .unwrap();
    manager.update_cash(Decimal::new(300, 0));
    assert_eq!(manager.buying_power().unwrap(), Decimal::new(220, 0));
    let intent = TradeIntent::new("AAPL", 1).order_type(OrderType::Limit {
        limit_price: Decimal::new(240, 0),
    });
    assert_eq!(
        manager.risk_check(&intent, None).unwrap(),
        RiskCheckResponse::Denied {
            intent,
            reason: DenyReason::InsufficientBuyingPower { buying_power: Decimal::new(220, 0) }
        }
    );
}

#[test]
fn buying_power_equal_to_the_need_is_not_enough() {
    let manager = plain_account(300);
    let exact = TradeIntent::new("AAPL", 6).order_type(OrderType::Limit {
        limit_price: Decimal::new(100, 0),
    });
    assert_eq!(
        manager.risk_check(&exact, None).unwrap(),
        RiskCheckResponse::Denied {
            intent: exact,
            reason: DenyReason::InsufficientBuyingPower { buying_power: Decimal::new(600, 0) }
        }
    );
    let below = TradeIntent::new("AAPL", 6).order_type(OrderType::Limit {
        limit_price: Decimal::new(9999, 2),
    });
    assert!(manager.risk_check(&below, None).unwrap().is_granted());
}

#[test]
fn granting_survives_more_buying_power() {
    let intent = TradeIntent::new("AAPL", 5).order_type(OrderType::Limit {
        limit_price: Decimal::new(100, 0),
    });
    let poorer = plain_account(300);
    let richer = plain_account(301);
    assert!(poorer.risk_check(&intent, None).unwrap().is_granted());
    assert!(richer.risk_check(&intent, None).unwrap().is_granted());
}

#[test]
fn reducing_trade_ignores_the_buying_power() {
    let mut manager = plain_account(0);
    manager
        .update_holdings("TSLA", Shares(Decimal::new(-5, 0)), Price(Decimal::new(1000, 0)))
        .unwrap();
    manager.update_cash(Decimal::new(-100000, 0));
    assert_eq!(manager.buying_power().unwrap(), Decimal::zero());
    let cover = TradeIntent::new("TSLA", 5).order_type(OrderType::Limit {
        limit_price: Decimal::new(1000, 0),
    });
    assert!(manager.risk_check(&cover, None).unwrap().is_granted());
    let flip = TradeIntent::new("TSLA", 6).order_type(OrderType::Market);
    assert_eq!(
        manager.risk_check(&flip, None).unwrap(),
        RiskCheckResponse::Denied { intent: flip, reason: DenyReason::ChangeInPositionSide }
    );
}

#[test]
fn market_order_is_checked_at_the_latest_price_plus_three_percent() {
    let manager = plain_account(103);
    assert_eq!(manager.buying_power().unwrap(), Decimal::new(206, 0));
    let intent = TradeIntent::new("AAPL", 2).order_type(OrderType::Market);
    assert!(manager.needs_latest_price(&intent));
    assert_eq!(
        manager.risk_check(&intent, Some(Decimal::new(100, 0))).unwrap(),
        RiskCheckResponse::Denied {
            intent: intent.clone(),
            reason: DenyReason::InsufficientBuyingPower { buying_power: Decimal::new(206, 0) }
        }
    );
    assert!(manager.risk_check(&intent, Some(Decimal::new(9999, 2))).unwrap().is_granted());
    assert_eq!(
        required_buying_power(
            OrderType::Market,
            -2,
            Some(Decimal::new(100, 0))
        ),
        Ok(Decimal::new(206, 0))
    );
}

#[test]
fn market_order_without_a_price_reaches_no_verdict() {
    let manager = plain_account(1000);
    let intent = TradeIntent::new("AAPL", 1).order_type(OrderType::Market);
    assert_eq!(manager.risk_check(&intent, None), Err(RiskError::PriceUnavailable));
}

#[test]
fn stop_orders_are_not_served() {
    let mut manager = plain_account(1000);
    manager
        .update_holdings("AAPL", Shares(Decimal::new(3, 0)), Price(Decimal::new(10, 0)))
        .unwrap();
    let stop = TradeIntent::new("AAPL", 1).order_type(OrderType::Stop {
        stop_price: Decimal::new(9, 0),
    });
    assert_eq!(manager.risk_check(&stop, None), Err(RiskError::UnsupportedOrderType));
    assert_eq!(
        RiskError::UnsupportedOrderType.message(),
        "Risk manager can only deal with Market and Limit orders currently"
    );
    let stop_limit = TradeIntent::new("MSFT", 1).order_type(OrderType::StopLimit {
        stop_price: Decimal::new(9, 0),
        limit_price: Decimal::new(8, 0),
    });
    assert_eq!(manager.risk_check(&stop_limit, None), Err(RiskError::UnsupportedOrderType));
    let closing = TradeIntent::new("AAPL", -1).order_type(OrderType::Stop {
        stop_price: Decimal::new(9, 0),
    });
    assert!(manager.risk_check(&closing, None).unwrap().is_granted());
    assert!(!manager.needs_latest_price(&closing));
}

#[test]
fn fill_that_has_no_exact_decimal_changes_nothing() {
    let mut manager = plain_account(300);
    let huge = Decimal::from_parts(79_228_162_514_264_337_593_543_950_335, 0).unwrap();
    let result = manager.update_holdings("AAPL", Shares(huge), Price(Decimal::new(2, 0)));
    assert_eq!(result, Err(RiskError::NotRepresentable));
    assert_eq!(manager.cash(), Decimal::new(300, 0));
    assert!(manager.holding("AAPL").is_none());
    manager.update_holdings("AAPL", Shares(huge), Price(Decimal::zero())).unwrap();
    manager.update_price("AAPL", Price(Decimal::new(2, 0)));
    assert_eq!(manager.long_market_exposure(), None);
    let intent = TradeIntent::new("MSFT", 1).order_type(OrderType::Limit {
        limit_price: Decimal::one(),
    });
    assert_eq!(manager.risk_check(&intent, None), Err(RiskError::NotRepresentable));
}

#[test]
fn fill_adds_shares_overwrites_the_price_and_pays_from_cash() {
    let mut manager = plain_account(1000);
    manager
        .update_holdings("AAPL", Shares(Decimal::new(2, 0)), Price(Decimal::new(100, 0)))
        .unwrap();
    manager
        .update_holdings("AAPL", Shares(Decimal::new(3, 0)), Price(Decimal::new(110, 0)))
        .unwrap();
    let (shares, price) = manager.holding("AAPL").unwrap();
    assert_eq!(shares.0, Decimal::new(5, 0));
    assert_eq!(price.0, Decimal::new(110, 0));
    assert_eq!(manager.cash(), Decimal::new(470, 0));
    assert_eq!(manager.net_market_exposure().unwrap(), Decimal::new(550, 0));
    assert_eq!(
        manager.equity().unwrap(),
        manager.net_market_exposure().unwrap().checked_add(manager.cash()).unwrap()
    );
}

#[test]
fn price_refresh_touches_held_tickers_only() {
    let mut manager = plain_account(1000);
    manager
        .update_holdings("AAPL", Shares(Decimal::new(2, 0)), Price(Decimal::new(100, 0)))
        .unwrap();
    manager.update_price("AAPL", Price(Decimal::new(105, 0)));
    manager.update_price("MSFT", Price(Decimal::new(50, 0)));
    let (shares, price) = manager.holding("AAPL").unwrap();
    assert_eq!(shares.0, Decimal::new(2, 0));
    assert_eq!(price.0, Decimal::new(105, 0));
    assert!(manager.holding("MSFT").is_none());
    assert_eq!(manager.cash(), Decimal::new(800, 0));
    assert_eq!(manager.gross_market_exposure().unwrap(), Decimal::new(210, 0));
}

#[test]
fn gross_exposure_is_long_plus_short() {
    let mut manager = plain_account(0);
    manager
        .update_holdings("A", Shares(Decimal::new(7, 0)), Price(Decimal::new(1250, 2)))
        .unwrap();
    manager
        .update_holdings("B", Shares(Decimal::new(-3, 0)), Price(Decimal::new(405, 1)))
        .unwrap();
    manager.update_holdings("C", Shares(Decimal::zero()), Price(Decimal::new(9, 0))).unwrap();
    let long = manager.long_market_exposure().unwrap();
    let short = manager.short_market_exposure().unwrap();
    assert_eq!(long, Decimal::new(875, 1));
    assert_eq!(short, Decimal::new(1215, 1));
    assert_eq!(manager.gross_market_exposure().unwrap(), long.checked_add(short).unwrap());
    assert_eq!(manager.net_market_exposure().unwrap(), long.checked_sub(short).unwrap());
}

#[test]
fn maintenance_rate_depends_on_side_and_price() {
    let mut manager = plain_account(0);
    manager
        .update_holdings("LONGLOW", Shares(Decimal::new(10, 0)), Price(Decimal::new(249, 2)))
        .unwrap();
    assert_eq!(manager.maintenance_margin().unwrap(), Decimal::new(2490, 2));
    manager.update_price("LONGLOW", Price(Decimal::new(250, 2)));
    assert_eq!(manager.maintenance_margin().unwrap(), Decimal::new(750, 2));

    let mut manager = plain_account(0);
    manager
        .update_holdings("SHORTLOW", Shares(Decimal::new(-10, 0)), Price(Decimal::new(499, 2)))
        .unwrap();
    assert_eq!(manager.maintenance_margin().unwrap(), Decimal::new(4990, 2));
    manager.update_price("SHORTLOW", Price(Decimal::new(5, 0)));
    assert_eq!(manager.maintenance_margin().unwrap(), Decimal::new(15, 0));
    assert_eq!(manager.initial_margin().unwrap(), Decimal::new(25, 0));
}

#[test]
fn multiplier_tiers() {
    let mut trader = day_trader(Decimal::zero());
    trader.update_cash(Decimal::new(199999, 2));
    assert_eq!(trader.multiplier().unwrap(), Decimal::one());
    trader.update_cash(Decimal::new(2000, 0));
    assert_eq!(trader.multiplier().unwrap(), Decimal::new(2, 0));
    trader.update_cash(Decimal::new(2499999, 2));
    assert_eq!(trader.multiplier().unwrap(), Decimal::new(2, 0));
    trader.update_cash(Decimal::new(25000, 0));
    assert_eq!(trader.multiplier().unwrap(), Decimal::new(4, 0));

    let mut other = plain_account(25000);
    assert_eq!(other.multiplier().unwrap(), Decimal::one());
    other.update_cash(Decimal::new(2500001, 2));
    assert_eq!(other.multiplier().unwrap(), Decimal::new(2, 0));
}

#[test]
fn day_trading_buying_power_uses_the_day_before() {
    let mut manager = RiskManager::new(String::new());
    manager.initialize(
        Account {
            cash: Decimal::new(30000, 0),
            pattern_day_trader: true,
            last_equity: Decimal::new(30000, 0),
            last_maintenance_margin: Decimal::new(5000, 0),
        },
        &Vec::new(),
    );
    manager
        .update_holdings("AAPL", Shares(Decimal::new(100, 0)), Price(Decimal::new(100, 0)))
        .unwrap();
    assert_eq!(manager.equity().unwrap(), Decimal::new(30000, 0));
    assert_eq!(manager.daytrading_buying_power().unwrap(), Decimal::new(90000, 0));
    assert_eq!(manager.regt_buying_power().unwrap(), Decimal::new(50000, 0));
    assert_eq!(manager.buying_power().unwrap(), Decimal::new(90000, 0));
}

#[test]
fn initialize_takes_over_what_the_broker_reports() {
    let mut manager = RiskManager::new(String::from("http://prices"));
    manager
        .update_holdings("OLD", Shares(Decimal::one()), Price(Decimal::one()))
        .unwrap();
    let positions = vec![
        BrokerPosition { symbol: String::from("AAPL"), qty: 3, avg_entry_price: Decimal::new(100, 0) },
        BrokerPosition { symbol: String::from("TSLA"), qty: -2, avg_entry_price: Decimal::new(80, 0) },
        BrokerPosition { symbol: String::from("AAPL"), qty: 1, avg_entry_price: Decimal::new(90, 0) },
    ];
    manager.initialize(
        Account {
            cash: Decimal::new(500, 0),
            pattern_day_trader: false,
            last_equity: Decimal::zero(),
            last_maintenance_margin: Decimal::zero(),
        },
        &positions,
    );
    assert!(manager.holding("OLD").is_none());
    let (shares, price) = manager.holding("AAPL").unwrap();
    assert_eq!(shares.0, Decimal::one());
    assert_eq!(price.0, Decimal::new(90, 0));
    let (shares, price) = manager.holding("TSLA").unwrap();
    assert_eq!(shares.0, Decimal::new(-2, 0));
    assert_eq!(price.0, Decimal::new(80, 0));
    assert_eq!(manager.cash(), Decimal::new(500, 0));
    assert_eq!(manager.gross_market_exposure().unwrap(), Decimal::new(250, 0));
    assert_eq!(manager.latest_price_url("AAPL"), "http://prices/last/AAPL");
}

#[test]
fn answers_by_rule() {
    let intent = TradeIntent::new("AAPL", -3).id(7);
    assert_eq!(intent.id, 7);
    assert_eq!(
        open_trade(&intent, Decimal::new(100, 0), Decimal::new(1001, 1)),
        RiskCheckResponse::Granted { intent: intent.clone() }
    );
    assert_eq!(
        open_trade(&intent, Decimal::new(1000, 1), Decimal::new(100, 0)),
        RiskCheckResponse::Denied {
            intent: intent.clone(),
            reason: DenyReason::InsufficientBuyingPower { buying_power: Decimal::new(100, 0) }
        }
    );
    assert!(closing_trade(&intent, Shares(Decimal::new(3, 0))).is_granted());
    assert!(closing_trade(&intent, Shares(Decimal::new(30, 1))).is_granted());
    assert_eq!(
        closing_trade(&intent, Shares(Decimal::new(29, 1))),
        RiskCheckResponse::Denied { intent, reason: DenyReason::ChangeInPositionSide }
    );
}

#[test]
fn a_position_of_no_shares_is_not_reduced() {
    let mut manager = plain_account(1000);
    manager
        .update_holdings("AAPL", Shares(Decimal::new(2, 0)), Price(Decimal::new(100, 0)))
        .unwrap();
    manager
        .update_holdings("AAPL", Shares(Decimal::new(-2, 0)), Price(Decimal::new(100, 0)))
        .unwrap();
    assert!(manager.holding("AAPL").unwrap().0 .0.is_zero());
    assert_eq!(manager.buying_power().unwrap(), Decimal::new(2000, 0));
    let sale = TradeIntent::new("AAPL", -30).order_type(OrderType::Limit {
        limit_price: Decimal::new(100, 0),
    });
    assert_eq!(
        manager.risk_check(&sale, None).unwrap(),
        RiskCheckResponse::Denied {
            intent: sale,
            reason: DenyReason::InsufficientBuyingPower { buying_power: Decimal::new(2000, 0) }
        }
    );
}

#[test]
fn figures_position_by_position() {
    let short = Position {
        ticker: String::from("TSLA"),
        shares: Shares(Decimal::new(-2, 0)),
        price: Price(Decimal::new(80, 0)),
    };
    assert!(!short.counts(Measure::Long));
    assert!(short.counts(Measure::Short));
    assert!(short.counts(Measure::Net));
    assert_eq!(short.amount(Measure::Short).unwrap(), Decimal::new(160, 0));
    assert_eq!(short.amount(Measure::Net).unwrap(), Decimal::new(-160, 0));
    assert_eq!(short.amount(Measure::Gross).unwrap(), Decimal::new(160, 0));
    assert_eq!(short.amount(Measure::InitialMargin).unwrap(), Decimal::new(80, 0));
    assert_eq!(short.amount(Measure::MaintenanceMargin).unwrap(), Decimal::new(48, 0));
    assert_eq!(short.maintenance_rate(), Decimal::new(3, 1));
    assert_eq!(short.tally(Decimal::new(5, 0), Measure::Long).unwrap(), Decimal::new(5, 0));
    assert_eq!(short.tally(Decimal::new(5, 0), Measure::Short).unwrap(), Decimal::new(165, 0));

    let mut manager = plain_account(0);
    manager.update_holdings("TSLA", short.shares, short.price).unwrap();
    assert_eq!(manager.figure(Measure::Gross), manager.gross_market_exposure());
    assert_eq!(manager.figure(Measure::MaintenanceMargin).unwrap(), Decimal::new(48, 0));
}

#[test]
fn purchase_in_a_flat_ticker_beyond_the_buying_power_is_denied() {
    let mut manager = plain_account(190);
    manager
        .update_holdings("TSLA", Shares(Decimal::new(-2, 0)), Price(Decimal::new(80, 0)))
        .unwrap();
    assert_eq!(manager.cash(), Decimal::new(350, 0));
    assert!(manager.holding("AAPL").is_none());
    assert_eq!(manager.buying_power().unwrap(), Decimal::new(220, 0));
    let intent = TradeIntent::new("AAPL", 1).order_type(OrderType::Limit {
        limit_price: Decimal::new(240, 0),
    });
    assert_eq!(
        manager.risk_check(&intent, None).unwrap(),
        RiskCheckResponse::Denied {
            intent,
            reason: DenyReason::InsufficientBuyingPower { buying_power: Decimal::new(220, 0) }
        }
    );
}

#[test]
fn fill_moves_the_equity_by_the_gain_of_the_shares_held_before() {
    let mut manager = plain_account(1000);
    manager
        .update_holdings("TSLA", Shares(Decimal::new(-2, 0)), Price(Decimal::new(80, 0)))
        .unwrap();
    assert_eq!(manager.equity().unwrap(), Decimal::new(1000, 0));
    manager
        .update_holdings("TSLA", Shares(Decimal::new(-1, 0)), Price(Decimal::new(100, 0)))
        .unwrap();
    assert_eq!(manager.equity().unwrap(), Decimal::new(960, 0));
    manager
        .update_holdings("TSLA", Shares(Decimal::new(5, 0)), Price(Decimal::new(100, 0)))
        .unwrap();
    assert_eq!(manager.equity().unwrap(), Decimal::new(960, 0));
    manager
        .update_holdings("AAPL", Shares(Decimal::new(3, 0)), Price(Decimal::new(1999, 2)))
        .unwrap();
    assert_eq!(manager.equity().unwrap(), Decimal::new(960, 0));
}

use polymarket_arbitrage_bot::checks::{decide_sale, PendingCheck, Sale};
use polymarket_arbitrage_bot::decimal::Decimal;
use polymarket_arbitrage_bot::events::Event;
use polymarket_arbitrage_bot::exchange::{Failure, Reply, Request, Side};
use polymarket_arbitrage_bot::models::{
    MarketDetails, OrderBook, OrderBookEntry, OrderResponse, PendingTrade, Token, TokenPrice,
    TokenType,
};
use polymarket_arbitrage_bot::trader::{Trader, TradingConfig};

fn config(stop: Option<u64>) -> TradingConfig {
    TradingConfig {
        fixed_trade_amount: 4_500_000,
        sell_price: 990_000,
        stop_loss_price: stop,
        min_time_remaining_seconds: None,
    }
}

fn bought(token: &str) -> PendingTrade {
    PendingTrade {
        token_id: token.to_string(),
        condition_id: "0xc".to_string(),
        token_type: TokenType::BtcUp,
        investment_amount: 4_500_000_000_000,
        units: 10_000_000,
        purchase_price: 450_000,
        sell_price: 990_000,
        market_timestamp: 900,
        sold: false,
        confirmed_balance: Some(10_000_000),
        buy_order_confirmed: true,
        limit_sell_orders_placed: false,
        no_sell: false,
        claim_on_closure: false,
        sell_attempts: 0,
        redemption_attempts: 0,
        redemption_abandoned: false,
    }
}

fn decimal(text: &str) -> Decimal {
    Decimal::parse(text).unwrap()
}

fn taken() -> Reply {
    Reply::Order(Ok(OrderResponse {
        order_id: Some("1".to_string()),
        status: "LIVE".to_string(),
        message: None,
    }))
}

fn refused(text: &str) -> Reply {
    Reply::Order(Err(Failure { message: text.to_string(), details: text.to_string() }))
}

fn bid(price: &str) -> Reply {
    Reply::BestPrice(Some(Some(TokenPrice {
        token_id: "1".to_string(),
        bid: Some(decimal(price)),
        ask: None,
    })))
}

fn market() -> Reply {
    Reply::Market(Some(MarketDetails {
        condition_id: "0xc".to_string(),
        question: "?".to_string(),
        active: true,
        closed: false,
        tokens: vec![
            Token { token_id: "1".to_string(), outcome: "Up".to_string(), winner: false },
            Token { token_id: "2".to_string(), outcome: "Down".to_string(), winner: false },
        ],
    }))
}

/// Runs a check to its end. Gives the requests by name and the texts of the events.
fn run(
    trader: &mut Trader,
    mut answer: impl FnMut(&Request) -> Reply,
) -> (Vec<String>, Vec<String>) {
    let mut asked = Vec::new();
    let mut told = Vec::new();
    let mut check = PendingCheck::Start;
    let mut reply = Reply::Nothing;
    for _ in 0..500 {
        let progress = trader.check_pending_trades(check, reply);
        told.extend(progress.events.iter().map(|e: &Event| e.text()));
        let name = match &progress.request {
            Request::Balance { token_id } => format!("balance {}", token_id),
            Request::Holding { token_id } => format!("holding {}", token_id),
            Request::Price { token_id } => format!("price {}", token_id),
            Request::BestPrice { token_id } => format!("best {}", token_id),
            Request::Book { token_id } => format!("book {}", token_id),
            Request::Market { condition_id } => format!("market {}", condition_id),
            Request::Limit(order) => {
                let o = order.request();
                format!("{} {} {} @ {}", o.side, o.token_id, o.size, o.price)
            }
            Request::AtMarket { token_id, amount, side, fill } => {
                format!("{} {} {} {}", side.text(), token_id, amount, fill.text())
            }
            Request::RefreshAllowance { token_id } => format!("refresh {}", token_id),
            Request::Wait { milliseconds } => format!("wait {}", milliseconds),
            Request::CycleCompleted { .. } => "cycle".to_string(),
            Request::OpenOrders => "orders".to_string(),
            Request::FillOrders { prices } => format!("fill {}", prices.len()),
            Request::Position { token_id } => format!("position {}", token_id),
            Request::Finished => return (asked, told),
            _ => "other".to_string(),
        };
        asked.push(name);
        reply = answer(&progress.request);
        check = progress.check;
    }
    panic!("the check does not end");
}

#[test]
fn a_sale_is_decided_by_price() {
    let c = config(Some(800_000));
    let mut t = bought("1");
    let decide = |t: &PendingTrade, key: &str, p: &str| decide_sale(&c, key, t, decimal(p));
    assert_eq!(decide(&t, "900_1", "0.99"), Some(Sale::Target));
    assert_eq!(decide(&t, "900_1", "0.98999999"), None);
    assert_eq!(decide(&t, "900_1", "0.80"), None);
    assert_eq!(decide(&t, "900_1", "0.7999999"), Some(Sale::StopLoss { stop: 800_000 }));
    t.limit_sell_orders_placed = true;
    assert_eq!(decide(&t, "900_1", "0.80"), Some(Sale::StopLoss { stop: 800_000 }));
    assert_eq!(decide(&t, "900_1", "0.8000001"), None);
    assert_eq!(decide(&t, "900_1", "1.0"), None);
    assert_eq!(decide(&t, "900_1_limit", "0.5"), None);
    assert_eq!(decide(&t, "900_opposite_1", "0.10"), Some(Sale::OppositeStop));
    assert_eq!(decide(&t, "900_opposite_limit_1", "0.11"), None);
    assert_eq!(decide(&t, "900_opposite_1", "0.11"), None);
    t.claim_on_closure = true;
    assert_eq!(decide(&t, "900_1", "0.1"), None);
    let plain = config(None);
    let mut u = bought("1");
    assert_eq!(decide_sale(&plain, "900_1", &u, decimal("0.01")), None);
    u.sell_price = 2_000_000;
    assert_eq!(decide_sale(&plain, "900_1", &u, decimal("1")), Some(Sale::Target));
    u.limit_sell_orders_placed = true;
    assert_eq!(decide_sale(&plain, "900_1", &u, decimal("1")), None);
}

#[test]
fn nothing_is_asked_without_trades() {
    let mut t = Trader::new(config(None), false, false);
    let (asked, told) = run(&mut t, |_| Reply::Nothing);
    assert!(asked.is_empty());
    assert!(told.is_empty());
}

#[test]
fn a_filled_limit_buy_is_offered_for_sale_once() {
    let mut t = Trader::new(config(None), false, false);
    let mut trade = bought("1");
    trade.buy_order_confirmed = false;
    trade.confirmed_balance = Some(0);
    t.pending.insert("900_1_limit".to_string(), trade);
    let (asked, told) = run(&mut t, |r| match r {
        Request::Balance { .. } => Reply::Balance(Some(9_500_000)),
        Request::Limit(_) => taken(),
        Request::Price { .. } => Reply::Price(Some(decimal("0.5"))),
        Request::BestPrice { .. } => bid("0.5"),
        _ => Reply::Nothing,
    });
    assert_eq!(
        asked,
        vec![
            "balance 1",
            "SELL 1 9.5 @ 0.99",
            "balance 1",
            "balance 1",
            "price 1",
            "best 1"
        ]
    );
    assert_eq!(
        told,
        vec!["LIMIT SELL ORDER | Market: BTC Up | Period: 900 | Token: 1 | Limit Price: $0.990000 | Size: 9.500000 | Order ID: \"1\""]
    );
    let trade = t.pending.get("900_1_limit").unwrap();
    assert!(trade.buy_order_confirmed && trade.limit_sell_orders_placed);
    assert_eq!((trade.units, trade.confirmed_balance), (9_500_000, Some(9_500_000)));
}

#[test]
fn a_balance_that_barely_rises_is_no_fill() {
    let mut t = Trader::new(config(None), false, false);
    let mut trade = bought("1");
    trade.buy_order_confirmed = false;
    trade.confirmed_balance = Some(5);
    t.pending.insert("900_1_limit".to_string(), trade);
    let (asked, _) = run(&mut t, |r| match r {
        Request::Balance { .. } => Reply::Balance(Some(6)),
        _ => Reply::Nothing,
    });
    assert_eq!(asked, vec!["balance 1", "balance 1", "price 1"]);
    assert!(!t.pending.get("900_1_limit").unwrap().buy_order_confirmed);
}

#[test]
fn a_trade_without_sell_orders_is_only_confirmed() {
    let mut t = Trader::new(config(None), false, false);
    let mut trade = bought("1");
    trade.buy_order_confirmed = false;
    trade.confirmed_balance = Some(0);
    trade.no_sell = true;
    t.pending.insert("900_1_limit".to_string(), trade);
    let (asked, told) = run(&mut t, |r| match r {
        Request::Balance { .. } => Reply::Balance(Some(9_500_000)),
        _ => Reply::Nothing,
    });
    assert_eq!(asked, vec!["balance 1", "balance 1", "balance 1", "price 1"]);
    assert!(told.is_empty());
    let trade = t.pending.get("900_1_limit").unwrap();
    assert!(trade.buy_order_confirmed && trade.limit_sell_orders_placed);
}

#[test]
fn a_second_fill_is_offered_unless_nothing_is_to_be_sold() {
    let mut t = Trader::new(config(None), false, false);
    let mut trade = bought("1");
    trade.no_sell = true;
    trade.limit_sell_orders_placed = true;
    t.pending.insert("900_1_limit".to_string(), trade);
    let mut gone = bought("2");
    gone.sold = true;
    gone.confirmed_balance = Some(0);
    t.pending.insert("900_2".to_string(), gone);
    let (asked, _) = run(&mut t, |r| match r {
        Request::Balance { .. } => Reply::Balance(Some(12_000_000)),
        _ => Reply::Nothing,
    });
    assert_eq!(
        asked,
        vec!["balance 1", "balance 2", "SELL 2 12.00 @ 0.99", "balance 1", "price 1"]
    );
    assert_eq!(t.pending.get("900_1_limit").unwrap().units, 12_000_000);
    let late = t.pending.get("900_2").unwrap();
    assert!(late.sold && late.limit_sell_orders_placed);
    assert_eq!(late.units, 12_000_000);
}

#[test]
fn a_second_fill_is_offered_for_sale() {
    let mut t = Trader::new(config(None), false, false);
    let mut trade = bought("1");
    trade.limit_sell_orders_placed = true;
    t.pending.insert("900_1_limit".to_string(), trade);
    let (asked, _) = run(&mut t, |r| match r {
        Request::Balance { .. } => Reply::Balance(Some(12_000_000)),
        _ => Reply::Nothing,
    });
    assert_eq!(asked, vec!["balance 1", "SELL 1 12.00 @ 0.99", "balance 1", "price 1"]);
}

#[test]
fn a_limit_buy_has_no_stop_loss() {
    let stop = config(Some(800_000));
    let mut trade = bought("1");
    trade.buy_order_confirmed = false;
    let at = |key: &str, trade: &PendingTrade, price: &str| {
        decide_sale(&stop, key, trade, decimal(price))
    };
    assert_eq!(at("900_1_limit", &trade, "0.5"), None);
    assert_eq!(at("900_1_limit", &trade, "0.99"), Some(Sale::Target));
    assert_eq!(at("900_1", &trade, "0.5"), Some(Sale::StopLoss { stop: 800_000 }));
    trade.limit_sell_orders_placed = true;
    assert_eq!(at("900_1_limit", &trade, "0.5"), None);
    assert_eq!(at("900_1", &trade, "0.8"), Some(Sale::StopLoss { stop: 800_000 }));
    assert_eq!(at("900_opposite_2", &trade, "0.29"), None);
    assert_eq!(at("900_opposite_2", &trade, "0.1"), Some(Sale::OppositeStop));
}

#[test]
fn a_market_buy_is_offered_at_most_once() {
    for accepted in [true, false] {
        let mut t = Trader::new(config(None), false, false);
        t.pending.insert("900_1".to_string(), bought("1"));
        let mut orders = Vec::new();
        for _ in 0..2 {
            let (asked, _) = run(&mut t, |r| match r {
                Request::Balance { .. } => Reply::Balance(Some(9_990_000)),
                Request::Limit(_) if accepted => taken(),
                Request::Limit(_) => refused("no"),
                Request::Price { .. } => Reply::Price(Some(decimal("0.995"))),
                Request::BestPrice { .. } => bid("0.99"),
                _ => Reply::Nothing,
            });
            orders.extend(asked.into_iter().filter(|a| a.starts_with("SELL")));
            assert!(t.pending.get("900_1").unwrap().limit_sell_orders_placed);
        }
        assert_eq!(orders, vec!["SELL 1 9.99 @ 0.99"]);
    }
}

#[test]
fn a_market_buy_is_offered_at_the_configured_price() {
    let mut t = Trader::new(config(None), false, false);
    t.pending.insert("900_1".to_string(), bought("1"));
    let (asked, told) = run(&mut t, |r| match r {
        Request::Balance { .. } => Reply::Balance(Some(10_000_000)),
        Request::Limit(_) => refused("no"),
        _ => Reply::Nothing,
    });
    assert_eq!(
        asked,
        vec!["balance 1", "SELL 1 10.00 @ 0.99", "balance 1", "balance 1", "price 1"]
    );
    assert!(told.is_empty());
    assert!(t.pending.get("900_1").unwrap().limit_sell_orders_placed);
}

#[test]
fn a_limit_sell_is_filled_when_the_shares_are_gone() {
    let mut t = Trader::new(config(None), false, false);
    let mut trade = bought("1");
    trade.limit_sell_orders_placed = true;
    t.pending.insert("900_1".to_string(), trade);
    let (asked, told) = run(&mut t, |r| match r {
        Request::Balance { .. } => Reply::Balance(Some(0)),
        _ => Reply::Nothing,
    });
    assert_eq!(asked, vec!["balance 1", "balance 1"]);
    assert_eq!(told.len(), 1);
    assert!(told[0].starts_with("LIMIT SELL ORDER FILLED | Market: BTC Up"));
    let trade = t.pending.get("900_1").unwrap();
    assert_eq!((trade.sold, trade.confirmed_balance), (true, Some(0)));
    assert_eq!(t.total_profit, 0);
}

#[test]
fn a_stop_loss_is_hedged_with_the_opposite_token() {
    let mut t = Trader::new(config(Some(800_000)), false, false);
    let mut trade = bought("1");
    trade.limit_sell_orders_placed = true;
    t.pending.insert("900_1".to_string(), trade);
    let (asked, told) = run(&mut t, |r| match r {
        Request::Balance { token_id } if token_id == "1" => Reply::Balance(Some(10_000_000)),
        Request::Balance { .. } => Reply::Balance(Some(0)),
        Request::Holding { .. } => Reply::Balance(Some(11_000_000)),
        Request::Price { .. } => Reply::Price(Some(decimal("0.75"))),
        Request::BestPrice { .. } => bid("0.75"),
        Request::RefreshAllowance { .. } => Reply::Refreshed(true),
        Request::AtMarket { .. } => taken(),
        Request::Limit(_) => taken(),
        Request::Market { .. } => market(),
        _ => Reply::Nothing,
    });
    assert_eq!(
        asked,
        vec![
            "balance 1",
            "balance 1",
            "price 1",
            "best 1",
            "holding 1",
            "refresh 1",
            "wait 500",
            "SELL 1 11000000 FAK",
            "market 0xc",
            "balance 2",
            "BUY 2 11.00 @ 0.20",
        ]
    );
    assert_eq!(told.len(), 2);
    assert!(told[0].starts_with("SELL ORDER (STOP-LOSS)"));
    assert!(told[1].starts_with("LIMIT BUY ORDER (OPPOSITE AFTER STOP-LOSS) | Market: BTC Down"));
    assert_eq!(t.total_profit, 11_000_000 * 300_000);
    assert!(t.pending.get("900_1").unwrap().sold);
    let hedge = t.pending.get("900_opposite_limit_2").unwrap();
    assert_eq!(hedge.token_type, TokenType::BtcDown);
    assert_eq!((hedge.purchase_price, hedge.sell_price), (200_000, 300_000));
    assert_eq!((hedge.units, hedge.confirmed_balance), (11_000_000, Some(0)));
    assert!(!hedge.buy_order_confirmed && !hedge.limit_sell_orders_placed);
}

#[test]
fn a_stop_loss_above_a_dollar_orders_below_nothing() {
    for held in [false, true] {
        let mut t = Trader::new(config(Some(1_200_000)), false, false);
        let mut trade = bought("1");
        trade.limit_sell_orders_placed = true;
        t.pending.insert("900_1".to_string(), trade);
        let (asked, told) = run(&mut t, |r| match r {
            Request::Balance { token_id } if token_id == "1" => Reply::Balance(Some(10_000_000)),
            Request::Balance { .. } => Reply::Balance(Some(if held { 10_000_000 } else { 0 })),
            Request::Price { .. } => Reply::Price(Some(decimal("0.75"))),
            Request::BestPrice { .. } => bid("0.75"),
            Request::AtMarket { .. } => taken(),
            Request::Limit(_) => taken(),
            Request::Market { .. } => market(),
            _ => Reply::Nothing,
        });
        let (order, key) = if held {
            ("SELL 2 10.00 @ -0.10", "900_opposite_2")
        } else {
            ("BUY 2 10.00 @ -0.20", "900_opposite_limit_2")
        };
        assert!(asked.contains(&order.to_string()), "{:?}", asked);
        assert!(told[1].contains(if held { "$-0.100000" } else { "$-0.200000" }));
        let hedge = t.pending.get(key).unwrap();
        assert_eq!((hedge.purchase_price, hedge.sell_price), (-200_000, -100_000));
        assert_eq!(hedge.investment_amount, -2_000_000_000_000);
    }
}

#[test]
fn a_filled_limit_buy_is_offered_once_over_two_checks() {
    for accepted in [true, false] {
        let mut t = Trader::new(config(Some(800_000)), false, false);
        let mut trade = bought("1");
        trade.buy_order_confirmed = false;
        trade.confirmed_balance = Some(0);
        t.pending.insert("900_1_limit".to_string(), trade);
        let mut orders = Vec::new();
        for _ in 0..2 {
            let (asked, _) = run(&mut t, |r| match r {
                Request::Balance { .. } => Reply::Balance(Some(9_500_000)),
                Request::Limit(_) if accepted => taken(),
                Request::Limit(_) => refused("no"),
                Request::Price { .. } => Reply::Price(Some(decimal("0.5"))),
                Request::BestPrice { .. } => bid("0.5"),
                _ => Reply::Nothing,
            });
            orders.extend(asked.into_iter().filter(|a| a.contains("SELL") || a.contains("BUY")));
        }
        assert_eq!(orders, vec!["SELL 1 9.5 @ 0.99"]);
    }
}

#[test]
fn simulated_orders_are_filled_at_the_first_levels() {
    let mut t = Trader::new(config(None), true, false);
    let level = |p: &str| OrderBookEntry { price: decimal(p), size: decimal("5") };
    let mut quoted = Vec::new();
    run(&mut t, |r| match r {
        Request::OpenOrders => Reply::Tokens(vec!["1".to_string()]),
        Request::Book { .. } => Reply::Book(Some(OrderBook {
            bids: vec![level("0.40"), level("0.44")],
            asks: vec![level("0.60"), level("0.55")],
        })),
        Request::FillOrders { prices } => {
            quoted.extend(prices.iter().map(|p| (p.bid, p.ask)));
            Reply::Nothing
        }
        _ => Reply::Nothing,
    });
    assert_eq!(quoted, vec![(Some(decimal("0.40")), Some(decimal("0.60")))]);
}

#[test]
fn an_opposite_token_that_is_held_is_offered_instead() {
    let mut t = Trader::new(config(Some(800_000)), false, false);
    let mut trade = bought("1");
    trade.limit_sell_orders_placed = true;
    t.pending.insert("900_1".to_string(), trade);
    let (asked, told) = run(&mut t, |r| match r {
        Request::Balance { .. } => Reply::Balance(Some(10_000_000)),
        Request::Price { token_id } if token_id == "1" => Reply::Price(Some(decimal("0.75"))),
        Request::BestPrice { .. } => bid("0.75"),
        Request::AtMarket { .. } => taken(),
        Request::Limit(_) => taken(),
        Request::Market { .. } => market(),
        _ => Reply::Nothing,
    });
    assert!(asked.contains(&"SELL 2 10.00 @ 0.30".to_string()));
    assert!(asked.contains(&"SELL 1 10000000 FAK".to_string()));
    assert!(told[1].starts_with("LIMIT SELL ORDER (OPPOSITE AFTER STOP-LOSS) | Market: BTC Down"));
    let hedge = t.pending.get("900_opposite_2").unwrap();
    assert!(hedge.buy_order_confirmed && hedge.limit_sell_orders_placed);
    assert_eq!(hedge.confirmed_balance, Some(10_000_000));
}

#[test]
fn an_opposite_token_has_its_own_stop_loss() {
    let mut t = Trader::new(config(Some(800_000)), false, false);
    let mut trade = bought("2");
    trade.limit_sell_orders_placed = true;
    trade.purchase_price = 200_000;
    t.pending.insert("900_opposite_2".to_string(), trade);
    let (asked, told) = run(&mut t, |r| match r {
        Request::Balance { .. } => Reply::Balance(Some(10_000_000)),
        Request::Price { .. } => Reply::Price(Some(decimal("0.09"))),
        Request::BestPrice { .. } => bid("0.09"),
        Request::AtMarket { .. } => taken(),
        _ => Reply::Nothing,
    });
    assert!(asked.contains(&"SELL 2 10000000 FAK".to_string()));
    assert!(!asked.iter().any(|a| a.starts_with("market")));
    assert!(told[0].starts_with("SELL ORDER (STOP-LOSS)"));
    assert!(told[1].starts_with("OPPOSITE TOKEN STOP-LOSS SELL"));
    assert_eq!(t.total_profit, -10_000_000 * 110_000);
    let trade = t.pending.get("900_opposite_2").unwrap();
    assert_eq!((trade.sold, trade.confirmed_balance), (true, Some(0)));
}

#[test]
fn nothing_is_sold_without_buyers() {
    let mut t = Trader::new(config(None), false, false);
    t.pending.insert("900_1_limit".to_string(), bought("1"));
    let (asked, _) = run(&mut t, |r| match r {
        Request::Price { .. } => Reply::Price(Some(decimal("0.995"))),
        Request::BestPrice { .. } => Reply::BestPrice(Some(None)),
        _ => Reply::Nothing,
    });
    assert_eq!(asked, vec!["balance 1", "price 1", "best 1"]);
}

#[test]
fn a_position_is_sold_at_its_target_and_forgotten() {
    let mut t = Trader::new(config(None), false, true);
    t.pending.insert("900_1_limit".to_string(), bought("1"));
    let (asked, told) = run(&mut t, |r| match r {
        Request::Price { .. } => Reply::Price(Some(decimal("0.995"))),
        Request::BestPrice { .. } => bid("0.99"),
        Request::AtMarket { .. } => taken(),
        _ => Reply::Nothing,
    });
    assert_eq!(
        asked,
        vec![
            "balance 1",
            "price 1",
            "best 1",
            "holding 1",
            "refresh 1",
            "SELL 1 10000000 FAK",
            "cycle"
        ]
    );
    assert!(told[0].starts_with("SELL ORDER (PROFIT)"));
    assert!(t.pending.is_empty());
    assert_eq!(t.total_profit, 10_000_000 * 545_000);
}

#[test]
fn a_sale_is_tried_twenty_times_and_then_left_to_closure() {
    let mut t = Trader::new(config(None), false, false);
    t.pending.insert("900_1_limit".to_string(), bought("1"));
    let (asked, told) = run(&mut t, |r| match r {
        Request::Price { .. } => Reply::Price(Some(decimal("0.995"))),
        Request::BestPrice { .. } => bid("0.99"),
        Request::RefreshAllowance { .. } => Reply::Refreshed(true),
        Request::AtMarket { .. } => refused("no orders found"),
        _ => Reply::Nothing,
    });
    let count = |what: &str| asked.iter().filter(|a| a.as_str() == what).count();
    assert_eq!(count("SELL 1 10000000 FAK"), 20);
    assert_eq!(count("wait 1500"), 19);
    assert_eq!(count("refresh 1"), 39);
    assert_eq!(count("wait 500"), 39);
    assert!(told.is_empty());
    let trade = t.pending.get("900_1_limit").unwrap();
    assert!(trade.claim_on_closure);
    assert_eq!(trade.sell_attempts, 20);
    let (asked, _) = run(&mut t, |r| match r {
        Request::Price { .. } => Reply::Price(Some(decimal("0.995"))),
        Request::BestPrice { .. } => bid("0.99"),
        _ => Reply::Nothing,
    });
    assert_eq!(asked, vec!["balance 1", "price 1", "best 1"]);
}

#[test]
fn a_sale_is_given_up_when_the_price_falls() {
    let mut t = Trader::new(config(None), false, false);
    t.pending.insert("900_1_limit".to_string(), bought("1"));
    let mut prices = vec!["0.98", "0.992", "0.995"];
    let (asked, told) = run(&mut t, |r| match r {
        Request::Price { .. } => Reply::Price(Some(decimal(prices.pop().unwrap()))),
        Request::BestPrice { .. } => bid("0.99"),
        Request::AtMarket { .. } => refused("no orders found"),
        _ => Reply::Nothing,
    });
    assert_eq!(asked.iter().filter(|a| a.starts_with("SELL")).count(), 2);
    assert_eq!(told.len(), 1);
    assert!(told[0].contains("Price: $0.980000"));
    assert!(told[0].contains("Attempt: 2/20 | Error: no liquidity / no buyers"));
    let trade = t.pending.get("900_1_limit").unwrap();
    assert!(!trade.claim_on_closure);
    assert_eq!(trade.sell_attempts, 2);
}

#[test]
fn a_simulation_fills_orders_and_sends_none() {
    let mut t = Trader::new(config(Some(800_000)), true, false);
    let mut trade = bought("1");
    trade.buy_order_confirmed = false;
    trade.confirmed_balance = None;
    trade.no_sell = true;
    trade.claim_on_closure = true;
    t.pending.insert("900_1_limit".to_string(), trade);
    let level = || OrderBookEntry { price: decimal("0.44"), size: decimal("5") };
    let (asked, told) = run(&mut t, |r| match r {
        Request::OpenOrders => {
            Reply::Tokens(vec!["1".to_string(), "2".to_string(), "1".to_string()])
        }
        Request::Book { token_id } if token_id == "1" => {
            Reply::Book(Some(OrderBook { bids: vec![level()], asks: vec![] }))
        }
        Request::Position { .. } => Reply::Position(true),
        Request::Balance { .. } => Reply::Balance(Some(0)),
        Request::Price { .. } => Reply::Price(Some(decimal("0.1"))),
        Request::BestPrice { .. } => bid("0.1"),
        _ => Reply::Nothing,
    });
    assert_eq!(
        asked,
        vec![
            "orders", "book 1", "book 2", "fill 1", "position 1", "balance 1", "price 1", "best 1"
        ]
    );
    assert!(told.is_empty());
    let trade = t.pending.get("900_1_limit").unwrap();
    assert!(trade.buy_order_confirmed && trade.claim_on_closure);
    assert_eq!(trade.confirmed_balance, Some(10_000_000));
    assert_eq!(t.total_profit, 0);
}

#[test]
fn a_simulation_without_orders_ends_at_once() {
    let mut t = Trader::new(config(None), true, false);
    t.pending.insert("900_1_market".to_string(), bought("1"));
    let (asked, _) = run(&mut t, |_| Reply::Tokens(Vec::new()));
    assert_eq!(asked, vec!["orders"]);
}

#[test]
fn a_sold_trade_is_only_looked_at_for_new_shares() {
    let mut t = Trader::new(config(None), false, false);
    let mut trade = bought("1");
    trade.sold = true;
    t.pending.insert("900_1".to_string(), trade);
    let (asked, _) = run(&mut t, |_| Reply::Balance(None));
    assert_eq!(asked, vec!["balance 1"]);
    assert_eq!(Side::Sell.text(), "SELL");
}

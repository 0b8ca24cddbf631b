use polymarket_arbitrage_bot::buying::Buying;
use polymarket_arbitrage_bot::events::Event;
use polymarket_arbitrage_bot::exchange::{Failure, Fill, Reply, Request, Side};
use polymarket_arbitrage_bot::models::{BuyOpportunity, OrderResponse, TokenType};
use polymarket_arbitrage_bot::trader::{Trader, TradingConfig};

fn trader(simulation: bool) -> Trader {
    Trader::new(
        TradingConfig {
            fixed_trade_amount: 4_500_000,
            sell_price: 990_000,
            stop_loss_price: None,
            min_time_remaining_seconds: None,
        },
        simulation,
        false,
    )
}

fn opportunity(remaining: u64) -> BuyOpportunity {
    BuyOpportunity {
        condition_id: "0xc".to_string(),
        token_id: "77".to_string(),
        token_type: TokenType::BtcUp,
        bid_price: 450_000,
        period_timestamp: 900,
        time_remaining_seconds: remaining,
        time_elapsed_seconds: 900 - remaining,
        use_market_order: true,
    }
}

fn taken(id: &str) -> Reply {
    Reply::Order(Ok(OrderResponse {
        order_id: Some(id.to_string()),
        status: "MATCHED".to_string(),
        message: None,
    }))
}

fn failed(text: &str) -> Reply {
    Reply::Order(Err(Failure { message: text.to_string(), details: text.to_string() }))
}

#[test]
fn a_late_buy_is_refused() {
    let mut t = trader(false);
    let p = t.execute_buy(&opportunity(29), Buying::Start, Reply::Nothing, 0);
    assert!(matches!(p.request, Request::Finished));
    match p.buying {
        Buying::Refused { reason } => {
            assert!(reason.starts_with("\u{274c} SAFETY CHECK FAILED"));
            assert!(reason.contains("Time remaining: 29 seconds\nMinimum required: 30 seconds"));
        }
        _ => panic!("not refused"),
    }
    t.config.min_time_remaining_seconds = Some(10);
    let p = t.execute_buy(&opportunity(29), Buying::Start, Reply::Nothing, 0);
    assert!(matches!(p.buying, Buying::Sent));
}

#[test]
fn a_market_buy_waits_for_its_shares() {
    let mut t = trader(false);
    let o = opportunity(300);
    let p = t.execute_buy(&o, Buying::Start, Reply::Nothing, 0);
    match p.request {
        Request::AtMarket { token_id, amount, side, fill } => {
            assert_eq!((token_id.as_str(), amount), ("77", 4_500_000));
            assert_eq!((side.text(), fill.text()), ("BUY", "FOK"));
            assert_eq!(side, Side::Buy);
            assert_eq!(fill, Fill::FillOrKill);
        }
        _ => panic!("no order"),
    }
    let p = t.execute_buy(&o, p.buying, taken("1"), 0);
    assert!(matches!(p.request, Request::Holding { .. }));
    let p = t.execute_buy(&o, p.buying, Reply::Balance(Some(0)), 1);
    assert!(matches!(p.request, Request::Wait { milliseconds: 2000 }));
    let p = t.execute_buy(&o, p.buying, Reply::Nothing, 3);
    assert!(matches!(p.request, Request::Holding { .. }));
    let p = t.execute_buy(&o, p.buying, Reply::Balance(None), 4);
    assert!(matches!(p.request, Request::Wait { .. }));
    let p = t.execute_buy(&o, p.buying, Reply::Nothing, 6);
    let p = t.execute_buy(&o, p.buying, Reply::Balance(Some(9_900_000)), 7);
    assert!(matches!(p.buying, Buying::Finished));
    assert!(matches!(&p.events[0], Event::BuyConfirmed { units: 9_900_000, .. }));
    assert_eq!(p.events.len(), 1);
    let trade = t.pending.get("900_77").unwrap();
    assert_eq!(trade.units, 9_900_000);
    assert_eq!(trade.confirmed_balance, Some(9_900_000));
    assert_eq!(trade.investment_amount, 4_500_000_000_000);
    assert!(trade.buy_order_confirmed && !trade.no_sell && !trade.claim_on_closure);
    assert_eq!(t.trades_executed, 1);
    assert!(t.has_active_position(900, TokenType::BtcUp));
}

#[test]
fn shares_that_do_not_arrive_leave_an_unconfirmed_trade() {
    let mut t = trader(false);
    let o = opportunity(300);
    let p = t.execute_buy(&o, Buying::Start, Reply::Nothing, 0);
    let p = t.execute_buy(&o, p.buying, taken("1"), 0);
    let p = t.execute_buy(&o, p.buying, Reply::Balance(Some(0)), 59);
    let p = t.execute_buy(&o, p.buying, Reply::Nothing, 60);
    assert!(matches!(p.buying, Buying::Finished));
    assert!(matches!(&p.events[0], Event::BuyUnconfirmed { units: 0, .. }));
    let trade = t.pending.get("900_77").unwrap();
    assert_eq!((trade.units, trade.confirmed_balance), (0, Some(0)));
    assert!(!trade.buy_order_confirmed);
    assert_eq!(t.trades_executed, 1);
}

#[test]
fn a_failed_market_buy_leaves_nothing() {
    let mut t = trader(false);
    let o = opportunity(300);
    let p = t.execute_buy(&o, Buying::Start, Reply::Nothing, 0);
    let p = t.execute_buy(&o, p.buying, failed("not enough balance"), 0);
    match p.buying {
        Buying::Failed { failure: Some(f) } => assert_eq!(f.message, "not enough balance"),
        _ => panic!("not failed"),
    }
    assert!(p.events[0].text().contains("Units: 10.000000 | Cost: $4.500000 | Status: FAILED"));
    assert!(t.pending.is_empty());
    assert_eq!(t.trades_executed, 0);
}

#[test]
fn a_simulated_market_buy_is_held_until_closure() {
    let mut t = trader(true);
    let o = opportunity(300);
    let p = t.execute_buy(&o, Buying::Start, Reply::Nothing, 0);
    match p.request {
        Request::Simulate { price, units, period, .. } => {
            assert_eq!((price, units, period), (450_000, 10_000_000, 900));
        }
        _ => panic!("not simulated"),
    }
    let p = t.execute_buy(&o, p.buying, Reply::Nothing, 0);
    assert!(matches!(p.buying, Buying::Finished));
    assert!(p.events.is_empty());
    let trade = t.pending.get("900_77_market").unwrap();
    assert!(trade.no_sell && trade.claim_on_closure && !trade.buy_order_confirmed);
    assert_eq!(trade.confirmed_balance, None);
    assert_eq!(t.trades_executed, 0);
}

#[test]
fn a_limit_buy_remembers_what_was_held_before() {
    let mut t = trader(false);
    let o = opportunity(900);
    let p = t.execute_limit_buy(&o, false, Some(7_123_456), Buying::Start, Reply::Nothing);
    match &p.request {
        Request::Limit(order) => {
            let request = order.request();
            assert_eq!(request.side, "BUY");
            assert_eq!(request.size, "7.12");
            assert_eq!(request.price, "0.45");
            assert_eq!(request.order_type, "LIMIT");
            assert_eq!(request.token_id, "77");
        }
        _ => panic!("no order"),
    }
    let p = t.execute_limit_buy(&o, false, Some(7_123_456), p.buying, taken("1"));
    assert!(matches!(p.request, Request::Balance { .. }));
    let p = t.execute_limit_buy(&o, false, Some(7_123_456), p.buying, Reply::Balance(Some(5)));
    assert!(matches!(p.buying, Buying::Finished));
    assert!(matches!(&p.events[0], Event::LimitBuy { units: 7_123_456, .. }));
    let trade = t.pending.get("900_77_limit").unwrap();
    assert_eq!((trade.units, trade.confirmed_balance), (7_123_456, Some(5)));
    assert!(trade.no_sell && !trade.claim_on_closure && !trade.buy_order_confirmed);
    assert_eq!(trade.investment_amount, 7_123_456 * 450_000);
    assert_eq!(t.trades_executed, 0);
}

#[test]
fn a_limit_buy_orders_hundredths_and_invests_the_whole_amount() {
    let mut t = trader(false);
    let mut o = opportunity(900);
    o.bid_price = 410_000;
    let p = t.execute_limit_buy(&o, true, None, Buying::Start, Reply::Nothing);
    match &p.request {
        Request::Limit(order) => assert_eq!(order.request().size, "10.98"),
        _ => panic!("no order"),
    }
    let p = t.execute_limit_buy(&o, true, None, p.buying, taken("1"));
    let p = t.execute_limit_buy(&o, true, None, p.buying, Reply::Balance(None));
    assert!(p.events[0].text().contains("Size: 10.975610"));
    let trade = t.pending.get("900_77_limit").unwrap();
    assert_eq!(trade.units, 10_975_610);
    assert_eq!(trade.investment_amount, 4_500_000_000_000);
}

#[test]
fn without_a_size_a_limit_buy_spends_the_configured_amount() {
    let mut t = trader(false);
    let o = opportunity(900);
    let p = t.execute_limit_buy(&o, true, None, Buying::Start, Reply::Nothing);
    match &p.request {
        Request::Limit(order) => assert_eq!(order.request().size, "10.00"),
        _ => panic!("no order"),
    }
    let p = t.execute_limit_buy(&o, true, None, p.buying, taken("1"));
    let p = t.execute_limit_buy(&o, true, None, p.buying, Reply::Balance(None));
    assert!(matches!(p.buying, Buying::Finished));
    let trade = t.pending.get("900_77_limit").unwrap();
    assert_eq!(trade.confirmed_balance, Some(0));
    assert!(!trade.no_sell);
}

#[test]
fn a_failed_limit_buy_leaves_nothing() {
    let mut t = trader(false);
    let o = opportunity(900);
    let p = t.execute_limit_buy(&o, true, None, Buying::Start, Reply::Nothing);
    let p = t.execute_limit_buy(&o, true, None, p.buying, failed("no"));
    assert!(matches!(p.buying, Buying::Failed { failure: Some(_) }));
    assert!(p.events.is_empty());
    assert!(t.pending.is_empty());
}

#[test]
fn a_simulated_limit_buy_is_held_until_closure() {
    let mut t = trader(true);
    let o = opportunity(900);
    let p = t.execute_limit_buy(&o, true, None, Buying::Start, Reply::Nothing);
    assert!(matches!(p.request, Request::Simulate { .. }));
    let p = t.execute_limit_buy(&o, true, None, p.buying, Reply::Nothing);
    assert!(matches!(p.buying, Buying::Finished));
    let trade = t.pending.get("900_77_limit").unwrap();
    assert!(trade.no_sell && trade.claim_on_closure);
}

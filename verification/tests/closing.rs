use polymarket_arbitrage_bot::closing::ClosureCheck;
use polymarket_arbitrage_bot::events::Event;
use polymarket_arbitrage_bot::exchange::{Failure, Position, Reply, Request};
use polymarket_arbitrage_bot::models::{
    MarketDetails, PendingTrade, RedeemResponse, Token, TokenType,
};
use polymarket_arbitrage_bot::portfolio::PortfolioCheck;
use polymarket_arbitrage_bot::trader::{Trader, TradingConfig};

fn trader(simulation: bool) -> Trader {
    Trader::new(
        TradingConfig {
            fixed_trade_amount: 4_500_000,
            sell_price: 990_000,
            stop_loss_price: None,
            min_time_remaining_seconds: None,
        },
        simulation,
        false,
    )
}

fn held(token: &str, period: u64) -> PendingTrade {
    PendingTrade {
        token_id: token.to_string(),
        condition_id: "0xc".to_string(),
        token_type: TokenType::BtcUp,
        investment_amount: 4_500_000_000_000,
        units: 10_000_000,
        purchase_price: 450_000,
        sell_price: 990_000,
        market_timestamp: period,
        sold: false,
        confirmed_balance: Some(10_000_000),
        buy_order_confirmed: true,
        limit_sell_orders_placed: false,
        no_sell: false,
        claim_on_closure: false,
        sell_attempts: 0,
        redemption_attempts: 0,
        redemption_abandoned: false,
    }
}

fn market(closed: bool, winner: &str) -> Reply {
    let token = |id: &str, outcome: &str| Token {
        token_id: id.to_string(),
        outcome: outcome.to_string(),
        winner: id == winner,
    };
    Reply::Market(Some(MarketDetails {
        condition_id: "0xc".to_string(),
        question: "?".to_string(),
        active: true,
        closed,
        tokens: vec![token("1", "Up"), token("2", "Down")],
    }))
}

fn run(
    trader: &mut Trader,
    now: u64,
    mut answer: impl FnMut(&Request) -> Reply,
) -> (Vec<String>, Vec<String>) {
    let mut asked = Vec::new();
    let mut told = Vec::new();
    let mut check = ClosureCheck::Start;
    let mut reply = Reply::Nothing;
    for _ in 0..100 {
        let progress = trader.check_market_closure(check, reply, now);
        told.extend(progress.events.iter().map(|e: &Event| e.text()));
        let name = match &progress.request {
            Request::Market { condition_id } => format!("market {}", condition_id),
            Request::Holding { token_id } => format!("holding {}", token_id),
            Request::Redeem { condition_id, token_id, token_type } => {
                format!("redeem {} {} {}", condition_id, token_id, token_type.outcome())
            }
            Request::Positions => "positions".to_string(),
            Request::Resolve { condition_id, up, .. } => format!("resolve {} {}", condition_id, up),
            Request::Finished => return (asked, told),
            _ => "other".to_string(),
        };
        asked.push(name);
        reply = answer(&progress.request);
        check = progress.check;
    }
    panic!("the check does not end");
}

fn redeemed(success: bool) -> Reply {
    Reply::Redeemed(Ok(RedeemResponse {
        success,
        message: Some("Will retry.".to_string()),
        transaction_hash: None,
        amount_redeemed: None,
    }))
}

#[test]
fn markets_are_looked_at_thirty_seconds_before_their_end() {
    let mut t = trader(false);
    t.pending.insert("a".to_string(), held("1", 1800));
    let (asked, _) = run(&mut t, 2669, |_| Reply::Nothing);
    assert!(asked.is_empty());
    let (asked, told) = run(&mut t, 2670, |_| market(false, ""));
    assert_eq!(asked, vec!["market 0xc"]);
    assert!(told.is_empty());
    let (asked, _) = run(&mut t, 2670, |_| Reply::Market(None));
    assert_eq!(asked, vec!["market 0xc"]);
    assert!(t.pending.get("a").is_some());
}

#[test]
fn a_winning_trade_is_redeemed_and_booked() {
    let mut t = trader(false);
    t.pending.insert("a".to_string(), held("1", 900));
    let (asked, told) = run(&mut t, 5000, |r| match r {
        Request::Market { .. } => market(true, "1"),
        Request::Holding { .. } => Reply::Balance(Some(10_000_000)),
        Request::Redeem { .. } => redeemed(true),
        _ => Reply::Nothing,
    });
    assert_eq!(asked, vec!["market 0xc", "holding 1", "redeem 0xc 1 Up"]);
    assert_eq!(told.len(), 3);
    assert!(told[0].starts_with("MARKET ENDED"));
    assert!(told[1].contains("Outcome: WON"));
    assert!(told[2].starts_with("REDEMPTION SUCCESS"));
    assert!(t.pending.is_empty());
    assert_eq!(t.total_profit, 10_000_000 * 550_000);
}

#[test]
fn a_losing_trade_costs_what_was_paid() {
    let mut t = trader(false);
    t.pending.insert("a".to_string(), held("1", 900));
    run(&mut t, 5000, |r| match r {
        Request::Market { .. } => market(true, "2"),
        Request::Redeem { .. } => redeemed(true),
        _ => Reply::Nothing,
    });
    assert_eq!(t.total_profit, -10_000_000 * 450_000);
}

#[test]
fn a_trade_without_shares_was_redeemed_already() {
    let mut t = trader(false);
    t.pending.insert("a".to_string(), held("1", 900));
    let (asked, told) = run(&mut t, 5000, |r| match r {
        Request::Market { .. } => market(true, "1"),
        _ => Reply::Balance(Some(0)),
    });
    assert_eq!(asked, vec!["market 0xc", "holding 1"]);
    assert!(told[2].contains("ALREADY_REDEEMED"));
    assert!(t.pending.is_empty());
    assert_eq!(t.total_profit, 10_000_000 * 550_000);
}

#[test]
fn an_unconfirmed_redemption_is_retried() {
    let mut t = trader(false);
    t.pending.insert("a".to_string(), held("1", 900));
    let answer = |r: &Request, success: bool| match r {
        Request::Market { .. } => market(true, "1"),
        Request::Redeem { .. } => redeemed(success),
        _ => Reply::Nothing,
    };
    let (_, told) = run(&mut t, 5000, |r| answer(r, false));
    assert!(told.last().unwrap().contains("Attempt: 1/20 | Status: RETRYING"));
    let trade = t.pending.get("a").unwrap();
    assert!(!trade.sold);
    assert_eq!(trade.redemption_attempts, 1);
    assert_eq!(t.total_profit, 0);
    let (_, told) = run(&mut t, 5000, |r| answer(r, true));
    assert!(told.last().unwrap().starts_with("REDEMPTION SUCCESS"));
    assert!(t.pending.is_empty());
    assert_eq!(t.total_profit, 10_000_000 * 550_000);
}

#[test]
fn an_unconfirmed_redemption_is_given_up_with_its_message() {
    let mut t = trader(false);
    let mut trade = held("1", 900);
    trade.redemption_attempts = 19;
    t.pending.insert("a".to_string(), trade);
    let (_, told) = run(&mut t, 5000, |r| match r {
        Request::Market { .. } => market(true, "1"),
        Request::Redeem { .. } => redeemed(false),
        _ => Reply::Nothing,
    });
    assert!(told.last().unwrap().contains("Status: ABANDONED | Error: Will retry."));
    assert!(t.pending.get("a").unwrap().redemption_abandoned);
}

#[test]
fn a_redemption_is_tried_twenty_times() {
    let mut t = trader(false);
    t.pending.insert("a".to_string(), held("1", 900));
    for attempt in 1..=20u32 {
        let (_, told) = run(&mut t, 5000, |r| match r {
            Request::Market { .. } => market(true, "1"),
            Request::Redeem { .. } => Reply::Redeemed(Err(Failure {
                message: "relayer down".to_string(),
                details: "relayer down".to_string(),
            })),
            _ => Reply::Nothing,
        });
        let last = told.last().unwrap().clone();
        let trade = t.pending.get("a").unwrap();
        assert_eq!(trade.redemption_attempts, attempt);
        assert_eq!(trade.redemption_abandoned, attempt == 20);
        if attempt < 20 {
            assert!(last.contains(&format!("Attempt: {}/20 | Status: RETRYING", attempt)));
            assert!(t.has_active_position(900, TokenType::BtcUp));
        } else {
            assert!(last.contains("Attempts: 20 | Status: ABANDONED | Error: relayer down"));
            assert!(!t.has_active_position(900, TokenType::BtcUp));
        }
    }
    assert_eq!(t.total_profit, 0);
    t.cleanup_old_abandoned_trades(1800);
    assert!(t.pending.is_empty());
}

#[test]
fn a_simulation_resolves_positions_and_redeems_nothing() {
    let mut t = trader(true);
    let position = |token: &str, side: TokenType, period: u64| Position {
        token_id: token.to_string(),
        token_type: side,
        condition_id: "0xc".to_string(),
        period_timestamp: period,
    };
    let (asked, told) = run(&mut t, 2000, |r| match r {
        Request::Positions => Reply::Positions(vec![
            position("1", TokenType::BtcUp, 900),
            position("2", TokenType::BtcDown, 900),
            position("1", TokenType::BtcUp, 1800),
        ]),
        Request::Market { .. } => market(true, "2"),
        _ => Reply::Nothing,
    });
    assert_eq!(
        asked,
        vec!["positions", "market 0xc", "resolve 0xc false", "market 0xc", "resolve 0xc false"]
    );
    assert!(told.is_empty());
}

#[test]
fn a_trade_is_redeemed_by_its_token() {
    let mut t = trader(false);
    t.pending.insert("a".to_string(), held("1", 900));
    assert!(matches!(t.redeem_token_by_id("1"), Ok(Request::Redeem { .. })));
    match t.redeem_token_by_id("0123456789abcdefXYZ") {
        Err(text) => assert_eq!(text, "Trade not found for token 0123456789abcdef"),
        Ok(_) => panic!("found"),
    }
}

fn compare(trader: &mut Trader, mut held: impl FnMut(&str) -> Option<u64>) -> usize {
    let mut asked = 0;
    let (mut check, mut request) =
        trader.sync_trades_with_portfolio(PortfolioCheck::Start, Reply::Nothing);
    loop {
        let reply = match &request {
            Request::Holding { token_id } => Reply::Balance(held(token_id)),
            Request::Finished => return asked,
            _ => panic!("unexpected request"),
        };
        asked += 1;
        let next = trader.sync_trades_with_portfolio(check, reply);
        check = next.0;
        request = next.1;
    }
}

#[test]
fn trades_are_held_against_the_portfolio() {
    let mut t = trader(false);
    t.pending.insert("gone".to_string(), held("1", 900));
    t.pending.insert("same".to_string(), held("2", 900));
    t.pending.insert("more".to_string(), held("3", 900));
    t.pending.insert("less".to_string(), held("4", 900));
    t.pending.insert("unknown".to_string(), held("5", 900));
    let mut sold = held("6", 900);
    sold.sold = true;
    t.pending.insert("sold".to_string(), sold);
    let asked = compare(&mut t, |token| match token {
        "1" => Some(0),
        "2" => Some(10_001_000),
        "3" => Some(10_001_001),
        "4" => Some(9_998_999),
        _ => None,
    });
    assert_eq!(asked, 5);
    assert!(t.pending.get("gone").is_none());
    assert_eq!(t.pending.get("same").unwrap().units, 10_000_000);
    assert_eq!(t.pending.get("more").unwrap().units, 10_001_001);
    assert_eq!(t.pending.get("more").unwrap().confirmed_balance, Some(10_001_001));
    assert_eq!(t.pending.get("less").unwrap().units, 9_998_999);
    assert_eq!(t.pending.get("unknown").unwrap().units, 10_000_000);
    assert!(t.pending.get("sold").unwrap().sold);
}

#[test]
fn a_second_comparison_changes_nothing() {
    let mut t = trader(false);
    for (key, token) in [("a", "1"), ("b", "2"), ("c", "3"), ("d", "2")] {
        t.pending.insert(key.to_string(), held(token, 900));
    }
    let portfolio = |token: &str| match token {
        "1" => Some(0),
        "2" => Some(5_000_000),
        _ => None,
    };
    assert_eq!(compare(&mut t, portfolio), 4);
    let once = t.print_trade_summary("10:00:00");
    assert_eq!(compare(&mut t, portfolio), 3);
    assert_eq!(t.print_trade_summary("10:00:00"), once);
    assert_eq!(t.pending.get("d").unwrap().confirmed_balance, Some(5_000_000));
}

#[test]
fn the_summary_lists_unsold_trades() {
    let mut t = trader(false);
    assert_eq!(
        t.print_trade_summary("10:00:00"),
        "[10:00:00] [INFO ]  Trade summary | executed=0 | profit=$0.00 | pending=0\n[10:00:00] [INFO ]  No pending trades.\n"
    );
    t.pending.insert("900_1".to_string(), held("1", 900));
    let mut sold = held("2", 900);
    sold.sold = true;
    t.pending.insert("900_2".to_string(), sold);
    t.trades_executed = 2;
    t.total_profit = -1_500_000_000_000;
    assert_eq!(
        t.print_trade_summary("10:00:00"),
        "[10:00:00] [INFO ]  Trade summary | executed=2 | profit=$-1.50 | pending=1\n[10:00:00] [INFO ]  Pending 900_1 | BTC Up | 10.00 @ $0.45 | sell $0.99 | inv $4.50\n"
    );
    assert_eq!(
        t.summary_tokens(vec!["9".to_string(), "1".to_string()]),
        vec!["9".to_string(), "1".to_string(), "2".to_string()]
    );
}

use polymarket_arbitrage_bot::models::{MarketDetails, PendingTrade, Token, TokenType};
use polymarket_arbitrage_bot::trader::{
    check_market_result, get_opposite_token_id, market_resolved_up, outcome_names_side, Trader,
    TradingConfig,
};
use polymarket_arbitrage_bot::trades::{Change, Class, Trades};

fn config() -> TradingConfig {
    TradingConfig {
        fixed_trade_amount: 4_500_000,
        sell_price: 990_000,
        stop_loss_price: Some(800_000),
        min_time_remaining_seconds: None,
    }
}

fn trade(token: &str, side: TokenType, period: u64) -> PendingTrade {
    PendingTrade {
        token_id: token.to_string(),
        condition_id: "0xc".to_string(),
        token_type: side,
        investment_amount: 4_500_000_000_000,
        units: 10_000_000,
        purchase_price: 450_000,
        sell_price: 990_000,
        market_timestamp: period,
        sold: false,
        confirmed_balance: None,
        buy_order_confirmed: false,
        limit_sell_orders_placed: false,
        no_sell: false,
        claim_on_closure: false,
        sell_attempts: 0,
        redemption_attempts: 0,
        redemption_abandoned: false,
    }
}

fn market(outcomes: &[(&str, &str, bool)], closed: bool) -> MarketDetails {
    MarketDetails {
        condition_id: "0xc".to_string(),
        question: "Up or down?".to_string(),
        active: true,
        closed,
        tokens: outcomes
            .iter()
            .map(|(id, outcome, winner)| Token {
                token_id: id.to_string(),
                outcome: outcome.to_string(),
                winner: *winner,
            })
            .collect(),
    }
}

#[test]
fn a_new_trader_holds_nothing() {
    let trader = Trader::new(config(), true, false);
    assert!(trader.pending.is_empty());
    assert_eq!(trader.total_profit, 0);
    assert_eq!(trader.trades_executed, 0);
    assert!(!trader.has_active_position(900, TokenType::BtcUp));
}

#[test]
fn only_open_positions_of_the_period_and_side_count() {
    let mut trader = Trader::new(config(), false, false);
    let mut sold = trade("1", TokenType::BtcUp, 900);
    sold.sold = true;
    trader.pending.insert("a".to_string(), sold);
    let mut abandoned = trade("1", TokenType::BtcUp, 900);
    abandoned.redemption_abandoned = true;
    trader.pending.insert("b".to_string(), abandoned);
    trader.pending.insert("c".to_string(), trade("1", TokenType::BtcUp, 1800));
    trader.pending.insert("d".to_string(), trade("2", TokenType::EthUp, 900));
    assert!(!trader.has_active_position(900, TokenType::BtcUp));
    assert!(trader.has_active_position(900, TokenType::EthUp));
    trader.pending.insert("e".to_string(), trade("1", TokenType::BtcUp, 900));
    assert!(trader.has_active_position(900, TokenType::BtcUp));
}

#[test]
fn closing_a_period_frees_it() {
    let mut trader = Trader::new(config(), false, false);
    trader.pending.insert("a".to_string(), trade("1", TokenType::BtcUp, 900));
    trader.pending.insert("b".to_string(), trade("2", TokenType::BtcUp, 1800));
    trader.mark_position_closed(900);
    assert!(!trader.has_active_position(900, TokenType::BtcUp));
    assert!(trader.has_active_position(1800, TokenType::BtcUp));
    assert!(trader.pending.get("a").unwrap().sold);
    trader.reset_period(900);
    assert!(trader.pending.get("a").is_none());
    assert!(trader.pending.get("b").is_some());
}

#[test]
fn old_abandoned_trades_are_forgotten() {
    let mut trader = Trader::new(config(), false, false);
    let mut old = trade("1", TokenType::BtcUp, 900);
    old.redemption_abandoned = true;
    trader.pending.insert("old".to_string(), old.clone());
    old.market_timestamp = 1800;
    trader.pending.insert("current".to_string(), old);
    trader.pending.insert("open".to_string(), trade("1", TokenType::BtcUp, 900));
    trader.cleanup_old_abandoned_trades(1800);
    assert!(trader.pending.get("old").is_none());
    assert!(trader.pending.get("current").is_some());
    assert!(trader.pending.get("open").is_some());
    assert!(trader.has_active_position(900, TokenType::BtcUp));
}

#[test]
fn the_opposite_token_is_found_by_its_outcome() {
    let names = market(&[("1", "Up", false), ("2", "down", false)], false);
    assert_eq!(get_opposite_token_id(TokenType::BtcUp, &names), Some("2".to_string()));
    assert_eq!(get_opposite_token_id(TokenType::XrpDown, &names), Some("1".to_string()));
    let digits = market(&[("1", "1", false), ("2", "0", false)], false);
    assert_eq!(get_opposite_token_id(TokenType::EthUp, &digits), Some("2".to_string()));
    assert_eq!(get_opposite_token_id(TokenType::EthDown, &digits), Some("1".to_string()));
    let other = market(&[("1", "Yes", false), ("2", "No", false)], false);
    assert_eq!(get_opposite_token_id(TokenType::BtcUp, &other), None);
}

#[test]
fn outcomes_in_upper_case_name_sides() {
    assert!(outcome_names_side("UP", true));
    assert!(outcome_names_side("1", true));
    assert!(!outcome_names_side("10", true));
    assert!(outcome_names_side("GOES DOWN", false));
    assert!(outcome_names_side("0", false));
    assert!(!outcome_names_side("up", true));
}

#[test]
fn a_token_wins_where_the_market_says_so() {
    let closed = market(&[("1", "Up", true), ("2", "Down", false)], true);
    assert_eq!(check_market_result(&closed, "1"), (true, true));
    assert_eq!(check_market_result(&closed, "2"), (true, false));
    let open = market(&[("1", "Up", false)], false);
    assert_eq!(check_market_result(&open, "1"), (false, false));
}

#[test]
fn both_sides_agree_on_the_resolution() {
    assert!(market_resolved_up(TokenType::BtcUp, true));
    assert!(market_resolved_up(TokenType::BtcDown, false));
    assert!(!market_resolved_up(TokenType::BtcUp, false));
    assert!(!market_resolved_up(TokenType::BtcDown, true));
}

#[test]
fn trades_are_kept_by_key() {
    let mut trades = Trades::new();
    trades.insert("a".to_string(), trade("1", TokenType::BtcUp, 900));
    trades.insert("b".to_string(), trade("2", TokenType::BtcUp, 900));
    trades.insert("a".to_string(), trade("3", TokenType::BtcUp, 900));
    assert_eq!(trades.snapshot().len(), 2);
    assert_eq!(trades.get("a").unwrap().token_id, "3");
    trades.remove("a");
    assert!(trades.get("a").is_none());
    trades.replace("a", trade("4", TokenType::BtcUp, 900));
    assert!(trades.get("a").is_none());
    trades.replace("b", trade("4", TokenType::BtcUp, 900));
    assert_eq!(trades.get("b").unwrap().token_id, "4");
    assert!(trades.any(Class::OfPeriod { period: 900 }));
    trades.drop_all(Class::OfPeriod { period: 900 });
    assert!(trades.is_empty());
}

#[test]
fn changes_touch_only_what_they_are_about() {
    let t = trade("1", TokenType::BtcUp, 900);
    let confirmed = Change::Confirmed.apply(&t);
    assert!(confirmed.buy_order_confirmed);
    assert_eq!(confirmed.confirmed_balance, Some(10_000_000));
    let filled = Change::Filled { shares: 9_000_000 }.apply(&t);
    assert_eq!((filled.units, filled.confirmed_balance), (9_000_000, Some(9_000_000)));
    assert!(filled.buy_order_confirmed && !filled.sold);
    assert!(Change::Offered.apply(&t).limit_sell_orders_placed);
    assert!(Change::Sold.apply(&t).sold);
    let out = Change::SoldOut.apply(&t);
    assert_eq!((out.sold, out.confirmed_balance, out.units), (true, Some(0), 10_000_000));
    assert_eq!(Change::Attempted { attempts: 7 }.apply(&t).sell_attempts, 7);
    let counted = Change::Counted { shares: 5 }.apply(&t);
    assert_eq!((counted.units, counted.confirmed_balance), (5, Some(5)));
    assert!(!counted.buy_order_confirmed);
}

use polymarket_arbitrage_bot::models::{PendingTrade, TokenType};
use polymarket_arbitrage_bot::start::{
    limit_price_of, MarketData, MarketSnapshot, MarketStart, StartConfig,
};
use polymarket_arbitrage_bot::trader::{Trader, TradingConfig};
use polymarket_arbitrage_bot::TokenPrice;

fn price(token: &str) -> Option<TokenPrice> {
    Some(TokenPrice { token_id: token.to_string(), bid: None, ask: None })
}

fn market(name: &str) -> MarketData {
    MarketData {
        condition_id: format!("0x{}", name),
        up_token: price(&format!("{}-up", name)),
        down_token: price(&format!("{}-down", name)),
    }
}

fn snapshot(period: u64, remaining: u64) -> MarketSnapshot {
    MarketSnapshot {
        eth_market: market("eth"),
        btc_market: market("btc"),
        solana_market: market("sol"),
        xrp_market: market("xrp"),
        period_timestamp: period,
        time_remaining_seconds: remaining,
    }
}

fn config(eth: bool, solana: bool, xrp: bool) -> StartConfig {
    StartConfig {
        limit_price: limit_price_of(None),
        enable_eth: eth,
        enable_solana: solana,
        enable_xrp: xrp,
    }
}

#[test]
fn the_first_snapshot_buys_nothing() {
    let mut start = MarketStart::new();
    assert!(start.on_snapshot(&config(true, true, true), &snapshot(900, 900)).is_empty());
    assert!(start.seen);
    assert_eq!(start.skipped, None);
    assert_eq!(start.last_placed, None);
}

#[test]
fn a_market_that_had_begun_is_never_bought() {
    let mut start = MarketStart::new();
    let all = config(true, true, true);
    assert!(start.on_snapshot(&all, &snapshot(900, 0)).is_empty());
    assert!(!start.seen);
    assert!(start.on_snapshot(&all, &snapshot(1800, 899)).is_empty());
    assert_eq!(start.skipped, Some(1800));
    assert!(start.on_snapshot(&all, &snapshot(1800, 898)).is_empty());
    assert_eq!(start.on_snapshot(&all, &snapshot(2700, 900)).len(), 8);
}

#[test]
fn a_market_that_begins_with_the_bot_is_bought_on_the_second_look() {
    let mut start = MarketStart::new();
    let all = config(true, true, true);
    assert!(start.on_snapshot(&all, &snapshot(900, 900)).is_empty());
    assert_eq!(start.on_snapshot(&all, &snapshot(900, 899)).len(), 8);
    assert!(start.on_snapshot(&all, &snapshot(900, 898)).is_empty());
}

#[test]
fn a_new_market_is_bought_on_both_sides_once() {
    let mut start = MarketStart::new();
    let all = config(true, true, true);
    start.on_snapshot(&all, &snapshot(900, 500));
    let buys = start.on_snapshot(&all, &snapshot(1800, 899));
    let tokens: Vec<&str> = buys.iter().map(|b| b.token_id.as_str()).collect();
    assert_eq!(
        tokens,
        vec![
            "btc-up", "btc-down", "eth-up", "eth-down", "sol-up", "sol-down", "xrp-up", "xrp-down"
        ]
    );
    for buy in &buys {
        assert_eq!((buy.bid_price, buy.period_timestamp), (450_000, 1800));
        assert_eq!((buy.time_remaining_seconds, buy.time_elapsed_seconds), (899, 1));
        assert!(!buy.use_market_order);
    }
    assert_eq!(buys[2].condition_id, "0xeth");
    assert_eq!(buys[2].token_type, TokenType::EthUp);
    assert!(start.on_snapshot(&all, &snapshot(1800, 898)).is_empty());
    assert_eq!(start.on_snapshot(&all, &snapshot(2700, 900)).len(), 8);
}

#[test]
fn a_market_that_began_earlier_is_left_alone() {
    let mut start = MarketStart::new();
    let btc = config(false, false, false);
    start.on_snapshot(&btc, &snapshot(900, 500));
    assert!(start.on_snapshot(&btc, &snapshot(1800, 897)).is_empty());
    assert!(start.on_snapshot(&btc, &snapshot(1800, 0)).is_empty());
    assert_eq!(start.last_placed, None);
    assert_eq!(start.on_snapshot(&btc, &snapshot(1800, 898)).len(), 2);
}

#[test]
fn missing_tokens_and_disabled_markets_are_left_out() {
    let mut start = MarketStart::new();
    let some = config(false, true, false);
    start.on_snapshot(&some, &snapshot(900, 500));
    let mut seen = snapshot(1800, 900);
    seen.btc_market.down_token = None;
    seen.solana_market.up_token = None;
    let buys = start.on_snapshot(&some, &seen);
    let sides: Vec<TokenType> = buys.iter().map(|b| b.token_type).collect();
    assert_eq!(sides, vec![TokenType::BtcUp, TokenType::SolanaDown]);
}

#[test]
fn a_configured_price_is_offered() {
    assert_eq!(limit_price_of(Some(400_000)), 400_000);
    assert_eq!(limit_price_of(None), 450_000);
}

#[test]
fn sides_with_an_open_position_are_skipped() {
    let mut start = MarketStart::new();
    let btc = config(true, false, false);
    start.on_snapshot(&btc, &snapshot(900, 500));
    let buys = start.on_snapshot(&btc, &snapshot(1800, 900));
    let mut trader = Trader::new(
        TradingConfig {
            fixed_trade_amount: 1,
            sell_price: 1,
            stop_loss_price: None,
            min_time_remaining_seconds: None,
        },
        true,
        false,
    );
    trader.pending.insert(
        "k".to_string(),
        PendingTrade {
            token_id: "btc-down".to_string(),
            condition_id: "0xbtc".to_string(),
            token_type: TokenType::BtcDown,
            investment_amount: 0,
            units: 0,
            purchase_price: 0,
            sell_price: 0,
            market_timestamp: 1800,
            sold: false,
            confirmed_balance: None,
            buy_order_confirmed: false,
            limit_sell_orders_placed: false,
            no_sell: true,
            claim_on_closure: true,
            sell_attempts: 0,
            redemption_attempts: 0,
            redemption_abandoned: false,
        },
    );
    assert_eq!(trader.next_limit_buy(&buys, 0), Some(0));
    assert_eq!(trader.next_limit_buy(&buys, 1), Some(2));
    assert_eq!(trader.next_limit_buy(&buys, 3), Some(3));
    assert_eq!(trader.next_limit_buy(&buys, 4), None);
}

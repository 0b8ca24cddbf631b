use polymarket_arbitrage_bot::decimal::Decimal;
use polymarket_arbitrage_bot::events::{
    buy_failure_text, diagnose_sell, sell_failure_text, Diagnosis, Event, Purpose,
};
use polymarket_arbitrage_bot::models::TokenType;

const TOKEN: &str = "0123456789abcdefXYZ";

#[test]
fn a_confirmed_buy_is_reported() {
    let event = Event::BuyConfirmed {
        token_type: TokenType::BtcUp,
        period: 1_763_200_800,
        token_id: TOKEN.to_string(),
        price: 450_000,
        units: 10_000_000,
        order_id: Some("0xab".to_string()),
    };
    assert_eq!(
        event.text(),
        "BUY ORDER | Market: BTC Up | Period: 1763200800 | Token: 0123456789abcdef | Price: $0.450000 | Units: 10.000000 | Cost: $4.500000 | Order ID: \"0xab\" | Status: CONFIRMED"
    );
    assert_eq!(event.text_with("\"0xab\""), event.text());
}

#[test]
fn an_order_without_identifier_is_not_available() {
    let event = Event::BuyUnconfirmed {
        token_type: TokenType::EthDown,
        period: 900,
        token_id: "7".to_string(),
        price: 500_000,
        units: 0,
        order_id: None,
    };
    assert_eq!(
        event.text(),
        "BUY ORDER | Market: ETH Down | Period: 900 | Token: 7 | Price: $0.500000 | Units: 0.000000 | Cost: $0.000000 | Order ID: N/A | Status: SUCCESS | Note: Balance check timeout/failed"
    );
}

#[test]
fn identifiers_are_quoted_and_escaped() {
    let event = Event::OrderPlaced {
        purpose: Purpose::BuyOpposite,
        token_type: TokenType::XrpDown,
        period: 900,
        token_id: TOKEN.to_string(),
        price: 200_000,
        size: 5_000_000,
        order_id: Some("a\"b".to_string()),
    };
    assert_eq!(
        event.text(),
        "LIMIT BUY ORDER (OPPOSITE AFTER STOP-LOSS) | Market: XRP Down | Period: 900 | Token: 0123456789abcdef | Limit Price: $0.200000 | Size: 5.000000 | Order ID: \"a\\\"b\""
    );
}

#[test]
fn a_limit_buy_names_its_target() {
    let event = Event::LimitBuy {
        token_type: TokenType::SolanaUp,
        period: 900,
        token_id: TOKEN.to_string(),
        price: 450_000,
        units: 10_000_000,
        order_id: None,
        sell_price: 990_000,
    };
    assert_eq!(
        event.text(),
        "LIMIT BUY ORDER | Market: Solana Up | Period: 900 | Token: 0123456789abcdef | Limit Price: $0.450000 | Size: 10.000000 | Order ID: N/A | Target Sell: $0.990000 (profit only, stop-loss disabled)"
    );
}

#[test]
fn orders_are_titled_by_their_purpose() {
    let titles = [
        (Purpose::SellFilledBuy, "LIMIT SELL ORDER |"),
        (Purpose::TakeProfit, "LIMIT SELL ORDER (PROFIT) |"),
        (Purpose::SellOpposite, "LIMIT SELL ORDER (OPPOSITE AFTER STOP-LOSS) |"),
    ];
    for (purpose, title) in titles {
        let event = Event::OrderPlaced {
            purpose,
            token_type: TokenType::BtcUp,
            period: 900,
            token_id: TOKEN.to_string(),
            price: 1,
            size: 1,
            order_id: None,
        };
        assert!(event.text().starts_with(title));
    }
}

#[test]
fn filled_sales_are_reported() {
    let event = Event::SellFilled {
        opposite: true,
        token_type: TokenType::BtcDown,
        period: 900,
        token_id: TOKEN.to_string(),
        purchase_price: 200_000,
        sell_price: 300_000,
        shares: 10_000_000,
    };
    assert_eq!(
        event.text(),
        "OPPOSITE TOKEN LIMIT SELL ORDER FILLED | Market: BTC Down | Period: 900 | Token: 0123456789abcdef | Purchase Price: $0.200000 | Sell Price: $0.300000 | Shares Sold: 10.000000 | Revenue: $3.000000 | Status: FILLED"
    );
    let event = Event::OppositeStopLoss {
        token_type: TokenType::BtcDown,
        period: 900,
        token_id: TOKEN.to_string(),
        purchase_price: 200_000,
        quote: Decimal::from_parts(9, 2).unwrap(),
        shares: 10_000_000,
    };
    assert_eq!(
        event.text(),
        "OPPOSITE TOKEN STOP-LOSS SELL | Market: BTC Down | Period: 900 | Token: 0123456789abcdef | Purchase Price: $0.200000 | Sell Price: $0.090000 | Shares Sold: 10.000000 | Status: FILLED"
    );
}

#[test]
fn market_sells_are_profits_or_losses() {
    let sold = |price: &str, stop_loss: bool| Event::Sold {
        stop_loss,
        token_type: TokenType::BtcUp,
        period: 900,
        quote: Decimal::parse(price).unwrap(),
        units: 10_000_000,
        purchase_price: 450_000,
        order_id: None,
    };
    assert_eq!(
        sold("0.99", false).text(),
        "SELL ORDER (PROFIT) | Market: BTC Up | Period: 900 | Price: $0.990000 | Units: 10.000000 | Revenue: $9.900000 | Profit: $5.400000 | Order ID: N/A | Status: SUCCESS"
    );
    assert_eq!(
        sold("0.3", true).text(),
        "SELL ORDER (STOP-LOSS) | Market: BTC Up | Period: 900 | Price: $0.300000 | Units: 10.000000 | Revenue: $3.000000 | Loss: $-1.500000 | Order ID: N/A | Status: SUCCESS"
    );
    assert_eq!(
        sold("0.9900009", false).text(),
        "SELL ORDER (PROFIT) | Market: BTC Up | Period: 900 | Price: $0.990001 | Units: 10.000000 | Revenue: $9.900009 | Profit: $5.400009 | Order ID: N/A | Status: SUCCESS"
    );
}

#[test]
fn a_sale_that_is_given_up_says_why() {
    let event = Event::SellStopped {
        token_type: TokenType::BtcUp,
        period: 900,
        quote: Decimal::from_parts(95, 2).unwrap(),
        units: 10_000_000,
        purchase_price: 450_000,
        attempt: 3,
        details: "No opposing orders in the book".to_string(),
    };
    assert_eq!(
        event.text(),
        "SELL ORDER (PROFIT) | Market: BTC Up | Period: 900 | Price: $0.950000 | Units: 10.000000 | Revenue: $9.500000 | Profit: $5.000000 | Status: FAILED | Attempt: 3/20 | Error: no liquidity / no buyers | Stopped: Price recovered"
    );
}

#[test]
fn the_end_of_a_market_is_reported() {
    let ended = Event::MarketEnded {
        token_type: TokenType::BtcUp,
        period: 900,
        condition_id: "0xc".to_string(),
    };
    assert_eq!(ended.text(), "MARKET ENDED | Market: BTC Up | Period: 900 | Condition: 0xc");
    let result = |won: bool| Event::MarketResult {
        token_type: TokenType::BtcUp,
        period: 900,
        won,
        units: 10_000_000,
        purchase_price: 450_000,
    };
    assert_eq!(
        result(true).text(),
        "MARKET RESULT | Market: BTC Up | Period: 900 | Outcome: WON | Token Value: $1.000000 | Cost: $4.500000 | Value: $10.000000 | Profit: $5.500000"
    );
    assert_eq!(
        result(false).text(),
        "MARKET RESULT | Market: BTC Up | Period: 900 | Outcome: LOST | Token Value: $0.000000 | Cost: $4.500000 | Value: $0.000000 | Profit: $-4.500000"
    );
}

#[test]
fn redemptions_are_reported() {
    let token_type = TokenType::EthUp;
    assert_eq!(
        Event::AlreadyRedeemed { token_type, period: 900 }.text(),
        "REDEMPTION STATUS | Market: ETH Up | Period: 900 | Status: ALREADY_REDEEMED"
    );
    assert_eq!(
        Event::Redeemed { token_type, period: 900, attempt: 2 }.text(),
        "REDEMPTION SUCCESS | Market: ETH Up | Period: 900 | Attempt: 2 | Status: SUCCESS"
    );
    assert_eq!(
        Event::RedemptionRetry { token_type, period: 900, attempt: 2 }.text(),
        "REDEMPTION RETRY | Market: ETH Up | Period: 900 | Attempt: 2/20 | Status: RETRYING"
    );
    let message = "\u{e9}".repeat(150);
    assert_eq!(
        Event::RedemptionAbandoned { token_type, period: 900, attempts: 20, message }.text(),
        format!(
            "REDEMPTION FAILED | Market: ETH Up | Period: 900 | Attempts: 20 | Status: ABANDONED | Error: {}",
            "\u{e9}".repeat(100)
        )
    );
}

#[test]
fn failed_buys_are_told_in_few_words() {
    assert_eq!(
        buy_failure_text("x: order couldn't be fully filled, FOK"),
        "order couldn't be fully filled (FOK)"
    );
    assert_eq!(buy_failure_text("FOK orders are killed"), "order couldn't be fully filled (FOK)");
    assert_eq!(
        buy_failure_text("not enough balance / allowance"),
        "not enough balance / allowance"
    );
    assert_eq!(buy_failure_text("Insufficient funds"), "Insufficient balance or allowance");
    assert_eq!(
        buy_failure_text("  \nTroubleshooting:\nOrder details:\nserver said no\nmore"),
        "server said no"
    );
    assert_eq!(buy_failure_text("Order details:\n"), "Order failed");
    let failed = Event::BuyFailed {
        token_type: TokenType::BtcUp,
        period: 900,
        token_id: TOKEN.to_string(),
        price: 450_000,
        units: 10_000_000,
        details: "boom".to_string(),
    };
    assert!(failed.text().ends_with("| Cost: $4.500000 | Status: FAILED | Error: boom"));
}

#[test]
fn failed_sales_are_told_in_few_words() {
    assert_eq!(sell_failure_text("no allowance"), "not enough balance / allowance");
    assert_eq!(sell_failure_text("no orders found"), "no liquidity / no buyers");
    assert_eq!(sell_failure_text("couldn't be fully filled"), "insufficient liquidity");
    assert_eq!(sell_failure_text("\nOrder details:\nx"), "Order details:");
    assert_eq!(sell_failure_text("Troubleshooting"), "Sell failed");
}

#[test]
fn failed_sales_are_diagnosed() {
    assert_eq!(diagnose_sell("not enough balance / allowance"), Diagnosis::Allowance);
    assert_eq!(diagnose_sell("not enough balance"), Diagnosis::Balance);
    assert_eq!(diagnose_sell("FOK order killed"), Diagnosis::Fill);
    assert_eq!(diagnose_sell("order couldn't be fully filled"), Diagnosis::Fill);
    assert_eq!(diagnose_sell("No opposing orders"), Diagnosis::NoOrders);
    assert_eq!(diagnose_sell("timeout"), Diagnosis::Unknown);
    assert_eq!(Diagnosis::Fill.explain().0, "FILL ERROR");
    assert_eq!(Diagnosis::Unknown.explain().1, "Unknown error - see full error message above");
}

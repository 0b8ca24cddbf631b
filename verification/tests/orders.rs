use polymarket_arbitrage_bot::api::HttpResponse;
use polymarket_arbitrage_bot::exchange::{Failure, Reply, Request, Side};
use polymarket_arbitrage_bot::models::{MarketDetails, OrderResponse, Token};
use polymarket_arbitrage_bot::orders::{
    advance_approval, after_failure, check_order_status, classify, Approving, MarketOrder, Obstacle,
    Placing, PlacingReply, PlacingRequest,
};
use polymarket_arbitrage_bot::signing::{message_to_sign, sign};
use polymarket_arbitrage_bot::PolymarketApi;

fn account() -> PolymarketApi {
    let mut api = PolymarketApi::new(
        "https://gamma".to_string(),
        "https://clob".to_string(),
        Some("key".to_string()),
        Some("secret".to_string()),
        Some("phrase".to_string()),
        None,
        None,
        None,
    );
    api.set_client_handle(3);
    api
}

fn posted(error: &str) -> PlacingReply {
    PlacingReply::Posted(Err(error.to_string()))
}

#[test]
fn obstacles_are_told_by_their_words() {
    assert_eq!(classify("not enough balance / allowance"), Obstacle::Allowance);
    assert_eq!(classify("not enough balance"), Obstacle::Balance);
    assert_eq!(classify("Allowance"), Obstacle::Other);
}

#[test]
fn market_orders_are_for_hundredths() {
    let api = account();
    let buy = api.place_market_order("7", 1_005_000, "BUY", None).unwrap();
    assert_eq!((buy.hundredths, buy.order_type.as_str()), (101, "FOK"));
    assert_eq!(buy.side, Side::Buy);
    let sell = api.place_market_order("7", 1_005_000, "SELL", Some("FAK")).unwrap();
    assert_eq!((sell.hundredths, sell.order_type.as_str()), (100, "FAK"));
    assert_eq!(api.place_market_order("7", 15_000, "SELL", None).unwrap().hundredths, 2);
    let error = |amount: u64, side: &str| match api.place_market_order("7", amount, side, None) {
        Err(e) => e,
        Ok(_) => panic!("accepted"),
    };
    assert_eq!(error(5_000, "SELL"), "Invalid shares amount: 0.00. Must be greater than 0.");
    assert_eq!(error(1, "HOLD"), "Invalid order side: HOLD. Must be 'BUY' or 'SELL'");
    assert_eq!(api.place_market_order("7", 0, "BUY", None).unwrap().hundredths, 0);
}

#[test]
fn a_buy_needs_its_collateral() {
    let api = account();
    let order = api.place_market_order("7", 4_500_000, "BUY", None).unwrap();
    let (at, request) = api.advance_market_order(&order, Placing::Start, PlacingReply::Nothing);
    assert!(matches!(request, PlacingRequest::Collateral));
    let (_, request) =
        api.advance_market_order(&order, at, PlacingReply::Collateral(Some(4_499_999)));
    match request {
        PlacingRequest::Failed(e) => assert_eq!(
            e,
            "Insufficient USDC balance for BUY order. Required: $4.50, Available: $4.50"
        ),
        _ => panic!("not refused"),
    }
    for held in [Some(4_500_000), None] {
        let (at, request) =
            api.advance_market_order(&order, Placing::Collateral, PlacingReply::Collateral(held));
        match request {
            PlacingRequest::Post(p) => {
                assert_eq!((p.handle, p.token_id.as_str(), p.side.as_str()), (3, "7", "BUY"));
                assert_eq!((p.amount.as_str(), p.order_type.as_str()), ("4.5", "FOK"));
                assert!(p.amount_is_usdc);
            }
            _ => panic!("not posted"),
        }
        assert!(matches!(at, Placing::Posted { posts: 1 }));
    }
}

#[test]
fn amounts_to_buy_are_written_as_decimals() {
    let api = account();
    let written = |amount: u64, side: &str| {
        let order = api.place_market_order("7", amount, side, None).unwrap();
        let at = if side == "BUY" { Placing::Collateral } else { Placing::Start };
        match api.advance_market_order(&order, at, PlacingReply::Collateral(None)).1 {
            PlacingRequest::Post(p) => p.amount,
            _ => panic!("not posted"),
        }
    };
    assert_eq!(written(5_000_000, "BUY"), "5");
    assert_eq!(written(4_500_000, "BUY"), "4.5");
    assert_eq!(written(4_250_000, "BUY"), "4.25");
    assert_eq!(written(4_100_000, "BUY"), "4.10");
    assert_eq!(written(4_125_000, "BUY"), "4.13");
    assert_eq!(written(4_500_001, "BUY"), "4.50");
    assert_eq!(written(5_000_000, "SELL"), "5.00");
    assert_eq!(written(4_500_000, "SELL"), "4.50");
}

#[test]
fn a_buy_is_posted_once() {
    let api = account();
    let order = api.place_market_order("7", 4_500_000, "BUY", None).unwrap();
    let failed = |error: &str| {
        let at = Placing::Posted { posts: 1 };
        match api.advance_market_order(&order, at, posted(error)).1 {
            PlacingRequest::Failed(e) => e,
            _ => panic!("not given up"),
        }
    };
    assert_eq!(failed("No ALLOWANCE"), "Allowance error: No ALLOWANCE");
    assert_eq!(failed("low Balance"), "Insufficient token balance: low Balance");
    assert_eq!(failed("timeout"), "Failed to post market order: timeout");
}

#[test]
fn a_sale_without_allowance_is_posted_three_times() {
    let api = account();
    let order = api.place_market_order("7", 2_000_000, "SELL", Some("FAK")).unwrap();
    let (mut at, mut request) =
        api.advance_market_order(&order, Placing::Start, PlacingReply::Nothing);
    let mut posts = 0;
    let mut waits = 0;
    let mut refreshes = 0;
    loop {
        let reply = match &request {
            PlacingRequest::Post(p) => {
                assert!(!p.amount_is_usdc);
                assert_eq!(p.amount, "2.00");
                posts += 1;
                posted("not enough balance / allowance")
            }
            PlacingRequest::RefreshAllowance { token_id } => {
                assert_eq!(token_id, "7");
                refreshes += 1;
                PlacingReply::Nothing
            }
            PlacingRequest::Wait { milliseconds } => {
                assert_eq!(*milliseconds, 500);
                waits += 1;
                PlacingReply::Nothing
            }
            PlacingRequest::Failed(e) => {
                assert_eq!(e, "Allowance error: not enough balance / allowance");
                break;
            }
            _ => panic!("unexpected request"),
        };
        let next = api.advance_market_order(&order, at, reply);
        at = next.0;
        request = next.1;
    }
    assert_eq!((posts, refreshes, waits), (3, 2, 2));
    let (_, request) = api.advance_market_order(
        &order,
        Placing::Posted { posts: 2 },
        PlacingReply::Posted(Ok("9".to_string())),
    );
    match request {
        PlacingRequest::Taken(r) => {
            assert_eq!(r.message, Some("Market order executed. Order ID: 9".to_string()));
        }
        _ => panic!("not taken"),
    }
}

#[test]
fn what_follows_a_failure_is_told_by_its_obstacle() {
    let order = MarketOrder {
        places: 2,
        token_id: "7".to_string(),
        side: Side::Sell,
        hundredths: 1,
        order_type: "FAK".to_string(),
    };
    let (at, _) = after_failure(&order, 2, "e", Obstacle::Allowance);
    assert!(matches!(at, Placing::Refresh { posts: 2 }));
    let (at, request) = after_failure(&order, 3, "e", Obstacle::Allowance);
    assert!(matches!(at, Placing::Finished));
    assert!(matches!(request, PlacingRequest::Failed(e) if e == "Allowance error: e"));
    let (_, request) = after_failure(&order, 1, "e", Obstacle::Balance);
    assert!(matches!(request, PlacingRequest::Failed(e) if e == "Insufficient token balance: e"));
}

#[test]
fn without_a_client_no_order_is_posted() {
    let mut api = account();
    api.client_handle = None;
    let order = api.place_market_order("7", 2_000_000, "SELL", None).unwrap();
    let (_, request) = api.advance_market_order(&order, Placing::Start, PlacingReply::Nothing);
    assert!(
        matches!(request, PlacingRequest::Failed(e) if e == "Not authenticated. Call authenticate() first.")
    );
}

fn market(ids: &[&str]) -> Option<MarketDetails> {
    Some(MarketDetails {
        condition_id: "0xc".to_string(),
        question: "?".to_string(),
        active: true,
        closed: false,
        tokens: ids
            .iter()
            .map(|id| Token { token_id: id.to_string(), outcome: "Up".to_string(), winner: false })
            .collect(),
    })
}

#[test]
fn tokens_are_approved_by_small_sales() {
    let api = account();
    let (mut approval, mut request) =
        api.approve_individual_tokens(&market(&["1", "2"]), &market(&["3", "4"])).unwrap();
    let mut sold = Vec::new();
    let mut waits = 0;
    loop {
        let reply = match &request {
            Request::Holding { token_id } => match token_id.as_str() {
                "1" => Reply::Balance(Some(0)),
                "2" => Reply::Balance(None),
                _ => Reply::Balance(Some(5)),
            },
            Request::AtMarket { token_id, amount, side, .. } => {
                assert_eq!((*amount, *side), (10_000, Side::Sell));
                sold.push(token_id.clone());
                if token_id == "3" {
                    Reply::Order(Err(Failure {
                        message: "no allowance".to_string(),
                        details: String::new(),
                    }))
                } else {
                    Reply::Order(Err(Failure {
                        message: "timeout".to_string(),
                        details: String::new(),
                    }))
                }
            }
            Request::Wait { milliseconds } => {
                assert_eq!(*milliseconds, 500);
                waits += 1;
                Reply::Nothing
            }
            Request::Finished => break,
            _ => panic!("unexpected request"),
        };
        let next = advance_approval(approval, reply);
        approval = next.0;
        request = next.1;
    }
    assert_eq!(sold, vec!["3", "4"]);
    assert_eq!(waits, 2);
    assert_eq!(approval.approved, 1);
    assert!(matches!(approval.state, Approving::Finished));
}

#[test]
fn an_approval_of_no_token_fails() {
    let api = account();
    match api.approve_individual_tokens(&None, &market(&[])) {
        Err(e) => assert_eq!(e, "Could not find any token IDs from current markets"),
        Ok(_) => panic!("begun"),
    }
    let (approval, _) = api.approve_individual_tokens(&None, &market(&["1"])).unwrap();
    let (approval, request) = advance_approval(approval, Reply::Balance(Some(0)));
    assert!(matches!(request, Request::Finished));
    match approval.state {
        Approving::Failed { reason } => {
            assert_eq!(reason, "Failed to approve any tokens. All 1 attempts failed.")
        }
        _ => panic!("not failed"),
    }
    let (approval, _) = api.approve_individual_tokens(&market(&["1"]), &None).unwrap();
    let (approval, _) = advance_approval(approval, Reply::Balance(Some(1)));
    let taken = OrderResponse { order_id: None, status: "LIVE".to_string(), message: None };
    let (approval, _) = advance_approval(approval, Reply::Order(Ok(taken)));
    assert_eq!(approval.approved, 1);
}

#[test]
fn posted_orders_are_signed_as_they_are_sent() {
    let api = account();
    let body = r#"{"token_id":"7"}"#;
    let r = api.place_order_hmac(body, 1700000000);
    assert!(r.post);
    assert_eq!(r.url, "https://clob/orders");
    assert_eq!(r.body, Some(body.to_string()));
    let message = message_to_sign("POST", "/orders", body, 1700000000);
    assert!(r.headers.contains(&("POLY_SIGNATURE".to_string(), sign("secret", &message))));
    let answer = |code: u16| HttpResponse {
        code,
        status: format!("{} X", code),
        body: "why".to_string(),
    };
    assert_eq!(check_order_status(&answer(201)), Ok(()));
    assert_eq!(
        check_order_status(&answer(401)),
        Err("Authentication failed (status: 401 X): why".to_string())
    );
    assert_eq!(
        check_order_status(&answer(403)),
        Err("Authentication failed (status: 403 X): why".to_string())
    );
    assert_eq!(
        check_order_status(&answer(500)),
        Err("Failed to place order (status: 500 X): why".to_string())
    );
}

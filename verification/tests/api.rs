use polymarket_arbitrage_bot::api::{
    check_market_status, choose_events, decide_signing_mode, extend_texts, limit_order_taken,
    market_order_taken, price_in, read_active_markets, read_balance, read_balance_allowance,
    read_collateral, read_market_by_slug, read_price, HttpRequest, HttpResponse,
};
use polymarket_arbitrage_bot::decimal::{Decimal, Relation};
use polymarket_arbitrage_bot::models::{OrderBook, OrderBookEntry, OrderRequest};
use polymarket_arbitrage_bot::signing::{choose_secret, message_to_sign, sign};
use polymarket_arbitrage_bot::PolymarketApi;

fn text(t: &str) -> Option<String> {
    Some(t.to_string())
}

fn account() -> PolymarketApi {
    PolymarketApi::new(
        "https://gamma".to_string(),
        "https://clob".to_string(),
        text("key"),
        text("a2V5"),
        text("phrase"),
        text("0x0000000000000000000000000000000000000000000000000000000000000001"),
        None,
        None,
    )
}

fn answer(code: u16, body: &str) -> HttpResponse {
    HttpResponse { code, status: format!("{} X", code), body: body.to_string() }
}

fn query(request: &HttpRequest) -> Vec<(&str, &str)> {
    request.query.iter().map(|(a, b)| (a.as_str(), b.as_str())).collect()
}

#[test]
fn the_signing_mode_follows_the_wallet() {
    let wallet = text(" 0x2791bca1f2de4661ed88a30c99a7a9449aa84174 ");
    assert_eq!(decide_signing_mode(&None, None), Ok(0));
    assert_eq!(decide_signing_mode(&None, Some(0)), Ok(0));
    assert_eq!(
        decide_signing_mode(&None, Some(1)),
        Err("signature_type 1 requires proxy_wallet_address".to_string())
    );
    assert_eq!(
        decide_signing_mode(&None, Some(3)),
        Err("Invalid signature_type: 3. Must be 0, 1, or 2".to_string())
    );
    assert_eq!(decide_signing_mode(&wallet, None), Ok(1));
    assert_eq!(decide_signing_mode(&wallet, Some(1)), Ok(1));
    assert_eq!(decide_signing_mode(&wallet, Some(2)), Ok(2));
    assert!(decide_signing_mode(&wallet, Some(0)).unwrap_err().contains("(EOA)"));
    assert_eq!(
        decide_signing_mode(&wallet, Some(7)),
        Err("Invalid signature_type: 7. Must be 0, 1, or 2".to_string())
    );
    assert_eq!(
        decide_signing_mode(&text("0x12"), Some(1)),
        Err("Invalid proxy_wallet_address: 0x12".to_string())
    );
}

#[test]
fn an_account_needs_all_its_credentials() {
    let settings = account().authenticate().unwrap();
    assert_eq!(settings.chain_id, 137);
    assert_eq!(settings.signature_type, 0);
    assert_eq!(settings.clob_url, "https://clob");
    assert_eq!(settings.api_key, "key");
    assert_eq!(settings.api_secret, "a2V5");
    assert_eq!(settings.api_passphrase, "phrase");
    assert_eq!(settings.funder, None);
    let error = |change: fn(&mut PolymarketApi)| {
        let mut api = account();
        change(&mut api);
        match api.authenticate() {
            Err(e) => e,
            Ok(_) => panic!("accepted"),
        }
    };
    assert_eq!(
        error(|a| a.private_key = None),
        "Private key is required for authentication. Please set private_key in config.json"
    );
    assert_eq!(error(|a| a.api_key = None), "api_key is required for authentication");
    assert_eq!(error(|a| a.api_secret = None), "api_secret is required for authentication");
    assert_eq!(error(|a| a.api_passphrase = None), "api_passphrase is required for authentication");
    assert_eq!(
        error(|a| a.signature_type = Some(2)),
        "signature_type 2 requires proxy_wallet_address"
    );
}

#[test]
fn the_client_is_known_after_the_login() {
    let mut api = account();
    assert_eq!(
        api.get_client_handle(),
        Err("Not authenticated. Call authenticate() first.".to_string())
    );
    api.set_client_handle(7);
    assert_eq!(api.get_client_handle(), Ok(7));
}

#[test]
fn requests_are_signed_with_the_secret() {
    let message = message_to_sign("POST", "/orders", "{}", 1700000000);
    assert_eq!(message, "POST/orders{}1700000000");
    let api = account();
    let signed = api.generate_signature("POST", "/orders", "{}", 1700000000).unwrap();
    assert_eq!(signed, sign("a2V5", &message));
    assert_eq!(signed.len(), 64);
    let headers = api.add_auth_headers("POST", "/orders", "{}", 1700000000);
    let names: Vec<&str> = headers.iter().map(|h| h.0.as_str()).collect();
    assert_eq!(names, vec!["POLY_API_KEY", "POLY_SIGNATURE", "POLY_TIMESTAMP", "POLY_PASSPHRASE"]);
    assert_eq!(headers[0].1, "key");
    assert_eq!(headers[1].1, signed);
    assert_eq!(headers[2].1, "1700000000");
    assert_eq!(headers[3].1, "phrase");
    let mut bare = account();
    bare.api_passphrase = None;
    assert!(bare.add_auth_headers("POST", "/orders", "{}", 1).is_empty());
    bare.api_secret = None;
    assert_eq!(
        bare.generate_signature("GET", "/", "", 1),
        Err("API secret is required for authenticated requests".to_string())
    );
}

#[test]
fn signatures_are_hmacs_in_hexadecimal() {
    // The secret is Base64 for "key".
    assert_eq!(
        sign("a2V5", "The quick brown fox jumps over the lazy dog"),
        "f7bc83f430538424b13298e6aa6fb143ef4d59a14946175997479dbc2d1a3cd8"
    );
    assert_ne!(sign("a2V5", "x"), sign("a2V6", "x"));
}

#[test]
fn secrets_are_decoded_in_either_alphabet_or_taken_as_they_are() {
    // The bytes fb and ff: "-_8=" in the URL-safe alphabet, "+/8=" in the standard one.
    assert_eq!(sign("-_8=", "m"), sign("+/8=", "m"));
    assert_ne!(sign("not base64!", "m"), sign("-_8=", "m"));
    assert_eq!(choose_secret(Some(vec![1]), Some(vec![2]), "s"), vec![1]);
    assert_eq!(choose_secret(None, Some(vec![2]), "s"), vec![2]);
    assert_eq!(choose_secret(None, None, "s!"), b"s!".to_vec());
}

#[test]
fn requests_name_what_they_ask_for() {
    let api = account();
    let r = api.get_all_active_markets(50);
    assert_eq!(r.url, "https://gamma/events");
    assert_eq!(query(&r), vec![("active", "true"), ("closed", "false"), ("limit", "50")]);
    assert!(!r.post && r.body.is_none() && r.headers.is_empty());
    let r = api.get_market_by_slug("btc-updown-15m-900");
    assert_eq!(r.url, "https://gamma/events/slug/btc-updown-15m-900");
    assert!(r.query.is_empty());
    let r = api.get_orderbook("7");
    assert_eq!((r.url.as_str(), query(&r)), ("https://clob/book", vec![("token_id", "7")]));
    assert_eq!(api.get_market("0xc").url, "https://clob/markets/0xc");
    let r = api.get_price("7", "SELL");
    assert_eq!(r.url, "https://clob/price");
    assert_eq!(query(&r), vec![("side", "SELL"), ("token_id", "7")]);
}

#[test]
fn active_markets_are_gathered_from_their_events() {
    let top = r#"[{"markets":[{"a":1},{"b":2}]},{"x":0},{"markets":[{"c": 3}]}]"#;
    let expected = vec![r#"{"a":1}"#, r#"{"b":2}"#, r#"{"c":3}"#];
    assert_eq!(read_active_markets(&answer(200, top)).unwrap(), expected);
    let under = format!("{{\"data\":{}}}", top);
    assert_eq!(read_active_markets(&answer(200, &under)).unwrap(), expected);
    assert!(read_active_markets(&answer(200, "{}")).unwrap().is_empty());
    assert_eq!(
        read_active_markets(&answer(200, "oops")),
        Err("Failed to parse markets response".to_string())
    );
    assert_eq!(
        read_active_markets(&answer(500, "{ \"e\": 1 }")),
        Err("API returned error status 500 X: {\"e\":1}".to_string())
    );
}

#[test]
fn events_are_taken_from_the_top_or_from_data() {
    let list = |t: &str| Some(Some(vec![t.to_string()]));
    assert_eq!(choose_events(list("a"), list("b")), vec!["a"]);
    assert_eq!(choose_events(Some(None), list("b")), vec!["b"]);
    assert!(choose_events(Some(None), Some(None)).is_empty());
    assert!(choose_events(None, None).is_empty());
    let mut all = vec!["a".to_string()];
    extend_texts(&mut all, vec!["b".to_string(), "c".to_string()]);
    assert_eq!(all, vec!["a", "b", "c"]);
}

#[test]
fn a_slug_leads_to_the_first_market_of_its_event() {
    let read = |code: u16, body: &str| read_market_by_slug("s", &answer(code, body));
    assert_eq!(read(200, r#"{"markets":[{"id":1},{"id":2}]}"#), Ok(r#"{"id":1}"#.to_string()));
    let none = Err("Invalid market response format: no markets array found".to_string());
    assert_eq!(read(200, r#"{"markets":[]}"#), none);
    assert_eq!(read(200, r#"{"markets":5}"#), none);
    assert_eq!(read(200, "x"), Err("Failed to parse market response".to_string()));
    assert_eq!(
        read(404, ""),
        Err("Failed to fetch market by slug: s (status: 404 X)".to_string())
    );
}

#[test]
fn a_market_is_there_where_the_request_succeeded() {
    assert_eq!(check_market_status(&answer(204, "")), Ok(()));
    assert_eq!(
        check_market_status(&answer(300, "")),
        Err("Failed to fetch market (status: 300 X)".to_string())
    );
}

#[test]
fn prices_are_read_exactly() {
    assert_eq!(
        read_price(&answer(200, r#"{"price":"0.455"}"#)),
        Ok(Decimal::from_parts(455, 3).unwrap())
    );
    assert_eq!(
        read_price(&answer(503, "")),
        Err("Failed to fetch price (status: 503 X)".to_string())
    );
    assert_eq!(
        read_price(&answer(200, "no")),
        Err("Failed to parse price response".to_string())
    );
    assert_eq!(
        read_price(&answer(200, r#"{"price":0.5}"#)),
        Err("Invalid price response format".to_string())
    );
    assert_eq!(price_in(Some(text("1.5"))), Ok(Decimal::from_parts(15, 1).unwrap()));
    assert_eq!(price_in(Some(text("x"))), Err("Failed to parse price: x".to_string()));
    assert_eq!(price_in(Some(None)), Err("Invalid price response format".to_string()));
    assert_eq!(price_in(None), Err("Failed to parse price response".to_string()));
}

#[test]
fn best_prices_need_somebody_who_offers() {
    let api = account();
    let level = |p: &str| OrderBookEntry {
        price: Decimal::parse(p).unwrap(),
        size: Decimal::parse("1").unwrap(),
    };
    let book = OrderBook {
        bids: vec![level("0.4"), level("0.3")],
        asks: vec![level("0.5"), level("0.6")],
    };
    let best = api.get_best_price("7", &book).unwrap();
    assert_eq!(best.token_id, "7");
    assert_eq!(best.bid, Decimal::parse("0.4"));
    assert_eq!(best.ask, Decimal::parse("0.5"));
    let unordered = OrderBook {
        bids: vec![level("0.40"), level("0.44"), level("0.440")],
        asks: vec![level("0.60"), level("0.55"), level("0.7")],
    };
    let best = api.get_best_price("7", &unordered).unwrap();
    assert_eq!(best.bid, Decimal::parse("0.44"));
    assert_eq!(best.ask, Decimal::parse("0.55"));
    let no_bids = OrderBook { bids: vec![], asks: vec![level("0.5")] };
    assert_eq!(api.get_best_price("7", &no_bids).unwrap().bid, None);
    let no_asks = OrderBook { bids: vec![level("0.4")], asks: vec![] };
    assert!(api.get_best_price("7", &no_asks).is_none());
}

#[test]
fn decimals_compare_exactly() {
    let d = |text: &str| Decimal::parse(text).unwrap();
    let relation = |a: &str, b: &str| d(a).relation_to(&d(b));
    assert_eq!(relation("0.4", "0.40"), Relation::Equal);
    assert_eq!(relation("0.44", "0.4"), Relation::Above);
    assert_eq!(relation("1", "1.0000000000000000000000000001"), Relation::Below);
    assert_eq!(relation("-2", "-1.5"), Relation::Below);
    assert_eq!(relation("-1", "0"), Relation::Below);
    assert_eq!(relation("3", "-3"), Relation::Above);
    assert_eq!(relation("79228162514264337593543950335", "0.1"), Relation::Above);
}

#[test]
fn orders_that_were_taken_are_live() {
    let r = limit_order_taken("7".to_string());
    assert_eq!(r.order_id, text("7"));
    assert_eq!(r.status, "LIVE");
    assert_eq!(r.message, text("Order placed successfully. Order ID: 7"));
    let r = market_order_taken("8".to_string());
    assert_eq!(r.message, text("Market order executed. Order ID: 8"));
}

#[test]
fn orders_and_questions_go_through_the_client() {
    let mut api = account();
    let order = OrderRequest {
        token_id: "7".to_string(),
        side: "BUY".to_string(),
        size: "10.00".to_string(),
        price: "0.45".to_string(),
        order_type: "LIMIT".to_string(),
    };
    assert!(api.place_order(&order).is_err());
    assert!(api.check_balance_only("7").is_err());
    api.set_client_handle(3);
    let posting = api.place_order(&order).unwrap();
    assert_eq!(posting.handle, 3);
    assert_eq!((posting.token_id.as_str(), posting.side.as_str()), ("7", "BUY"));
    assert_eq!((posting.price.as_str(), posting.size.as_str()), ("0.45", "10.00"));
    let q = api.check_balance_only("7").unwrap();
    assert_eq!((q.handle, q.token_id.as_str(), q.asset_type.as_str()), (3, "7", "Conditional"));
    assert_eq!(api.check_balance_allowance("7").unwrap().asset_type, "Conditional");
    assert_eq!(api.update_balance_allowance_for_sell("7").unwrap().token_id, "7");
    let q = api.check_usdc_balance_allowance().unwrap();
    assert_eq!(
        q.token_id,
        "0x0000000000000000000000002791bca1f2de4661ed88a30c99a7a9449aa84174"
    );
    assert_eq!(q.asset_type, "Collateral");
}

#[test]
fn balances_are_read_as_numbers() {
    let n = |m: i128| Decimal::from_parts(m, 0).unwrap();
    assert_eq!(read_collateral("5", "7"), Ok((n(5), n(7))));
    assert_eq!(read_collateral("x", "7"), Err("parse USDC balance".to_string()));
    assert_eq!(read_collateral("5", "x"), Err("parse USDC allowance".to_string()));
    assert_eq!(read_balance("12"), Ok(n(12)));
    assert_eq!(read_balance("x"), Err("parse balance".to_string()));
    assert_eq!(read_balance_allowance("5", "7"), Ok((n(5), n(7))));
    assert_eq!(read_balance_allowance("5", "x"), Ok((n(5), n(0))));
    assert_eq!(read_balance_allowance("x", "7"), Err("parse balance".to_string()));
}

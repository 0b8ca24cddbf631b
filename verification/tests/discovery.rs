use polymarket_arbitrage_bot::discovery::{
    candidate_slugs, concerns_asset, disabled_eth_market, discover_market, enabled_markets_label,
    get_or_discover_markets, markets_to_watch, missing_solana_market, next_period_step,
    not_found_text, period_of, slug_text, CurrentReply, CurrentRequest, CurrentSearch, PeriodStep,
    Search, SearchStep,
};
use polymarket_arbitrage_bot::hunt::{
    markets_of_period, watched_of_period, Found, Hunt, HuntPlan, Hunting,
};
use polymarket_arbitrage_bot::models::{Asset, Market, MarketDetails, Token};
use polymarket_arbitrage_bot::scan::{
    ScanReply, ScanRequest, Scanning, TokenReply, TokenRequest, TokenSearch,
};
use polymarket_arbitrage_bot::PolymarketApi;

fn market(id: &str) -> Market {
    Market {
        condition_id: id.to_string(),
        slug: format!("slug-{}", id),
        active: true,
        closed: false,
        market_id: None,
        question: "Up or down?".to_string(),
        resolution_source: None,
        end_date_iso: None,
        end_date_iso_alt: None,
        tokens: None,
        clob_token_ids: None,
        outcomes: None,
    }
}

fn account() -> PolymarketApi {
    PolymarketApi::new(
        "g".to_string(),
        "c".to_string(),
        None,
        None,
        None,
        None,
        None,
        None,
    )
}

#[test]
fn periods_begin_every_fifteen_minutes() {
    assert_eq!(period_of(0), 0);
    assert_eq!(period_of(899), 0);
    assert_eq!(period_of(900), 900);
    assert_eq!(period_of(1_763_201_234), 1_763_200_800);
    assert_eq!(period_of(period_of(1_763_201_234)), 1_763_200_800);
}

#[test]
fn new_markets_are_looked_for_when_the_period_is_over() {
    assert_eq!(next_period_step(1850, 900), PeriodStep::Discover);
    assert_eq!(next_period_step(1850, 1800), PeriodStep::Sleep { seconds: 850 });
    assert_eq!(next_period_step(1850, 0), PeriodStep::Sleep { seconds: 850 });
    assert_eq!(next_period_step(1800, 1800), PeriodStep::Sleep { seconds: 900 });
}

#[test]
fn slugs_name_prefix_and_period() {
    assert_eq!(slug_text("btc", 900), "btc-updown-15m-900");
    let prefixes = Asset::Solana.slug_prefixes();
    assert_eq!(prefixes, vec!["solana", "sol"]);
    assert_eq!(
        candidate_slugs(&prefixes, 9100, false),
        vec!["solana-updown-15m-9000", "sol-updown-15m-9000"]
    );
    assert_eq!(
        candidate_slugs(&Asset::Btc.slug_prefixes(), 9100, true),
        vec![
            "btc-updown-15m-9000",
            "btc-updown-15m-8100",
            "btc-updown-15m-7200",
            "btc-updown-15m-6300"
        ]
    );
}

#[test]
fn labels_name_the_other_assets() {
    assert_eq!(enabled_markets_label(true, true, true), "ETH, Solana, XRP");
    assert_eq!(enabled_markets_label(false, true, false), "Solana");
    assert_eq!(enabled_markets_label(false, false, false), "no additional");
}

#[test]
fn the_first_tradable_market_is_taken() {
    let seen = vec!["old".to_string()];
    let search = |at: usize| Search { slugs: vec!["a".to_string(), "b".to_string()], at };
    assert!(matches!(
        discover_market(search(0), Some(market("new")), &seen),
        SearchStep::Found(m) if m.condition_id == "new"
    ));
    let mut inactive = market("new");
    inactive.active = false;
    let mut closed = market("new");
    closed.closed = true;
    for reply in [None, Some(market("old")), Some(inactive), Some(closed)] {
        assert!(matches!(
            discover_market(search(0), reply, &seen),
            SearchStep::Next(Search { at: 1, .. })
        ));
    }
    assert!(matches!(discover_market(search(1), None, &seen), SearchStep::Exhausted));
}

#[test]
fn a_search_in_vain_says_what_was_tried() {
    let prefixes = Asset::Solana.slug_prefixes();
    assert_eq!(
        not_found_text("Solana", &prefixes, false),
        "Could not find active Solana 15-minute up/down market (tried prefixes: solana, sol)."
    );
    assert!(not_found_text("BTC", &Asset::Btc.slug_prefixes(), true)
        .ends_with("(tried prefixes: btc). Set condition_id in config.json if needed."));
}

#[test]
fn placeholders_stand_for_missing_markets() {
    let m = get_or_discover_markets(None, None, None, None).unwrap();
    assert_eq!(m.eth.condition_id, "dummy_eth_fallback");
    assert_eq!(m.btc.question, "BTC Trading Disabled");
    assert_eq!(m.solana.slug, "solana-updown-15m-fallback");
    assert_eq!(m.xrp.question, "XRP Trading Disabled");
    assert!(m.xrp.closed && !m.xrp.active);
    assert_eq!(disabled_eth_market().question, "ETH Trading Disabled");
    assert_eq!(missing_solana_market().question, "Solana Trading (market not found)");
}

#[test]
fn the_same_market_twice_is_refused() {
    let get = |e: &str, b: &str, s: &str, x: &str| {
        let some = |id: &str| if id.is_empty() { None } else { Some(market(id)) };
        match get_or_discover_markets(some(e), some(b), some(s), some(x)) {
            Ok(_) => String::new(),
            Err(e) => e,
        }
    };
    assert_eq!(get("1", "2", "3", "4"), "");
    assert_eq!(
        get("1", "1", "", ""),
        "ETH and BTC markets have the same condition ID: 1. This is incorrect."
    );
    assert!(get("1", "2", "1", "").starts_with("ETH and Solana"));
    assert!(get("1", "2", "2", "").starts_with("BTC and Solana"));
    assert!(get("1", "2", "", "1").starts_with("ETH and XRP"));
    assert!(get("1", "2", "", "2").starts_with("BTC and XRP"));
    assert!(get("1", "2", "3", "3").starts_with("Solana and XRP"));
    assert_eq!(get("", "dummy_eth_fallback", "", ""), "");
}

#[test]
fn only_btc_must_be_found_to_watch() {
    let m = markets_to_watch(None, Some(market("b")), None, None).unwrap();
    assert_eq!(m.btc.condition_id, "b");
    assert_eq!(m.xrp.question, "XRP Trading (market not found)");
    match markets_to_watch(Some(market("e")), None, None, None) {
        Err(e) => assert_eq!(e, "Failed to discover BTC market"),
        Ok(_) => panic!("accepted"),
    }
}

#[test]
fn the_current_market_is_found_by_its_slug_or_its_words() {
    let api = account();
    let step = |s: CurrentSearch, r: CurrentReply| api.discover_current_market("BTC", 9100, s, r);
    let (at, request) = step(CurrentSearch::Start, CurrentReply::Nothing);
    assert!(matches!(request, CurrentRequest::Market { slug } if slug == "btc-updown-15m-9000"));
    let (done, _) = step(at, CurrentReply::Market(Some(market("m"))));
    assert!(matches!(done, CurrentSearch::Finished { condition_id: Some(id) } if id == "m"));
    let (at, request) = step(CurrentSearch::Slug { back: 0 }, CurrentReply::Market(None));
    assert!(matches!(request, CurrentRequest::Market { slug } if slug == "btc-updown-15m-8100"));
    let (at, _) = step(at, CurrentReply::Market(None));
    let (at, request) = step(at, CurrentReply::Market(None));
    assert!(matches!(request, CurrentRequest::ActiveMarkets { limit: 50 }));
    let mut asked = market("q");
    asked.question = "Btc 15 minutes".to_string();
    let (done, _) = step(at, CurrentReply::Markets(Some(vec![market("x"), asked])));
    assert!(matches!(done, CurrentSearch::Finished { condition_id: Some(id) } if id == "q"));
    let (done, _) = step(CurrentSearch::Active, CurrentReply::Markets(None));
    assert!(matches!(done, CurrentSearch::Finished { condition_id: None }));
    assert!(concerns_asset("btc-updown-15m-9", "", "btc", "BTC"));
    assert!(concerns_asset("", "WILL BTC 15 RISE", "btc", "BTC"));
    assert!(!concerns_asset("eth-updown-15m-9", "ETH 15", "btc", "BTC"));
}

fn hunt(plan: &HuntPlan, seen: &[&str], under: &[(&str, &str)]) -> (Vec<String>, Found) {
    let seen = seen.iter().map(|s| s.to_string()).collect();
    let (mut at, mut slug) = Hunt::new(plan, 9100, seen);
    let mut asked = Vec::new();
    while let Some(s) = slug {
        let reply = under.iter().find(|u| u.0 == s).map(|u| market(u.1));
        asked.push(s);
        let next = at.advance(plan, reply);
        at = next.0;
        slug = next.1;
    }
    assert!(matches!(at.state, Hunting::Finished));
    (asked, at.found)
}

#[test]
fn a_hunt_looks_for_one_asset_after_the_other() {
    let plan = HuntPlan {
        eth: true,
        solana: true,
        xrp: true,
        looks_back_always: false,
        remembers: true,
        needs_btc: false,
    };
    let (asked, found) = hunt(
        &plan,
        &[],
        &[
            ("eth-updown-15m-8100", "e"),
            ("btc-updown-15m-9000", "e"),
            ("btc-updown-15m-8100", "b"),
            ("solana-updown-15m-9000", "b"),
            ("sol-updown-15m-9000", "s"),
        ],
    );
    assert_eq!(
        asked,
        vec![
            "eth-updown-15m-9000",
            "eth-updown-15m-8100",
            "btc-updown-15m-9000",
            "btc-updown-15m-8100",
            "solana-updown-15m-9000",
            "sol-updown-15m-9000",
            "xrp-updown-15m-9000"
        ]
    );
    assert_eq!(found.eth.unwrap().condition_id, "e");
    assert_eq!(found.btc.unwrap().condition_id, "b");
    assert_eq!(found.solana.unwrap().condition_id, "s");
    assert!(found.xrp.is_none());
}

#[test]
fn a_hunt_leaves_out_what_is_disabled_or_seen() {
    let mut plan = HuntPlan {
        eth: false,
        solana: false,
        xrp: true,
        looks_back_always: true,
        remembers: false,
        needs_btc: false,
    };
    let (asked, found) = hunt(
        &plan,
        &["old"],
        &[("btc-updown-15m-9000", "old"), ("btc-updown-15m-8100", "b")],
    );
    assert_eq!(asked.len(), 2 + 4);
    assert_eq!(asked[5], "xrp-updown-15m-6300");
    assert_eq!(found.btc.unwrap().condition_id, "b");
    plan.needs_btc = true;
    let (asked, found) = hunt(&plan, &[], &[]);
    assert_eq!(asked.len(), 4);
    assert!(found.btc.is_none());
}

#[test]
fn a_new_period_needs_its_markets() {
    let found = |e: Option<&str>, b: Option<&str>| Found {
        eth: e.map(market),
        btc: b.map(market),
        solana: None,
        xrp: None,
    };
    let m = markets_of_period(true, found(Some("e"), Some("b"))).unwrap();
    assert_eq!((m.eth.condition_id.as_str(), m.btc.condition_id.as_str()), ("e", "b"));
    assert_eq!(m.solana.question, "Solana Trading Disabled");
    let error = |eth: bool, f: Found| match markets_of_period(eth, f) {
        Err(e) => e,
        Ok(_) => panic!("accepted"),
    };
    assert!(error(true, found(None, None)).starts_with("Failed to discover new ETH market: Could"));
    assert!(error(true, found(Some("e"), None)).starts_with("Failed to discover new BTC market"));
    assert!(markets_of_period(false, found(None, Some("b"))).is_ok());
    assert!(watched_of_period(found(None, Some("b"))).is_none());
    let m = watched_of_period(found(Some("e"), Some("b"))).unwrap();
    assert_eq!(m.xrp.question, "XRP Trading (market not found)");
}

fn details(tokens: &[(&str, &str)]) -> MarketDetails {
    MarketDetails {
        condition_id: "0xc".to_string(),
        question: "?".to_string(),
        active: true,
        closed: false,
        tokens: tokens
            .iter()
            .map(|(id, outcome)| Token {
                token_id: id.to_string(),
                outcome: outcome.to_string(),
                winner: false,
            })
            .collect(),
    }
}

#[test]
fn the_portfolio_is_searched_period_by_period() {
    let api = account();
    let (mut scan, mut request) = api.get_portfolio_tokens_btc_only(900_000);
    let mut slugs = Vec::new();
    loop {
        let reply = match &request {
            ScanRequest::Market { slug } => {
                slugs.push(slug.clone());
                if slug == "btc-updown-15m-899100" {
                    ScanReply::Market(Some(market("0xc")))
                } else {
                    ScanReply::Market(None)
                }
            }
            ScanRequest::Details { condition_id } => {
                assert_eq!(condition_id, "0xc");
                ScanReply::Details(Some(details(&[("1", "Up"), ("2", "Down"), ("3", "Flat")])))
            }
            ScanRequest::Shares { token_id } => match token_id.as_str() {
                "1" => ScanReply::Shares(Some(0)),
                "2" => ScanReply::Shares(Some(5_000_000)),
                _ => ScanReply::Shares(None),
            },
            ScanRequest::Finished => break,
        };
        let next = scan.advance(reply);
        scan = next.0;
        request = next.1;
    }
    assert_eq!(slugs.len(), 11);
    assert_eq!(slugs[0], "btc-updown-15m-900000");
    assert_eq!(slugs[10], "btc-updown-15m-891000");
    assert!(matches!(scan.state, Scanning::Finished));
    assert_eq!(scan.found.len(), 1);
    let held = &scan.found[0];
    assert_eq!((held.token_id.as_str(), held.shares), ("2", 5_000_000));
    assert_eq!(held.description, "BTC Down (period: 899100)");
    assert_eq!(held.condition_id, "0xc");
}

#[test]
fn solana_is_searched_under_its_second_slug_only_if_need_be() {
    let api = account();
    let (mut scan, mut request) = api.get_portfolio_tokens_all(None, None, 900_000);
    let mut slugs = Vec::new();
    loop {
        let reply = match &request {
            ScanRequest::Market { slug } => {
                slugs.push(slug.clone());
                if slug == "solana-updown-15m-900000" {
                    ScanReply::Market(Some(market("0xs")))
                } else {
                    ScanReply::Market(None)
                }
            }
            ScanRequest::Details { .. } => ScanReply::Details(None),
            ScanRequest::Finished => break,
            _ => panic!("unexpected request"),
        };
        let next = scan.advance(reply);
        scan = next.0;
        request = next.1;
    }
    assert_eq!(slugs.len(), 11 + 11 + 21);
    assert_eq!(slugs[11], "eth-updown-15m-900000");
    assert_eq!(slugs[22], "solana-updown-15m-900000");
    assert_eq!(slugs[23], "solana-updown-15m-899100");
    assert_eq!(slugs[24], "sol-updown-15m-899100");
    assert!(scan.found.is_empty());
}

#[test]
fn tokens_of_the_current_markets_are_counted() {
    let api = account();
    let mut search = TokenSearch::Start;
    let mut reply = TokenReply::Current(CurrentReply::Nothing);
    let mut asked = Vec::new();
    let found = loop {
        let (next, request) =
            api.get_portfolio_tokens(None, Some("0xe"), 900_000, search, reply);
        reply = match &request {
            TokenRequest::Current(CurrentRequest::Market { slug }) => {
                asked.push(slug.clone());
                TokenReply::Current(CurrentReply::Market(if slug.ends_with("898200") {
                    Some(market("0xb"))
                } else {
                    None
                }))
            }
            TokenRequest::Scan(ScanRequest::Details { condition_id }) => {
                asked.push(condition_id.clone());
                TokenReply::Scan(ScanReply::Details(Some(details(&[("1", "Up")]))))
            }
            TokenRequest::Scan(ScanRequest::Shares { .. }) => {
                TokenReply::Scan(ScanReply::Shares(Some(7)))
            }
            TokenRequest::Scan(ScanRequest::Finished) => match next {
                TokenSearch::Counting { scan } => break scan.found,
                _ => panic!("not counting"),
            },
            _ => panic!("unexpected request"),
        };
        search = next;
    };
    assert_eq!(
        asked,
        vec![
            "btc-updown-15m-900000",
            "btc-updown-15m-899100",
            "btc-updown-15m-898200",
            "0xb",
            "0xe"
        ]
    );
    let told: Vec<&str> = found.iter().map(|h| h.description.as_str()).collect();
    assert_eq!(told, vec!["BTC Up", "ETH Up"]);
}

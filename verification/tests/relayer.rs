use polymarket_arbitrage_bot::api::{HttpRequest, HttpResponse};
use polymarket_arbitrage_bot::approvals::{
    judge_transaction, read_approvals, read_is_approved, ApprovalRoute, Contracts, TransactionStep,
};
use polymarket_arbitrage_bot::chain::{Address, CTF_CONTRACT, USDC};
use polymarket_arbitrage_bot::models::TokenType;
use polymarket_arbitrage_bot::relayer::{
    judge_redemption, judge_state, submission_of, transaction_in, RedemptionStep, RelayerReply,
    Stand,
};
use polymarket_arbitrage_bot::signing::{message_to_sign, sign};
use polymarket_arbitrage_bot::PolymarketApi;

const KEY: &str = "0x0000000000000000000000000000000000000000000000000000000000000001";
const OWNER: &str = "0x7e5f4552091a69125d5dfcb7b8c2659029395bdf";

fn account() -> PolymarketApi {
    PolymarketApi::new(
        "https://gamma".to_string(),
        "https://clob".to_string(),
        Some("key".to_string()),
        Some("secret".to_string()),
        Some("phrase".to_string()),
        Some(KEY.to_string()),
        None,
        None,
    )
}

fn contracts() -> Contracts {
    Contracts {
        exchange: Address::parse(USDC).unwrap(),
        conditional_tokens: Address::parse(CTF_CONTRACT).unwrap(),
        neg_risk_adapter: None,
    }
}

fn condition() -> String {
    format!("0x{}", "ab".repeat(32))
}

fn answer(code: u16, body: &str) -> HttpResponse {
    HttpResponse { code, status: format!("{} X", code), body: body.to_string() }
}

fn header<'a>(request: &'a HttpRequest, name: &str) -> &'a str {
    &request.headers.iter().find(|h| h.0 == name).unwrap().1
}

#[test]
fn a_redemption_is_submitted_and_signed() {
    let api = account();
    let r = api.redeem_tokens(&condition(), "7", "Up", true, true, 1700000000).unwrap();
    assert!(r.post);
    assert_eq!(r.url, "https://relayer-v2.polymarket.com/submit");
    let body = r.body.clone().unwrap();
    assert!(body.starts_with(&format!(
        "{{\"description\":\"Redeem Up token for condition {}\",\"transactions\":[{{\"data\":\"0x3d7d3f5a",
        condition()
    )));
    assert!(body.ends_with(
        "\",\"to\":\"0x4bfb41d5b3570defd03c39a9a4d8de6bd8b8982e\",\"value\":\"0\"}]}"
    ));
    let names: Vec<&str> = r.headers.iter().map(|h| h.0.as_str()).collect();
    assert_eq!(
        names,
        vec![
            "User-Agent",
            "POLY_BUILDER_API_KEY",
            "POLY_BUILDER_TIMESTAMP",
            "POLY_BUILDER_PASSPHRASE",
            "POLY_BUILDER_SIGNATURE",
            "Content-Type",
            "Accept"
        ]
    );
    assert_eq!(header(&r, "POLY_BUILDER_TIMESTAMP"), "1700000000");
    let message = message_to_sign("POST", "/submit", &body, 1700000000);
    assert_eq!(header(&r, "POLY_BUILDER_SIGNATURE"), sign("secret", &message));
}

#[test]
fn a_position_is_redeemed_whichever_side_has_won() {
    let api = account();
    let up = api.redeem_position(&condition(), "7", TokenType::EthUp, 1700000000).unwrap();
    let same = api.redeem_tokens(&condition(), "7", "Up", true, true, 1700000000).unwrap();
    assert_eq!((up.url, up.headers, up.body), (same.url, same.headers, same.body));
    let down = api.redeem_position(&condition(), "7", TokenType::XrpDown, 1700000000).unwrap();
    assert!(down.body.unwrap().starts_with("{\"description\":\"Redeem Down token"));
    assert!(api.redeem_position("0x12", "7", TokenType::EthUp, 0).is_err());
}

#[test]
fn control_characters_are_escaped_in_a_description() {
    let api = account();
    let odd = "a\"b\\c/\u{8}\t\n\u{b}\u{c}\r\u{1f}\u{7f}é";
    let r = api.redeem_tokens(&condition(), "7", odd, true, true, 0).unwrap();
    assert!(r.body.unwrap().starts_with(
        "{\"description\":\"Redeem a\\\"b\\\\c/\\b\\t\\n\\u000b\\f\\r\\u001f\u{7f}é token for"
    ));
}

#[test]
fn descriptions_are_quoted() {
    let api = account();
    let r = api.redeem_tokens(&condition(), "", "a\"b\n", true, false, 1).unwrap();
    assert!(r.body.unwrap().contains("Redeem a\\\"b\\n token"));
    assert_eq!(
        submission_of("\"d\"".to_string(), "\"0x01\"".to_string(), "\"0x02\"".to_string()),
        "{\"description\":\"d\",\"transactions\":[{\"data\":\"0x01\",\"to\":\"0x02\",\"value\":\"0\"}]}"
    );
}

#[test]
fn a_redemption_names_what_is_wrong() {
    let api = account();
    let error = |api: &PolymarketApi, id: &str, yes: bool, no: bool| {
        match api.redeem_tokens(id, "", "Up", yes, no, 1) {
            Err(e) => e,
            Ok(_) => panic!("accepted"),
        }
    };
    assert_eq!(error(&api, "0x12", true, true), "Failed to parse condition_id to B256: 0x12");
    assert_eq!(
        error(&api, &condition(), false, false),
        "Must redeem at least one position (YES or NO). Use redeem_yes and/or redeem_no."
    );
    let mut bare = account();
    bare.api_passphrase = None;
    assert!(error(&bare, &condition(), true, true).starts_with("API passphrase required"));
    bare.api_secret = None;
    assert!(error(&bare, &condition(), true, true).starts_with("API secret required"));
    bare.api_key = None;
    assert!(error(&bare, &condition(), true, true).starts_with("API key required"));
}

#[test]
fn complete_sets_are_merged_by_redeeming_both_sides() {
    let api = account();
    let merge = api.merge_complete_sets(&condition(), 1).unwrap();
    let redeem = api
        .redeem_tokens(&condition(), "", "Up+Down (merge complete sets)", true, true, 1)
        .unwrap();
    assert_eq!(merge.body, redeem.body);
    assert_eq!(merge.headers, redeem.headers);
}

#[test]
fn the_relayer_gives_a_transaction() {
    let api = account();
    assert_eq!(
        api.read_redemption(&answer(200, r#"{"transactionID":"t1"}"#)),
        Ok("t1".to_string())
    );
    assert_eq!(
        api.read_redemption(&answer(200, "{}")),
        Err("Missing transactionID in relayer response".to_string())
    );
    assert_eq!(
        api.read_redemption(&answer(200, "x")),
        Err("Failed to parse relayer response".to_string())
    );
    let long = "r".repeat(600);
    assert_eq!(
        api.read_redemption(&answer(500, &long)),
        Err(format!("Relayer redemption failed (status 500 X): {}", "r".repeat(200)))
    );
    let refused = api.read_redemption(&answer(401, &long)).unwrap_err();
    assert!(refused.starts_with("Relayer redemption failed: 401 Unauthorized"));
    assert!(refused.contains("signature_type (0)"));
    assert!(refused.ends_with(&format!("Response: {}", "r".repeat(500))));
    assert_eq!(transaction_in(Some(Some("t".to_string()))), Ok("t".to_string()));
    assert!(transaction_in(Some(None)).is_err());
    assert!(transaction_in(None).is_err());
}

#[test]
fn states_are_judged() {
    assert_eq!(judge_state("STATE_CONFIRMED"), Stand::Confirmed);
    assert_eq!(judge_state("STATE_FAILED"), Stand::Failed);
    assert_eq!(judge_state("STATE_INVALID"), Stand::Failed);
    assert_eq!(judge_state("STATE_MINE"), Stand::Underway);
    assert_eq!(judge_state("UNKNOWN"), Stand::Underway);
    match judge_redemption("t", "STATE_CONFIRMED", Some("0xh".to_string())) {
        RedemptionStep::Finished(r) => {
            assert!(r.success);
            assert_eq!(r.transaction_hash, Some("0xh".to_string()));
        }
        _ => panic!("not confirmed"),
    }
}

#[test]
fn a_redemption_is_waited_for() {
    let api = account();
    match api.await_redemption("t", RelayerReply::Begin, 0, 1700000000) {
        RedemptionStep::Ask(r) => {
            assert_eq!(r.url, "https://relayer-v2.polymarket.com/transaction/t");
            assert!(!r.post);
            let message = message_to_sign("GET", &r.url, "", 1700000000);
            assert_eq!(header(&r, "POLY_BUILDER_SIGNATURE"), sign("secret", &message));
        }
        _ => panic!("not asked"),
    }
    let told = |code: u16, body: &str| {
        api.await_redemption("t", RelayerReply::Answer(Some(answer(code, body))), 5, 1)
    };
    match told(200, r#"{"state":"STATE_CONFIRMED","transactionHash":"0xh"}"#) {
        RedemptionStep::Finished(r) => {
            assert!(r.success);
            assert_eq!(r.transaction_hash, Some("0xh".to_string()));
            assert_eq!(
                r.message,
                Some("Successfully redeemed tokens via relayer. Transaction ID: t".to_string())
            );
        }
        _ => panic!("not confirmed"),
    }
    match told(200, r#"{"state":"STATE_FAILED"}"#) {
        RedemptionStep::Failed(e) => assert_eq!(
            e,
            "Relayer redemption transaction failed (state: STATE_FAILED). Transaction ID: t"
        ),
        _ => panic!("not failed"),
    }
    let rests = |step: RedemptionStep| matches!(step, RedemptionStep::Rest { milliseconds: 2000 });
    assert!(rests(told(200, r#"{"state":"STATE_NEW"}"#)));
    assert!(rests(told(200, "garbled")));
    assert!(rests(told(500, r#"{"state":"STATE_CONFIRMED"}"#)));
    assert!(rests(api.await_redemption("t", RelayerReply::Answer(None), 5, 1)));
    assert!(matches!(
        api.await_redemption("t", RelayerReply::Rested, 119, 1),
        RedemptionStep::Ask(_)
    ));
    match api.await_redemption("t", RelayerReply::Rested, 120, 1) {
        RedemptionStep::Finished(r) => {
            assert!(!r.success);
            assert_eq!(r.transaction_hash, Some("t".to_string()));
        }
        _ => panic!("still waiting"),
    }
}

#[test]
fn the_account_is_the_wallet_or_that_of_the_key() {
    let mut api = account();
    assert_eq!(api.account_to_check().unwrap().text(), OWNER);
    api.proxy_wallet_address = Some(format!(" {} ", USDC));
    assert_eq!(api.account_to_check().unwrap().text(), USDC.to_lowercase());
    let error = |api: &PolymarketApi| match api.account_to_check() {
        Err(e) => e,
        Ok(_) => panic!("accepted"),
    };
    api.proxy_wallet_address = Some("w".to_string());
    assert_eq!(error(&api), "Failed to parse proxy_wallet_address: w");
    api.proxy_wallet_address = None;
    api.private_key = Some("k".to_string());
    assert_eq!(error(&api), "Failed to create signer from private key");
    api.private_key = None;
    assert_eq!(error(&api), "Private key required to check approval");
}

#[test]
fn approvals_are_looked_up_on_chain() {
    let api = account();
    let c = contracts();
    assert_eq!(api.get_clob_contract_address(&c), USDC.to_lowercase());
    assert_eq!(api.get_ctf_contract_address(&c), CTF_CONTRACT.to_lowercase());
    let call = api.check_is_approved_for_all(&c).unwrap();
    assert_eq!(call.to, CTF_CONTRACT.to_lowercase());
    assert!(call.data.starts_with("0xe985e9c5"));
    assert!(call.data.contains(&OWNER[2..]));
    let yes = format!("0x{:064x}", 1);
    let no = format!("0x{:064x}", 0);
    assert_eq!(read_is_approved(Some(&yes)), Ok(true));
    assert_eq!(read_is_approved(Some(&no)), Ok(false));
    assert_eq!(read_is_approved(None), Err("Failed to check isApprovedForAll".to_string()));
    assert!(read_is_approved(Some("0x")).is_err());
    let list = api.check_all_approvals(&c, &c).unwrap();
    let names: Vec<&str> = list.iter().map(|q| q.name.as_str()).collect();
    assert_eq!(names, vec!["CTF Exchange", "Neg Risk CTF Exchange"]);
    assert_eq!(list[0].usdc.to, USDC.to_lowercase());
    assert!(list[0].usdc.data.starts_with("0xdd62ed3e"));
    let mut risky = contracts();
    risky.neg_risk_adapter = Some(Address::of_key(KEY).unwrap());
    let list = api.check_all_approvals(&c, &risky).unwrap();
    assert_eq!(list[2].name, "Neg Risk Adapter");
    assert!(list[2].tokens.data.ends_with(&OWNER[2..]));
    assert_eq!(
        read_approvals("n".to_string(), Some(&yes), Some(&no)),
        ("n".to_string(), true, false)
    );
    assert_eq!(read_approvals("n".to_string(), None, None), ("n".to_string(), false, false));
    assert_eq!(
        read_approvals("n".to_string(), Some("?"), Some(&yes)),
        ("n".to_string(), false, true)
    );
}

#[test]
fn approval_goes_through_the_relayer_for_a_wallet() {
    let mut api = account();
    let c = contracts();
    match api.set_approval_for_all_clob(&c, 1).unwrap() {
        ApprovalRoute::Direct { signer, to, data } => {
            assert_eq!(signer.text(), OWNER);
            assert_eq!(to.bytes, c.conditional_tokens.bytes);
            assert_eq!(&data[..4], &[0xa2, 0x2c, 0xb4, 0x65]);
        }
        _ => panic!("not direct"),
    }
    api.proxy_wallet_address = Some(OWNER.to_string());
    match api.set_approval_for_all_clob(&c, 1).unwrap() {
        ApprovalRoute::Relayer(r) => {
            let body = r.body.unwrap();
            assert!(body.contains(&format!(
                "Set approval for all tokens - approve Exchange contract {}",
                USDC.to_lowercase()
            )));
            assert!(body.contains("\"data\":\"0xa22cb465"));
        }
        _ => panic!("not by the relayer"),
    }
    api.api_key = None;
    assert!(api.set_approval_for_all_clob(&c, 1).is_err());
    let mut keyless = account();
    keyless.private_key = None;
    match keyless.set_approval_for_all_clob(&c, 1) {
        Err(e) => assert!(e.starts_with("Private key is required for token approval")),
        Ok(_) => panic!("accepted"),
    }
    keyless.private_key = Some("bad".to_string());
    match keyless.set_approval_for_all_clob(&c, 1) {
        Err(e) => assert!(e.ends_with("Ensure private_key is a valid hex string.")),
        Ok(_) => panic!("accepted"),
    }
}

#[test]
fn a_refused_approval_says_why() {
    let mut api = account();
    let c = contracts();
    assert_eq!(
        api.read_approval(
            &answer(200, r#"{"transactionID":"t"}"#),
            &c.conditional_tokens,
            &c.exchange
        ),
        Ok("t".to_string())
    );
    let refused = |api: &PolymarketApi| {
        api.read_approval(&answer(400, "bad"), &c.conditional_tokens, &c.exchange).unwrap_err()
    };
    let plain = refused(&api);
    assert!(plain.starts_with("Relayer rejected setApprovalForAll request (status: 400 X): bad"));
    assert!(plain.contains("Signature Type: None"));
    assert!(!plain.contains("GNOSIS_SAFE"));
    api.signature_type = Some(2);
    let safe = refused(&api);
    assert!(safe.contains("Signature Type: Some(2)"));
    assert!(safe.contains("GNOSIS_SAFE"));
}

#[test]
fn a_transaction_is_waited_for() {
    let api = account();
    match api.wait_for_relayer_transaction("t", RelayerReply::Begin, 0) {
        TransactionStep::Ask(r) => {
            assert_eq!(r.url, "https://relayer-v2.polymarket.com/transaction/t");
            assert_eq!(header(&r, "User-Agent"), "polymarket-trading-bot/1.0");
        }
        _ => panic!("not asked"),
    }
    let told = |code: u16, body: &str| {
        api.wait_for_relayer_transaction("t", RelayerReply::Answer(Some(answer(code, body))), 5)
    };
    assert!(
        matches!(told(200, r#"{"state":"STATE_CONFIRMED"}"#), TransactionStep::Confirmed(h) if h == "N/A")
    );
    assert!(matches!(
        told(200, r#"{"state":"STATE_INVALID","metadata":"m"}"#),
        TransactionStep::Failed(e) if e == "Relayer transaction failed: m"
    ));
    assert!(matches!(
        told(200, "x"),
        TransactionStep::Failed(e) if e == "Failed to parse relayer status response"
    ));
    assert!(matches!(told(200, "{}"), TransactionStep::Rest { milliseconds: 2000 }));
    assert!(matches!(told(500, "x"), TransactionStep::Rest { .. }));
    assert!(matches!(
        api.wait_for_relayer_transaction("t", RelayerReply::Rested, 120),
        TransactionStep::Failed(e) if e == "Relayer transaction confirmation timeout after 120 seconds"
    ));
    assert!(matches!(
        judge_transaction(true, "STATE_FAILED", None, None),
        TransactionStep::Failed(e) if e == "Relayer transaction failed: Transaction failed"
    ));
}

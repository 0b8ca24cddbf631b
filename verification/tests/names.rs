use polymarket_arbitrage_bot::keys::{
    bought_key, limit_key, opposite_key, opposite_limit_key, simulated_key,
};
use polymarket_arbitrage_bot::models::TokenType;

const SIDES: [TokenType; 8] = [
    TokenType::BtcUp,
    TokenType::BtcDown,
    TokenType::EthUp,
    TokenType::EthDown,
    TokenType::SolanaUp,
    TokenType::SolanaDown,
    TokenType::XrpUp,
    TokenType::XrpDown,
];

#[test]
fn keys_name_period_token_and_kind() {
    assert_eq!(bought_key(900, "7"), "900_7");
    assert_eq!(simulated_key(900, "7"), "900_7_market");
    assert_eq!(limit_key(900, "7"), "900_7_limit");
    assert_eq!(opposite_key(900, "7"), "900_opposite_7");
    assert_eq!(opposite_limit_key(900, "7"), "900_opposite_limit_7");
}

#[test]
fn keys_of_different_trades_differ() {
    let mut keys = Vec::new();
    for period in [900u64, 1800] {
        for token in ["7", "71"] {
            keys.push(bought_key(period, token));
            keys.push(simulated_key(period, token));
            keys.push(limit_key(period, token));
            keys.push(opposite_key(period, token));
            keys.push(opposite_limit_key(period, token));
        }
    }
    for i in 0..keys.len() {
        for j in 0..i {
            assert_ne!(keys[i], keys[j]);
        }
    }
}

#[test]
fn sides_have_names_and_outcomes() {
    let names: Vec<&str> = SIDES.iter().map(|s| s.display_name()).collect();
    assert_eq!(
        names,
        vec![
            "BTC Up", "BTC Down", "ETH Up", "ETH Down", "Solana Up", "Solana Down", "XRP Up",
            "XRP Down"
        ]
    );
    assert_eq!(TokenType::XrpUp.outcome(), "Up");
    assert_eq!(TokenType::SolanaDown.outcome(), "Down");
}

#[test]
fn the_opposite_of_the_opposite_is_the_side() {
    for side in SIDES {
        assert_eq!(side.opposite().opposite(), side);
        assert_ne!(side.opposite(), side);
        assert_ne!(side.opposite().is_up(), side.is_up());
    }
    assert_eq!(TokenType::EthUp.opposite(), TokenType::EthDown);
}

use polymarket_arbitrage_bot::chain::{
    address_to_u256, encode_allowance, encode_approval, encode_is_approved, encode_redemption,
    hex_string, parse_condition, parse_token_id_u256, read_flag, read_positive, Address,
    CTF_CONTRACT, USDC,
};

const KEY: &str = "0x0000000000000000000000000000000000000000000000000000000000000001";
const OWNER: &str = "0x7e5f4552091a69125d5dfcb7b8c2659029395bdf";

fn word(n: u8) -> String {
    format!("{:064x}", n)
}

fn padded(address: &str) -> String {
    format!("{:0>64}", &address[2..])
}

#[test]
fn bytes_are_written_in_hexadecimal() {
    assert_eq!(hex_string(&[0x00, 0x0f, 0xa5, 0xff]), "0x000fa5ff");
    assert_eq!(hex_string(&[]), "0x");
}

#[test]
fn addresses_are_read_in_any_case() {
    let usdc = Address::parse(USDC).unwrap();
    assert_eq!(usdc.text(), "0x2791bca1f2de4661ed88a30c99a7a9449aa84174");
    assert_eq!(Address::parse(&USDC[2..]).unwrap().bytes, usdc.bytes);
    assert_eq!(Address::parse(&USDC.replace("0x", "0X")).unwrap().bytes, usdc.bytes);
    assert_eq!(Address::parse(&usdc.text().to_uppercase()).unwrap().bytes, usdc.bytes);
    assert!(Address::parse("0x2791").is_none());
    assert!(Address::parse("0x2791bca1f2de4661ed88a30c99a7a9449aa8417g").is_none());
    assert!(Address::parse(" 0x2791bca1f2de4661ed88a30c99a7a9449aa84174").is_none());
    assert!(Address::parse(CTF_CONTRACT).is_some());
}

#[test]
fn checksums_hold_addresses_to_their_case() {
    assert_eq!(
        Address::parse_checksummed(USDC).unwrap().text(),
        "0x2791bca1f2de4661ed88a30c99a7a9449aa84174"
    );
    assert!(Address::parse_checksummed(&USDC.to_lowercase()).is_none());
    assert!(Address::parse_checksummed("0x12").is_none());
}

#[test]
fn keys_have_addresses() {
    assert_eq!(Address::of_key(KEY).unwrap().text(), OWNER);
    assert_eq!(Address::of_key(&KEY[2..]).unwrap().text(), OWNER);
    assert!(Address::of_key("0x00").is_none());
    assert!(Address::of_key("no key").is_none());
}

#[test]
fn token_identifiers_are_decimal_or_hexadecimal() {
    let mut word = [0u8; 32];
    word[31] = 0xff;
    assert_eq!(parse_token_id_u256("255"), Ok(word));
    assert_eq!(parse_token_id_u256(" 0xff "), Ok(word));
    assert_eq!(parse_token_id_u256("0XFF"), Ok(word));
    assert_eq!(parse_token_id_u256("2_5_5"), Ok(word));
    assert_eq!(parse_token_id_u256("ff"), Ok(word));
    assert_eq!(parse_token_id_u256(" FF "), Ok(word));
    word[30] = 1;
    assert_eq!(parse_token_id_u256("511"), Ok(word));
    assert_eq!(parse_token_id_u256("1ff"), Ok(word));
    assert_eq!(parse_token_id_u256("gg"), Err("Invalid decimal token_id".to_string()));
    assert_eq!(parse_token_id_u256("0xgg"), Err("Invalid hex token_id".to_string()));
    let most = format!("0x{}", "f".repeat(64));
    assert_eq!(parse_token_id_u256(&most), Ok([0xff; 32]));
    assert!(parse_token_id_u256(&format!("0x1{}", "0".repeat(64))).is_err());
    assert_eq!(
        parse_token_id_u256(
            "115792089237316195423570985008687907853269984665640564039457584007913129639935"
        ),
        Ok([0xff; 32])
    );
    assert!(parse_token_id_u256(
        "115792089237316195423570985008687907853269984665640564039457584007913129639936"
    )
    .is_err());
}

#[test]
fn addresses_become_words() {
    let word = address_to_u256(USDC).unwrap();
    assert_eq!(word.len(), 32);
    assert_eq!(&word[..12], &[0u8; 12]);
    assert_eq!(&word[12..], &Address::parse(USDC).unwrap().bytes);
    assert_eq!(address_to_u256("x"), Err("Invalid address".to_string()));
}

#[test]
fn calls_are_encoded() {
    let a = Address::parse(USDC).unwrap();
    let b = Address::parse(OWNER).unwrap();
    assert_eq!(
        hex_string(&encode_approval(&a)),
        format!("0xa22cb465{}{}", padded(&a.text()), word(1))
    );
    assert_eq!(
        hex_string(&encode_is_approved(&b, &a)),
        format!("0xe985e9c5{}{}", padded(OWNER), padded(&a.text()))
    );
    assert_eq!(
        hex_string(&encode_allowance(&b, &a)),
        format!("0xdd62ed3e{}{}", padded(OWNER), padded(&a.text()))
    );
}

#[test]
fn redemptions_are_encoded() {
    let collateral = Address::parse(USDC).unwrap();
    let condition = parse_condition(&format!("0x{}", "ab".repeat(32))).unwrap();
    let start = format!(
        "0x3d7d3f5a{}{}{}{}",
        padded(&collateral.text()),
        word(0),
        "ab".repeat(32),
        word(128)
    );
    assert_eq!(
        hex_string(&encode_redemption(&collateral, &condition, true, true)),
        format!("{}{}{}{}", start, word(2), word(1), word(2))
    );
    assert_eq!(
        hex_string(&encode_redemption(&collateral, &condition, true, false)),
        format!("{}{}{}", start, word(1), word(1))
    );
    assert_eq!(
        hex_string(&encode_redemption(&collateral, &condition, false, true)),
        format!("{}{}{}", start, word(1), word(2))
    );
}

#[test]
fn conditions_are_words() {
    let id = "cd".repeat(32);
    assert_eq!(parse_condition(&id), Some([0xcd; 32]));
    assert_eq!(parse_condition(&format!("0x{}", id)), Some([0xcd; 32]));
    assert_eq!(parse_condition("0x12"), None);
    assert_eq!(parse_condition(&format!("{}zz", &id[2..])), None);
}

#[test]
fn answers_are_flags_or_numbers() {
    let answer = |n: u8| format!("0x{}", word(n));
    assert_eq!(read_flag(&answer(1)), Some(true));
    assert_eq!(read_flag(&answer(0)), Some(false));
    assert_eq!(read_flag(&answer(2)), None);
    assert_eq!(read_flag(&format!("0x01{}", &word(1)[2..])), None);
    assert_eq!(read_flag("0x"), None);
    assert!(read_positive(&answer(7)));
    assert!(read_positive(&format!("0x80{}", &word(0)[2..])));
    assert!(!read_positive(&answer(0)));
    assert!(!read_positive("0x"));
}

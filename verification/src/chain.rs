//! Addresses, numbers and calls as the chain takes them.

use vstd::arithmetic::power::pow;
use vstd::prelude::*;
use vstd::string::*;

use crate::text::{begins_with, decimal_text, digit_char, starts_with, trim, trimmed};

verus! {

/// The address of USDC, the collateral of every market.
pub const USDC: &'static str = "0x2791Bca1f2de4661ED88A30C99A7a9449Aa84174";

/// The address of the contract that holds the outcome tokens.
pub const CTF_CONTRACT: &'static str = "0x4bFb41d5B3570DeFd03C39a9A4D8dE6Bd8B8982E";

/// The bytes of the address of the contract that holds the outcome tokens.
pub open spec fn ctf_bytes() -> Seq<u8> {
    seq![
        0x4bu8, 0xfbu8, 0x41u8, 0xd5u8, 0xb3u8,
        0x57u8, 0x0du8, 0xefu8, 0xd0u8, 0x3cu8,
        0x39u8, 0xa9u8, 0xa4u8, 0xd8u8, 0xdeu8,
        0x6bu8, 0xd8u8, 0xb8u8, 0x98u8, 0x2eu8,
    ]
}

/// The bytes of the address of USDC.
pub open spec fn usdc_bytes() -> Seq<u8> {
    seq![
        0x27u8, 0x91u8, 0xbcu8, 0xa1u8, 0xf2u8,
        0xdeu8, 0x46u8, 0x61u8, 0xedu8, 0x88u8,
        0xa3u8, 0x0cu8, 0x99u8, 0xa7u8, 0xa9u8,
        0x44u8, 0x9au8, 0xa8u8, 0x41u8, 0x74u8,
    ]
}

/// The character of a hexadecimal digit.
pub open spec fn hex_char(d: u8) -> char {
    if d < 10 {
        ('0' as u32 + d) as char
    } else {
        ('a' as u32 + (d - 10)) as char
    }
}

/// Bytes in hexadecimal: two digits each, in lower case.
pub open spec fn hex_text(bytes: Seq<u8>) -> Seq<char> {
    Seq::new(
        2 * bytes.len(),
        |i: int|
            hex_char(
                if i % 2 == 0 {
                    bytes[i / 2] / 16
                } else {
                    bytes[i / 2] % 16
                },
            ),
    )
}

/// The value of a digit or letter, as bases above ten count them.
pub open spec fn digit_value(c: char) -> Option<nat> {
    if '0' <= c <= '9' {
        Some((c as u32 - '0' as u32) as nat)
    } else if 'a' <= c <= 'z' {
        Some((c as u32 - 'a' as u32 + 10) as nat)
    } else if 'A' <= c <= 'Z' {
        Some((c as u32 - 'A' as u32 + 10) as nat)
    } else {
        None
    }
}

/// Whether a character is a hexadecimal digit.
pub open spec fn is_hex(c: char) -> bool {
    digit_value(c) is Some && digit_value(c)->0 < 16
}

/// A text without the prefix that marks it as hexadecimal.
pub open spec fn without_prefix(text: Seq<char>) -> Seq<char> {
    if begins_with(text, seq!['0', 'x']) || begins_with(text, seq!['0', 'X']) {
        text.skip(2)
    } else {
        text
    }
}

/// The `n` bytes that a hexadecimal text of that length stands for.
pub open spec fn hex_bytes(text: Seq<char>, n: nat) -> Option<Seq<u8>> {
    let digits = without_prefix(text);
    if digits.len() == 2 * n && forall|i: int| 0 <= i < digits.len() ==> is_hex(#[trigger] digits[i]) {
        Some(
            Seq::new(
                n,
                |i: int|
                    (16 * digit_value(digits[2 * i])->0 + digit_value(digits[2 * i + 1])->0) as u8,
            ),
        )
    } else {
        None
    }
}

/// The number that bytes stand for, the most significant first.
pub open spec fn big_endian(bytes: Seq<u8>) -> nat
    decreases bytes.len(),
{
    if bytes.len() == 0 {
        0
    } else {
        256 * big_endian(bytes.drop_last()) + bytes.last() as nat
    }
}

/// The number that digits of a base stand for. Underscores are passed over.
pub open spec fn number(text: Seq<char>, base: nat) -> Option<nat>
    decreases text.len(),
{
    if text.len() == 0 {
        Some(0)
    } else if text.last() == '_' {
        number(text.drop_last(), base)
    } else {
        match (number(text.drop_last(), base), digit_value(text.last())) {
            (Some(n), Some(d)) => if d < base {
                Some(base * n + d)
            } else {
                None
            },
            _ => None,
        }
    }
}

/// Calls `hex::encode`, which gives two lower-case digits for each byte.
#[verifier::external_body]
pub(crate) fn encode_hex(bytes: &[u8]) -> (res: String)
    ensures
        res@ == hex_text(bytes@),
{
    hex::encode(bytes)
}

/// Calls `alloy`'s `Address::from_str`: an optional `0x` or `0X`, then forty
/// hexadecimal digits of either case.
#[verifier::external_body]
fn address_from_str(text: &str) -> (res: Option<[u8; 20]>)
    ensures
        match res {
            Some(a) => hex_bytes(text@, 20) == Some(a@),
            None => hex_bytes(text@, 20) is None,
        },
{
    match text.parse::<alloy::primitives::Address>() {
        Ok(a) => Some(a.into_array()),
        Err(_) => None,
    }
}

/// Calls `alloy`'s `B256::from_str`: an optional `0x` or `0X`, then sixty-four
/// hexadecimal digits of either case.
#[verifier::external_body]
fn word_from_str(text: &str) -> (res: Option<[u8; 32]>)
    ensures
        match res {
            Some(w) => hex_bytes(text@, 32) == Some(w@),
            None => hex_bytes(text@, 32) is None,
        },
{
    match text.parse::<alloy::primitives::B256>() {
        Ok(w) => Some(w.0),
        Err(_) => None,
    }
}

/// Calls `alloy`'s `U256::from_str_radix`, whose result is given as its 32 bytes, the
/// most significant first. It takes the digits and letters that count below the base,
/// passes over underscores, takes an empty text for zero, and fails on numbers of more
/// than 256 bits.
#[verifier::external_body]
fn number_from_str(text: &str, base: u64) -> (res: Option<[u8; 32]>)
    requires
        base == 10 || base == 16,
    ensures
        match res {
            Some(w) => number(text@, base as nat) == Some(big_endian(w@)),
            None => number(text@, base as nat) is None || number(text@, base as nat)->0
                >= 0x1_0000_0000_0000_0000_0000_0000_0000_0000_0000_0000_0000_0000_0000_0000_0000_0000nat,
        },
{
    match alloy::primitives::U256::from_str_radix(text, base) {
        Ok(n) => Some(n.to_be_bytes::<32>()),
        Err(_) => None,
    }
}

/// The address that `alloy` reads from a text whose letters must have the case that
/// its checksum demands.
pub uninterp spec fn checksummed(text: Seq<char>) -> Option<Seq<u8>>;

/// Calls `alloy`'s `Address::parse_checksummed` without a chain. Besides the result's
/// name, it is stated that what it accepts is an address.
#[verifier::external_body]
fn address_from_checksummed(text: &str) -> (res: Option<[u8; 20]>)
    ensures
        match res {
            Some(a) => checksummed(text@) == Some(a@) && hex_bytes(text@, 20) == Some(a@),
            None => checksummed(text@) is None,
        },
{
    match alloy::primitives::Address::parse_checksummed(text, None) {
        Ok(a) => Some(a.into_array()),
        Err(_) => None,
    }
}

/// The address that belongs to a private key, as `alloy` derives it.
pub uninterp spec fn key_address(private_key: Seq<char>) -> Option<Seq<u8>>;

/// Makes an `alloy` `LocalSigner` from a private key and takes its address. It fails
/// on texts that are no valid key.
#[verifier::external_body]
fn address_of_key(private_key: &str) -> (res: Option<[u8; 20]>)
    ensures
        match res {
            Some(a) => key_address(private_key@) == Some(a@),
            None => key_address(private_key@) is None,
        },
{
    match private_key.parse::<alloy::signers::local::PrivateKeySigner>() {
        Ok(signer) => Some(signer.address().into_array()),
        Err(_) => None,
    }
}

/// An address.
#[derive(Clone, Copy, Debug)]
pub struct Address {
    pub bytes: [u8; 20],
}

impl View for Address {
    type V = Seq<u8>;

    open spec fn view(&self) -> Seq<u8> {
        self.bytes@
    }
}

/// A text that marks bytes as hexadecimal.
pub open spec fn prefixed_hex(bytes: Seq<u8>) -> Seq<char> {
    "0x"@ + hex_text(bytes)
}

/// Writes bytes in hexadecimal, with the prefix that marks them so.
pub fn hex_string(bytes: &[u8]) -> (res: String)
    ensures
        res@ == prefixed_hex(bytes@),
{
    let mut res = "0x".to_owned();
    res.append(encode_hex(bytes).as_str());
    res
}

impl Address {
    /// Reads an address.
    pub fn parse(text: &str) -> (res: Option<Address>)
        ensures
            match res {
                Some(a) => hex_bytes(text@, 20) == Some(a@),
                None => hex_bytes(text@, 20) is None,
            },
    {
        match address_from_str(text) {
            Some(bytes) => Some(Address { bytes }),
            None => None,
        }
    }

    /// Reads an address and holds it to its checksum.
    pub fn parse_checksummed(text: &str) -> (res: Option<Address>)
        ensures
            match res {
                Some(a) => checksummed(text@) == Some(a@) && hex_bytes(text@, 20) == Some(a@),
                None => checksummed(text@) is None,
            },
    {
        match address_from_checksummed(text) {
            Some(bytes) => Some(Address { bytes }),
            None => None,
        }
    }

    /// The address that belongs to a private key.
    pub fn of_key(private_key: &str) -> (res: Option<Address>)
        ensures
            match res {
                Some(a) => key_address(private_key@) == Some(a@),
                None => key_address(private_key@) is None,
            },
    {
        match address_of_key(private_key) {
            Some(bytes) => Some(Address { bytes }),
            None => None,
        }
    }

    /// The address as a text.
    pub fn text(&self) -> (res: String)
        ensures
            res@ == prefixed_hex(self@),
    {
        hex_string(self.bytes.as_slice())
    }
}

/// What a token identifier stands for: a hexadecimal number where it is marked as one,
/// else a decimal one or, where it is none, again a hexadecimal one. Surrounding white
/// space does not count.
pub open spec fn token_number(text: Seq<char>) -> Option<nat> {
    let t = trimmed(text);
    if begins_with(t, "0x"@) || begins_with(t, "0X"@) {
        number(t.skip(2), 16)
    } else if number(t, 10) is Some {
        number(t, 10)
    } else {
        number(t, 16)
    }
}

/// Bytes stand for less than as many factors of 256.
proof fn lemma_big_endian_below_power(bytes: Seq<u8>)
    ensures
        big_endian(bytes) < pow(256, bytes.len()),
    decreases bytes.len(),
{
    reveal(pow);
    if bytes.len() > 0 {
        lemma_big_endian_below_power(bytes.drop_last());
        assert(pow(256, bytes.len()) == 256 * pow(256, (bytes.len() - 1) as nat));
    }
}

/// 32 bytes stand for a number of 256 bits.
proof fn lemma_word_fits(bytes: Seq<u8>)
    requires
        bytes.len() == 32,
    ensures
        big_endian(bytes)
            < 0x1_0000_0000_0000_0000_0000_0000_0000_0000_0000_0000_0000_0000_0000_0000_0000_0000nat,
{
    lemma_big_endian_below_power(bytes);
    assert(pow(256, 32)
        == 0x1_0000_0000_0000_0000_0000_0000_0000_0000_0000_0000_0000_0000_0000_0000_0000_0000) by {
        reveal_with_fuel(pow, 33);
    }
}

/// Decimal digits are hexadecimal ones too, and do not stand for less there.
proof fn lemma_number_grows_with_base(text: Seq<char>)
    requires
        number(text, 10) is Some,
    ensures
        number(text, 16) is Some,
        number(text, 16)->0 >= number(text, 10)->0,
    decreases text.len(),
{
    if text.len() > 0 {
        lemma_number_grows_with_base(text.drop_last());
    }
}

/// Whether a token identifier is marked as hexadecimal.
pub open spec fn is_marked_hex(text: Seq<char>) -> bool {
    begins_with(trimmed(text), "0x"@) || begins_with(trimmed(text), "0X"@)
}

/// Reads a token identifier into 32 bytes, the most significant first.
pub fn parse_token_id_u256(text: &str) -> (res: Result<[u8; 32], String>)
    ensures
        match res {
            Ok(w) => token_number(text@) == Some(big_endian(w@)),
            Err(e) => {
                &&& token_number(text@) is None || token_number(text@)->0
                    >= 0x1_0000_0000_0000_0000_0000_0000_0000_0000_0000_0000_0000_0000_0000_0000_0000_0000nat
                &&& e@ == if is_marked_hex(text@) {
                    "Invalid hex token_id"@
                } else {
                    "Invalid decimal token_id"@
                }
            },
        },
{
    let t = trim(text);
    if starts_with(t, "0x") || starts_with(t, "0X") {
        proof {
            reveal_strlit("0x");
            reveal_strlit("0X");
        }
        let digits = t.substring_char(2, t.unicode_len());
        assert(digits@ =~= t@.skip(2));
        match number_from_str(digits, 16) {
            Some(w) => Ok(w),
            None => Err("Invalid hex token_id".to_owned()),
        }
    } else {
        proof {
            if number(t@, 10) is Some {
                lemma_number_grows_with_base(t@);
            }
        }
        match number_from_str(t, 10) {
            Some(w) => Ok(w),
            None => match number_from_str(t, 16) {
                Some(w) => {
                    proof {
                        lemma_word_fits(w@);
                    }
                    Ok(w)
                },
                None => Err("Invalid decimal token_id".to_owned()),
            },
        }
    }
}

/// `n` bytes of zero.
pub open spec fn zeros(n: nat) -> Seq<u8> {
    Seq::new(n, |i: int| 0u8)
}

/// An address as a 32-byte word.
pub open spec fn address_word(address: Seq<u8>) -> Seq<u8> {
    zeros(12) + address
}

/// A small number as a 32-byte word.
pub open spec fn byte_word(n: u8) -> Seq<u8> {
    zeros(31).push(n)
}

fn push_zeros(bytes: &mut Vec<u8>, n: usize)
    ensures
        final(bytes)@ == old(bytes)@ + zeros(n as nat),
{
    let ghost before = bytes@;
    let mut i: usize = 0;
    assert(before =~= before + zeros(0));
    while i < n
        invariant
            i <= n,
            bytes@ == before + zeros(i as nat),
        decreases n - i,
    {
        bytes.push(0);
        i = i + 1;
        assert(bytes@ =~= before + zeros(i as nat));
    }
}

fn push_slice(bytes: &mut Vec<u8>, more: &[u8])
    ensures
        final(bytes)@ == old(bytes)@ + more@,
{
    let ghost before = bytes@;
    let mut i: usize = 0;
    assert(before =~= before + more@.take(0));
    while i < more.len()
        invariant
            i <= more@.len(),
            bytes@ == before + more@.take(i as int),
        decreases more@.len() - i,
    {
        bytes.push(more[i]);
        i = i + 1;
        assert(bytes@ =~= before + more@.take(i as int));
    }
    assert(more@.take(i as int) =~= more@);
}

fn push_address(bytes: &mut Vec<u8>, address: &Address)
    ensures
        final(bytes)@ == old(bytes)@ + address_word(address@),
{
    let ghost before = bytes@;
    push_zeros(bytes, 12);
    push_slice(bytes, address.bytes.as_slice());
    assert(bytes@ =~= before + address_word(address@));
}

fn push_byte(bytes: &mut Vec<u8>, n: u8)
    ensures
        final(bytes)@ == old(bytes)@ + byte_word(n),
{
    let ghost before = bytes@;
    push_zeros(bytes, 31);
    bytes.push(n);
    assert(bytes@ =~= before + byte_word(n));
}

/// An address as a 32-byte word.
pub fn address_to_u256(text: &str) -> (res: Result<Vec<u8>, String>)
    ensures
        match res {
            Ok(w) => hex_bytes(text@, 20) is Some && w@ == address_word(hex_bytes(text@, 20)->0),
            Err(e) => hex_bytes(text@, 20) is None && e@ == "Invalid address"@,
        },
{
    match Address::parse(text) {
        Some(address) => {
            let mut word: Vec<u8> = Vec::new();
            push_address(&mut word, &address);
            assert(word@ =~= address_word(address@));
            Ok(word)
        },
        None => Err("Invalid address".to_owned()),
    }
}

/// The call `setApprovalForAll(operator, true)`.
pub open spec fn approval_call(operator: Seq<u8>) -> Seq<u8> {
    seq![0xa2u8, 0x2cu8, 0xb4u8, 0x65u8] + address_word(operator) + byte_word(1)
}

/// Encodes the call `setApprovalForAll(operator, true)`.
pub fn encode_approval(operator: &Address) -> (res: Vec<u8>)
    ensures
        res@ == approval_call(operator@),
{
    let mut res: Vec<u8> = Vec::new();
    push_slice(&mut res, [0xa2u8, 0x2cu8, 0xb4u8, 0x65u8].as_slice());
    push_address(&mut res, operator);
    push_byte(&mut res, 1);
    assert(res@ =~= approval_call(operator@));
    res
}

/// The call `isApprovedForAll(account, operator)`.
pub open spec fn is_approved_call(account: Seq<u8>, operator: Seq<u8>) -> Seq<u8> {
    seq![0xe9u8, 0x85u8, 0xe9u8, 0xc5u8] + address_word(account) + address_word(operator)
}

/// Encodes the call `isApprovedForAll(account, operator)`.
pub fn encode_is_approved(account: &Address, operator: &Address) -> (res: Vec<u8>)
    ensures
        res@ == is_approved_call(account@, operator@),
{
    let mut res: Vec<u8> = Vec::new();
    push_slice(&mut res, [0xe9u8, 0x85u8, 0xe9u8, 0xc5u8].as_slice());
    push_address(&mut res, account);
    push_address(&mut res, operator);
    assert(res@ =~= is_approved_call(account@, operator@));
    res
}

/// The call `allowance(owner, spender)`.
pub open spec fn allowance_call(owner: Seq<u8>, spender: Seq<u8>) -> Seq<u8> {
    seq![0xddu8, 0x62u8, 0xedu8, 0x3eu8] + address_word(owner) + address_word(spender)
}

/// Encodes the call `allowance(owner, spender)`.
pub fn encode_allowance(owner: &Address, spender: &Address) -> (res: Vec<u8>)
    ensures
        res@ == allowance_call(owner@, spender@),
{
    let mut res: Vec<u8> = Vec::new();
    push_slice(&mut res, [0xddu8, 0x62u8, 0xedu8, 0x3eu8].as_slice());
    push_address(&mut res, owner);
    push_address(&mut res, spender);
    assert(res@ =~= allowance_call(owner@, spender@));
    res
}

/// The index sets of a redemption: one for the side that answers yes, two for the side
/// that answers no.
pub open spec fn index_sets(yes: bool, no: bool) -> Seq<u8> {
    if yes && no {
        seq![1u8, 2u8]
    } else if yes {
        seq![1u8]
    } else if no {
        seq![2u8]
    } else {
        Seq::empty()
    }
}

/// Small numbers as 32-byte words, one after the other.
pub open spec fn byte_words(list: Seq<u8>) -> Seq<u8>
    decreases list.len(),
{
    if list.len() == 0 {
        Seq::empty()
    } else {
        byte_words(list.drop_last()) + byte_word(list.last())
    }
}

/// The call `redeemPositions(collateral, 0, condition, sets)`: the array of the index
/// sets stands behind the four words of the arguments, its length before its elements.
pub open spec fn redemption_call(
    collateral: Seq<u8>,
    condition: Seq<u8>,
    sets: Seq<u8>,
) -> Seq<u8> {
    seq![0x3du8, 0x7du8, 0x3fu8, 0x5au8] + address_word(collateral) + zeros(32) + condition
        + byte_word(128) + byte_word(sets.len() as u8) + byte_words(sets)
}

/// Encodes the call `redeemPositions`.
pub fn encode_redemption(collateral: &Address, condition: &[u8; 32], yes: bool, no: bool) -> (res:
    Vec<u8>)
    ensures
        res@ == redemption_call(collateral@, condition@, index_sets(yes, no)),
{
    let mut res: Vec<u8> = Vec::new();
    push_slice(&mut res, [0x3du8, 0x7du8, 0x3fu8, 0x5au8].as_slice());
    push_address(&mut res, collateral);
    push_zeros(&mut res, 32);
    push_slice(&mut res, condition.as_slice());
    push_byte(&mut res, 128);
    let count: u8 = if yes && no {
        2
    } else if yes || no {
        1
    } else {
        0
    };
    push_byte(&mut res, count);
    let ghost sets = index_sets(yes, no);
    let ghost start = res@;
    proof {
        reveal_with_fuel(byte_words, 4);
        assert(byte_words(Seq::<u8>::empty()) =~= Seq::<u8>::empty());
        assert(byte_words(seq![1u8]) =~= byte_word(1)) by {
            assert(seq![1u8].drop_last() =~= Seq::<u8>::empty());
        }
        assert(byte_words(seq![2u8]) =~= byte_word(2)) by {
            assert(seq![2u8].drop_last() =~= Seq::<u8>::empty());
        }
        assert(byte_words(seq![1u8, 2u8]) =~= byte_word(1) + byte_word(2)) by {
            assert(seq![1u8, 2u8].drop_last() =~= seq![1u8]);
        }
    }
    if yes {
        push_byte(&mut res, 1);
    }
    if no {
        push_byte(&mut res, 2);
    }
    assert(res@ =~= start + byte_words(sets));
    assert(res@ =~= redemption_call(collateral@, condition@, sets));
    res
}

/// The text without a leading `0x`.
pub open spec fn stripped(text: Seq<char>) -> Seq<char> {
    if begins_with(text, "0x"@) {
        text.skip(2)
    } else {
        text
    }
}

/// The 32 bytes of a condition's identifier.
pub open spec fn condition_bytes(id: Seq<char>) -> Option<Seq<u8>> {
    hex_bytes(stripped(id), 32)
}

/// Reads the identifier of a condition.
pub fn parse_condition(id: &str) -> (res: Option<[u8; 32]>)
    ensures
        match res {
            Some(w) => condition_bytes(id@) == Some(w@),
            None => condition_bytes(id@) is None,
        },
{
    if starts_with(id, "0x") {
        proof {
            reveal_strlit("0x");
        }
        let digits = id.substring_char(2, id.unicode_len());
        assert(digits@ =~= id@.skip(2));
        word_from_str(digits)
    } else {
        word_from_str(id)
    }
}

/// Bytes that are written in hexadecimal, with or without the prefix, read back as
/// they were.
pub proof fn law_hex_reads_back(bytes: Seq<u8>)
    ensures
        hex_bytes(prefixed_hex(bytes), bytes.len()) == Some(bytes),
        hex_bytes(hex_text(bytes), bytes.len()) == Some(bytes),
{
    reveal_strlit("0x");
    let digits = hex_text(bytes);
    let text = prefixed_hex(bytes);
    assert(text.take(2) =~= seq!['0', 'x']);
    assert(without_prefix(text) =~= digits);
    assert forall|i: int| 0 <= i < digits.len() implies is_hex(#[trigger] digits[i]) && digit_value(
        digits[i],
    )->0 == if i % 2 == 0 {
        bytes[i / 2] / 16
    } else {
        bytes[i / 2] % 16
    } by {
        let d: u8 = if i % 2 == 0 {
            bytes[i / 2] / 16
        } else {
            bytes[i / 2] % 16
        };
        assert(d < 16);
        assert(digits[i] == hex_char(d));
    }
    assert(without_prefix(digits) =~= digits) by {
        if digits.len() >= 2 {
            assert(is_hex(digits[1]));
            assert(digits.take(2)[1] == digits[1]);
        }
    }
    assert forall|i: int| 0 <= i < bytes.len() implies (16 * digit_value(digits[2 * i])->0
        + digit_value(digits[2 * i + 1])->0) as u8 == #[trigger] bytes[i] by {
        assert((2 * i) / 2 == i && (2 * i) % 2 == 0);
        assert((2 * i + 1) / 2 == i && (2 * i + 1) % 2 == 1);
    }
    assert(hex_bytes(digits, bytes.len())->0 =~= bytes);
}

/// A redemption's call is a selector and whole words, and tells its condition, so that
/// the calls of different conditions differ.
pub proof fn law_redemption_call_tells_its_condition(
    collateral: Seq<u8>,
    condition: Seq<u8>,
    yes: bool,
    no: bool,
)
    requires
        collateral.len() == 20,
        condition.len() == 32,
    ensures
        redemption_call(collateral, condition, index_sets(yes, no)).len() == 4 + 32 * (5
            + index_sets(yes, no).len()),
        redemption_call(collateral, condition, index_sets(yes, no)).subrange(68, 100) == condition,
{
    let sets = index_sets(yes, no);
    lemma_byte_words_len(sets);
    let call = redemption_call(collateral, condition, sets);
    assert(call.subrange(68, 100) =~= condition);
}

proof fn lemma_byte_words_len(list: Seq<u8>)
    ensures
        byte_words(list).len() == 32 * list.len(),
    decreases list.len(),
{
    if list.len() > 0 {
        lemma_byte_words_len(list.drop_last());
    }
}

/// The index sets of the two sides do not overlap, and together they are both sides.
pub proof fn law_index_sets(yes: bool, no: bool)
    ensures
        index_sets(yes, no).contains(1) == yes,
        index_sets(yes, no).contains(2) == no,
        index_sets(yes, no).no_duplicates(),
        index_sets(yes, no).len() == 0 <==> !yes && !no,
{
    let sets = index_sets(yes, no);
    if yes {
        assert(sets[0] == 1);
    }
    if no {
        assert(sets.last() == 2);
    }
}

/// An address as a word is the same number.
pub proof fn law_address_word_is_the_same_number(address: Seq<u8>)
    ensures
        address_word(address).len() == 12 + address.len(),
        big_endian(address_word(address)) == big_endian(address),
    decreases address.len(),
{
    if address.len() == 0 {
        assert(address_word(address) =~= zeros(12));
        reveal_with_fuel(big_endian, 13);
        lemma_zeros(12);
    } else {
        law_address_word_is_the_same_number(address.drop_last());
        assert(address_word(address).drop_last() =~= address_word(address.drop_last()));
    }
}

proof fn lemma_zeros(n: nat)
    ensures
        big_endian(zeros(n)) == 0,
    decreases n,
{
    if n > 0 {
        assert(zeros(n).drop_last() =~= zeros((n - 1) as nat));
        lemma_zeros((n - 1) as nat);
    }
}

/// The text of the address of USDC is an address.
pub proof fn lemma_usdc()
    ensures
        hex_bytes(USDC@, 20) == Some(usdc_bytes()),
{
    reveal_strlit("0x2791Bca1f2de4661ED88A30C99A7a9449Aa84174");
    let t = "0x2791Bca1f2de4661ED88A30C99A7a9449Aa84174"@;
    assert(t.take(2) =~= seq!['0', 'x']);
    let digits = t.skip(2);
    assert(without_prefix(t) =~= digits);
    assert(hex_bytes(t, 20)->0 =~= usdc_bytes());
}

/// The text of the address of the contract that holds the outcome tokens is an address.
pub proof fn lemma_ctf()
    ensures
        hex_bytes(CTF_CONTRACT@, 20) == Some(ctf_bytes()),
{
    reveal_strlit("0x4bFb41d5B3570DeFd03C39a9A4D8dE6Bd8B8982E");
    let t = "0x4bFb41d5B3570DeFd03C39a9A4D8dE6Bd8B8982E"@;
    assert(t.take(2) =~= seq!['0', 'x']);
    assert(without_prefix(t) =~= t.skip(2));
    assert(hex_bytes(t, 20)->0 =~= ctf_bytes());
}

/// What a call that gives a flag has given: nothing where it gave no flag.
pub open spec fn flag_of(text: Seq<char>) -> Option<bool> {
    match hex_bytes(text, 32) {
        Some(word) => if word == byte_word(1) {
            Some(true)
        } else if word == zeros(32) {
            Some(false)
        } else {
            None
        },
        None => None,
    }
}

/// Whether a call that gives a number has given one above zero.
pub open spec fn is_positive(text: Seq<char>) -> bool {
    hex_bytes(text, 32) is Some && hex_bytes(text, 32)->0 != zeros(32)
}

fn zeros_before(word: &[u8; 32], end: usize) -> (res: bool)
    requires
        end <= 32,
    ensures
        res == forall|i: int| 0 <= i < end ==> #[trigger] word@[i] == 0,
{
    let mut i: usize = 0;
    while i < end
        invariant
            i <= end <= 32,
            forall|j: int| 0 <= j < i ==> #[trigger] word@[j] == 0,
        decreases end - i,
    {
        if word[i] != 0 {
            assert(word@[i as int] != 0);
            return false;
        }
        i = i + 1;
    }
    true
}

/// Reads what a call that gives a flag has given.
pub fn read_flag(text: &str) -> (res: Option<bool>)
    ensures
        res == flag_of(text@),
{
    match word_from_str(text) {
        Some(word) => {
            assert(byte_word(1)[31] == 1);
            if !zeros_before(&word, 31) {
                assert(word@ != byte_word(1)) by {
                    if word@ == byte_word(1) {
                        assert forall|i: int| 0 <= i < 31 implies #[trigger] word@[i] == 0 by {
                            assert(byte_word(1)[i] == 0);
                        }
                    }
                }
                assert(word@ != zeros(32)) by {
                    if word@ == zeros(32) {
                        assert forall|i: int| 0 <= i < 31 implies #[trigger] word@[i] == 0 by {
                            assert(zeros(32)[i] == 0);
                        }
                    }
                }
                None
            } else if word[31] == 1 {
                assert(word@ =~= byte_word(1));
                Some(true)
            } else if word[31] == 0 {
                assert(word@ =~= zeros(32));
                Some(false)
            } else {
                assert(zeros(32)[31] == 0);
                None
            }
        },
        None => None,
    }
}

/// Reads whether a call that gives a number has given one above zero.
pub fn read_positive(text: &str) -> (res: bool)
    ensures
        res == is_positive(text@),
{
    match word_from_str(text) {
        Some(word) => {
            let none = zeros_before(&word, 32);
            proof {
                if none {
                    assert(word@ =~= zeros(32));
                } else if word@ == zeros(32) {
                    assert forall|i: int| 0 <= i < 32 implies #[trigger] word@[i] == 0 by {
                        assert(zeros(32)[i] == 0);
                    }
                }
            }
            !none
        },
        None => false,
    }
}

/// A number above zero is just one that is not zero.
pub proof fn law_positive_words(word: Seq<u8>)
    requires
        word.len() == 32,
    ensures
        word != zeros(32) <==> big_endian(word) > 0,
{
    lemma_big_endian_zero(word);
}

proof fn lemma_big_endian_zero(word: Seq<u8>)
    ensures
        big_endian(word) == 0 <==> word == zeros(word.len()),
    decreases word.len(),
{
    if word.len() == 0 {
        assert(word =~= zeros(0));
    } else {
        lemma_big_endian_zero(word.drop_last());
        let z = zeros(word.len());
        assert(z.drop_last() =~= zeros(word.drop_last().len()));
        if word.last() == 0 && word.drop_last() == zeros(word.drop_last().len()) {
            assert(word =~= word.drop_last().push(word.last()));
            assert(z =~= z.drop_last().push(0u8));
        }
        if word == z {
            assert(z.last() == 0);
        }
    }
}

/// The addresses of USDC and of the contract that holds the outcome tokens.
pub proof fn law_the_contracts_of_the_exchange()
    ensures
        USDC@ == "0x2791Bca1f2de4661ED88A30C99A7a9449Aa84174"@,
        CTF_CONTRACT@ == "0x4bFb41d5B3570DeFd03C39a9A4D8dE6Bd8B8982E"@,
        hex_bytes("0x2791Bca1f2de4661ED88A30C99A7a9449Aa84174"@, 20) == Some(usdc_bytes()),
        hex_bytes("0x4bFb41d5B3570DeFd03C39a9A4D8dE6Bd8B8982E"@, 20) == Some(ctf_bytes()),
{
    lemma_usdc();
    lemma_ctf();
}

/// The calls about approvals and allowances are a selector and two words: the addresses in
/// their order or, where an operator is approved, the operator and the number one.
pub proof fn law_calls_hold_their_arguments_in_order(first: Seq<u8>, second: Seq<u8>)
    requires
        first.len() == 20,
        second.len() == 20,
    ensures
        approval_call(first).len() == 68,
        approval_call(first).take(4) == seq![0xa2u8, 0x2cu8, 0xb4u8, 0x65u8],
        approval_call(first).subrange(4, 36) == zeros(12) + first,
        approval_call(first).subrange(36, 67) == zeros(31),
        approval_call(first)[67] == 1,
        is_approved_call(first, second).len() == 68,
        is_approved_call(first, second).take(4) == seq![0xe9u8, 0x85u8, 0xe9u8, 0xc5u8],
        is_approved_call(first, second).subrange(4, 36) == zeros(12) + first,
        is_approved_call(first, second).subrange(36, 68) == zeros(12) + second,
        allowance_call(first, second).len() == 68,
        allowance_call(first, second).take(4) == seq![0xddu8, 0x62u8, 0xedu8, 0x3eu8],
        allowance_call(first, second).subrange(4, 36) == zeros(12) + first,
        allowance_call(first, second).subrange(36, 68) == zeros(12) + second,
{
    assert(approval_call(first).take(4) =~= seq![0xa2u8, 0x2cu8, 0xb4u8, 0x65u8]);
    assert(approval_call(first).subrange(4, 36) =~= zeros(12) + first);
    assert(approval_call(first).subrange(36, 67) =~= zeros(31));
    assert(is_approved_call(first, second).take(4) =~= seq![0xe9u8, 0x85u8, 0xe9u8, 0xc5u8]);
    assert(is_approved_call(first, second).subrange(4, 36) =~= zeros(12) + first);
    assert(is_approved_call(first, second).subrange(36, 68) =~= zeros(12) + second);
    assert(allowance_call(first, second).take(4) =~= seq![0xddu8, 0x62u8, 0xedu8, 0x3eu8]);
    assert(allowance_call(first, second).subrange(4, 36) =~= zeros(12) + first);
    assert(allowance_call(first, second).subrange(36, 68) =~= zeros(12) + second);
}

/// A redemption's call is a selector, the collateral, no parent collection, the condition, the
/// place of the array, its length and its elements, a word each.
pub proof fn law_a_redemption_call_holds_its_arguments_in_order(
    collateral: Seq<u8>,
    condition: Seq<u8>,
)
    requires
        collateral.len() == 20,
        condition.len() == 32,
    ensures
        ({
            let call = redemption_call(collateral, condition, index_sets(true, true));
            &&& call.len() == 228
            &&& call.take(4) == seq![0x3du8, 0x7du8, 0x3fu8, 0x5au8]
            &&& call.subrange(4, 36) == zeros(12) + collateral
            &&& call.subrange(36, 68) == zeros(32)
            &&& call.subrange(68, 100) == condition
            &&& call.subrange(100, 132) == zeros(31).push(128)
            &&& call.subrange(132, 164) == zeros(31).push(2)
            &&& call.subrange(164, 196) == zeros(31).push(1)
            &&& call.subrange(196, 228) == zeros(31).push(2)
        }),
{
    let sets = seq![1u8, 2u8];
    reveal_with_fuel(byte_words, 3);
    assert(sets.drop_last() =~= seq![1u8]);
    assert(seq![1u8].drop_last() =~= Seq::<u8>::empty());
    let call = redemption_call(collateral, condition, index_sets(true, true));
    assert(byte_words(sets) =~= byte_word(1) + byte_word(2));
    assert(call.take(4) =~= seq![0x3du8, 0x7du8, 0x3fu8, 0x5au8]);
    assert(call.subrange(4, 36) =~= zeros(12) + collateral);
    assert(call.subrange(36, 68) =~= zeros(32));
    assert(call.subrange(68, 100) =~= condition);
    assert(call.subrange(100, 132) =~= zeros(31).push(128));
    assert(call.subrange(132, 164) =~= zeros(31).push(2));
    assert(call.subrange(164, 196) =~= zeros(31).push(1));
    assert(call.subrange(196, 228) =~= zeros(31).push(2));
}

/// A flag that was given is set exactly where its word is the number one, and unset where it is
/// zero; an allowance is above zero exactly where its word is a number above zero.
pub proof fn law_words_tell_flags_and_amounts(word: Seq<u8>)
    requires
        word.len() == 32,
    ensures
        flag_of(prefixed_hex(word)) == Some(true) <==> big_endian(word) == 1,
        flag_of(prefixed_hex(word)) == Some(false) <==> big_endian(word) == 0,
        is_positive(prefixed_hex(word)) <==> big_endian(word) > 0,
{
    law_hex_reads_back(word);
    law_positive_words(word);
    let head = word.drop_last();
    lemma_big_endian_zero(head);
    assert(word =~= head.push(word.last()));
    assert(byte_word(1).drop_last() =~= zeros(31));
    assert(byte_word(1).last() == 1);
    assert(zeros(32)[31] == 0 && byte_word(1)[31] == 1);
    if big_endian(word) == 1 {
        assert(word =~= byte_word(1));
    }
    if word == byte_word(1) {
        assert(head =~= zeros(31));
    }
}

/// A number that is written in decimal reads back as it was.
pub proof fn law_decimal_texts_read_back(n: nat)
    ensures
        number(decimal_text(n), 10) == Some(n),
    decreases n,
{
    let text = decimal_text(n);
    reveal_with_fuel(number, 2);
    if n < 10 {
        assert(text.drop_last() =~= Seq::<char>::empty());
        assert(digit_value(digit_char(n)) == Some(n));
        assert(text.last() == digit_char(n));
    } else {
        law_decimal_texts_read_back(n / 10);
        assert(text.drop_last() =~= decimal_text(n / 10));
        assert(text.last() == digit_char(n % 10));
        assert(digit_value(digit_char(n % 10)) == Some(n % 10));
    }
}

/// The identifier of a condition is read the same with the mark of a hexadecimal number and
/// without it.
pub proof fn law_a_condition_is_read_with_or_without_its_mark(id: Seq<u8>)
    requires
        id.len() == 32,
    ensures
        condition_bytes(prefixed_hex(id)) == Some(id),
        condition_bytes(hex_text(id)) == Some(id),
{
    reveal_strlit("0x");
    law_hex_reads_back(id);
    let text = prefixed_hex(id);
    assert(text.take(2) =~= "0x"@);
    assert(text.skip(2) =~= hex_text(id));
    let digits = hex_text(id);
    assert(!begins_with(digits, "0x"@)) by {
        if begins_with(digits, "0x"@) {
            assert(digits.take(2)[1] == "0x"@[1]);
            assert(digits[1] == 'x');
            assert(digits[1] == hex_char(id[0] % 16));
        }
    }
}

/// A token identifier that is marked as hexadecimal is read as such; any other is read as a
/// decimal number where it is one, and only else as a hexadecimal one.
pub proof fn law_token_identifiers_are_decimal_unless_marked(text: Seq<char>)
    requires
        trimmed(text) == text,
    ensures
        begins_with(text, "0x"@) || begins_with(text, "0X"@) ==> token_number(text) == number(
            text.skip(2),
            16,
        ),
        !begins_with(text, "0x"@) && !begins_with(text, "0X"@) && number(text, 10) is Some
            ==> token_number(text) == number(text, 10),
        !begins_with(text, "0x"@) && !begins_with(text, "0X"@) && number(text, 10) is None
            ==> token_number(text) == number(text, 16),
{
}

/// Digits stand for their value, letters for ten and more in either case, and a text of digits
/// for the sum of them by their places.
pub proof fn law_digits_and_letters_count(text: Seq<char>, c: char, base: nat)
    ensures
        '0' <= c <= '9' ==> digit_value(c) == Some((c as u32 - '0' as u32) as nat),
        'a' <= c <= 'z' ==> digit_value(c) == Some((c as u32 - 'a' as u32 + 10) as nat),
        'A' <= c <= 'Z' ==> digit_value(c) == Some((c as u32 - 'A' as u32 + 10) as nat),
        number(text.push('_'), base) == number(text, base),
        c != '_' && number(text, base) is Some && digit_value(c) is Some && digit_value(c)->0 < base
            ==> number(text.push(c), base) == Some(base * number(text, base)->0 + digit_value(c)->0),
        c != '_' && (digit_value(c) is None || digit_value(c)->0 >= base) ==> number(
            text.push(c),
            base,
        ) is None,
{
    assert(text.push('_').drop_last() =~= text);
    assert(text.push(c).drop_last() =~= text);
}

} // verus!

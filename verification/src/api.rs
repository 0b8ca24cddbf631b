//! The exchange's interface: what is sent to it, and what its answers mean.

use vstd::prelude::*;
use vstd::string::*;

use crate::book::{best_prices, highest, highest_at, lowest, lowest_at};
use crate::chain::{
    address_to_u256, address_word, hex_bytes, hex_string, lemma_usdc, prefixed_hex, usdc_bytes,
    Address, USDC,
};
use crate::decimal::{decimal_of_text, Decimal};
use crate::json::{compact, json_compact, json_list_at, json_text_at, list_at, text_at};
use crate::models::{OrderBook, OrderRequest, OrderResponse, TokenPrice};
use crate::signing::{message_to_sign, sign, signature, signed_message};
use crate::text::{decimal_text, texts, trim, trimmed, u64_text};

verus! {

/// The chain that the exchange settles on.
pub const POLYGON: u64 = 137;

/// A request over HTTP, without what its transport adds.
pub struct HttpRequest {
    pub post: bool,
    pub url: String,
    pub query: Vec<(String, String)>,
    pub headers: Vec<(String, String)>,
    pub body: Option<String>,
}

/// Pairs of texts.
pub open spec fn pairs(list: Seq<(String, String)>) -> Seq<(Seq<char>, Seq<char>)> {
    Seq::new(list.len(), |i: int| (list[i].0@, list[i].1@))
}

impl HttpRequest {
    /// Whether this asks for `url` with a query, and sends nothing.
    pub open spec fn gets(self, url: Seq<char>, query: Seq<(Seq<char>, Seq<char>)>) -> bool {
        &&& !self.post
        &&& self.url@ == url
        &&& pairs(self.query@) == query
        &&& self.headers@.len() == 0
        &&& self.body is None
    }
}

fn get(url: String, query: Vec<(String, String)>) -> (res: HttpRequest)
    ensures
        res.gets(url@, pairs(query@)),
{
    HttpRequest { post: false, url, query, headers: Vec::new(), body: None }
}

pub(crate) fn push_pair(list: &mut Vec<(String, String)>, name: &str, value: &str)
    ensures
        pairs(final(list)@) == pairs(old(list)@).push((name@, value@)),
{
    let ghost before = pairs(list@);
    list.push((name.to_owned(), value.to_owned()));
    assert(pairs(list@) =~= before.push((name@, value@)));
}

/// The answer to a request over HTTP.
pub struct HttpResponse {
    /// The status code.
    pub code: u16,
    /// The status as it is shown: the code and its meaning.
    pub status: String,
    /// The body.
    pub body: String,
}

impl HttpResponse {
    /// Whether the request succeeded.
    pub open spec fn ok(self) -> bool {
        200 <= self.code < 300
    }

    pub(crate) fn is_success(&self) -> (res: bool)
        ensures
            res == self.ok(),
    {
        200 <= self.code && self.code < 300
    }
}

/// The bot's account at the exchange.
pub struct PolymarketApi {
    pub gamma_url: String,
    pub clob_url: String,
    pub api_key: Option<String>,
    pub api_secret: Option<String>,
    pub api_passphrase: Option<String>,
    pub private_key: Option<String>,
    pub proxy_wallet_address: Option<String>,
    /// How orders are signed: 0 by the key itself, 1 for a proxy wallet, 2 for a safe.
    pub signature_type: Option<u8>,
    /// The handle of the client that was logged in, if one was.
    pub client_handle: Option<u64>,
}

/// What a client is created with.
pub struct ClientSettings {
    pub clob_url: String,
    pub private_key: String,
    pub chain_id: u64,
    pub funder: Option<String>,
    pub signature_type: u8,
    pub api_key: String,
    pub api_secret: String,
    pub api_passphrase: String,
}

/// How orders are signed, or why the configuration is refused.
///
/// With a proxy wallet it is by the wallet: 1, unless 2 is configured. Without one it
/// is by the key: 0.
pub open spec fn signing_mode(proxy: Option<String>, configured: Option<u8>) -> Result<
    u8,
    Seq<char>,
> {
    match proxy {
        Some(address) => if hex_bytes(trimmed(address@), 20) is None {
            Err("Invalid proxy_wallet_address: "@ + address@)
        } else {
            match configured {
                None => Ok(1u8),
                Some(n) => if n == 1 || n == 2 {
                    Ok(n)
                } else if n == 0 {
                    Err(
                        "Invalid configuration: proxy_wallet_address is set but signature_type is 0 (EOA). Use 1 (POLY_PROXY) or 2 (GNOSIS_SAFE)."@,
                    )
                } else {
                    Err(invalid_mode(n))
                },
            }
        },
        None => match configured {
            None => Ok(0u8),
            Some(n) => if n == 0 {
                Ok(0u8)
            } else if n == 1 || n == 2 {
                Err("signature_type "@ + decimal_text(n as nat) + " requires proxy_wallet_address"@)
            } else {
                Err(invalid_mode(n))
            },
        },
    }
}

/// What is said of a signature type that there is not.
pub open spec fn invalid_mode(n: u8) -> Seq<char> {
    "Invalid signature_type: "@ + decimal_text(n as nat) + ". Must be 0, 1, or 2"@
}

fn invalid_mode_text(n: u8) -> (res: String)
    ensures
        res@ == invalid_mode(n),
{
    let mut text = "Invalid signature_type: ".to_owned();
    text.append(u64_text(n as u64).as_str());
    text.append(". Must be 0, 1, or 2");
    text
}

/// Decides how orders are signed.
pub fn decide_signing_mode(proxy: &Option<String>, configured: Option<u8>) -> (res: Result<
    u8,
    String,
>)
    ensures
        match res {
            Ok(n) => signing_mode(*proxy, configured) == Ok::<u8, Seq<char>>(n) && n <= 2,
            Err(e) => signing_mode(*proxy, configured) == Err::<u8, Seq<char>>(e@),
        },
{
    match proxy {
        Some(address) => {
            if Address::parse(trim(address.as_str())).is_none() {
                let mut text = "Invalid proxy_wallet_address: ".to_owned();
                text.append(address.as_str());
                return Err(text);
            }
            match configured {
                None => Ok(1),
                Some(n) => if n == 1 || n == 2 {
                    Ok(n)
                } else if n == 0 {
                    Err(
                        "Invalid configuration: proxy_wallet_address is set but signature_type is 0 (EOA). Use 1 (POLY_PROXY) or 2 (GNOSIS_SAFE).".to_owned(),
                    )
                } else {
                    Err(invalid_mode_text(n))
                },
            }
        },
        None => match configured {
            None => Ok(0),
            Some(n) => if n == 0 {
                Ok(0)
            } else if n == 1 || n == 2 {
                let mut text = "signature_type ".to_owned();
                text.append(u64_text(n as u64).as_str());
                text.append(" requires proxy_wallet_address");
                Err(text)
            } else {
                Err(invalid_mode_text(n))
            },
        },
    }
}

/// The headers that authenticate a request, as far as there are credentials.
pub open spec fn auth_headers(api: PolymarketApi, message: Seq<char>, timestamp: nat) -> Seq<
    (Seq<char>, Seq<char>),
> {
    match (api.api_key, api.api_secret, api.api_passphrase) {
        (Some(key), Some(secret), Some(passphrase)) => seq![
            ("POLY_API_KEY"@, key@),
            ("POLY_SIGNATURE"@, signature(secret@, message)),
            ("POLY_TIMESTAMP"@, decimal_text(timestamp)),
            ("POLY_PASSPHRASE"@, passphrase@),
        ],
        _ => Seq::empty(),
    }
}

impl PolymarketApi {
    /// An account that is not logged in.
    pub fn new(
        gamma_url: String,
        clob_url: String,
        api_key: Option<String>,
        api_secret: Option<String>,
        api_passphrase: Option<String>,
        private_key: Option<String>,
        proxy_wallet_address: Option<String>,
        signature_type: Option<u8>,
    ) -> (res: PolymarketApi)
        ensures
            res == (PolymarketApi {
                gamma_url,
                clob_url,
                api_key,
                api_secret,
                api_passphrase,
                private_key,
                proxy_wallet_address,
                signature_type,
                client_handle: None,
            }),
    {
        PolymarketApi {
            gamma_url,
            clob_url,
            api_key,
            api_secret,
            api_passphrase,
            private_key,
            proxy_wallet_address,
            signature_type,
            client_handle: None,
        }
    }

    /// The handle of the client that is logged in.
    pub fn get_client_handle(&self) -> (res: Result<u64, String>)
        ensures
            match res {
                Ok(handle) => self.client_handle == Some(handle),
                Err(e) => self.client_handle is None && e@
                    == "Not authenticated. Call authenticate() first."@,
            },
    {
        match self.client_handle {
            Some(handle) => Ok(handle),
            None => Err("Not authenticated. Call authenticate() first.".to_owned()),
        }
    }

    /// The first credential that is missing, and the signing mode, decide whether the
    /// account can be logged in.
    pub open spec fn login_error(self) -> Option<Seq<char>> {
        if self.private_key is None {
            Some(
                "Private key is required for authentication. Please set private_key in config.json"@,
            )
        } else if self.api_key is None {
            Some("api_key is required for authentication"@)
        } else if self.api_secret is None {
            Some("api_secret is required for authentication"@)
        } else if self.api_passphrase is None {
            Some("api_passphrase is required for authentication"@)
        } else {
            match signing_mode(self.proxy_wallet_address, self.signature_type) {
                Ok(_) => None,
                Err(e) => Some(e),
            }
        }
    }

    /// What a client for this account is created with.
    pub fn authenticate(&self) -> (res: Result<ClientSettings, String>)
        ensures
            match res {
                Ok(settings) => {
                    &&& self.login_error() is None
                    &&& settings.clob_url == self.clob_url
                    &&& Some(settings.private_key) == self.private_key
                    &&& settings.chain_id == POLYGON
                    &&& match settings.funder {
                        Some(f) => self.proxy_wallet_address == Some(f),
                        None => self.proxy_wallet_address is None,
                    }
                    &&& signing_mode(self.proxy_wallet_address, self.signature_type) == Ok::<
                        u8,
                        Seq<char>,
                    >(settings.signature_type)
                    &&& Some(settings.api_key) == self.api_key
                    &&& Some(settings.api_secret) == self.api_secret
                    &&& Some(settings.api_passphrase) == self.api_passphrase
                },
                Err(e) => self.login_error() == Some(e@),
            },
    {
        let private_key = match &self.private_key {
            Some(k) => k.clone(),
            None => {
                return Err(
                    "Private key is required for authentication. Please set private_key in config.json".to_owned(),
                );
            },
        };
        let api_key = match &self.api_key {
            Some(k) => k.clone(),
            None => {
                return Err("api_key is required for authentication".to_owned());
            },
        };
        let api_secret = match &self.api_secret {
            Some(k) => k.clone(),
            None => {
                return Err("api_secret is required for authentication".to_owned());
            },
        };
        let api_passphrase = match &self.api_passphrase {
            Some(k) => k.clone(),
            None => {
                return Err("api_passphrase is required for authentication".to_owned());
            },
        };
        let signature_type = match decide_signing_mode(
            &self.proxy_wallet_address,
            self.signature_type,
        ) {
            Ok(n) => n,
            Err(e) => {
                return Err(e);
            },
        };
        let funder = match &self.proxy_wallet_address {
            Some(a) => Some(a.clone()),
            None => None,
        };
        Ok(
            ClientSettings {
                clob_url: self.clob_url.clone(),
                private_key,
                chain_id: POLYGON,
                funder,
                signature_type,
                api_key,
                api_secret,
                api_passphrase,
            },
        )
    }

    /// Notes the client that was logged in.
    pub fn set_client_handle(&mut self, handle: u64)
        ensures
            *final(self) == (PolymarketApi { client_handle: Some(handle), ..*old(self) }),
    {
        self.client_handle = Some(handle);
    }

    /// Signs a request with the account's secret.
    pub fn generate_signature(&self, method: &str, path: &str, body: &str, timestamp: u64) -> (res:
        Result<String, String>)
        ensures
            match res {
                Ok(s) => self.api_secret is Some && s@ == signature(
                    self.api_secret->0@,
                    signed_message(method@, path@, body@, timestamp as nat),
                ),
                Err(e) => self.api_secret is None && e@
                    == "API secret is required for authenticated requests"@,
            },
    {
        match &self.api_secret {
            Some(secret) => {
                let message = message_to_sign(method, path, body, timestamp);
                Ok(sign(secret.as_str(), message.as_str()))
            },
            None => Err("API secret is required for authenticated requests".to_owned()),
        }
    }

    /// The headers that authenticate a request: none without all the credentials.
    pub fn add_auth_headers(&self, method: &str, path: &str, body: &str, timestamp: u64) -> (res: Vec<
        (String, String),
    >)
        ensures
            pairs(res@) == auth_headers(
                *self,
                signed_message(method@, path@, body@, timestamp as nat),
                timestamp as nat,
            ),
    {
        let mut headers: Vec<(String, String)> = Vec::new();
        if let Some(key) = &self.api_key {
            if let Some(secret) = &self.api_secret {
                if let Some(passphrase) = &self.api_passphrase {
                    let message = message_to_sign(method, path, body, timestamp);
                    let code = sign(secret.as_str(), message.as_str());
                    assert(pairs(headers@) =~= Seq::empty());
                    push_pair(&mut headers, "POLY_API_KEY", key.as_str());
                    push_pair(&mut headers, "POLY_SIGNATURE", code.as_str());
                    push_pair(&mut headers, "POLY_TIMESTAMP", u64_text(timestamp).as_str());
                    push_pair(&mut headers, "POLY_PASSPHRASE", passphrase.as_str());
                }
            }
        }
        assert(pairs(headers@) =~= auth_headers(
            *self,
            signed_message(method@, path@, body@, timestamp as nat),
            timestamp as nat,
        ));
        headers
    }
}

/// The texts of lists, one list after the other.
pub open spec fn flattened(lists: Seq<Seq<Seq<char>>>) -> Seq<Seq<char>>
    decreases lists.len(),
{
    if lists.len() == 0 {
        Seq::empty()
    } else {
        flattened(lists.drop_last()) + lists.last()
    }
}

/// The markets of an event, each as JSON: none where it has no list of them.
pub open spec fn markets_of(event: Seq<char>) -> Seq<Seq<char>> {
    match json_list_at(event, "/markets"@) {
        Some(Some(list)) => list,
        _ => Seq::empty(),
    }
}

/// The events of a listing: the document itself where it is an array, else the array
/// under `data`, else none.
pub open spec fn events_in(
    top: Option<Option<Seq<Seq<char>>>>,
    data: Option<Option<Seq<Seq<char>>>>,
) -> Seq<Seq<char>> {
    match top {
        Some(Some(list)) => list,
        _ => match data {
            Some(Some(list)) => list,
            _ => Seq::empty(),
        },
    }
}

/// The markets in a listing of events, each as JSON.
pub open spec fn listed_markets(body: Seq<char>) -> Seq<Seq<char>> {
    let events = events_in(json_list_at(body, ""@), json_list_at(body, "/data"@));
    flattened(Seq::new(events.len(), |i: int| markets_of(events[i])))
}

/// The events of a listing, given the arrays that it has at its top and under `data`.
pub fn choose_events(top: Option<Option<Vec<String>>>, data: Option<Option<Vec<String>>>) -> (res: Vec<
    String,
>)
    ensures
        texts(res@) == match top {
            Some(Some(list)) => texts(list@),
            _ => match data {
                Some(Some(list)) => texts(list@),
                _ => Seq::empty(),
            },
        },
{
    match top {
        Some(Some(list)) => list,
        _ => match data {
            Some(Some(list)) => list,
            _ => {
                let none: Vec<String> = Vec::new();
                assert(texts(none@) =~= Seq::empty());
                none
            },
        },
    }
}

/// Puts the texts of a list behind those of another.
pub fn extend_texts(list: &mut Vec<String>, more: Vec<String>)
    ensures
        texts(final(list)@) == texts(old(list)@) + texts(more@),
{
    let ghost before = texts(list@);
    let mut i: usize = 0;
    assert(before =~= before + texts(more@).take(0));
    while i < more.len()
        invariant
            i <= more@.len(),
            texts(list@) == before + texts(more@).take(i as int),
        decreases more@.len() - i,
    {
        let ghost was = texts(list@);
        list.push(more[i].clone());
        assert(texts(list@) =~= was.push(texts(more@)[i as int]));
        i = i + 1;
        assert(texts(list@) =~= before + texts(more@).take(i as int));
    }
    assert(texts(more@).take(i as int) =~= texts(more@));
}

/// A text with a status in parentheses behind it.
pub open spec fn with_status(text: Seq<char>, status: Seq<char>) -> Seq<char> {
    text + " (status: "@ + status + ")"@
}

pub(crate) fn status_text(text: &str, status: &str) -> (res: String)
    ensures
        res@ == with_status(text@, status@),
{
    let mut res = text.to_owned();
    res.append(" (status: ");
    res.append(status);
    res.append(")");
    res
}

impl PolymarketApi {
    /// The request for the active markets.
    pub fn get_all_active_markets(&self, limit: u32) -> (res: HttpRequest)
        ensures
            res.gets(
                self.gamma_url@ + "/events"@,
                seq![
                    ("active"@, "true"@),
                    ("closed"@, "false"@),
                    ("limit"@, decimal_text(limit as nat)),
                ],
            ),
    {
        let mut url = self.gamma_url.clone();
        url.append("/events");
        let mut query: Vec<(String, String)> = Vec::new();
        assert(pairs(query@) =~= Seq::empty());
        push_pair(&mut query, "active", "true");
        push_pair(&mut query, "closed", "false");
        push_pair(&mut query, "limit", u64_text(limit as u64).as_str());
        assert(pairs(query@) =~= seq![
            ("active"@, "true"@),
            ("closed"@, "false"@),
            ("limit"@, decimal_text(limit as nat)),
        ]);
        get(url, query)
    }

    /// The request for the market with a slug.
    pub fn get_market_by_slug(&self, slug: &str) -> (res: HttpRequest)
        ensures
            res.gets(self.gamma_url@ + "/events/slug/"@ + slug@, Seq::empty()),
    {
        let mut url = self.gamma_url.clone();
        url.append("/events/slug/");
        url.append(slug);
        let query: Vec<(String, String)> = Vec::new();
        assert(pairs(query@) =~= Seq::empty());
        get(url, query)
    }

    /// The request for the order book of a token.
    pub fn get_orderbook(&self, token_id: &str) -> (res: HttpRequest)
        ensures
            res.gets(self.clob_url@ + "/book"@, seq![("token_id"@, token_id@)]),
    {
        let mut url = self.clob_url.clone();
        url.append("/book");
        let mut query: Vec<(String, String)> = Vec::new();
        assert(pairs(query@) =~= Seq::empty());
        push_pair(&mut query, "token_id", token_id);
        assert(pairs(query@) =~= seq![("token_id"@, token_id@)]);
        get(url, query)
    }

    /// The request for the market of a condition.
    pub fn get_market(&self, condition_id: &str) -> (res: HttpRequest)
        ensures
            res.gets(self.clob_url@ + "/markets/"@ + condition_id@, Seq::empty()),
    {
        let mut url = self.clob_url.clone();
        url.append("/markets/");
        url.append(condition_id);
        let query: Vec<(String, String)> = Vec::new();
        assert(pairs(query@) =~= Seq::empty());
        get(url, query)
    }

    /// The request for the price of a token on a side of the market.
    pub fn get_price(&self, token_id: &str, side: &str) -> (res: HttpRequest)
        ensures
            res.gets(
                self.clob_url@ + "/price"@,
                seq![("side"@, side@), ("token_id"@, token_id@)],
            ),
    {
        let mut url = self.clob_url.clone();
        url.append("/price");
        let mut query: Vec<(String, String)> = Vec::new();
        assert(pairs(query@) =~= Seq::empty());
        push_pair(&mut query, "side", side);
        push_pair(&mut query, "token_id", token_id);
        assert(pairs(query@) =~= seq![("side"@, side@), ("token_id"@, token_id@)]);
        get(url, query)
    }
}

/// Reads the answer to a request for the active markets: the markets, each as JSON.
pub fn read_active_markets(response: &HttpResponse) -> (res: Result<Vec<String>, String>)
    ensures
        match res {
            Ok(list) => {
                &&& json_compact(response.body@) is Some
                &&& response.ok()
                &&& texts(list@) == listed_markets(response.body@)
            },
            Err(e) => if json_compact(response.body@) is None {
                e@ == "Failed to parse markets response"@
            } else {
                &&& !response.ok()
                &&& e@ == "API returned error status "@ + response.status@ + ": "@ + json_compact(
                    response.body@,
                )->0
            },
        },
{
    let body = response.body.as_str();
    let json = match compact(body) {
        Some(json) => json,
        None => {
            return Err("Failed to parse markets response".to_owned());
        },
    };
    if !response.is_success() {
        let mut text = "API returned error status ".to_owned();
        text.append(response.status.as_str());
        text.append(": ");
        text.append(json.as_str());
        return Err(text);
    }
    let events = choose_events(list_at(body, ""), list_at(body, "/data"));
    let ghost found = texts(events@);
    let ghost lists = Seq::new(found.len(), |i: int| markets_of(found[i]));
    let mut res: Vec<String> = Vec::new();
    let mut i: usize = 0;
    assert(texts(res@) =~= flattened(lists.take(0)));
    while i < events.len()
        invariant
            i <= events@.len(),
            found == texts(events@),
            lists == Seq::new(found.len(), |i: int| markets_of(found[i])),
            texts(res@) == flattened(lists.take(i as int)),
        decreases events@.len() - i,
    {
        assert(lists.take(i + 1).drop_last() =~= lists.take(i as int));
        assert(lists.take(i + 1).last() == markets_of(events@[i as int]@));
        let ghost was = texts(res@);
        if let Some(Some(markets)) = list_at(events[i].as_str(), "/markets") {
            extend_texts(&mut res, markets);
        } else {
            assert(was + Seq::<Seq<char>>::empty() =~= was);
        }
        i = i + 1;
    }
    assert(lists.take(i as int) =~= lists);
    Ok(res)
}

/// Reads the answer to a request for the market with a slug: the first market of the
/// event, as JSON.
pub fn read_market_by_slug(slug: &str, response: &HttpResponse) -> (res: Result<String, String>)
    ensures
        match res {
            Ok(market) => {
                &&& response.ok()
                &&& json_list_at(response.body@, "/markets"@) matches Some(Some(list))
                &&& list.len() > 0
                &&& market@ == list[0]
            },
            Err(e) => if !response.ok() {
                e@ == with_status("Failed to fetch market by slug: "@ + slug@, response.status@)
            } else {
                match json_list_at(response.body@, "/markets"@) {
                    None => e@ == "Failed to parse market response"@,
                    Some(Some(list)) => list.len() == 0 && e@
                        == "Invalid market response format: no markets array found"@,
                    Some(None) => e@ == "Invalid market response format: no markets array found"@,
                }
            },
        },
{
    if !response.is_success() {
        let mut text = "Failed to fetch market by slug: ".to_owned();
        text.append(slug);
        return Err(status_text(text.as_str(), response.status.as_str()));
    }
    match list_at(response.body.as_str(), "/markets") {
        None => Err("Failed to parse market response".to_owned()),
        Some(Some(list)) => {
            assert(texts(list@).len() == list@.len());
            if list.len() > 0 {
                assert(texts(list@)[0] == list@[0]@);
                Ok(list[0].clone())
            } else {
                Err("Invalid market response format: no markets array found".to_owned())
            }
        },
        Some(None) => Err("Invalid market response format: no markets array found".to_owned()),
    }
}

/// Whether the answer to a request for a market holds one.
pub fn check_market_status(response: &HttpResponse) -> (res: Result<(), String>)
    ensures
        match res {
            Ok(_) => response.ok(),
            Err(e) => !response.ok() && e@ == with_status(
                "Failed to fetch market"@,
                response.status@,
            ),
        },
{
    if response.is_success() {
        Ok(())
    } else {
        Err(status_text("Failed to fetch market", response.status.as_str()))
    }
}

/// What is said of a price that is none.
pub open spec fn bad_price(text: Seq<char>) -> Seq<char> {
    "Failed to parse price: "@ + text
}

/// The price in an answer, given the string that it has under `price`.
pub fn price_in(field: Option<Option<String>>) -> (res: Result<Decimal, String>)
    ensures
        match res {
            Ok(price) => field matches Some(Some(text)) && decimal_of_text(text@) == Some(
                (price.mantissa(), price.scale()),
            ),
            Err(e) => match field {
                None => e@ == "Failed to parse price response"@,
                Some(None) => e@ == "Invalid price response format"@,
                Some(Some(text)) => decimal_of_text(text@) is None && e@ == bad_price(text@),
            },
        },
{
    match field {
        None => Err("Failed to parse price response".to_owned()),
        Some(None) => Err("Invalid price response format".to_owned()),
        Some(Some(text)) => match Decimal::parse(text.as_str()) {
            Some(price) => Ok(price),
            None => {
                let mut e = "Failed to parse price: ".to_owned();
                e.append(text.as_str());
                Err(e)
            },
        },
    }
}

/// Reads the answer to a request for a price.
pub fn read_price(response: &HttpResponse) -> (res: Result<Decimal, String>)
    ensures
        match res {
            Ok(price) => {
                &&& response.ok()
                &&& json_text_at(response.body@, "/price"@) matches Some(Some(text))
                &&& decimal_of_text(text) == Some((price.mantissa(), price.scale()))
            },
            Err(e) => if !response.ok() {
                e@ == with_status("Failed to fetch price"@, response.status@)
            } else {
                match json_text_at(response.body@, "/price"@) {
                    None => e@ == "Failed to parse price response"@,
                    Some(None) => e@ == "Invalid price response format"@,
                    Some(Some(text)) => decimal_of_text(text) is None && e@ == bad_price(text),
                }
            },
        },
{
    if !response.is_success() {
        return Err(status_text("Failed to fetch price", response.status.as_str()));
    }
    price_in(text_at(response.body.as_str(), "/price"))
}

/// The best prices of a token, the lowest price asked and the highest bid: none where
/// nobody offers it.
pub open spec fn quoted_prices(token_id: Seq<char>, book: OrderBook, res: Option<TokenPrice>) -> bool {
    if book.asks@.len() == 0 {
        res is None
    } else {
        &&& res is Some
        &&& res->0.token_id@ == token_id
        &&& res->0.ask == lowest(book.asks@)
        &&& res->0.ask matches Some(ask)
        &&& exists|i: int| #[trigger] lowest_at(book.asks@, i) && book.asks@[i].price == ask
        &&& res->0.bid == highest(book.bids@)
        &&& match res->0.bid {
            Some(bid) => exists|i: int|
                #[trigger] highest_at(book.bids@, i) && book.bids@[i].price == bid,
            None => book.bids@.len() == 0,
        }
    }
}

impl PolymarketApi {
    /// The best prices of a token, from its order book.
    pub fn get_best_price(&self, token_id: &str, book: &OrderBook) -> (res: Option<TokenPrice>)
        ensures
            quoted_prices(token_id@, *book, res),
    {
        if book.asks.len() == 0 {
            return None;
        }
        Some(best_prices(token_id.to_owned(), book))
    }
}

/// What the bot makes of an order that the exchange has taken.
pub open spec fn accepted(response: OrderResponse, order_id: Seq<char>, text: Seq<char>) -> bool {
    &&& response.order_id matches Some(id)
    &&& id@ == order_id
    &&& response.status@ == "LIVE"@
    &&& response.message matches Some(message)
    &&& message@ == text + order_id
}

fn accept(order_id: String, text: &str) -> (res: OrderResponse)
    ensures
        accepted(res, order_id@, text@),
{
    let mut message = text.to_owned();
    message.append(order_id.as_str());
    OrderResponse {
        order_id: Some(order_id),
        status: "LIVE".to_owned(),
        message: Some(message),
    }
}

/// What the bot makes of a limit order that the exchange has taken.
pub fn limit_order_taken(order_id: String) -> (res: OrderResponse)
    ensures
        accepted(res, order_id@, "Order placed successfully. Order ID: "@),
{
    accept(order_id, "Order placed successfully. Order ID: ")
}

/// What the bot makes of a market order that the exchange has taken.
pub fn market_order_taken(order_id: String) -> (res: OrderResponse)
    ensures
        accepted(res, order_id@, "Market order executed. Order ID: "@),
{
    accept(order_id, "Market order executed. Order ID: ")
}

/// A limit order as the client posts it.
pub struct LimitPosting {
    pub handle: u64,
    pub token_id: String,
    pub side: String,
    pub price: String,
    pub size: String,
}

/// A question to the client about what is held of a token, and what the exchange may
/// take of it.
pub struct BalanceQuery {
    pub handle: u64,
    pub token_id: String,
    pub asset_type: String,
}

impl BalanceQuery {
    /// Whether this asks a client about a token of a type.
    pub open spec fn asks(self, handle: u64, token_id: Seq<char>, asset_type: Seq<char>) -> bool {
        self.handle == handle && self.token_id@ == token_id && self.asset_type@ == asset_type
    }
}

/// What is said without a client.
pub open spec fn not_authenticated() -> Seq<char> {
    "Not authenticated. Call authenticate() first."@
}

impl PolymarketApi {
    /// A limit order as the client of this account posts it.
    pub fn place_order(&self, order: &OrderRequest) -> (res: Result<LimitPosting, String>)
        ensures
            match res {
                Ok(posting) => {
                    &&& self.client_handle == Some(posting.handle)
                    &&& posting.token_id == order.token_id
                    &&& posting.side == order.side
                    &&& posting.price == order.price
                    &&& posting.size == order.size
                },
                Err(e) => self.client_handle is None && e@ == not_authenticated(),
            },
    {
        match self.get_client_handle() {
            Ok(handle) => Ok(
                LimitPosting {
                    handle,
                    token_id: order.token_id.clone(),
                    side: order.side.clone(),
                    price: order.price.clone(),
                    size: order.size.clone(),
                },
            ),
            Err(e) => Err(e),
        }
    }

    /// The question about the collateral: USDC, under its address as a number.
    pub fn check_usdc_balance_allowance(&self) -> (res: Result<BalanceQuery, String>)
        ensures
            match res {
                Ok(query) => self.client_handle is Some && query.asks(
                    self.client_handle->0,
                    prefixed_hex(address_word(usdc_bytes())),
                    "Collateral"@,
                ),
                Err(e) => self.client_handle is None && e@ == not_authenticated(),
            },
    {
        proof {
            lemma_usdc();
        }
        let token_id = match address_to_u256(USDC) {
            Ok(word) => hex_string(word.as_slice()),
            Err(e) => {
                return Err(e);
            },
        };
        match self.get_client_handle() {
            Ok(handle) => Ok(
                BalanceQuery { handle, token_id, asset_type: "Collateral".to_owned() },
            ),
            Err(e) => Err(e),
        }
    }

    /// The question about an outcome token.
    pub fn check_balance_only(&self, token_id: &str) -> (res: Result<BalanceQuery, String>)
        ensures
            match res {
                Ok(query) => self.client_handle is Some && query.asks(
                    self.client_handle->0,
                    token_id@,
                    "Conditional"@,
                ),
                Err(e) => self.client_handle is None && e@ == not_authenticated(),
            },
    {
        match self.get_client_handle() {
            Ok(handle) => Ok(
                BalanceQuery {
                    handle,
                    token_id: token_id.to_owned(),
                    asset_type: "Conditional".to_owned(),
                },
            ),
            Err(e) => Err(e),
        }
    }

    /// The question about an outcome token, asked together with its allowance.
    pub fn check_balance_allowance(&self, token_id: &str) -> (res: Result<BalanceQuery, String>)
        ensures
            match res {
                Ok(query) => self.client_handle is Some && query.asks(
                    self.client_handle->0,
                    token_id@,
                    "Conditional"@,
                ),
                Err(e) => self.client_handle is None && e@ == not_authenticated(),
            },
    {
        self.check_balance_only(token_id)
    }

    /// The request that the exchange look up the allowance of an outcome token again.
    pub fn update_balance_allowance_for_sell(&self, token_id: &str) -> (res: Result<
        BalanceQuery,
        String,
    >)
        ensures
            match res {
                Ok(query) => self.client_handle is Some && query.asks(
                    self.client_handle->0,
                    token_id@,
                    "Conditional"@,
                ),
                Err(e) => self.client_handle is None && e@ == not_authenticated(),
            },
    {
        self.check_balance_only(token_id)
    }
}

/// Whether a text was read as a decimal number.
pub open spec fn reads_as(text: Seq<char>, number: Decimal) -> bool {
    decimal_of_text(text) == Some((number.mantissa(), number.scale()))
}

/// Reads the answer about the collateral: what is held, and what the exchange may take.
pub fn read_collateral(balance: &str, allowance: &str) -> (res: Result<(Decimal, Decimal), String>)
    ensures
        match res {
            Ok((b, a)) => reads_as(balance@, b) && reads_as(allowance@, a),
            Err(e) => if decimal_of_text(balance@) is None {
                e@ == "parse USDC balance"@
            } else {
                decimal_of_text(allowance@) is None && e@ == "parse USDC allowance"@
            },
        },
{
    match Decimal::parse(balance) {
        Some(b) => match Decimal::parse(allowance) {
            Some(a) => Ok((b, a)),
            None => Err("parse USDC allowance".to_owned()),
        },
        None => Err("parse USDC balance".to_owned()),
    }
}

/// Reads the answer about an outcome token: what is held.
pub fn read_balance(balance: &str) -> (res: Result<Decimal, String>)
    ensures
        match res {
            Ok(b) => reads_as(balance@, b),
            Err(e) => decimal_of_text(balance@) is None && e@ == "parse balance"@,
        },
{
    match Decimal::parse(balance) {
        Some(b) => Ok(b),
        None => Err("parse balance".to_owned()),
    }
}

/// Reads the answer about an outcome token: what is held, and what the exchange may
/// take, zero where that cannot be read.
pub fn read_balance_allowance(balance: &str, allowance: &str) -> (res: Result<
    (Decimal, Decimal),
    String,
>)
    ensures
        match res {
            Ok((b, a)) => {
                &&& reads_as(balance@, b)
                &&& if decimal_of_text(allowance@) is Some {
                    reads_as(allowance@, a)
                } else {
                    a.mantissa() == 0 && a.scale() == 0
                }
            },
            Err(e) => decimal_of_text(balance@) is None && e@ == "parse balance"@,
        },
{
    match Decimal::parse(balance) {
        Some(b) => Ok(
            (
                b,
                match Decimal::parse(allowance) {
                    Some(a) => a,
                    None => Decimal::zero(),
                },
            ),
        ),
        None => Err("parse balance".to_owned()),
    }
}

/// Orders are signed by the key itself exactly where there is no proxy wallet; with one they
/// are signed for it, as a proxy unless a safe is configured. A configuration that says
/// otherwise is refused, and so is a wallet whose address cannot be read.
pub proof fn law_orders_are_signed_for_the_wallet(proxy: Option<String>, configured: Option<u8>)
    ensures
        match signing_mode(proxy, configured) {
            Ok(mode) => {
                &&& mode == 0 <==> proxy is None
                &&& mode <= 2
                &&& configured matches Some(n) ==> mode == n
                &&& configured is None && proxy is Some ==> mode == 1
                &&& proxy matches Some(address) ==> hex_bytes(trimmed(address@), 20) is Some
            },
            Err(_) => {
                ||| proxy is Some && hex_bytes(trimmed(proxy->0@), 20) is None
                ||| proxy is Some && configured is Some && configured->0 != 1 && configured->0 != 2
                ||| proxy is None && configured is Some && configured->0 != 0
            },
        },
{
}

/// An account can be logged in exactly with a private key, all three credentials and a
/// signing mode.
pub proof fn law_who_can_log_in(api: PolymarketApi)
    ensures
        api.login_error() is None <==> api.private_key is Some && api.api_key is Some
            && api.api_secret is Some && api.api_passphrase is Some && signing_mode(
            api.proxy_wallet_address,
            api.signature_type,
        ) is Ok,
{
}

/// A request is authenticated by the key, the signature of what is sent, the time and the
/// passphrase, and by none of them where one is missing.
pub proof fn law_requests_are_authenticated_by_all_or_nothing(
    api: PolymarketApi,
    method: Seq<char>,
    path: Seq<char>,
    body: Seq<char>,
    timestamp: nat,
)
    ensures
        ({
            let headers = auth_headers(
                api,
                signed_message(method, path, body, timestamp),
                timestamp,
            );
            if api.api_key is Some && api.api_secret is Some && api.api_passphrase is Some {
                &&& headers.len() == 4
                &&& headers[0] == ("POLY_API_KEY"@, api.api_key->0@)
                &&& headers[1] == (
                    "POLY_SIGNATURE"@,
                    signature(
                        api.api_secret->0@,
                        method + path + body + decimal_text(timestamp),
                    ),
                )
                &&& headers[2] == ("POLY_TIMESTAMP"@, decimal_text(timestamp))
                &&& headers[3] == ("POLY_PASSPHRASE"@, api.api_passphrase->0@)
            } else {
                headers.len() == 0
            }
        }),
{
}

/// A market is listed exactly where it is under `markets` of some event.
pub proof fn law_the_markets_of_all_events_are_listed(lists: Seq<Seq<Seq<char>>>, market: Seq<char>)
    ensures
        flattened(lists).contains(market) <==> exists|i: int|
            0 <= i < lists.len() && (#[trigger] lists[i]).contains(market),
    decreases lists.len(),
{
    if lists.len() > 0 {
        let before = flattened(lists.drop_last());
        let last = lists.last();
        law_the_markets_of_all_events_are_listed(lists.drop_last(), market);
        if flattened(lists).contains(market) {
            let k = choose|k: int| 0 <= k < flattened(lists).len() && flattened(lists)[k] == market;
            if k < before.len() {
                assert(before[k] == market);
                let i = choose|i: int|
                    0 <= i < lists.len() - 1 && (#[trigger] lists.drop_last()[i]).contains(market);
                assert(lists[i].contains(market));
            } else {
                assert(last[k - before.len()] == market);
                assert(lists[lists.len() - 1].contains(market));
            }
        }
        if exists|i: int| 0 <= i < lists.len() && (#[trigger] lists[i]).contains(market) {
            let i = choose|i: int| 0 <= i < lists.len() && (#[trigger] lists[i]).contains(market);
            if i < lists.len() - 1 {
                assert(lists.drop_last()[i].contains(market));
                let k = choose|k: int| 0 <= k < before.len() && before[k] == market;
                assert(flattened(lists)[k] == market);
            } else {
                let k = choose|k: int| 0 <= k < last.len() && last[k] == market;
                assert(flattened(lists)[before.len() + k] == market);
            }
        }
    }
}

/// The events of a listing are the document where that is an array, else what it has under
/// `data`; the markets of an event are what it has under `markets`.
pub proof fn law_where_events_and_markets_are_found(body: Seq<char>, event: Seq<char>)
    ensures
        markets_of(event) == match json_list_at(event, "/markets"@) {
            Some(Some(list)) => list,
            _ => Seq::empty(),
        },
        ({
            let events = match json_list_at(body, ""@) {
                Some(Some(list)) => list,
                _ => match json_list_at(body, "/data"@) {
                    Some(Some(list)) => list,
                    _ => Seq::empty(),
                },
            };
            listed_markets(body) == flattened(
                Seq::new(events.len(), |i: int| markets_of(events[i])),
            )
        }),
{
}

/// The best prices are told exactly where somebody offers the token: a price asked that no
/// other is below, and a bid that no other is above, where there are bids.
pub proof fn law_best_prices_are_told_where_the_token_is_offered(
    token_id: Seq<char>,
    book: OrderBook,
    res: Option<TokenPrice>,
)
    requires
        quoted_prices(token_id, book, res),
    ensures
        res is None <==> book.asks@.len() == 0,
        res matches Some(price) ==> {
            &&& price.token_id@ == token_id
            &&& price.bid is None <==> book.bids@.len() == 0
            &&& price.ask is Some
            &&& forall|j: int|
                0 <= j < book.asks@.len() ==> !((#[trigger] book.asks@[j]).price.to(
                    price.ask->0,
                ) is Below)
            &&& price.bid matches Some(bid) ==> forall|j: int|
                0 <= j < book.bids@.len() ==> !((#[trigger] book.bids@[j]).price.to(bid) is Above)
            &&& exists|j: int|
                0 <= j < book.asks@.len() && (#[trigger] book.asks@[j]).price == price.ask->0
        },
{
    if let Some(price) = res {
        let i = choose|i: int|
            #[trigger] lowest_at(book.asks@, i) && book.asks@[i].price == price.ask->0;
        assert(book.asks@[i].price == price.ask->0);
        if let Some(bid) = price.bid {
            let k = choose|k: int|
                #[trigger] highest_at(book.bids@, k) && book.bids@[k].price == bid;
            assert(book.bids@[k].price == bid);
        }
    }
}

/// An answer is a success exactly where its code is in the two hundreds.
pub proof fn law_success_is_a_code_in_the_two_hundreds(response: HttpResponse)
    ensures
        response.ok() <==> 200 <= response.code <= 299,
{
}

/// A client is created for the chain that the exchange settles on.
pub proof fn law_the_exchange_settles_on_polygon()
    ensures
        POLYGON == 137,
{
}

/// What is said of a failed request tells its status, and of a price that is none the text.
pub proof fn law_failures_tell_what_failed(text: Seq<char>, status: Seq<char>, number: Decimal)
    ensures
        with_status(text, status) == text + " (status: "@ + status + ")"@,
        bad_price(text) == "Failed to parse price: "@ + text,
        reads_as(text, number) <==> decimal_of_text(text) == Some(
            (number.mantissa(), number.scale()),
        ),
        not_authenticated() == "Not authenticated. Call authenticate() first."@,
{
}

/// What is told where orders cannot be signed as configured: that the address of the wallet is
/// none, that the type does not go with a wallet, that it needs one, or that there is no such
/// type.
pub proof fn law_why_orders_cannot_be_signed(proxy: Option<String>, configured: Option<u8>)
    ensures
        proxy matches Some(address) ==> hex_bytes(trimmed(address@), 20) is None ==> signing_mode(
            proxy,
            configured,
        ) == Err::<u8, Seq<char>>("Invalid proxy_wallet_address: "@ + address@),
        proxy matches Some(address) ==> hex_bytes(trimmed(address@), 20) is Some && configured
            == Some(0u8) ==> signing_mode(proxy, configured) == Err::<u8, Seq<char>>(
            "Invalid configuration: proxy_wallet_address is set but signature_type is 0 (EOA). Use 1 (POLY_PROXY) or 2 (GNOSIS_SAFE)."@,
        ),
        proxy is None ==> (configured matches Some(n) ==> 1 <= n <= 2 ==> signing_mode(
            proxy,
            configured,
        ) == Err::<u8, Seq<char>>(
            "signature_type "@ + decimal_text(n as nat) + " requires proxy_wallet_address"@,
        )),
        (proxy matches Some(address) ==> hex_bytes(trimmed(address@), 20) is Some) && (
        configured matches Some(n) && n > 2) ==> signing_mode(proxy, configured) == Err::<
            u8,
            Seq<char>,
        >(
            "Invalid signature_type: "@ + decimal_text(configured->0 as nat)
                + ". Must be 0, 1, or 2"@,
        ),
{
}

/// A request that only asks posts nothing: it has no headers of its own and no body.
pub proof fn law_a_question_sends_nothing(
    request: HttpRequest,
    url: Seq<char>,
    query: Seq<(Seq<char>, Seq<char>)>,
)
    requires
        request.gets(url, query),
    ensures
        !request.post,
        request.url@ == url,
        request.headers@.len() == 0,
        request.body is None,
        request.query@.len() == query.len(),
        forall|i: int|
            0 <= i < query.len() ==> (#[trigger] request.query@[i]).0@ == query[i].0
                && request.query@[i].1@ == query[i].1,
{
    assert(pairs(request.query@).len() == query.len());
    assert forall|i: int| 0 <= i < query.len() implies (#[trigger] request.query@[i]).0@
        == query[i].0 && request.query@[i].1@ == query[i].1 by {
        assert(pairs(request.query@)[i] == query[i]);
    }
}

} // verus!

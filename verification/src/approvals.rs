//! What the exchange's contracts may take from the account.

use vstd::prelude::*;
use vstd::string::*;

use crate::api::{pairs, push_pair, HttpRequest, HttpResponse, PolymarketApi};
use crate::chain::{
    allowance_call, approval_call, encode_allowance, encode_approval, encode_is_approved, flag_of,
    hex_bytes, hex_string, hex_text, is_approved_call, is_positive, key_address, lemma_usdc,
    prefixed_hex, read_flag, read_positive, usdc_bytes, zeros, Address, USDC,
};
use crate::json::{json_text_at, text_at};
use crate::relayer::{
    judge_state, known_state, lemma_states_differ, read_transaction_id, stand_of, state_text,
    status_url, status_url_text, submission, submission_text, submitted, tells_state, told,
    told_text, view_of, RelayerReply, Stand, CONFIRMATION_MILLISECONDS, MAX_CONFIRMATION_SECONDS,
};
use crate::text::{decimal_text, trim, trimmed, u64_text};

verus! {

/// Where the chain is asked.
pub const RPC_URL: &'static str = "https://polygon-rpc.com";

/// The contracts of the exchange.
#[derive(Clone, Copy, Debug)]
pub struct Contracts {
    pub exchange: Address,
    pub conditional_tokens: Address,
    pub neg_risk_adapter: Option<Address>,
}

/// A call that only reads the chain.
pub struct ChainCall {
    pub to: String,
    pub data: String,
}

impl ChainCall {
    /// Whether this calls a contract with this data.
    pub open spec fn calls(self, to: Seq<u8>, data: Seq<u8>) -> bool {
        self.to@ == prefixed_hex(to) && self.data@ == prefixed_hex(data)
    }
}

fn chain_call(to: &Address, data: &Vec<u8>) -> (res: ChainCall)
    ensures
        res.calls(to@, data@),
{
    ChainCall { to: to.text(), data: hex_string(data.as_slice()) }
}

impl PolymarketApi {
    /// The account whose approvals count: the proxy wallet where there is one, else the
    /// one of the private key; or why there is none.
    pub open spec fn account(self) -> Result<Seq<u8>, Seq<char>> {
        match self.proxy_wallet_address {
            Some(text) => match hex_bytes(trimmed(text@), 20) {
                Some(address) => Ok(address),
                None => Err("Failed to parse proxy_wallet_address: "@ + text@),
            },
            None => match self.private_key {
                None => Err("Private key required to check approval"@),
                Some(key) => match key_address(key@) {
                    Some(address) => Ok(address),
                    None => Err("Failed to create signer from private key"@),
                },
            },
        }
    }

    /// The account whose approvals count.
    pub fn account_to_check(&self) -> (res: Result<Address, String>)
        ensures
            match res {
                Ok(a) => self.account() == Ok::<Seq<u8>, Seq<char>>(a@),
                Err(e) => self.account() == Err::<Seq<u8>, Seq<char>>(e@),
            },
    {
        match &self.proxy_wallet_address {
            Some(text) => match Address::parse(trim(text.as_str())) {
                Some(address) => Ok(address),
                None => {
                    let mut e = "Failed to parse proxy_wallet_address: ".to_owned();
                    e.append(text.as_str());
                    Err(e)
                },
            },
            None => match &self.private_key {
                None => Err("Private key required to check approval".to_owned()),
                Some(key) => match Address::of_key(key.as_str()) {
                    Some(address) => Ok(address),
                    None => Err("Failed to create signer from private key".to_owned()),
                },
            },
        }
    }

    /// The address of the exchange's contract, as a text.
    pub fn get_clob_contract_address(&self, contracts: &Contracts) -> (res: String)
        ensures
            res@ == prefixed_hex(contracts.exchange@),
    {
        contracts.exchange.text()
    }

    /// The address of the contract that holds the outcome tokens, as a text.
    pub fn get_ctf_contract_address(&self, contracts: &Contracts) -> (res: String)
        ensures
            res@ == prefixed_hex(contracts.conditional_tokens@),
    {
        contracts.conditional_tokens.text()
    }

    /// The call that tells whether the exchange may take all outcome tokens.
    pub fn check_is_approved_for_all(&self, contracts: &Contracts) -> (res: Result<
        ChainCall,
        String,
    >)
        ensures
            match res {
                Ok(call) => self.account() is Ok && call.calls(
                    contracts.conditional_tokens@,
                    is_approved_call(self.account()->Ok_0, contracts.exchange@),
                ),
                Err(e) => self.account() == Err::<Seq<u8>, Seq<char>>(e@),
            },
    {
        match self.account_to_check() {
            Ok(account) => Ok(
                chain_call(
                    &contracts.conditional_tokens,
                    &encode_is_approved(&account, &contracts.exchange),
                ),
            ),
            Err(e) => Err(e),
        }
    }
}

/// Reads the answer to that call.
pub fn read_is_approved(answer: Option<&str>) -> (res: Result<bool, String>)
    ensures
        match res {
            Ok(b) => answer matches Some(text) && flag_of(text@) == Some(b),
            Err(e) => (answer matches Some(text) ==> flag_of(text@) is None) && e@
                == "Failed to check isApprovedForAll"@,
        },
{
    match answer {
        Some(text) => match read_flag(text) {
            Some(b) => Ok(b),
            None => Err("Failed to check isApprovedForAll".to_owned()),
        },
        None => Err("Failed to check isApprovedForAll".to_owned()),
    }
}

/// A contract whose approvals are looked up, with the calls that tell them.
pub struct ApprovalQuery {
    pub name: String,
    pub usdc: ChainCall,
    pub tokens: ChainCall,
}

impl ApprovalQuery {
    /// Whether this looks up what a contract may take from an account.
    pub open spec fn looks_up(
        self,
        name: Seq<char>,
        target: Seq<u8>,
        account: Seq<u8>,
        tokens: Seq<u8>,
    ) -> bool {
        &&& self.name@ == name
        &&& self.usdc.calls(usdc_bytes(), allowance_call(account, target))
        &&& self.tokens.calls(tokens, is_approved_call(account, target))
    }
}

fn approval_query(name: &str, target: &Address, usdc: &Address, account: &Address, tokens: &Address) -> (res:
    ApprovalQuery)
    requires
        usdc@ == usdc_bytes(),
    ensures
        res.looks_up(name@, target@, account@, tokens@),
{
    ApprovalQuery {
        name: name.to_owned(),
        usdc: chain_call(usdc, &encode_allowance(account, target)),
        tokens: chain_call(tokens, &encode_is_approved(account, target)),
    }
}

/// What a contract may take, given the answers to the two calls: what cannot be told
/// counts as nothing.
pub fn read_approvals(name: String, allowance: Option<&str>, approved: Option<&str>) -> (res: (
    String,
    bool,
    bool,
))
    ensures
        res.0 == name,
        res.1 == match allowance {
            Some(text) => is_positive(text@),
            None => false,
        },
        res.2 == match approved {
            Some(text) => flag_of(text@) == Some(true),
            None => false,
        },
{
    let usdc_approved = match allowance {
        Some(text) => read_positive(text),
        None => false,
    };
    let tokens_approved = match approved {
        Some(text) => match read_flag(text) {
            Some(b) => b,
            None => false,
        },
        None => false,
    };
    (name, usdc_approved, tokens_approved)
}

/// How approval for all outcome tokens is given.
pub enum ApprovalRoute {
    /// Through the relayer, for a proxy wallet.
    Relayer(HttpRequest),
    /// By a transaction of the key's own account, which pays for it.
    Direct { signer: Address, to: Address, data: Vec<u8> },
}

impl PolymarketApi {
    /// The calls that tell what each of the exchange's contracts may take.
    pub fn check_all_approvals(&self, contracts: &Contracts, neg_risk: &Contracts) -> (res: Result<
        Vec<ApprovalQuery>,
        String,
    >)
        ensures
            match res {
                Ok(list) => {
                    &&& self.account() is Ok
                    &&& list@.len() == if neg_risk.neg_risk_adapter is Some {
                        3int
                    } else {
                        2
                    }
                    &&& list@[0].looks_up(
                        "CTF Exchange"@,
                        contracts.exchange@,
                        self.account()->Ok_0,
                        contracts.conditional_tokens@,
                    )
                    &&& list@[1].looks_up(
                        "Neg Risk CTF Exchange"@,
                        neg_risk.exchange@,
                        self.account()->Ok_0,
                        contracts.conditional_tokens@,
                    )
                    &&& neg_risk.neg_risk_adapter matches Some(adapter) ==> list@[2].looks_up(
                        "Neg Risk Adapter"@,
                        adapter@,
                        self.account()->Ok_0,
                        contracts.conditional_tokens@,
                    )
                },
                Err(e) => self.account() == Err::<Seq<u8>, Seq<char>>(e@),
            },
    {
        proof {
            lemma_usdc();
        }
        let account = match self.account_to_check() {
            Ok(account) => account,
            Err(e) => {
                return Err(e);
            },
        };
        let usdc = match Address::parse(USDC) {
            Some(a) => a,
            None => {
                assert(false);
                return Err("USDC address".to_owned());
            },
        };
        let tokens = &contracts.conditional_tokens;
        let mut list: Vec<ApprovalQuery> = Vec::new();
        list.push(approval_query("CTF Exchange", &contracts.exchange, &usdc, &account, tokens));
        list.push(
            approval_query("Neg Risk CTF Exchange", &neg_risk.exchange, &usdc, &account, tokens),
        );
        if let Some(adapter) = &neg_risk.neg_risk_adapter {
            list.push(approval_query("Neg Risk Adapter", adapter, &usdc, &account, tokens));
        }
        Ok(list)
    }

    /// The body by which the relayer approves the exchange.
    pub open spec fn approval_body(tokens: Seq<u8>, exchange: Seq<u8>) -> Seq<char> {
        submission(
            "Set approval for all tokens - approve Exchange contract "@ + prefixed_hex(exchange),
            prefixed_hex(tokens),
            prefixed_hex(approval_call(exchange)),
        )
    }

    /// The request by which the relayer approves the exchange for all outcome tokens.
    pub fn set_approval_for_all_via_relayer(
        &self,
        tokens: &Address,
        exchange: &Address,
        timestamp: u64,
    ) -> (res: Result<HttpRequest, String>)
        ensures
            match res {
                Ok(request) => self.submits(
                    request,
                    Self::approval_body(tokens@, exchange@),
                    timestamp as nat,
                ),
                Err(e) => self.relayer_error() == Some(e@),
            },
    {
        let data = encode_approval(exchange);
        let mut description =
            "Set approval for all tokens - approve Exchange contract ".to_owned();
        description.append(exchange.text().as_str());
        let body = submission_text(
            description.as_str(),
            tokens.text().as_str(),
            hex_string(data.as_slice()).as_str(),
        );
        self.submit(body, timestamp)
    }

    /// How the exchange is approved for all outcome tokens: through the relayer where
    /// there is a proxy wallet, else by a transaction of the key's own account.
    pub fn set_approval_for_all_clob(&self, contracts: &Contracts, timestamp: u64) -> (res: Result<
        ApprovalRoute,
        String,
    >)
        ensures
            match res {
                Ok(ApprovalRoute::Relayer(request)) => {
                    &&& self.proxy_wallet_address is Some
                    &&& self.submits(
                        request,
                        Self::approval_body(
                            contracts.conditional_tokens@,
                            contracts.exchange@,
                        ),
                        timestamp as nat,
                    )
                },
                Ok(ApprovalRoute::Direct { signer, to, data }) => {
                    &&& self.proxy_wallet_address is None
                    &&& self.private_key is Some
                    &&& key_address(self.private_key->0@) == Some(signer@)
                    &&& to == contracts.conditional_tokens
                    &&& data@ == approval_call(contracts.exchange@)
                },
                Err(e) => if self.proxy_wallet_address is Some {
                    self.relayer_error() == Some(e@)
                } else if self.private_key is None {
                    e@
                        == "Private key is required for token approval. Please set private_key in config.json"@
                } else {
                    &&& key_address(self.private_key->0@) is None
                    &&& e@
                        == "Failed to create signer from private key. Ensure private_key is a valid hex string."@
                },
            },
    {
        if self.proxy_wallet_address.is_some() {
            return match self.set_approval_for_all_via_relayer(
                &contracts.conditional_tokens,
                &contracts.exchange,
                timestamp,
            ) {
                Ok(request) => Ok(ApprovalRoute::Relayer(request)),
                Err(e) => Err(e),
            };
        }
        match &self.private_key {
            None => Err(
                "Private key is required for token approval. Please set private_key in config.json".to_owned(),
            ),
            Some(key) => match Address::of_key(key.as_str()) {
                Some(signer) => Ok(
                    ApprovalRoute::Direct {
                        signer,
                        to: contracts.conditional_tokens,
                        data: encode_approval(&contracts.exchange),
                    },
                ),
                None => Err(
                    "Failed to create signer from private key. Ensure private_key is a valid hex string.".to_owned(),
                ),
            },
        }
    }

    /// The signature type as the log shows it.
    pub open spec fn shown_signature_type(self) -> Seq<char> {
        match self.signature_type {
            Some(n) => "Some("@ + decimal_text(n as nat) + ")"@,
            None => "None"@,
        }
    }

    /// What is added for a safe, whose transactions the relayer wants in another form.
    pub open spec fn safe_hint(self) -> Seq<char> {
        if self.signature_type == Some(2u8) {
            "\n\n   💡 For signature_type 2 (GNOSIS_SAFE), the relayer expects a Safe transaction format:\n- Get nonce from /nonce endpoint\n- Derive Safe address from signer\n- Build SafeTx struct hash\n- Sign and pack signature\n- Send: { from, to, proxyWallet, data, nonce, signature, signatureParams, type: \"SAFE\", metadata }\n\nConsider using signature_type 1 (POLY_PROXY) if possible, or implement the full Safe flow."@
        } else {
            ""@
        }
    }

    /// Why the relayer refused an approval.
    pub open spec fn approval_refusal(
        self,
        response: HttpResponse,
        tokens: Seq<u8>,
        exchange: Seq<u8>,
    ) -> Seq<char> {
        "Relayer rejected setApprovalForAll request (status: "@ + response.status@ + "): "@
            + response.body@ + "\n\nCTF Contract Address: "@ + prefixed_hex(tokens)
            + "\nExchange Contract Address: "@ + prefixed_hex(exchange) + "\nSignature Type: "@
            + self.shown_signature_type()
            + "\n\nThis may be a relayer endpoint issue, authentication problem, or request format mismatch.\nPlease verify your Builder API credentials are correct."@
            + self.safe_hint()
    }

    /// Reads the relayer's answer to an approval: the identifier of the transaction.
    pub fn read_approval(&self, response: &HttpResponse, tokens: &Address, exchange: &Address) -> (res:
        Result<String, String>)
        ensures
            match res {
                Ok(id) => response.ok() && submitted(response.body@) == Ok::<Seq<char>, Seq<char>>(
                    id@,
                ),
                Err(e) => if response.ok() {
                    submitted(response.body@) == Err::<Seq<char>, Seq<char>>(e@)
                } else {
                    e@ == self.approval_refusal(*response, tokens@, exchange@)
                },
            },
    {
        if response.is_success() {
            return read_transaction_id(response.body.as_str());
        }
        let shown = match self.signature_type {
            Some(n) => {
                let mut t = "Some(".to_owned();
                t.append(u64_text(n as u64).as_str());
                t.append(")");
                t
            },
            None => "None".to_owned(),
        };
        let is_safe = match self.signature_type {
            Some(n) => n == 2,
            None => false,
        };
        let hint = if is_safe {
            "\n\n   💡 For signature_type 2 (GNOSIS_SAFE), the relayer expects a Safe transaction format:\n- Get nonce from /nonce endpoint\n- Derive Safe address from signer\n- Build SafeTx struct hash\n- Sign and pack signature\n- Send: { from, to, proxyWallet, data, nonce, signature, signatureParams, type: \"SAFE\", metadata }\n\nConsider using signature_type 1 (POLY_PROXY) if possible, or implement the full Safe flow."
        } else {
            ""
        };
        let mut text = "Relayer rejected setApprovalForAll request (status: ".to_owned();
        text.append(response.status.as_str());
        text.append("): ");
        text.append(response.body.as_str());
        text.append("\n\nCTF Contract Address: ");
        text.append(tokens.text().as_str());
        text.append("\nExchange Contract Address: ");
        text.append(exchange.text().as_str());
        text.append("\nSignature Type: ");
        text.append(shown.as_str());
        text.append(
            "\n\nThis may be a relayer endpoint issue, authentication problem, or request format mismatch.\nPlease verify your Builder API credentials are correct.",
        );
        text.append(hint);
        Err(text)
    }
}

/// What is done next about a transaction.
pub enum TransactionStep {
    /// Its state is asked for.
    Ask(HttpRequest),
    /// The bot pauses.
    Rest { milliseconds: u64 },
    /// It is confirmed, under a hash.
    Confirmed(String),
    /// It failed, or was not confirmed in time.
    Failed(String),
}

/// Whether an answer that succeeded is no JSON.
pub open spec fn is_garbled(answer: Option<HttpResponse>) -> bool {
    answer matches Some(response) && response.ok() && json_text_at(response.body@, "/state"@) is None
}

fn garbled(answer: &Option<HttpResponse>) -> (res: bool)
    ensures
        res == is_garbled(*answer),
{
    match answer {
        Some(response) => response.is_success() && text_at(
            response.body.as_str(),
            "/state",
        ).is_none(),
        None => false,
    }
}

/// Whether this follows the state of a transaction: it is over where that is confirmed or
/// failed, or cannot be read at all, else the bot looks again.
pub open spec fn follows_transaction(
    res: TransactionStep,
    readable: bool,
    state: Seq<char>,
    hash: Option<Seq<char>>,
    metadata: Option<Seq<char>>,
) -> bool {
    if !readable {
        res matches TransactionStep::Failed(e) && e@ == "Failed to parse relayer status response"@
    } else {
        match stand_of(state) {
            Stand::Confirmed => res matches TransactionStep::Confirmed(h) && h@ == match hash {
                Some(h) => h,
                None => "N/A"@,
            },
            Stand::Failed => res matches TransactionStep::Failed(e) && e@
                == "Relayer transaction failed: "@ + match metadata {
                Some(m) => m,
                None => "Transaction failed"@,
            },
            Stand::Underway => res == (TransactionStep::Rest {
                milliseconds: CONFIRMATION_MILLISECONDS,
            }),
        }
    }
}

/// What follows the state of a transaction, given the hash and the metadata that were told
/// with it.
pub fn judge_transaction(
    readable: bool,
    state: &str,
    hash: Option<String>,
    metadata: Option<String>,
) -> (res: TransactionStep)
    ensures
        follows_transaction(res, readable, state@, view_of(hash), view_of(metadata)),
{
    if !readable {
        return TransactionStep::Failed("Failed to parse relayer status response".to_owned());
    }
    match judge_state(state) {
        Stand::Confirmed => TransactionStep::Confirmed(
            match hash {
                Some(h) => h,
                None => "N/A".to_owned(),
            },
        ),
        Stand::Failed => {
            let mut text = "Relayer transaction failed: ".to_owned();
            match metadata {
                Some(m) => text.append(m.as_str()),
                None => text.append("Transaction failed"),
            }
            TransactionStep::Failed(text)
        },
        Stand::Underway => TransactionStep::Rest { milliseconds: CONFIRMATION_MILLISECONDS },
    }
}

impl PolymarketApi {
    /// One step of waiting for a transaction of the relayer's: takes what came of the last
    /// request and the seconds since the submission, and gives what is done next.
    pub fn wait_for_relayer_transaction(
        &self,
        transaction_id: &str,
        reply: RelayerReply,
        elapsed: u64,
    ) -> (res: TransactionStep)
        ensures
            match reply {
                RelayerReply::Answer(answer) => follows_transaction(
                    res,
                    !is_garbled(answer),
                    known_state(answer),
                    told(answer, "/transactionHash"@),
                    told(answer, "/metadata"@),
                ),
                _ => if elapsed >= MAX_CONFIRMATION_SECONDS {
                    res matches TransactionStep::Failed(e) && e@
                        == "Relayer transaction confirmation timeout after 120 seconds"@
                } else {
                    res matches TransactionStep::Ask(request) && {
                        &&& !request.post
                        &&& request.url@ == status_url(transaction_id@)
                        &&& request.query@.len() == 0
                        &&& request.body is None
                        &&& pairs(request.headers@) == seq![
                            ("User-Agent"@, "polymarket-trading-bot/1.0"@),
                        ]
                    }
                },
            },
            reply matches RelayerReply::Answer(answer) ==> {
                let garbled = answer matches Some(response) && 200 <= response.code <= 299
                    && json_text_at(response.body@, "/state"@) is None;
                &&& res is Confirmed <==> tells_state(answer, "STATE_CONFIRMED"@)
                &&& res is Failed <==> garbled || tells_state(answer, "STATE_FAILED"@)
                    || tells_state(answer, "STATE_INVALID"@)
                &&& !(res is Confirmed) && !(res is Failed) ==> res == (TransactionStep::Rest {
                    milliseconds: 2000,
                })
            },
            !(reply is Answer) ==> {
                &&& res is Failed <==> elapsed >= 120
                &&& res is Ask <==> elapsed < 120
                &&& res matches TransactionStep::Ask(request) ==> !request.post && request.url@
                    == "https://relayer-v2.polymarket.com/transaction/"@ + transaction_id@
            },
    {
        proof {
            lemma_states_differ();
        }
        if let RelayerReply::Answer(answer) = reply {
            let state = state_text(&answer);
            let hash = told_text(&answer, "/transactionHash");
            let metadata = told_text(&answer, "/metadata");
            return judge_transaction(!garbled(&answer), state.as_str(), hash, metadata);
        }
        if elapsed >= MAX_CONFIRMATION_SECONDS {
            return TransactionStep::Failed(
                "Relayer transaction confirmation timeout after 120 seconds".to_owned(),
            );
        }
        let mut headers: Vec<(String, String)> = Vec::new();
        assert(pairs(headers@) =~= Seq::empty());
        push_pair(&mut headers, "User-Agent", "polymarket-trading-bot/1.0");
        assert(pairs(headers@) =~= seq![("User-Agent"@, "polymarket-trading-bot/1.0"@)]);
        TransactionStep::Ask(
            HttpRequest {
                post: false,
                url: status_url_text(transaction_id),
                query: Vec::new(),
                headers,
                body: None,
            },
        )
    }
}

/// The account whose approvals count is the proxy wallet where one is configured, and only
/// without one the account of the private key.
pub proof fn law_the_proxy_wallet_counts_first(api: PolymarketApi)
    ensures
        api.proxy_wallet_address matches Some(text) ==> match api.account() {
            Ok(account) => hex_bytes(trimmed(text@), 20) == Some(account),
            Err(_) => hex_bytes(trimmed(text@), 20) is None,
        },
        api.proxy_wallet_address is None ==> match api.account() {
            Ok(account) => api.private_key matches Some(key) && key_address(key@) == Some(account),
            Err(_) => api.private_key matches Some(key) ==> key_address(key@) is None,
        },
{
}

/// The approval of the exchange calls the contract of the outcome tokens, and approves the
/// exchange's contract there.
pub proof fn law_the_exchange_is_approved_at_the_tokens(tokens: Seq<u8>, exchange: Seq<u8>)
    ensures
        PolymarketApi::approval_body(tokens, exchange) == submission(
            "Set approval for all tokens - approve Exchange contract "@ + prefixed_hex(exchange),
            prefixed_hex(tokens),
            prefixed_hex(approval_call(exchange)),
        ),
{
}

/// What a contract may take from an account is looked up at USDC, as an allowance of the account
/// to the contract, and at the outcome tokens, as an approval of the contract by the account.
pub proof fn law_approvals_are_looked_up_by_account_and_contract(
    query: ApprovalQuery,
    name: Seq<char>,
    target: Seq<u8>,
    account: Seq<u8>,
    tokens: Seq<u8>,
)
    requires
        query.looks_up(name, target, account, tokens),
    ensures
        query.name@ == name,
        query.usdc.to@ == "0x"@ + hex_text(usdc_bytes()),
        query.usdc.data@ == "0x"@ + hex_text(
            seq![0xddu8, 0x62u8, 0xedu8, 0x3eu8] + (zeros(12) + account) + (zeros(12) + target),
        ),
        query.tokens.to@ == "0x"@ + hex_text(tokens),
        query.tokens.data@ == "0x"@ + hex_text(
            seq![0xe9u8, 0x85u8, 0xe9u8, 0xc5u8] + (zeros(12) + account) + (zeros(12) + target),
        ),
{
}

/// What follows the state of a transaction: confirmed, its hash or, without one, the words for
/// that; failed, what is said of it; neither, two seconds of rest; and an answer that cannot be
/// read ends the waiting.
pub proof fn law_a_transaction_ends_with_its_hash_or_its_failure(
    res: TransactionStep,
    readable: bool,
    state: Seq<char>,
    hash: Option<Seq<char>>,
    metadata: Option<Seq<char>>,
)
    requires
        follows_transaction(res, readable, state, hash, metadata),
    ensures
        readable && state == "STATE_CONFIRMED"@ ==> (res matches TransactionStep::Confirmed(h)
            && h@ == match hash {
            Some(told) => told,
            None => "N/A"@,
        }),
        readable && (state == "STATE_FAILED"@ || state == "STATE_INVALID"@) ==> (
        res matches TransactionStep::Failed(e) && e@ == "Relayer transaction failed: "@
            + match metadata {
            Some(told) => told,
            None => "Transaction failed"@,
        }),
        readable && state != "STATE_CONFIRMED"@ && state != "STATE_FAILED"@ && state
            != "STATE_INVALID"@ ==> res == (TransactionStep::Rest { milliseconds: 2000 }),
        !readable ==> res is Failed,
{
    lemma_states_differ();
}

/// The hint for a safe is given exactly to those who sign for one, and the signature type is
/// shown as it is configured.
pub proof fn law_the_hint_is_for_safes(api: PolymarketApi)
    ensures
        api.signature_type != Some(2u8) ==> api.safe_hint() == ""@,
        api.signature_type matches Some(n) ==> api.shown_signature_type() == "Some("@
            + decimal_text(n as nat) + ")"@,
        api.signature_type is None ==> api.shown_signature_type() == "None"@,
{
}

} // verus!

//! Transactions that the relayer carries out: redemptions and approvals.

use vstd::prelude::*;
use vstd::string::*;

use crate::api::{pairs, push_pair, HttpRequest, HttpResponse, PolymarketApi};
use crate::chain::{
    checksummed, condition_bytes, ctf_bytes, encode_redemption, hex_string, index_sets, lemma_ctf,
    lemma_usdc, parse_condition, prefixed_hex, redemption_call, usdc_bytes, Address, CTF_CONTRACT,
    USDC,
};
use crate::json::{json_quoted, json_text_at, quote, text_at};
use crate::models::{RedeemResponse, TokenType};
use crate::signing::{message_to_sign, sign, signature, signed_message};
use crate::text::{decimal_text, leading, leading_text, same_text, u64_text};

verus! {

/// Where transactions are submitted.
pub const RELAYER_SUBMIT: &'static str = "https://relayer-v2.polymarket.com/submit";

/// How long a transaction is waited for.
pub const MAX_CONFIRMATION_SECONDS: u64 = 120;

/// How long the bot waits between two looks.
pub const CONFIRMATION_MILLISECONDS: u64 = 2000;

/// A request to the relayer: one transaction that calls a contract, and its
/// description, as JSON.
pub open spec fn submission(description: Seq<char>, to: Seq<char>, data: Seq<char>) -> Seq<char> {
    "{\"description\":"@ + json_quoted(description) + ",\"transactions\":[{\"data\":"@
        + json_quoted(data) + ",\"to\":"@ + json_quoted(to) + ",\"value\":\"0\"}]}"@
}

pub(crate) fn submission_text(description: &str, to: &str, data: &str) -> (res: String)
    ensures
        res@ == submission(description@, to@, data@),
{
    submission_of(quote(description), quote(data), quote(to))
}

/// A request to the relayer, given its description, its data and the contract as JSON
/// strings.
pub fn submission_of(description: String, data: String, to: String) -> (res: String)
    ensures
        res@ == "{\"description\":"@ + description@ + ",\"transactions\":[{\"data\":"@ + data@
            + ",\"to\":"@ + to@ + ",\"value\":\"0\"}]}"@,
{
    let mut res = "{\"description\":".to_owned();
    res.append(description.as_str());
    res.append(",\"transactions\":[{\"data\":");
    res.append(data.as_str());
    res.append(",\"to\":");
    res.append(to.as_str());
    res.append(",\"value\":\"0\"}]}");
    res
}

impl PolymarketApi {
    /// What is said of the first credential that the relayer needs and that is missing.
    pub open spec fn relayer_error(self) -> Option<Seq<char>> {
        if self.api_key is None {
            Some("API key required for relayer. Please set api_key in config.json"@)
        } else if self.api_secret is None {
            Some("API secret required for relayer. Please set api_secret in config.json"@)
        } else if self.api_passphrase is None {
            Some("API passphrase required for relayer. Please set api_passphrase in config.json"@)
        } else {
            None
        }
    }

    /// The four headers by which the relayer knows a builder.
    pub open spec fn builder_headers(self, message: Seq<char>, timestamp: nat) -> Seq<
        (Seq<char>, Seq<char>),
    > {
        seq![
            ("POLY_BUILDER_API_KEY"@, self.api_key->0@),
            ("POLY_BUILDER_TIMESTAMP"@, decimal_text(timestamp)),
            ("POLY_BUILDER_PASSPHRASE"@, self.api_passphrase->0@),
            ("POLY_BUILDER_SIGNATURE"@, signature(self.api_secret->0@, message)),
        ]
    }

    /// Whether a request submits this body to the relayer, signed as it is sent.
    pub open spec fn submits(self, request: HttpRequest, body: Seq<char>, timestamp: nat) -> bool {
        &&& self.relayer_error() is None
        &&& request.post
        &&& request.url@ == RELAYER_SUBMIT@
        &&& request.query@.len() == 0
        &&& request.body matches Some(sent)
        &&& sent@ == body
        &&& pairs(request.headers@) == seq![("User-Agent"@, "polymarket-trading-bot/1.0"@)]
            + self.builder_headers(
            signed_message("POST"@, "/submit"@, body, timestamp),
            timestamp,
        ) + seq![("Content-Type"@, "application/json"@), ("Accept"@, "application/json"@)]
    }

    pub(crate) fn push_builder_headers(
        &self,
        headers: &mut Vec<(String, String)>,
        message: &str,
        timestamp: u64,
    )
        requires
            self.relayer_error() is None,
        ensures
            pairs(final(headers)@) == pairs(old(headers)@) + self.builder_headers(
                message@,
                timestamp as nat,
            ),
    {
        let ghost before = pairs(headers@);
        if let Some(key) = &self.api_key {
            if let Some(secret) = &self.api_secret {
                if let Some(passphrase) = &self.api_passphrase {
                    let code = sign(secret.as_str(), message);
                    push_pair(headers, "POLY_BUILDER_API_KEY", key.as_str());
                    push_pair(headers, "POLY_BUILDER_TIMESTAMP", u64_text(timestamp).as_str());
                    push_pair(headers, "POLY_BUILDER_PASSPHRASE", passphrase.as_str());
                    push_pair(headers, "POLY_BUILDER_SIGNATURE", code.as_str());
                    assert(pairs(headers@) =~= before + self.builder_headers(
                        message@,
                        timestamp as nat,
                    ));
                }
            }
        }
    }

    pub(crate) fn submit(&self, body: String, timestamp: u64) -> (res: Result<HttpRequest, String>)
        ensures
            match res {
                Ok(request) => self.submits(request, body@, timestamp as nat),
                Err(e) => self.relayer_error() == Some(e@),
            },
    {
        if self.api_key.is_none() {
            return Err(
                "API key required for relayer. Please set api_key in config.json".to_owned(),
            );
        }
        if self.api_secret.is_none() {
            return Err(
                "API secret required for relayer. Please set api_secret in config.json".to_owned(),
            );
        }
        if self.api_passphrase.is_none() {
            return Err(
                "API passphrase required for relayer. Please set api_passphrase in config.json".to_owned(),
            );
        }
        let message = message_to_sign("POST", "/submit", body.as_str(), timestamp);
        let mut headers: Vec<(String, String)> = Vec::new();
        assert(pairs(headers@) =~= Seq::empty());
        push_pair(&mut headers, "User-Agent", "polymarket-trading-bot/1.0");
        self.push_builder_headers(&mut headers, message.as_str(), timestamp);
        push_pair(&mut headers, "Content-Type", "application/json");
        push_pair(&mut headers, "Accept", "application/json");
        assert(pairs(headers@) =~= seq![("User-Agent"@, "polymarket-trading-bot/1.0"@)]
            + self.builder_headers(message@, timestamp as nat) + seq![
            ("Content-Type"@, "application/json"@),
            ("Accept"@, "application/json"@),
        ]);
        Ok(
            HttpRequest {
                post: true,
                url: RELAYER_SUBMIT.to_owned(),
                query: Vec::new(),
                headers,
                body: Some(body),
            },
        )
    }

    /// Why a redemption cannot be asked for: a bad condition, no side, a credential that
    /// is missing.
    pub open spec fn redemption_error(self, condition_id: Seq<char>, yes: bool, no: bool) -> Option<
        Seq<char>,
    > {
        if condition_bytes(condition_id) is None {
            Some("Failed to parse condition_id to B256: "@ + condition_id)
        } else if !yes && !no {
            Some(
                "Must redeem at least one position (YES or NO). Use redeem_yes and/or redeem_no."@,
            )
        } else {
            self.relayer_error()
        }
    }

    /// The body of a redemption.
    pub open spec fn redemption_body(
        collateral: Seq<u8>,
        condition_id: Seq<char>,
        outcome: Seq<char>,
        yes: bool,
        no: bool,
    ) -> Seq<char> {
        submission(
            "Redeem "@ + outcome + " token for condition "@ + condition_id,
            prefixed_hex(ctf_bytes()),
            prefixed_hex(
                redemption_call(
                    collateral,
                    condition_bytes(condition_id)->0,
                    index_sets(yes, no),
                ),
            ),
        )
    }

    /// The request that redeems the tokens of a condition for a collateral.
    pub fn request_redemption(
        &self,
        collateral: &Address,
        condition_id: &str,
        outcome: &str,
        redeem_yes: bool,
        redeem_no: bool,
        timestamp: u64,
    ) -> (res: Result<HttpRequest, String>)
        ensures
            match res {
                Ok(request) => {
                    &&& self.redemption_error(condition_id@, redeem_yes, redeem_no) is None
                    &&& self.submits(
                        request,
                        Self::redemption_body(
                            collateral@,
                            condition_id@,
                            outcome@,
                            redeem_yes,
                            redeem_no,
                        ),
                        timestamp as nat,
                    )
                },
                Err(e) => self.redemption_error(condition_id@, redeem_yes, redeem_no) == Some(e@),
            },
    {
        let condition = match parse_condition(condition_id) {
            Some(word) => word,
            None => {
                let mut text = "Failed to parse condition_id to B256: ".to_owned();
                text.append(condition_id);
                return Err(text);
            },
        };
        if !redeem_yes && !redeem_no {
            return Err(
                "Must redeem at least one position (YES or NO). Use redeem_yes and/or redeem_no.".to_owned(),
            );
        }
        proof {
            lemma_ctf();
        }
        let ctf = match Address::parse(CTF_CONTRACT) {
            Some(a) => a,
            None => {
                assert(false);
                return Err("".to_owned());
            },
        };
        let data = encode_redemption(collateral, &condition, redeem_yes, redeem_no);
        let mut description = "Redeem ".to_owned();
        description.append(outcome);
        description.append(" token for condition ");
        description.append(condition_id);
        let body = submission_text(
            description.as_str(),
            ctf.text().as_str(),
            hex_string(data.as_slice()).as_str(),
        );
        self.submit(body, timestamp)
    }

    /// The request that redeems the tokens of a condition for USDC. The token is named
    /// for the log alone.
    pub fn redeem_tokens(
        &self,
        condition_id: &str,
        _token_id: &str,
        outcome: &str,
        redeem_yes: bool,
        redeem_no: bool,
        timestamp: u64,
    ) -> (res: Result<HttpRequest, String>)
        ensures
            match res {
                Ok(request) => {
                    &&& checksummed(USDC@) is Some
                    &&& self.redemption_error(condition_id@, redeem_yes, redeem_no) is None
                    &&& self.submits(
                        request,
                        Self::redemption_body(
                            usdc_bytes(),
                            condition_id@,
                            outcome@,
                            redeem_yes,
                            redeem_no,
                        ),
                        timestamp as nat,
                    )
                },
                Err(e) => if checksummed(USDC@) is None {
                    e@ == "Failed to parse USDC address"@
                } else {
                    self.redemption_error(condition_id@, redeem_yes, redeem_no) == Some(e@)
                },
            },
    {
        proof {
            lemma_usdc();
        }
        match Address::parse_checksummed(USDC) {
            Some(collateral) => self.request_redemption(
                &collateral,
                condition_id,
                outcome,
                redeem_yes,
                redeem_no,
                timestamp,
            ),
            None => Err("Failed to parse USDC address".to_owned()),
        }
    }

    /// The request that redeems a position in the token of a side, whichever side has won.
    pub fn redeem_position(
        &self,
        condition_id: &str,
        token_id: &str,
        side: TokenType,
        timestamp: u64,
    ) -> (res: Result<HttpRequest, String>)
        ensures
            match res {
                Ok(request) => {
                    &&& checksummed(USDC@) is Some
                    &&& self.redemption_error(condition_id@, true, true) is None
                    &&& self.submits(
                        request,
                        Self::redemption_body(
                            usdc_bytes(),
                            condition_id@,
                            side.outcome_name(),
                            true,
                            true,
                        ),
                        timestamp as nat,
                    )
                },
                Err(e) => if checksummed(USDC@) is None {
                    e@ == "Failed to parse USDC address"@
                } else {
                    self.redemption_error(condition_id@, true, true) == Some(e@)
                },
            },
    {
        self.redeem_tokens(condition_id, token_id, side.outcome(), true, true, timestamp)
    }

    /// The request that turns complete sets of the tokens of a condition into USDC.
    pub fn merge_complete_sets(&self, condition_id: &str, timestamp: u64) -> (res: Result<
        HttpRequest,
        String,
    >)
        ensures
            match res {
                Ok(request) => {
                    &&& checksummed(USDC@) is Some
                    &&& self.redemption_error(condition_id@, true, true) is None
                    &&& self.submits(
                        request,
                        Self::redemption_body(
                            usdc_bytes(),
                            condition_id@,
                            "Up+Down (merge complete sets)"@,
                            true,
                            true,
                        ),
                        timestamp as nat,
                    )
                },
                Err(e) => if checksummed(USDC@) is None {
                    e@ == "Failed to parse USDC address"@
                } else {
                    self.redemption_error(condition_id@, true, true) == Some(e@)
                },
            },
    {
        self.redeem_tokens(
            condition_id,
            "",
            "Up+Down (merge complete sets)",
            true,
            true,
            timestamp,
        )
    }

    /// Why the relayer refused a redemption.
    pub open spec fn redemption_refusal(self, response: HttpResponse) -> Seq<char> {
        if response.code == 401 {
            "Relayer redemption failed: 401 Unauthorized - Invalid Builder API credentials\n\nThis error means your Builder API credentials are incorrect or missing.\n\nPlease verify:\n1. You're using Builder API credentials (not User API credentials)\n2. Get Builder API credentials from: https://polymarket.com/builder\n3. Your config.json has:\n- api_key: Your Builder API key\n- api_secret: Your Builder API secret (base64-encoded)\n- api_passphrase: Your Builder API passphrase\n4. The credentials match your Builder Profile exactly\n5. Your Builder API credentials were derived with the correct signature_type ("@
                + decimal_text(
                match self.signature_type {
                    Some(n) => n as nat,
                    None => 0,
                },
            ) + ")\n\nResponse: "@ + leading(response.body@, 500)
        } else {
            "Relayer redemption failed (status "@ + response.status@ + "): "@ + leading(
                response.body@,
                200,
            )
        }
    }

    /// Reads the relayer's answer to a redemption: the identifier of the transaction.
    pub fn read_redemption(&self, response: &HttpResponse) -> (res: Result<String, String>)
        ensures
            match res {
                Ok(id) => response.ok() && submitted(response.body@) == Ok::<Seq<char>, Seq<char>>(
                    id@,
                ),
                Err(e) => if response.ok() {
                    submitted(response.body@) == Err::<Seq<char>, Seq<char>>(e@)
                } else {
                    e@ == self.redemption_refusal(*response)
                },
            },
    {
        if response.is_success() {
            return read_transaction_id(response.body.as_str());
        }
        if response.code == 401 {
            let mode: u8 = match self.signature_type {
                Some(n) => n,
                None => 0,
            };
            let mut text =
                "Relayer redemption failed: 401 Unauthorized - Invalid Builder API credentials\n\nThis error means your Builder API credentials are incorrect or missing.\n\nPlease verify:\n1. You're using Builder API credentials (not User API credentials)\n2. Get Builder API credentials from: https://polymarket.com/builder\n3. Your config.json has:\n- api_key: Your Builder API key\n- api_secret: Your Builder API secret (base64-encoded)\n- api_passphrase: Your Builder API passphrase\n4. The credentials match your Builder Profile exactly\n5. Your Builder API credentials were derived with the correct signature_type (".to_owned();
            text.append(u64_text(mode as u64).as_str());
            text.append(")\n\nResponse: ");
            text.append(leading_text(response.body.as_str(), 500).as_str());
            Err(text)
        } else {
            let mut text = "Relayer redemption failed (status ".to_owned();
            text.append(response.status.as_str());
            text.append("): ");
            text.append(leading_text(response.body.as_str(), 200).as_str());
            Err(text)
        }
    }
}

/// The transaction of a submission that the relayer has taken.
pub open spec fn submitted(body: Seq<char>) -> Result<Seq<char>, Seq<char>> {
    match json_text_at(body, "/transactionID"@) {
        None => Err("Failed to parse relayer response"@),
        Some(None) => Err("Missing transactionID in relayer response"@),
        Some(Some(id)) => Ok(id),
    }
}

/// The transaction of a submission, given the string that the answer has under
/// `transactionID`.
pub fn transaction_in(field: Option<Option<String>>) -> (res: Result<String, String>)
    ensures
        match field {
            None => res matches Err(e) && e@ == "Failed to parse relayer response"@,
            Some(None) => res matches Err(e) && e@ == "Missing transactionID in relayer response"@,
            Some(Some(id)) => res matches Ok(found) && found == id,
        },
{
    match field {
        None => Err("Failed to parse relayer response".to_owned()),
        Some(None) => Err("Missing transactionID in relayer response".to_owned()),
        Some(Some(id)) => Ok(id),
    }
}

pub(crate) fn read_transaction_id(body: &str) -> (res: Result<String, String>)
    ensures
        match res {
            Ok(id) => submitted(body@) == Ok::<Seq<char>, Seq<char>>(id@),
            Err(e) => submitted(body@) == Err::<Seq<char>, Seq<char>>(e@),
        },
{
    transaction_in(text_at(body, "/transactionID"))
}

/// Where the state of a transaction is asked for.
pub open spec fn status_url(transaction_id: Seq<char>) -> Seq<char> {
    "https://relayer-v2.polymarket.com/transaction/"@ + transaction_id
}

pub(crate) fn status_url_text(transaction_id: &str) -> (res: String)
    ensures
        res@ == status_url(transaction_id@),
{
    let mut url = "https://relayer-v2.polymarket.com/transaction/".to_owned();
    url.append(transaction_id);
    url
}

/// How far a transaction has come.
#[derive(Clone, Copy, Debug, PartialEq, Eq, Structural)]
pub enum Stand {
    /// It is confirmed.
    Confirmed,
    /// It has failed.
    Failed,
    /// It is underway, or nobody knows.
    Underway,
}

/// How far a transaction in a state has come.
pub open spec fn stand_of(state: Seq<char>) -> Stand {
    if state == "STATE_CONFIRMED"@ {
        Stand::Confirmed
    } else if state == "STATE_FAILED"@ || state == "STATE_INVALID"@ {
        Stand::Failed
    } else {
        Stand::Underway
    }
}

/// How far a transaction in a state has come.
pub fn judge_state(state: &str) -> (res: Stand)
    ensures
        res == stand_of(state@),
{
    if same_text(state, "STATE_CONFIRMED") {
        Stand::Confirmed
    } else if same_text(state, "STATE_FAILED") || same_text(state, "STATE_INVALID") {
        Stand::Failed
    } else {
        Stand::Underway
    }
}

/// What came of the last request about a transaction.
pub enum RelayerReply {
    /// There was none.
    Begin,
    /// The relayer's answer, if it gave one.
    Answer(Option<HttpResponse>),
    /// The pause is over.
    Rested,
}

/// What is done next about a redemption.
pub enum RedemptionStep {
    /// Its state is asked for.
    Ask(HttpRequest),
    /// The bot pauses.
    Rest { milliseconds: u64 },
    /// It went through, or was not confirmed in time.
    Finished(RedeemResponse),
    /// It failed.
    Failed(String),
}

/// The state that an answer tells: nothing where it tells none.
pub open spec fn told_state(answer: Option<HttpResponse>) -> Option<Option<Seq<char>>> {
    match answer {
        Some(response) => if response.ok() {
            json_text_at(response.body@, "/state"@)
        } else {
            None
        },
        None => None,
    }
}

/// The state that an answer tells, where it tells one.
pub open spec fn known_state(answer: Option<HttpResponse>) -> Seq<char> {
    match told_state(answer) {
        Some(Some(state)) => state,
        _ => "UNKNOWN"@,
    }
}

/// Whether a redemption's answer is this.
pub open spec fn redeemed(
    response: RedeemResponse,
    success: bool,
    message: Seq<char>,
    hash: Option<Seq<char>>,
) -> bool {
    &&& response.success == success
    &&& response.message matches Some(m)
    &&& m@ == message
    &&& match hash {
        Some(h) => response.transaction_hash matches Some(t) && t@ == h,
        None => response.transaction_hash is None,
    }
    &&& response.amount_redeemed is None
}

/// The string under a key of an answer.
pub open spec fn told(answer: Option<HttpResponse>, place: Seq<char>) -> Option<Seq<char>> {
    match answer {
        Some(response) => match json_text_at(response.body@, place) {
            Some(t) => t,
            None => None,
        },
        None => None,
    }
}

pub(crate) fn told_text(answer: &Option<HttpResponse>, place: &str) -> (res: Option<String>)
    ensures
        view_of(res) == told(*answer, place@),
{
    match answer {
        Some(response) => match text_at(response.body.as_str(), place) {
            Some(t) => t,
            None => None,
        },
        None => None,
    }
}

pub(crate) fn state_text(answer: &Option<HttpResponse>) -> (res: String)
    ensures
        res@ == known_state(*answer),
{
    if let Some(response) = answer {
        if response.is_success() {
            if let Some(Some(state)) = text_at(response.body.as_str(), "/state") {
                return state;
            }
        }
    }
    "UNKNOWN".to_owned()
}

/// The characters of a text, where there is one.
pub open spec fn view_of(text: Option<String>) -> Option<Seq<char>> {
    match text {
        Some(t) => Some(t@),
        None => None,
    }
}

/// Whether this follows a redemption's state: it is over where that is confirmed or
/// failed, else the bot looks again.
pub open spec fn follows_state(
    res: RedemptionStep,
    transaction_id: Seq<char>,
    state: Seq<char>,
    hash: Option<Seq<char>>,
) -> bool {
    match stand_of(state) {
        Stand::Confirmed => res matches RedemptionStep::Finished(response) && redeemed(
            response,
            true,
            "Successfully redeemed tokens via relayer. Transaction ID: "@ + transaction_id,
            hash,
        ),
        Stand::Failed => res matches RedemptionStep::Failed(e) && e@
            == "Relayer redemption transaction failed (state: "@ + state + "). Transaction ID: "@
            + transaction_id,
        Stand::Underway => res == (RedemptionStep::Rest {
            milliseconds: CONFIRMATION_MILLISECONDS,
        }),
    }
}

/// What follows a redemption's state, given the hash that was told with it.
pub fn judge_redemption(transaction_id: &str, state: &str, hash: Option<String>) -> (res:
    RedemptionStep)
    ensures
        follows_state(res, transaction_id@, state@, view_of(hash)),
{
    match judge_state(state) {
        Stand::Confirmed => {
            let mut message =
                "Successfully redeemed tokens via relayer. Transaction ID: ".to_owned();
            message.append(transaction_id);
            RedemptionStep::Finished(
                RedeemResponse {
                    success: true,
                    message: Some(message),
                    transaction_hash: hash,
                    amount_redeemed: None,
                },
            )
        },
        Stand::Failed => {
            let mut text = "Relayer redemption transaction failed (state: ".to_owned();
            text.append(state);
            text.append("). Transaction ID: ");
            text.append(transaction_id);
            RedemptionStep::Failed(text)
        },
        Stand::Underway => RedemptionStep::Rest { milliseconds: CONFIRMATION_MILLISECONDS },
    }
}

impl PolymarketApi {
    /// Whether a request asks, as a builder, for the state of a transaction.
    pub open spec fn asks_state(
        self,
        request: HttpRequest,
        transaction_id: Seq<char>,
        timestamp: nat,
    ) -> bool {
        let url = status_url(transaction_id);
        &&& !request.post
        &&& request.url@ == url
        &&& request.query@.len() == 0
        &&& request.body is None
        &&& pairs(request.headers@) == self.builder_headers(
            signed_message("GET"@, url, ""@, timestamp),
            timestamp,
        )
    }

    /// Whether this is the next step of waiting for a redemption, given what came of the
    /// last request, the seconds since the submission and the time.
    pub open spec fn awaits(
        self,
        transaction_id: Seq<char>,
        reply: RelayerReply,
        elapsed: u64,
        timestamp: nat,
        res: RedemptionStep,
    ) -> bool {
        match reply {
            RelayerReply::Answer(answer) => follows_state(
                res,
                transaction_id,
                known_state(answer),
                told(answer, "/transactionHash"@),
            ),
            _ => if elapsed >= MAX_CONFIRMATION_SECONDS {
                res matches RedemptionStep::Finished(response) && redeemed(
                    response,
                    false,
                    "Relayer transaction submitted (ID: "@ + transaction_id
                        + "), but confirmation timeout. Will retry."@,
                    Some(transaction_id),
                )
            } else {
                res matches RedemptionStep::Ask(request) && self.asks_state(
                    request,
                    transaction_id,
                    timestamp,
                )
            },
        }
    }

    /// One step of waiting for a redemption: takes what came of the last request, the
    /// seconds since the submission and the time, and gives what is done next.
    pub fn await_redemption(
        &self,
        transaction_id: &str,
        reply: RelayerReply,
        elapsed: u64,
        timestamp: u64,
    ) -> (res: RedemptionStep)
        requires
            self.relayer_error() is None,
        ensures
            self.awaits(transaction_id@, reply, elapsed, timestamp as nat, res),
            reply matches RelayerReply::Answer(answer) ==> {
                &&& (res matches RedemptionStep::Finished(response) && response.success)
                    <==> tells_state(answer, "STATE_CONFIRMED"@)
                &&& res is Failed <==> tells_state(answer, "STATE_FAILED"@) || tells_state(
                    answer,
                    "STATE_INVALID"@,
                )
                &&& res matches RedemptionStep::Rest { milliseconds } ==> milliseconds == 2000
                &&& res is Finished || res is Failed || res is Rest
            },
    {
        if let RelayerReply::Answer(answer) = reply {
            proof {
                lemma_states_differ();
            }
            let state = state_text(&answer);
            let hash = told_text(&answer, "/transactionHash");
            return judge_redemption(transaction_id, state.as_str(), hash);
        }
        if elapsed >= MAX_CONFIRMATION_SECONDS {
            let mut message = "Relayer transaction submitted (ID: ".to_owned();
            message.append(transaction_id);
            message.append("), but confirmation timeout. Will retry.");
            return RedemptionStep::Finished(
                RedeemResponse {
                    success: false,
                    message: Some(message),
                    transaction_hash: Some(transaction_id.to_owned()),
                    amount_redeemed: None,
                },
            );
        }
        let url = status_url_text(transaction_id);
        let message = message_to_sign("GET", url.as_str(), "", timestamp);
        let mut headers: Vec<(String, String)> = Vec::new();
        assert(pairs(headers@) =~= Seq::empty());
        self.push_builder_headers(&mut headers, message.as_str(), timestamp);
        assert(pairs(headers@) =~= self.builder_headers(message@, timestamp as nat));
        RedemptionStep::Ask(
            HttpRequest { post: false, url, query: Vec::new(), headers, body: None },
        )
    }
}

/// Whether an answer is a success and tells exactly this state.
pub open spec fn tells_state(answer: Option<HttpResponse>, state: Seq<char>) -> bool {
    answer matches Some(response) && 200 <= response.code <= 299 && json_text_at(
        response.body@,
        "/state"@,
    ) == Some(Some(state))
}

/// No two of the states that matter are one.
pub proof fn lemma_states_differ()
    ensures
        "STATE_CONFIRMED"@ != "STATE_FAILED"@,
        "STATE_CONFIRMED"@ != "STATE_INVALID"@,
        "STATE_FAILED"@ != "STATE_INVALID"@,
        "UNKNOWN"@ != "STATE_CONFIRMED"@,
        "UNKNOWN"@ != "STATE_FAILED"@,
        "UNKNOWN"@ != "STATE_INVALID"@,
{
    reveal_strlit("STATE_CONFIRMED");
    reveal_strlit("STATE_FAILED");
    reveal_strlit("STATE_INVALID");
    reveal_strlit("UNKNOWN");
    assert("STATE_CONFIRMED"@[6] == 'C');
    assert("STATE_FAILED"@[6] == 'F');
    assert("STATE_INVALID"@[6] == 'I');
    assert("UNKNOWN"@[0] == 'U');
    assert("STATE_CONFIRMED"@[0] == 'S');
    assert("STATE_FAILED"@[0] == 'S');
    assert("STATE_INVALID"@[0] == 'S');
}

/// An answer that tells no more than that a transaction is underway, or nothing, leads to a
/// pause of two seconds. A redemption is a success exactly where a successful answer tells
/// that it is confirmed, and then the answer's hash is handed on; it fails exactly where one
/// tells that it failed or is invalid.
pub proof fn law_only_confirmed_redemptions_succeed(
    api: PolymarketApi,
    transaction_id: Seq<char>,
    answer: Option<HttpResponse>,
    elapsed: u64,
    timestamp: nat,
    res: RedemptionStep,
)
    requires
        api.awaits(transaction_id, RelayerReply::Answer(answer), elapsed, timestamp, res),
    ensures
        (res matches RedemptionStep::Finished(response) && response.success) <==> (
        answer matches Some(r) && 200 <= r.code <= 299 && json_text_at(r.body@, "/state"@) == Some(
            Some("STATE_CONFIRMED"@),
        )),
        res is Finished ==> res->Finished_0.success && match (
            json_text_at(answer->0.body@, "/transactionHash"@),
            res->Finished_0.transaction_hash,
        ) {
            (Some(Some(told)), Some(hash)) => hash@ == told,
            (Some(Some(told)), None) => false,
            (_, hash) => hash is None,
        },
        res is Failed <==> (answer matches Some(r) && 200 <= r.code <= 299 && (json_text_at(
            r.body@,
            "/state"@,
        ) == Some(Some("STATE_FAILED"@)) || json_text_at(r.body@, "/state"@) == Some(
            Some("STATE_INVALID"@),
        ))),
        !(res is Finished) && !(res is Failed) ==> res == (RedemptionStep::Rest {
            milliseconds: 2000,
        }),
{
    lemma_states_differ();
}

/// Between two answers the relayer is asked for the transaction by its identifier, until two
/// minutes have passed: then the redemption is over without being a success, and its
/// identifier is handed on.
pub proof fn law_a_redemption_is_asked_about_for_two_minutes(
    api: PolymarketApi,
    transaction_id: Seq<char>,
    reply: RelayerReply,
    elapsed: u64,
    timestamp: nat,
    res: RedemptionStep,
)
    requires
        api.awaits(transaction_id, reply, elapsed, timestamp, res),
        !(reply is Answer),
    ensures
        elapsed < 120 ==> (res matches RedemptionStep::Ask(request) && !request.post
            && request.url@ == "https://relayer-v2.polymarket.com/transaction/"@ + transaction_id
            && request.body is None && request.query@.len() == 0),
        elapsed >= 120 ==> (res matches RedemptionStep::Finished(response) && !response.success && (
        response.transaction_hash matches Some(hash) && hash@ == transaction_id)),
{
}

/// What is submitted to the relayer goes to its one address, by an account with all three
/// credentials, and what is signed is what is sent: its method, its path, its body and the
/// time.
pub proof fn law_what_is_submitted_is_what_is_signed(
    api: PolymarketApi,
    request: HttpRequest,
    body: Seq<char>,
    timestamp: nat,
)
    requires
        api.submits(request, body, timestamp),
    ensures
        api.api_key is Some && api.api_secret is Some && api.api_passphrase is Some,
        request.post,
        request.url@ == "https://relayer-v2.polymarket.com/submit"@,
        request.body matches Some(sent) && sent@ == body,
        request.query@.len() == 0,
        pairs(request.headers@) == seq![
            ("User-Agent"@, "polymarket-trading-bot/1.0"@),
            ("POLY_BUILDER_API_KEY"@, api.api_key->0@),
            ("POLY_BUILDER_TIMESTAMP"@, decimal_text(timestamp)),
            ("POLY_BUILDER_PASSPHRASE"@, api.api_passphrase->0@),
            (
                "POLY_BUILDER_SIGNATURE"@,
                signature(
                    api.api_secret->0@,
                    "POST"@ + "/submit"@ + request.body->0@ + decimal_text(timestamp),
                ),
            ),
            ("Content-Type"@, "application/json"@),
            ("Accept"@, "application/json"@),
        ],
{
}

/// A redemption calls the contract that holds the outcome tokens, with the collateral and the
/// condition that it is about; the sides that are redeemed are told by their index sets.
pub proof fn law_a_redemption_calls_for_its_condition(
    collateral: Seq<u8>,
    condition_id: Seq<char>,
    outcome: Seq<char>,
)
    ensures
        PolymarketApi::redemption_body(collateral, condition_id, outcome, true, true)
            == "{\"description\":"@ + json_quoted(
            "Redeem "@ + outcome + " token for condition "@ + condition_id,
        ) + ",\"transactions\":[{\"data\":"@ + json_quoted(
            prefixed_hex(
                redemption_call(
                    collateral,
                    condition_bytes(condition_id)->0,
                    seq![1u8, 2u8],
                ),
            ),
        ) + ",\"to\":"@ + json_quoted(prefixed_hex(ctf_bytes())) + ",\"value\":\"0\"}]}"@,
{
}

/// A redemption is refused exactly where its condition cannot be read, where it is of no side,
/// or where a credential is missing; and in that order.
pub proof fn law_why_a_redemption_is_refused(
    api: PolymarketApi,
    condition_id: Seq<char>,
    yes: bool,
    no: bool,
)
    ensures
        api.redemption_error(condition_id, yes, no) is None <==> condition_bytes(
            condition_id,
        ) is Some && (yes || no) && api.api_key is Some && api.api_secret is Some
            && api.api_passphrase is Some,
        condition_bytes(condition_id) is None ==> api.redemption_error(condition_id, yes, no)
            == Some("Failed to parse condition_id to B256: "@ + condition_id),
        api.relayer_error() is None <==> api.api_key is Some && api.api_secret is Some
            && api.api_passphrase is Some,
{
}

/// The transaction of a submission is what the answer has under `transactionID`, and nothing
/// else.
pub proof fn law_a_submission_is_known_by_its_transaction(body: Seq<char>)
    ensures
        match submitted(body) {
            Ok(id) => json_text_at(body, "/transactionID"@) == Some(Some(id)),
            Err(_) => !(json_text_at(body, "/transactionID"@) matches Some(Some(_))),
        },
{
}

/// The question for the state of a transaction is signed as it is sent: its method, its address
/// and the time.
pub proof fn law_a_question_for_a_state_is_signed(
    api: PolymarketApi,
    request: HttpRequest,
    transaction_id: Seq<char>,
    timestamp: nat,
)
    requires
        api.asks_state(request, transaction_id, timestamp),
    ensures
        !request.post,
        request.url@ == "https://relayer-v2.polymarket.com/transaction/"@ + transaction_id,
        pairs(request.headers@) == seq![
            ("POLY_BUILDER_API_KEY"@, api.api_key->0@),
            ("POLY_BUILDER_TIMESTAMP"@, decimal_text(timestamp)),
            ("POLY_BUILDER_PASSPHRASE"@, api.api_passphrase->0@),
            (
                "POLY_BUILDER_SIGNATURE"@,
                signature(
                    api.api_secret->0@,
                    "GET"@ + request.url@ + ""@ + decimal_text(timestamp),
                ),
            ),
        ],
{
}

/// A refused redemption tells its status and the beginning of the answer, of which more is shown
/// where the credentials were refused.
pub proof fn law_a_refused_redemption_tells_why(api: PolymarketApi, response: HttpResponse)
    ensures
        response.code != 401 ==> api.redemption_refusal(response)
            == "Relayer redemption failed (status "@ + response.status@ + "): "@ + leading(
            response.body@,
            200,
        ),
        response.code == 401 ==> {
            let whole = api.redemption_refusal(response);
            let end = decimal_text(
                match api.signature_type {
                    Some(n) => n as nat,
                    None => 0,
                },
            ) + ")\n\nResponse: "@ + leading(response.body@, 500);
            whole.len() >= end.len() && whole.skip(whole.len() - end.len()) == end
        },
{
    let whole = api.redemption_refusal(response);
    let end = decimal_text(
        match api.signature_type {
            Some(n) => n as nat,
            None => 0,
        },
    ) + ")\n\nResponse: "@ + leading(response.body@, 500);
    if response.code == 401 {
        assert(whole.skip(whole.len() - end.len()) =~= end);
    }
}

/// What is said of a redemption that is over names its transaction.
pub proof fn law_a_redemption_is_reported_with_its_transaction(
    api: PolymarketApi,
    transaction_id: Seq<char>,
    reply: RelayerReply,
    elapsed: u64,
    timestamp: nat,
    res: RedemptionStep,
)
    requires
        api.awaits(transaction_id, reply, elapsed, timestamp, res),
    ensures
        res matches RedemptionStep::Finished(response) ==> response.amount_redeemed is None && (
        response.message matches Some(message) && message@ == if response.success {
            "Successfully redeemed tokens via relayer. Transaction ID: "@ + transaction_id
        } else {
            "Relayer transaction submitted (ID: "@ + transaction_id
                + "), but confirmation timeout. Will retry."@
        }),
        res matches RedemptionStep::Failed(text) ==> reply matches RelayerReply::Answer(answer) && (
        answer matches Some(response) && (json_text_at(response.body@, "/state"@) matches Some(
            Some(state),
        ) && text@ == "Relayer redemption transaction failed (state: "@ + state
            + "). Transaction ID: "@ + transaction_id)),
{
    lemma_states_differ();
}

} // verus!

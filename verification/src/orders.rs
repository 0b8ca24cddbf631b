//! Market orders, the approval of single tokens, and orders signed with the secret.

use vstd::prelude::*;
use vstd::string::*;

use crate::api::{
    accepted, auth_headers, market_order_taken, not_authenticated, pairs, status_text,
    with_status, HttpRequest, HttpResponse, PolymarketApi,
};
use crate::exchange::{Fill, Reply, Request, Side};
use crate::models::{MarketDetails, OrderResponse, Token};
use crate::money::{
    cents_text, fixed, fixed2, fixed2_text, half_even, half_up, hundredths_text,
    law_rounding_is_to_the_nearest, one_place_text, round_half_even, round_half_up, tenths_text,
};
use crate::signing::signed_message;
use crate::text::{
    contains, decimal_text, lowercase, occurs_in, same_text, texts, to_lowercase, u64_text,
};

verus! {

/// How often a market order to sell is posted at most.
pub const MAX_SELL_POSTS: u32 = 3;

/// How long the exchange is given to look up an allowance.
pub const REFRESH_MILLISECONDS: u64 = 500;

/// Why the exchange did not take a market order.
#[derive(Clone, Copy, Debug, PartialEq, Eq, Structural)]
pub enum Obstacle {
    /// It may not take the tokens.
    Allowance,
    /// There are not enough of them.
    Balance,
    /// Something else.
    Other,
}

/// What an error says, in lower case: it speaks of the allowance, or of the balance.
pub open spec fn obstacle(lowered: Seq<char>) -> Obstacle {
    if occurs_in(lowered, "allowance"@) {
        Obstacle::Allowance
    } else if occurs_in(lowered, "balance"@) {
        Obstacle::Balance
    } else {
        Obstacle::Other
    }
}

/// What an error in lower case says.
pub fn classify(lowered: &str) -> (res: Obstacle)
    ensures
        res == obstacle(lowered@),
{
    if contains(lowered, "allowance") {
        Obstacle::Allowance
    } else if contains(lowered, "balance") {
        Obstacle::Balance
    } else {
        Obstacle::Other
    }
}

/// A market order. The amount is in hundredths: of a dollar to buy, of a share to sell.
/// It is written with so many decimal places, two at most.
pub struct MarketOrder {
    pub token_id: String,
    pub side: Side,
    pub hundredths: u64,
    pub places: u32,
    pub order_type: String,
}

/// A market order as the client posts it.
pub struct MarketPosting {
    pub handle: u64,
    pub token_id: String,
    pub side: String,
    pub amount: String,
    pub amount_is_usdc: bool,
    pub order_type: String,
}

impl MarketOrder {
    /// Whether a posting is of this order by a client.
    pub open spec fn posted(self, handle: u64, posting: MarketPosting) -> bool {
        &&& posting.handle == handle
        &&& posting.token_id == self.token_id
        &&& posting.side@ == self.side.name()
        &&& posting.amount@ == amount_text(self.hundredths as nat, self.places as nat)
        &&& posting.amount_is_usdc == (self.side == Side::Buy)
        &&& posting.order_type == self.order_type
    }

    /// How often the order is posted at most.
    pub open spec fn max_posts(self) -> u32 {
        if self.side == Side::Sell {
            MAX_SELL_POSTS
        } else {
            1
        }
    }

    fn post(&self, handle: u64) -> (res: MarketPosting)
        ensures
            self.posted(handle, res),
    {
        MarketPosting {
            handle,
            token_id: self.token_id.clone(),
            side: self.side.text().to_owned(),
            amount: written_amount(self.hundredths, self.places),
            amount_is_usdc: self.side == Side::Buy,
            order_type: self.order_type.clone(),
        }
    }
}

/// What stands in an amount's hundredths: dollars to the nearest cent, halves upwards;
/// shares to the nearest hundredth, halves to the even one.
pub open spec fn order_hundredths(side: Side, amount: u64) -> nat {
    if side == Side::Buy {
        half_up(amount as nat, 10_000)
    } else {
        half_even(amount as nat, 10_000)
    }
}

/// How many decimal places an amount is written with. Whole and half dollars have no zeros
/// at their end; every other amount of dollars, and every number of shares, has two
/// places.
pub open spec fn order_places(side: Side, amount: u64) -> nat {
    if side == Side::Buy && amount % 1_000_000 == 0 {
        0
    } else if side == Side::Buy && amount % 500_000 == 0 {
        1
    } else {
        2
    }
}

/// A number of hundredths, in decimal with none, one or two places.
pub open spec fn amount_text(hundredths: nat, places: nat) -> Seq<char> {
    if places == 0 {
        decimal_text(hundredths / 100)
    } else if places == 1 {
        tenths_text(hundredths / 10)
    } else {
        cents_text(hundredths)
    }
}

fn written_amount(hundredths: u64, places: u32) -> (res: String)
    ensures
        res@ == amount_text(hundredths as nat, places as nat),
{
    if places == 0 {
        u64_text(hundredths / 100)
    } else if places == 1 {
        one_place_text(hundredths / 10)
    } else {
        hundredths_text(hundredths)
    }
}

/// The side that a text names.
pub open spec fn side_named(text: Seq<char>) -> Option<Side> {
    if text == "BUY"@ {
        Some(Side::Buy)
    } else if text == "SELL"@ {
        Some(Side::Sell)
    } else {
        None
    }
}

/// Where a market order has come to.
pub enum Placing {
    /// It has not been sent.
    Start,
    /// The collateral is asked for.
    Collateral,
    /// It was posted, so many times so far.
    Posted { posts: u32 },
    /// The exchange looks up the allowance again.
    Refresh { posts: u32 },
    /// The pause after that.
    Settle { posts: u32 },
    /// The exchange has taken it, or it is given up.
    Finished,
}

impl Placing {
    /// Whether it can still be posted again where the allowance is being looked up.
    pub open spec fn wf(self, order: MarketOrder) -> bool {
        match self {
            Placing::Posted { posts } => 1 <= posts <= order.max_posts(),
            Placing::Refresh { posts } => 1 <= posts < order.max_posts(),
            Placing::Settle { posts } => 1 <= posts < order.max_posts(),
            _ => true,
        }
    }
}

/// What a step of a market order asks for, or how it ended.
pub enum PlacingRequest {
    /// What is held of the collateral, in millionths of a dollar.
    Collateral,
    /// That the order be posted.
    Post(MarketPosting),
    /// That the exchange look up the allowance again.
    RefreshAllowance { token_id: String },
    /// A pause.
    Wait { milliseconds: u64 },
    /// The exchange has taken the order.
    Taken(OrderResponse),
    /// The order is given up.
    Failed(String),
}

/// What came back.
pub enum PlacingReply {
    Nothing,
    /// The collateral held, where it could be told.
    Collateral(Option<u64>),
    /// The order's identifier, or why it was not taken.
    Posted(Result<String, String>),
}

/// What is said where the collateral does not suffice.
pub open spec fn too_little_collateral(order: MarketOrder, held: u64) -> Seq<char> {
    "Insufficient USDC balance for BUY order. Required: $"@ + cents_text(order.hundredths as nat)
        + ", Available: $"@ + fixed2(held as nat)
}

/// How an order that was not taken is given up.
pub open spec fn given_up(error: Seq<char>, obstacle: Obstacle) -> Seq<char> {
    match obstacle {
        Obstacle::Balance => "Insufficient token balance: "@ + error,
        Obstacle::Allowance => "Allowance error: "@ + error,
        Obstacle::Other => "Failed to post market order: "@ + error,
    }
}

/// Whether an order is posted, for the `posts`th time, if there is a client.
pub open spec fn posts_order(
    api: PolymarketApi,
    order: MarketOrder,
    posts: int,
    res: (Placing, PlacingRequest),
) -> bool {
    match api.client_handle {
        Some(handle) => {
            &&& res.0 matches Placing::Posted { posts: n }
            &&& n == posts
            &&& res.1 matches PlacingRequest::Post(posting)
            &&& order.posted(handle, posting)
        },
        None => gives_up(res, not_authenticated()),
    }
}

/// What follows an order that was not taken: for want of an allowance it may be posted
/// again, after the exchange has looked that up; else it is given up.
pub open spec fn follows_failure(
    order: MarketOrder,
    posts: u32,
    error: Seq<char>,
    obstacle: Obstacle,
    res: (Placing, PlacingRequest),
) -> bool {
    if obstacle == Obstacle::Allowance && posts < order.max_posts() {
        &&& res.0 == (Placing::Refresh { posts })
        &&& res.1 == (PlacingRequest::RefreshAllowance { token_id: order.token_id })
    } else {
        gives_up(res, given_up(error, obstacle))
    }
}

/// What a step of a market order makes of the reply to the last request.
pub open spec fn places(
    api: PolymarketApi,
    order: MarketOrder,
    placing: Placing,
    reply: PlacingReply,
    res: (Placing, PlacingRequest),
) -> bool {
    match placing {
        Placing::Start => if order.side == Side::Buy {
            res.0 is Collateral && res.1 is Collateral
        } else {
            posts_order(api, order, 1, res)
        },
        Placing::Collateral => match reply {
            PlacingReply::Collateral(Some(held)) if held < order.hundredths * 10_000 => gives_up(
                res,
                too_little_collateral(order, held),
            ),
            _ => posts_order(api, order, 1, res),
        },
        Placing::Posted { posts } => match reply {
            PlacingReply::Posted(Ok(order_id)) => {
                &&& res.0 is Finished
                &&& res.1 matches PlacingRequest::Taken(response)
                &&& accepted(response, order_id@, "Market order executed. Order ID: "@)
            },
            PlacingReply::Posted(Err(error)) => follows_failure(
                order,
                posts,
                error@,
                obstacle(lowercase(error@)),
                res,
            ),
            _ => gives_up(res, "No answer to the order"@),
        },
        Placing::Refresh { posts } => {
            &&& res.0 == (Placing::Settle { posts })
            &&& res.1 == (PlacingRequest::Wait { milliseconds: REFRESH_MILLISECONDS })
        },
        Placing::Settle { posts } => posts_order(api, order, posts + 1, res),
        Placing::Finished => gives_up(res, "The order is over"@),
    }
}

/// What follows an order that was not taken.
pub fn after_failure(order: &MarketOrder, posts: u32, error: &str, obstacle: Obstacle) -> (res: (
    Placing,
    PlacingRequest,
))
    requires
        1 <= posts <= order.max_posts(),
    ensures
        res.0.wf(*order),
        follows_failure(*order, posts, error@, obstacle, res),
{
    match obstacle {
        Obstacle::Balance => give_up(prefixed("Insufficient token balance: ", error)),
        Obstacle::Allowance => if order.side == Side::Sell && posts < MAX_SELL_POSTS {
            (
                Placing::Refresh { posts },
                PlacingRequest::RefreshAllowance { token_id: order.token_id.clone() },
            )
        } else {
            give_up(prefixed("Allowance error: ", error))
        },
        Obstacle::Other => give_up(prefixed("Failed to post market order: ", error)),
    }
}

/// Whether an order is given up for a reason.
pub open spec fn gives_up(res: (Placing, PlacingRequest), reason: Seq<char>) -> bool {
    &&& res.0 is Finished
    &&& res.1 matches PlacingRequest::Failed(text)
    &&& text@ == reason
}

fn give_up(text: String) -> (res: (Placing, PlacingRequest))
    ensures
        gives_up(res, text@),
{
    (Placing::Finished, PlacingRequest::Failed(text))
}

fn prefixed(prefix: &str, text: &str) -> (res: String)
    ensures
        res@ == prefix@ + text@,
{
    let mut res = prefix.to_owned();
    res.append(text);
    res
}

impl PolymarketApi {
    /// A market order, for an amount in millionths of a dollar to buy or of a share to
    /// sell. It is to be filled or killed, unless told otherwise.
    pub fn place_market_order(
        &self,
        token_id: &str,
        amount: u64,
        side: &str,
        order_type: Option<&str>,
    ) -> (res: Result<MarketOrder, String>)
        ensures
            match res {
                Ok(order) => {
                    &&& order.token_id@ == token_id@
                    &&& side_named(side@) == Some(order.side)
                    &&& order.hundredths == order_hundredths(order.side, amount)
                    &&& order.places == order_places(order.side, amount)
                    &&& order.side == Side::Sell ==> order.hundredths > 0
                    &&& order.order_type@ == match order_type {
                        Some(t) => t@,
                        None => "FOK"@,
                    }
                },
                Err(e) => match side_named(side@) {
                    None => e@ == "Invalid order side: "@ + side@ + ". Must be 'BUY' or 'SELL'"@,
                    Some(s) => {
                        &&& s == Side::Sell
                        &&& order_hundredths(s, amount) == 0
                        &&& e@ == "Invalid shares amount: "@ + cents_text(0)
                            + ". Must be greater than 0."@
                    },
                },
            },
    {
        let (named, hundredths): (Side, u64) = if same_text(side, "BUY") {
            (Side::Buy, round_half_up(amount, 10_000))
        } else if same_text(side, "SELL") {
            let n: u64 = half_even_hundredths(amount);
            if n == 0 {
                let mut text = prefixed("Invalid shares amount: ", hundredths_text(0).as_str());
                text.append(". Must be greater than 0.");
                proof {
                    lemma_sides_differ();
                }
                return Err(text);
            }
            proof {
                lemma_sides_differ();
            }
            (Side::Sell, n)
        } else {
            let mut text = prefixed("Invalid order side: ", side);
            text.append(". Must be 'BUY' or 'SELL'");
            return Err(text);
        };
        let order_type = match order_type {
            Some(t) => t.to_owned(),
            None => "FOK".to_owned(),
        };
        let places: u32 = if named == Side::Buy && amount % 1_000_000 == 0 {
            0
        } else if named == Side::Buy && amount % 500_000 == 0 {
            1
        } else {
            2
        };
        Ok(MarketOrder { token_id: token_id.to_owned(), side: named, hundredths, places, order_type })
    }

    fn post_order(&self, order: &MarketOrder, posts: u32) -> (res: (Placing, PlacingRequest))
        requires
            1 <= posts <= order.max_posts(),
        ensures
            posts_order(*self, *order, posts as int, res),
            res.0.wf(*order),
    {
        match self.get_client_handle() {
            Ok(handle) => (Placing::Posted { posts }, PlacingRequest::Post(order.post(handle))),
            Err(e) => give_up(e),
        }
    }

    /// One step of a market order: takes the reply to the last request, and gives the
    /// next one.
    ///
    /// To buy, the collateral must suffice, where it can be told. An order to sell that
    /// fails for want of an allowance is posted again, three times in all, after the
    /// exchange has looked up the allowance.
    pub fn advance_market_order(&self, order: &MarketOrder, placing: Placing, reply: PlacingReply) -> (res: (
        Placing,
        PlacingRequest,
    ))
        requires
            placing.wf(*order),
        ensures
            res.0.wf(*order),
            placing is Finished || placing_left(*order, res.0) < placing_left(*order, placing),
            places(*self, *order, placing, reply, res),
    {
        match placing {
            Placing::Start => if order.side == Side::Buy {
                (Placing::Collateral, PlacingRequest::Collateral)
            } else {
                self.post_order(order, 1)
            },
            Placing::Collateral => {
                if let PlacingReply::Collateral(Some(held)) = reply {
                    if (held as u128) < order.hundredths as u128 * 10_000 {
                        let mut text = prefixed(
                            "Insufficient USDC balance for BUY order. Required: $",
                            hundredths_text(order.hundredths).as_str(),
                        );
                        text.append(", Available: $");
                        text.append(fixed2_text(held).as_str());
                        return give_up(text);
                    }
                }
                self.post_order(order, 1)
            },
            Placing::Posted { posts } => match reply {
                PlacingReply::Posted(Ok(order_id)) => (
                    Placing::Finished,
                    PlacingRequest::Taken(market_order_taken(order_id)),
                ),
                PlacingReply::Posted(Err(error)) => {
                    let lowered = to_lowercase(error.as_str());
                    after_failure(order, posts, error.as_str(), classify(lowered.as_str()))
                },
                _ => give_up("No answer to the order".to_owned()),
            },
            Placing::Refresh { posts } => (
                Placing::Settle { posts },
                PlacingRequest::Wait { milliseconds: REFRESH_MILLISECONDS },
            ),
            Placing::Settle { posts } => self.post_order(order, posts + 1),
            Placing::Finished => give_up("The order is over".to_owned()),
        }
    }
}

fn half_even_hundredths(amount: u64) -> (res: u64)
    ensures
        res == half_even(amount as nat, 10_000),
{
    round_half_even(amount as u128, 10_000) as u64
}

proof fn lemma_sides_differ()
    ensures
        "BUY"@ != "SELL"@,
{
    reveal_strlit("BUY");
    reveal_strlit("SELL");
    assert("BUY"@.len() != "SELL"@.len());
}

/// The number of times an order can still be posted, and of questions that can still
/// follow.
pub open spec fn placing_left(order: MarketOrder, placing: Placing) -> int {
    match placing {
        Placing::Start => 3 * order.max_posts() + 2,
        Placing::Collateral => 3 * order.max_posts() + 1,
        Placing::Posted { posts } => 3 * (order.max_posts() - posts) + 3,
        Placing::Refresh { posts } => 3 * (order.max_posts() - posts) + 2,
        Placing::Settle { posts } => 3 * (order.max_posts() - posts) + 1,
        Placing::Finished => 0,
    }
}

/// The tokens of two markets whose approval is to be brought about: those of the first,
/// then those of the second, as far as the markets are known.
pub open spec fn tokens_of(eth: Option<MarketDetails>, btc: Option<MarketDetails>) -> Seq<
    Seq<char>,
> {
    token_ids(eth) + token_ids(btc)
}

/// The identifiers of a market's tokens.
pub open spec fn token_ids(market: Option<MarketDetails>) -> Seq<Seq<char>> {
    match market {
        Some(m) => Seq::new(m.tokens@.len(), |i: int| m.tokens@[i].token_id@),
        None => Seq::empty(),
    }
}

/// Where the approval of single tokens has come to.
pub enum Approving {
    /// The shares held of a token are asked for.
    Holding,
    /// A small order to sell was placed.
    Sent,
    /// The pause after it.
    Pause,
    /// It is over: tokens were approved.
    Finished,
    /// It is over: none was.
    Failed { reason: String },
}

/// The approval of single tokens, brought about by small orders to sell them.
pub struct Approval {
    pub tokens: Vec<String>,
    pub at: usize,
    pub approved: u64,
    pub state: Approving,
}

/// A hundredth of a share: what an order sells to bring an approval about.
pub const APPROVAL_AMOUNT: u64 = 10_000;

impl Approval {
    /// Whether the place is within the list.
    pub open spec fn wf(self) -> bool {
        &&& self.approved <= self.tokens@.len()
        &&& self.state is Holding || self.state is Sent || self.state is Pause ==> self.at
            < self.tokens@.len() && self.approved <= self.at + 1
        &&& self.state is Holding || self.state is Sent ==> self.approved <= self.at
    }

    /// Whether this goes on with the token at `at`, `approved` of them approved so far.
    pub open spec fn goes_on(self, request: Request, tokens: Seq<String>, at: int, approved: int) -> bool {
        &&& self.tokens@ == tokens
        &&& self.approved == approved
        &&& if at < tokens.len() {
            &&& self.state is Holding
            &&& self.at == at
            &&& request == (Request::Holding { token_id: tokens[at] })
        } else {
            &&& request is Finished
            &&& if approved > 0 {
                self.state is Finished
            } else {
                &&& self.state matches Approving::Failed { reason }
                &&& reason@ == "Failed to approve any tokens. All "@ + decimal_text(tokens.len())
                    + " attempts failed."@
            }
        }
    }

    fn next(tokens: Vec<String>, at: usize, approved: u64) -> (res: (Approval, Request))
        requires
            at <= tokens@.len(),
            approved <= at,
        ensures
            res.0.wf(),
            res.0.goes_on(res.1, tokens@, at as int, approved as int),
    {
        if at < tokens.len() {
            let token_id = tokens[at].clone();
            (
                Approval { tokens, at, approved, state: Approving::Holding },
                Request::Holding { token_id },
            )
        } else if approved > 0 {
            (Approval { tokens, at, approved, state: Approving::Finished }, Request::Finished)
        } else {
            let mut reason = prefixed(
                "Failed to approve any tokens. All ",
                u64_text(tokens.len() as u64).as_str(),
            );
            reason.append(" attempts failed.");
            (
                Approval { tokens, at, approved, state: Approving::Failed { reason } },
                Request::Finished,
            )
        }
    }
}

/// Whether an answer to a small order to sell means that the token is approved: it was
/// taken, or it failed for want of a balance or of an allowance.
pub open spec fn means_approved(reply: Reply) -> bool {
    match reply {
        Reply::Order(Ok(_)) => true,
        Reply::Order(Err(failure)) => occurs_in(failure.message@, "balance"@) || occurs_in(
            failure.message@,
            "allowance"@,
        ),
        _ => false,
    }
}

fn push_token_ids(list: &mut Vec<String>, tokens: &Vec<Token>)
    ensures
        texts(final(list)@) == texts(old(list)@) + Seq::new(
            tokens@.len(),
            |i: int| tokens@[i].token_id@,
        ),
{
    let ghost before = texts(list@);
    let ghost ids = Seq::new(tokens@.len(), |i: int| tokens@[i].token_id@);
    let mut i: usize = 0;
    assert(before =~= before + ids.take(0));
    while i < tokens.len()
        invariant
            i <= tokens@.len(),
            ids == Seq::new(tokens@.len(), |i: int| tokens@[i].token_id@),
            texts(list@) == before + ids.take(i as int),
        decreases tokens@.len() - i,
    {
        let ghost was = texts(list@);
        list.push(tokens[i].token_id.clone());
        assert(texts(list@) =~= was.push(ids[i as int]));
        i = i + 1;
        assert(texts(list@) =~= before + ids.take(i as int));
    }
    assert(ids.take(i as int) =~= ids);
}

impl PolymarketApi {
    /// Begins to bring about the approval of the tokens of two markets, as far as they are
    /// known.
    pub fn approve_individual_tokens(&self, eth: &Option<MarketDetails>, btc: &Option<MarketDetails>) -> (res: Result<
        (Approval, Request),
        String,
    >)
        ensures
            match res {
                Ok((approval, request)) => {
                    &&& approval.wf()
                    &&& tokens_of(*eth, *btc).len() > 0
                    &&& texts(approval.tokens@) == tokens_of(*eth, *btc)
                    &&& approval.goes_on(request, approval.tokens@, 0, 0)
                },
                Err(e) => tokens_of(*eth, *btc).len() == 0 && e@
                    == "Could not find any token IDs from current markets"@,
            },
    {
        let mut tokens: Vec<String> = Vec::new();
        assert(texts(tokens@) =~= Seq::empty());
        if let Some(market) = eth {
            push_token_ids(&mut tokens, &market.tokens);
        }
        assert(texts(tokens@) =~= token_ids(*eth));
        if let Some(market) = btc {
            push_token_ids(&mut tokens, &market.tokens);
        }
        assert(texts(tokens@) =~= tokens_of(*eth, *btc));
        assert(texts(tokens@).len() == tokens@.len());
        if tokens.len() == 0 {
            return Err("Could not find any token IDs from current markets".to_owned());
        }
        Ok(Approval::next(tokens, 0, 0))
    }
}

/// What a step of the approval of single tokens makes of the reply to the last request.
pub open spec fn approves(approval: Approval, reply: Reply, res: (Approval, Request)) -> bool {
    match approval.state {
        Approving::Holding => if reply.shares() is Some && reply.shares()->0 > 0 {
            &&& res.0 == (Approval { state: Approving::Sent, ..approval })
            &&& res.1 == (Request::AtMarket {
                token_id: approval.tokens@[approval.at as int],
                amount: APPROVAL_AMOUNT,
                side: Side::Sell,
                fill: Fill::FillAndKill,
            })
        } else {
            res.0.goes_on(
                res.1,
                approval.tokens@,
                approval.at + 1,
                approval.approved as int,
            )
        },
        Approving::Sent => {
            &&& res.0 == (Approval {
                state: Approving::Pause,
                approved: if means_approved(reply) {
                    (approval.approved + 1) as u64
                } else {
                    approval.approved
                },
                ..approval
            })
            &&& res.1 == (Request::Wait { milliseconds: REFRESH_MILLISECONDS })
        },
        Approving::Pause => res.0.goes_on(
            res.1,
            approval.tokens@,
            approval.at + 1,
            approval.approved as int,
        ),
        _ => res.0 == approval && res.1 is Finished,
    }
}

/// One step of the approval of single tokens: takes the reply to the last request, and
/// gives the next one. Tokens that are not held, or of which that cannot be told, are
/// passed over.
pub fn advance_approval(approval: Approval, reply: Reply) -> (res: (Approval, Request))
    requires
        approval.wf(),
    ensures
        res.0.wf(),
        approves(approval, reply, res),
{
    let Approval { tokens, at, approved, state } = approval;
    let count: usize = tokens.len();
    match state {
        Approving::Holding => {
            let held = match reply.balance() {
                Some(shares) => shares > 0,
                None => false,
            };
            if held {
                let token_id = tokens[at].clone();
                (
                    Approval { tokens, at, approved, state: Approving::Sent },
                    Request::AtMarket {
                        token_id,
                        amount: APPROVAL_AMOUNT,
                        side: Side::Sell,
                        fill: Fill::FillAndKill,
                    },
                )
            } else {
                assert(at + 1 <= count);
                Approval::next(tokens, at + 1, approved)
            }
        },
        Approving::Sent => {
            let counts = match reply {
                Reply::Order(Ok(_)) => true,
                Reply::Order(Err(failure)) => contains(failure.message.as_str(), "balance")
                    || contains(failure.message.as_str(), "allowance"),
                _ => false,
            };
            assert(at + 1 <= count);
            let approved: u64 = if counts {
                approved + 1
            } else {
                approved
            };
            (
                Approval { tokens, at, approved, state: Approving::Pause },
                Request::Wait { milliseconds: REFRESH_MILLISECONDS },
            )
        },
        Approving::Pause => {
            assert(at + 1 <= count);
            Approval::next(tokens, at + 1, approved)
        },
        _ => (Approval { tokens, at, approved, state }, Request::Finished),
    }
}

impl PolymarketApi {
    /// The request that posts an order, given as JSON, and authenticates it with the
    /// account's secret: what is signed is what is sent.
    pub fn place_order_hmac(&self, order: &str, timestamp: u64) -> (res: HttpRequest)
        ensures
            res.post,
            res.url@ == self.clob_url@ + "/orders"@,
            res.query@.len() == 0,
            res.body matches Some(body) && body@ == order@,
            pairs(res.headers@) == auth_headers(
                *self,
                signed_message("POST"@, "/orders"@, order@, timestamp as nat),
                timestamp as nat,
            ),
    {
        let headers = self.add_auth_headers("POST", "/orders", order, timestamp);
        HttpRequest {
            post: true,
            url: prefixed(self.clob_url.as_str(), "/orders"),
            query: Vec::new(),
            headers,
            body: Some(order.to_owned()),
        }
    }
}

/// Whether an order that was posted so was taken.
pub fn check_order_status(response: &HttpResponse) -> (res: Result<(), String>)
    ensures
        match res {
            Ok(_) => response.ok(),
            Err(e) => {
                &&& !response.ok()
                &&& e@ == with_status(
                    if response.code == 401 || response.code == 403 {
                        "Authentication failed"@
                    } else {
                        "Failed to place order"@
                    },
                    response.status@,
                ) + ": "@ + response.body@
            },
        },
{
    if response.is_success() {
        return Ok(());
    }
    let what = if response.code == 401 || response.code == 403 {
        "Authentication failed"
    } else {
        "Failed to place order"
    };
    let mut text = status_text(what, response.status.as_str());
    text.append(": ");
    text.append(response.body.as_str());
    Err(text)
}

/// A buy is posted only where the collateral that was told suffices, or where none could be
/// told; else it is given up unposted.
pub proof fn law_a_buy_needs_its_collateral(
    api: PolymarketApi,
    order: MarketOrder,
    placing: Placing,
    reply: PlacingReply,
    res: (Placing, PlacingRequest),
)
    requires
        places(api, order, placing, reply, res),
        placing is Start || placing is Collateral,
        api.client_handle is Some,
    ensures
        placing is Start && order.side is Buy ==> res.1 is Collateral && res.0 is Collateral,
        placing is Start && order.side is Sell ==> res.1 is Post && res.0 == (Placing::Posted {
            posts: 1,
        }),
        placing is Collateral && (reply matches PlacingReply::Collateral(Some(held)) && held
            < order.hundredths * 10_000) ==> res.1 is Failed && res.0 is Finished,
        placing is Collateral && !(reply matches PlacingReply::Collateral(Some(held)) && held
            < order.hundredths * 10_000) ==> res.1 is Post && res.0 == (Placing::Posted {
            posts: 1,
        }),
{
}

/// What is posted is the order itself, by the client that is logged in: its token, its side by
/// name, its amount in dollars to buy and in shares to sell.
pub proof fn law_an_order_is_posted_as_it_is(
    api: PolymarketApi,
    order: MarketOrder,
    placing: Placing,
    reply: PlacingReply,
    res: (Placing, PlacingRequest),
)
    requires
        places(api, order, placing, reply, res),
        res.1 is Post,
    ensures
        ({
            let posting = res.1->Post_0;
            &&& api.client_handle == Some(posting.handle)
            &&& posting.token_id == order.token_id
            &&& order.side is Buy ==> posting.side@ == "BUY"@ && posting.amount_is_usdc
            &&& order.side is Sell ==> posting.side@ == "SELL"@ && !posting.amount_is_usdc
            &&& posting.order_type == order.order_type
            &&& order.places >= 2 ==> posting.amount@ == fixed(order.hundredths as nat, 2)
            &&& order.places == 1 ==> posting.amount@ == fixed((order.hundredths / 10) as nat, 1)
            &&& order.places == 0 ==> posting.amount@ == decimal_text(
                (order.hundredths / 100) as nat,
            )
        }),
{
}

/// Of the orders that the exchange did not take, only sales are posted again, only for want of
/// an allowance, and three times in all: half a second after the exchange was asked to look
/// the allowance up. Every other one is given up, and says why.
pub proof fn law_only_sales_are_posted_again(
    api: PolymarketApi,
    order: MarketOrder,
    placing: Placing,
    reply: PlacingReply,
    res: (Placing, PlacingRequest),
    posts: u32,
)
    requires
        placing.wf(order),
        places(api, order, placing, reply, res),
        placing == (Placing::Posted { posts }) || placing == (Placing::Refresh { posts })
            || placing == (Placing::Settle { posts }),
    ensures
        placing is Posted && (reply matches PlacingReply::Posted(Err(_))) ==> {
            let error = reply->Posted_0->Err_0@;
            let again = order.side is Sell && posts < 3 && occurs_in(
                lowercase(error),
                "allowance"@,
            );
            &&& again ==> res.0 == (Placing::Refresh { posts }) && res.1 == (
            PlacingRequest::RefreshAllowance { token_id: order.token_id })
            &&& !again ==> res.0 is Finished && (res.1 matches PlacingRequest::Failed(text)
                && text@ == (if occurs_in(lowercase(error), "allowance"@) {
                "Allowance error: "@
            } else if occurs_in(lowercase(error), "balance"@) {
                "Insufficient token balance: "@
            } else {
                "Failed to post market order: "@
            }) + error)
        },
        placing is Posted && (reply matches PlacingReply::Posted(Ok(_))) ==> {
            let order_id = reply->Posted_0->Ok_0@;
            &&& res.0 is Finished
            &&& res.1 matches PlacingRequest::Taken(response)
            &&& response.order_id matches Some(id)
            &&& id@ == order_id
            &&& response.status@ == "LIVE"@
        },
        placing is Posted && !(reply is Posted) ==> res.1 is Failed && res.0 is Finished,
        placing is Refresh ==> res.0 == (Placing::Settle { posts }) && res.1 == (
        PlacingRequest::Wait { milliseconds: 500 }),
        placing is Settle && api.client_handle is Some ==> res.1 is Post && (
        res.0 matches Placing::Posted { posts: n } && n == posts + 1),
        !(placing is Settle) ==> !(res.1 is Post),
{
}

/// An amount is ordered to the nearest hundredth: dollars that lie half way between two go
/// upwards, shares to the even one. Whole dollars are written without decimal places, half
/// dollars with one, all else with two.
pub proof fn law_amounts_are_ordered_to_the_hundredth(side: Side, amount: u64)
    ensures
        ({
            let h = order_hundredths(side, amount);
            &&& -10_000 <= 2 * (h * 10_000 - amount) <= 10_000
            &&& side is Buy ==> -10_000 < 2 * (h * 10_000 - amount)
            &&& side is Sell && (2 * (h * 10_000 - amount) == 10_000 || 2 * (h * 10_000 - amount)
                == -10_000) ==> h % 2 == 0
            &&& side is Buy && amount % 1_000_000 == 0 ==> order_places(side, amount) == 0
                && amount_text(h, 0) == decimal_text((amount / 1_000_000) as nat)
            &&& side is Buy && amount % 1_000_000 == 500_000 ==> order_places(side, amount) == 1
                && amount_text(h, 1) == fixed((amount / 100_000) as nat, 1)
            &&& side is Sell || (amount % 1_000_000 != 0 && amount % 1_000_000 != 500_000)
                ==> order_places(side, amount) == 2
        }),
        side_named("BUY"@) == Some(Side::Buy),
        side_named("SELL"@) == Some(Side::Sell),
{
    lemma_sides_differ();
    law_rounding_is_to_the_nearest(amount as nat, 10_000);
}

/// A text that names no side is none.
pub proof fn law_only_two_sides_are_named(text: Seq<char>)
    ensures
        side_named(text) is None <==> text != "BUY"@ && text != "SELL"@,
{
}

/// A token of which some shares are held is sold by a hundredth of a share, as much as there
/// are buyers for; any other is passed over. The token counts as approved where the sale was
/// taken or failed for want of a balance or of an allowance; after each sale the bot rests for
/// half a second. Once the list is through, the approval fails exactly where no token counts.
pub proof fn law_held_tokens_are_approved(
    approval: Approval,
    reply: Reply,
    res: (Approval, Request),
)
    requires
        approval.wf(),
        approves(approval, reply, res),
    ensures
        res.0.tokens@ == approval.tokens@,
        approval.state is Holding && (reply matches Reply::Balance(Some(shares)) && shares > 0)
            ==> res.0.state is Sent && res.0.at == approval.at && res.0.approved
            == approval.approved && res.1 == (Request::AtMarket {
            token_id: approval.tokens@[approval.at as int],
            amount: 10_000,
            side: Side::Sell,
            fill: Fill::FillAndKill,
        }),
        approval.state is Sent ==> res.0.state is Pause && res.0.at == approval.at && res.1 == (
        Request::Wait { milliseconds: 500 }) && res.0.approved == approval.approved + if (
        reply matches Reply::Order(Ok(_))) || (reply matches Reply::Order(Err(failure)) && (
        occurs_in(failure.message@, "balance"@) || occurs_in(failure.message@, "allowance"@))) {
            1int
        } else {
            0
        },
        approval.state is Pause || (approval.state is Holding && !(reply matches Reply::Balance(
            Some(shares),
        ) && shares > 0)) ==> {
            &&& res.0.approved == approval.approved
            &&& approval.at + 1 < approval.tokens@.len() ==> res.0.state is Holding && res.0.at
                == approval.at + 1 && res.1 == (Request::Holding {
                token_id: approval.tokens@[approval.at + 1],
            })
            &&& approval.at + 1 >= approval.tokens@.len() ==> res.1 is Finished && (if approval.approved
                > 0 {
                res.0.state is Finished
            } else {
                res.0.state is Failed
            })
        },
{
    assert(approval.tokens.len() == approval.tokens@.len());
}

/// The tokens whose approval is brought about are those of both markets, as far as these are
/// known: every one of them, and no other.
pub proof fn law_the_tokens_of_both_markets_are_approved(
    eth: Option<MarketDetails>,
    btc: Option<MarketDetails>,
    i: int,
)
    ensures
        tokens_of(eth, btc).len() == (match eth {
            Some(market) => market.tokens@.len(),
            None => 0,
        }) + (match btc {
            Some(market) => market.tokens@.len(),
            None => 0,
        }),
        eth matches Some(market) ==> 0 <= i < market.tokens@.len() ==> tokens_of(eth, btc)[i]
            == market.tokens@[i].token_id@,
        btc matches Some(market) ==> 0 <= i < market.tokens@.len() ==> tokens_of(
            eth,
            btc,
        )[tokens_of(eth, btc).len() - market.tokens@.len() + i] == market.tokens@[i].token_id@,
{
}

} // verus!

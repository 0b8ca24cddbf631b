//! Looking for outcome tokens in the portfolio.

use vstd::prelude::*;
use vstd::string::*;

use crate::api::PolymarketApi;
use crate::closing::PERIOD_SECONDS;
use crate::discovery::{
    current_step, period_at, period_of, slug, slug_text, CurrentReply, CurrentRequest,
    CurrentSearch,
};
use crate::models::{Asset, Market, MarketDetails, Token};
use crate::text::{decimal_text, lowercase, u64_text};

verus! {

/// How many periods back the portfolio is searched.
pub const PERIODS_BACK: u64 = 10;

/// How a market is found.
pub enum Lookup {
    /// By its slug.
    Slug(String),
    /// By its condition.
    Condition(String),
}

/// A market whose tokens are looked for.
pub struct Target {
    pub asset: Asset,
    pub lookup: Lookup,
    /// The market's period, where it is told with its tokens.
    pub period: Option<u64>,
    /// Whether this is another slug of the market before it, to be passed over where
    /// that one was found.
    pub alternative: bool,
}

/// Outcome tokens that are held.
pub struct Holding {
    pub token_id: String,
    pub shares: u64,
    pub description: String,
    pub condition_id: String,
}

/// The description of a token: its asset and outcome and, where it is told, its period.
pub open spec fn description(asset: Asset, outcome: Seq<char>, period: Option<u64>) -> Seq<char> {
    let text = asset.name() + " "@ + outcome;
    match period {
        Some(p) => text + " (period: "@ + decimal_text(p as nat) + ")"@,
        None => text,
    }
}

impl Holding {
    /// Whether this is so many shares of a market's token.
    pub open spec fn holds(
        self,
        token: Token,
        shares: u64,
        asset: Asset,
        period: Option<u64>,
        condition_id: String,
    ) -> bool {
        &&& self.token_id == token.token_id
        &&& self.shares == shares
        &&& self.description@ == description(asset, token.outcome@, period)
        &&& self.condition_id == condition_id
    }
}

fn describe(asset: Asset, outcome: &str, period: Option<u64>) -> (res: String)
    ensures
        res@ == description(asset, outcome@, period),
{
    let mut res = asset.display_name().to_owned();
    res.append(" ");
    res.append(outcome);
    if let Some(p) = period {
        res.append(" (period: ");
        res.append(u64_text(p).as_str());
        res.append(")");
    }
    res
}

/// What is waited for, of the market that has been come to.
pub enum Scanning {
    /// The market itself.
    Market,
    /// What the exchange says of it.
    Details { condition_id: String },
    /// The shares held of one of its tokens.
    Token { condition_id: String, tokens: Vec<Token>, token: usize },
    /// Nothing more.
    Finished,
}

/// A search of the portfolio.
pub struct Scan {
    pub targets: Vec<Target>,
    pub at: usize,
    pub state: Scanning,
    pub found: Vec<Holding>,
}

/// What a search of the portfolio asks for.
pub enum ScanRequest {
    Market { slug: String },
    Details { condition_id: String },
    Shares { token_id: String },
    Finished,
}

/// What came back.
pub enum ScanReply {
    Nothing,
    Market(Option<Market>),
    Details(Option<MarketDetails>),
    Shares(Option<u64>),
}

/// The next market that is looked for: alternatives are passed over where the market
/// has been found.
pub open spec fn next_target(targets: Seq<Target>, at: int, known: bool) -> int
    decreases targets.len() - at,
{
    if at < targets.len() && known && targets[at].alternative {
        next_target(targets, at + 1, known)
    } else {
        at
    }
}

impl Scan {
    /// Whether the place is within its lists.
    pub open spec fn wf(self) -> bool {
        &&& !(self.state is Finished) ==> self.at < self.targets@.len()
        &&& self.state matches Scanning::Token { tokens, token, .. } ==> token < tokens@.len()
    }

    /// How many questions about the market that has been come to were asked before.
    pub open spec fn questions(self) -> int {
        match self.state {
            Scanning::Market => 0,
            Scanning::Details { .. } => 1,
            Scanning::Token { token, .. } => 2 + token,
            Scanning::Finished => 0,
        }
    }

    /// Whether the search comes to a market of its list, or to its end.
    pub open spec fn comes_to(
        self,
        request: ScanRequest,
        targets: Vec<Target>,
        at: int,
        found: Seq<Holding>,
    ) -> bool {
        &&& self.targets == targets
        &&& self.found@ == found
        &&& if at < targets@.len() {
            &&& self.at == at
            &&& match targets@[at].lookup {
                Lookup::Slug(slug) => self.state is Market && request == (ScanRequest::Market {
                    slug,
                }),
                Lookup::Condition(id) => self.state == (Scanning::Details { condition_id: id })
                    && request == (ScanRequest::Details { condition_id: id }),
            }
        } else {
            self.state is Finished && request is Finished
        }
    }

    /// Whether the search comes to a token of a market, or past its last one.
    pub open spec fn comes_to_token(
        self,
        request: ScanRequest,
        before: Scan,
        found: Seq<Holding>,
        condition_id: String,
        tokens: Vec<Token>,
        token: int,
    ) -> bool {
        if token < tokens@.len() {
            &&& self.targets == before.targets
            &&& self.at == before.at
            &&& self.found@ == found
            &&& self.state matches Scanning::Token { condition_id: id, tokens: list, token: at }
            &&& id == condition_id && list == tokens && at == token
            &&& request == (ScanRequest::Shares { token_id: tokens@[token].token_id })
        } else {
            self.comes_to(
                request,
                before.targets,
                next_target(before.targets@, before.at + 1, true),
                found,
            )
        }
    }

    /// Whether a step of the search leads here: tokens of which some are held are kept,
    /// and what cannot be told is passed over.
    pub open spec fn steps_to(self, reply: ScanReply, res: (Scan, ScanRequest)) -> bool {
        match self.state {
            Scanning::Market => match reply {
                ScanReply::Market(Some(market)) => {
                    &&& res.0.targets == self.targets && res.0.at == self.at && res.0.found
                        == self.found
                    &&& res.0.state == (Scanning::Details {
                        condition_id: market.condition_id,
                    })
                    &&& res.1 == (ScanRequest::Details { condition_id: market.condition_id })
                },
                _ => res.0.comes_to(res.1, self.targets, self.at + 1, self.found@),
            },
            Scanning::Details { condition_id } => match reply {
                ScanReply::Details(Some(market)) => res.0.comes_to_token(
                    res.1,
                    self,
                    self.found@,
                    condition_id,
                    market.tokens,
                    0,
                ),
                _ => res.0.comes_to(
                    res.1,
                    self.targets,
                    next_target(self.targets@, self.at + 1, true),
                    self.found@,
                ),
            },
            Scanning::Token { condition_id, tokens, token } => {
                let target = self.targets@[self.at as int];
                match reply {
                    ScanReply::Shares(Some(shares)) if shares > 0 => exists|h: Holding|
                        {
                            &&& #[trigger] h.holds(
                                tokens@[token as int],
                                shares,
                                target.asset,
                                target.period,
                                condition_id,
                            )
                            &&& res.0.comes_to_token(
                                res.1,
                                self,
                                self.found@.push(h),
                                condition_id,
                                tokens,
                                token + 1,
                            )
                        },
                    _ => res.0.comes_to_token(
                        res.1,
                        self,
                        self.found@,
                        condition_id,
                        tokens,
                        token + 1,
                    ),
                }
            },
            Scanning::Finished => res.0 == self && res.1 is Finished,
        }
    }

    /// Begins a search.
    pub fn new(targets: Vec<Target>) -> (res: (Scan, ScanRequest))
        ensures
            res.0.wf(),
            res.0.comes_to(res.1, targets, 0, Seq::empty()),
    {
        Scan::visit(targets, 0, Vec::new())
    }

    fn visit(targets: Vec<Target>, at: usize, found: Vec<Holding>) -> (res: (Scan, ScanRequest))
        ensures
            res.0.wf(),
            res.0.comes_to(res.1, targets, at as int, found@),
    {
        if at >= targets.len() {
            return (
                Scan { targets, at, state: Scanning::Finished, found },
                ScanRequest::Finished,
            );
        }
        let (state, request): (Scanning, ScanRequest) = match &targets[at].lookup {
            Lookup::Slug(slug) => (Scanning::Market, ScanRequest::Market { slug: slug.clone() }),
            Lookup::Condition(id) => (
                Scanning::Details { condition_id: id.clone() },
                ScanRequest::Details { condition_id: id.clone() },
            ),
        };
        (Scan { targets, at, state, found }, request)
    }

    fn leave(targets: Vec<Target>, at: usize, found: Vec<Holding>, known: bool) -> (res: (
        Scan,
        ScanRequest,
    ))
        requires
            at < targets@.len(),
        ensures
            res.0.wf(),
            res.0.comes_to(res.1, targets, next_target(targets@, at + 1, known), found@),
    {
        let count: usize = targets.len();
        let mut next: usize = at + 1;
        while next < targets.len() && known && targets[next].alternative
            invariant
                next <= targets@.len(),
                next_target(targets@, at + 1, known) == next_target(targets@, next as int, known),
            decreases targets@.len() - next,
        {
            next = next + 1;
        }
        assert(next <= count);
        Scan::visit(targets, next, found)
    }

    /// One step of a search: takes the reply to the last request, and gives the next
    /// one. Tokens of which some are held are kept; what cannot be told is passed over.
    pub fn advance(self, reply: ScanReply) -> (res: (Scan, ScanRequest))
        requires
            self.wf(),
        ensures
            res.0.wf(),
            self.steps_to(reply, res),
    {
        let Scan { targets, at, state, found } = self;
        match state {
            Scanning::Market => {
                if let ScanReply::Market(Some(market)) = reply {
                    let condition_id = market.condition_id;
                    let request = ScanRequest::Details { condition_id: condition_id.clone() };
                    return (
                        Scan { targets, at, state: Scanning::Details { condition_id }, found },
                        request,
                    );
                }
                let count: usize = targets.len();
                assert(at + 1 <= count);
                Scan::visit(targets, at + 1, found)
            },
            Scanning::Details { condition_id } => {
                if let ScanReply::Details(Some(market)) = reply {
                    return Scan::visit_token(targets, at, found, condition_id, market.tokens, 0);
                }
                Scan::leave(targets, at, found, true)
            },
            Scanning::Token { condition_id, tokens, token } => {
                let mut found = found;
                if let ScanReply::Shares(Some(shares)) = reply {
                    if shares > 0 {
                        let held = Holding {
                            token_id: tokens[token].token_id.clone(),
                            shares,
                            description: describe(
                                targets[at].asset,
                                tokens[token].outcome.as_str(),
                                targets[at].period,
                            ),
                            condition_id: condition_id.clone(),
                        };
                        assert(held.holds(
                            tokens@[token as int],
                            shares,
                            targets@[at as int].asset,
                            targets@[at as int].period,
                            condition_id,
                        ));
                        found.push(held);
                    }
                }
                let count: usize = tokens.len();
                assert(token + 1 <= count);
                Scan::visit_token(targets, at, found, condition_id, tokens, token + 1)
            },
            Scanning::Finished => (
                Scan { targets, at, state: Scanning::Finished, found },
                ScanRequest::Finished,
            ),
        }
    }

    fn visit_token(
        targets: Vec<Target>,
        at: usize,
        found: Vec<Holding>,
        condition_id: String,
        tokens: Vec<Token>,
        token: usize,
    ) -> (res: (Scan, ScanRequest))
        requires
            at < targets@.len(),
        ensures
            res.0.wf(),
            forall|before: Scan|
                before.targets == targets && before.at == at ==> #[trigger] res.0.comes_to_token(
                    res.1,
                    before,
                    found@,
                    condition_id,
                    tokens,
                    token as int,
                ),
    {
        if token < tokens.len() {
            let token_id = tokens[token].token_id.clone();
            (
                Scan { targets, at, state: Scanning::Token { condition_id, tokens, token }, found },
                ScanRequest::Shares { token_id },
            )
        } else {
            Scan::leave(targets, at, found, true)
        }
    }
}

/// Whether a target is the market of an asset, under a prefix, so many periods back.
pub open spec fn is_market(
    target: Target,
    asset: Asset,
    prefix: Seq<char>,
    now: u64,
    back: int,
    alternative: bool,
) -> bool {
    let period = period_at(now as int) - back * PERIOD_SECONDS;
    &&& target.asset == asset
    &&& target.lookup matches Lookup::Slug(s)
    &&& s@ == slug(prefix, period as nat)
    &&& target.period == Some(period as u64)
    &&& target.alternative == alternative
}

fn market_target(asset: Asset, prefix: &str, now: u64, back: u64, alternative: bool) -> (res: Target)
    requires
        now >= PERIODS_BACK * PERIOD_SECONDS,
        back <= PERIODS_BACK,
    ensures
        is_market(res, asset, prefix@, now, back as int, alternative),
{
    assert(now / PERIOD_SECONDS >= PERIODS_BACK);
    let period: u64 = period_of(now) - back * PERIOD_SECONDS;
    Target {
        asset,
        lookup: Lookup::Slug(slug_text(prefix, period)),
        period: Some(period),
        alternative,
    }
}

/// Whether targets are the markets of an asset from this period back, one each.
pub open spec fn are_markets(targets: Seq<Target>, asset: Asset, prefix: Seq<char>, now: u64) -> bool {
    &&& targets.len() == PERIODS_BACK + 1
    &&& forall|i: int|
        0 <= i < targets.len() ==> is_market(
            #[trigger] targets[i],
            asset,
            prefix,
            now,
            i,
            false,
        )
}

/// Whether targets are the markets of Solana from this period back, each under its two
/// slugs.
pub open spec fn are_solana_markets(targets: Seq<Target>, now: u64) -> bool {
    &&& targets.len() == 2 * (PERIODS_BACK + 1)
    &&& forall|i: int|
        0 <= i < targets.len() ==> is_market(
            #[trigger] targets[i],
            Asset::Solana,
            if i % 2 == 0 {
                "solana"@
            } else {
                "sol"@
            },
            now,
            i / 2,
            i % 2 == 1,
        )
}

fn push_markets(targets: &mut Vec<Target>, asset: Asset, prefix: &str, now: u64)
    requires
        now >= PERIODS_BACK * PERIOD_SECONDS,
    ensures
        final(targets)@.len() == old(targets)@.len() + PERIODS_BACK + 1,
        final(targets)@.take(old(targets)@.len() as int) == old(targets)@,
        are_markets(final(targets)@.skip(old(targets)@.len() as int), asset, prefix@, now),
{
    let ghost before = targets@;
    let mut back: u64 = 0;
    while back <= PERIODS_BACK
        invariant
            back <= PERIODS_BACK + 1,
            now >= PERIODS_BACK * PERIOD_SECONDS,
            targets@.len() == before.len() + back,
            forall|i: int| 0 <= i < before.len() ==> targets@[i] == before[i],
            forall|i: int|
                before.len() <= i < targets@.len() ==> is_market(
                    #[trigger] targets@[i],
                    asset,
                    prefix@,
                    now,
                    i - before.len(),
                    false,
                ),
        decreases PERIODS_BACK + 1 - back,
    {
        targets.push(market_target(asset, prefix, now, back, false));
        back = back + 1;
    }
    assert(targets@.take(before.len() as int) =~= before);
    let ghost rest = targets@.skip(before.len() as int);
    assert forall|i: int| 0 <= i < rest.len() implies is_market(
        #[trigger] rest[i],
        asset,
        prefix@,
        now,
        i,
        false,
    ) by {
        assert(rest[i] == targets@[before.len() + i]);
    }
}

impl PolymarketApi {
    /// Begins a search for tokens of BTC, in the markets from this period back.
    pub fn get_portfolio_tokens_btc_only(&self, now: u64) -> (res: (Scan, ScanRequest))
        requires
            now >= PERIODS_BACK * PERIOD_SECONDS,
        ensures
            res.0.wf(),
            res.0.comes_to(res.1, res.0.targets, 0, Seq::empty()),
            are_markets(res.0.targets@, Asset::Btc, "btc"@, now),
    {
        let mut targets: Vec<Target> = Vec::new();
        push_markets(&mut targets, Asset::Btc, "btc", now);
        assert(targets@.skip(0) =~= targets@);
        Scan::new(targets)
    }

    /// Begins a search for tokens in the markets of BTC, then of ETH, then of Solana, from
    /// this period back. Conditions that are known already make no difference.
    pub fn get_portfolio_tokens_all(
        &self,
        _btc_condition_id: Option<&str>,
        _eth_condition_id: Option<&str>,
        now: u64,
    ) -> (res: (Scan, ScanRequest))
        requires
            now >= PERIODS_BACK * PERIOD_SECONDS,
        ensures
            res.0.wf(),
            res.0.comes_to(res.1, res.0.targets, 0, Seq::empty()),
            res.0.targets@.len() == 44,
            are_markets(res.0.targets@.subrange(0, 11), Asset::Btc, "btc"@, now),
            are_markets(res.0.targets@.subrange(11, 22), Asset::Eth, "eth"@, now),
            are_solana_markets(res.0.targets@.subrange(22, 44), now),
    {
        let mut targets: Vec<Target> = Vec::new();
        push_markets(&mut targets, Asset::Btc, "btc", now);
        assert(targets@.skip(0) =~= targets@);
        let ghost btc = targets@;
        push_markets(&mut targets, Asset::Eth, "eth", now);
        let ghost eth = targets@.skip(11);
        let ghost both = targets@;
        assert(both.take(11) =~= btc);
        let mut back: u64 = 0;
        while back <= PERIODS_BACK
            invariant
                back <= PERIODS_BACK + 1,
                now >= PERIODS_BACK * PERIOD_SECONDS,
                both.len() == 22,
                targets@.len() == 22 + 2 * back,
                forall|i: int| 0 <= i < 22 ==> targets@[i] == both[i],
                forall|i: int|
                    22 <= i < targets@.len() ==> is_market(
                        #[trigger] targets@[i],
                        Asset::Solana,
                        if i % 2 == 0 {
                            "solana"@
                        } else {
                            "sol"@
                        },
                        now,
                        (i - 22) / 2,
                        i % 2 == 1,
                    ),
            decreases PERIODS_BACK + 1 - back,
        {
            targets.push(market_target(Asset::Solana, "solana", now, back, false));
            targets.push(market_target(Asset::Solana, "sol", now, back, true));
            back = back + 1;
        }
        assert(targets@.subrange(0, 11) =~= btc);
        assert(targets@.subrange(11, 22) =~= eth);
        let ghost solana = targets@.subrange(22, 44);
        assert forall|i: int| 0 <= i < solana.len() implies is_market(
            #[trigger] solana[i],
            Asset::Solana,
            if i % 2 == 0 {
                "solana"@
            } else {
                "sol"@
            },
            now,
            i / 2,
            i % 2 == 1,
        ) by {
            assert(solana[i] == targets@[22 + i]);
        }
        Scan::new(targets)
    }

    /// One step of a search for tokens in the current markets of BTC and of ETH: takes the
    /// reply to the last request, and gives the next one. A condition that is not given is
    /// looked for first; then the tokens of the markets are counted.
    pub fn get_portfolio_tokens(
        &self,
        btc_condition_id: Option<&str>,
        eth_condition_id: Option<&str>,
        now: u64,
        search: TokenSearch,
        reply: TokenReply,
    ) -> (res: (TokenSearch, TokenRequest))
        requires
            search.looks_for_markets(btc_condition_id is None, eth_condition_id is None) ==> now
                >= 2 * PERIOD_SECONDS,
            search.wf(),
        ensures
            res.0.wf(),
            match search {
                TokenSearch::Start => match btc_condition_id {
                    Some(id) => exists|btc: String|
                        #[trigger] btc@ == id@ && knows_btc(res, Some(btc), eth_condition_id, now),
                    None => looks_for_btc(
                        res,
                        eth_condition_id,
                        now,
                        CurrentSearch::Start,
                        CurrentReply::Nothing,
                    ),
                },
                TokenSearch::Btc { search } => looks_for_btc(
                    res,
                    eth_condition_id,
                    now,
                    search,
                    reply.current(),
                ),
                TokenSearch::Eth { btc, search } => looks_for_eth(
                    res,
                    btc,
                    now,
                    search,
                    reply.current(),
                ),
                TokenSearch::Counting { scan } => counts(res, scan, reply.scan()),
            },
    {
        match search {
            TokenSearch::Start => match btc_condition_id {
                Some(id) => {
                    let btc = id.to_owned();
                    let res = self.find_eth(Some(btc), eth_condition_id, now);
                    assert(btc@ == id@);
                    res
                },
                None => self.find_btc(
                    eth_condition_id,
                    now,
                    CurrentSearch::Start,
                    CurrentReply::Nothing,
                ),
            },
            TokenSearch::Btc { search } => self.find_btc(
                eth_condition_id,
                now,
                search,
                reply.into_current(),
            ),
            TokenSearch::Eth { btc, search } => self.look_for_eth(
                btc,
                now,
                search,
                reply.into_current(),
            ),
            TokenSearch::Counting { scan } => {
                let (scan, request) = scan.advance(reply.into_scan());
                (TokenSearch::Counting { scan }, TokenRequest::Scan(request))
            },
        }
    }

    fn find_btc(
        &self,
        eth: Option<&str>,
        now: u64,
        search: CurrentSearch,
        reply: CurrentReply,
    ) -> (res: (TokenSearch, TokenRequest))
        requires
            now >= 2 * PERIOD_SECONDS,
            search.wf(),
        ensures
            res.0.wf(),
            looks_for_btc(res, eth, now, search, reply),
    {
        let ghost (was, told) = (search, reply);
        let (search, request) = self.discover_current_market("BTC", now, search, reply);
        assert(current_step("BTC"@, now, was, told, (search, request)));
        match search {
            CurrentSearch::Finished { condition_id } => self.find_eth(condition_id, eth, now),
            _ => (TokenSearch::Btc { search }, TokenRequest::Current(request)),
        }
    }

    fn find_eth(&self, btc: Option<String>, eth: Option<&str>, now: u64) -> (res: (
        TokenSearch,
        TokenRequest,
    ))
        requires
            eth is None ==> now >= 2 * PERIOD_SECONDS,
        ensures
            res.0.wf(),
            knows_btc(res, btc, eth, now),
    {
        match eth {
            Some(id) => {
                let eth = id.to_owned();
                let res = begin_count(btc, Some(eth));
                assert(eth@ == id@);
                res
            },
            None => self.look_for_eth(btc, now, CurrentSearch::Start, CurrentReply::Nothing),
        }
    }

    fn look_for_eth(
        &self,
        btc: Option<String>,
        now: u64,
        search: CurrentSearch,
        reply: CurrentReply,
    ) -> (res: (TokenSearch, TokenRequest))
        requires
            now >= 2 * PERIOD_SECONDS,
            search.wf(),
        ensures
            res.0.wf(),
            looks_for_eth(res, btc, now, search, reply),
    {
        let ghost (was, told) = (search, reply);
        let (search, request) = self.discover_current_market("ETH", now, search, reply);
        assert(current_step("ETH"@, now, was, told, (search, request)));
        match search {
            CurrentSearch::Finished { condition_id } => begin_count(btc, condition_id),
            _ => (TokenSearch::Eth { btc, search }, TokenRequest::Current(request)),
        }
    }
}

fn begin_count(btc: Option<String>, eth: Option<String>) -> (res: (TokenSearch, TokenRequest))
    ensures
        res.0.wf(),
        begins_count(res, btc, eth),
{
    let mut targets: Vec<Target> = Vec::new();
    if let Some(id) = btc {
        targets.push(
            Target {
                asset: Asset::Btc,
                lookup: Lookup::Condition(id),
                period: None,
                alternative: false,
            },
        );
    }
    if let Some(id) = eth {
        targets.push(
            Target {
                asset: Asset::Eth,
                lookup: Lookup::Condition(id),
                period: None,
                alternative: false,
            },
        );
    }
    assert(targets@ =~= known_targets(btc, eth));
    let (scan, request) = Scan::new(targets);
    (TokenSearch::Counting { scan }, TokenRequest::Scan(request))
}

/// Where a search for tokens in the current markets of BTC and of ETH has come to.
pub enum TokenSearch {
    /// It has not begun.
    Start,
    /// The current market of BTC is looked for.
    Btc { search: CurrentSearch },
    /// That of ETH is, and that of BTC has been found or given up.
    Eth { btc: Option<String>, search: CurrentSearch },
    /// The tokens of the markets are counted.
    Counting { scan: Scan },
}

/// What such a search asks for.
pub enum TokenRequest {
    Current(CurrentRequest),
    Scan(ScanRequest),
}

/// What came back.
pub enum TokenReply {
    Current(CurrentReply),
    Scan(ScanReply),
}

impl TokenSearch {
    /// Whether the search that this stands in is at a place of its own.
    pub open spec fn wf(self) -> bool {
        match self {
            TokenSearch::Start => true,
            TokenSearch::Btc { search } => search.wf(),
            TokenSearch::Eth { search, .. } => search.wf(),
            TokenSearch::Counting { scan } => scan.wf(),
        }
    }

    /// Whether the search may yet look for a current market: before it has begun, where a
    /// condition is not given.
    pub open spec fn looks_for_markets(self, without_btc: bool, without_eth: bool) -> bool {
        match self {
            TokenSearch::Start => without_btc || without_eth,
            TokenSearch::Btc { .. } => true,
            TokenSearch::Eth { .. } => true,
            TokenSearch::Counting { .. } => false,
        }
    }
}

impl TokenReply {
    /// What came back to the search for a current market.
    pub open spec fn current(self) -> CurrentReply {
        match self {
            TokenReply::Current(reply) => reply,
            TokenReply::Scan(_) => CurrentReply::Nothing,
        }
    }

    /// What came back to the counting of tokens.
    pub open spec fn scan(self) -> ScanReply {
        match self {
            TokenReply::Scan(reply) => reply,
            TokenReply::Current(_) => ScanReply::Nothing,
        }
    }

    fn into_current(self) -> (res: CurrentReply)
        ensures
            res == self.current(),
    {
        match self {
            TokenReply::Current(reply) => reply,
            TokenReply::Scan(_) => CurrentReply::Nothing,
        }
    }

    fn into_scan(self) -> (res: ScanReply)
        ensures
            res == self.scan(),
    {
        match self {
            TokenReply::Scan(reply) => reply,
            TokenReply::Current(_) => ScanReply::Nothing,
        }
    }
}

/// Whether the tokens of the markets are counted from here on.
pub open spec fn begins_count(
    res: (TokenSearch, TokenRequest),
    btc: Option<String>,
    eth: Option<String>,
) -> bool {
    &&& res.0 matches TokenSearch::Counting { scan }
    &&& res.1 matches TokenRequest::Scan(request)
    &&& scan.targets@ == known_targets(btc, eth)
    &&& scan.comes_to(request, scan.targets, 0, Seq::empty())
}

/// Whether the counting of tokens leads here.
pub open spec fn counts(res: (TokenSearch, TokenRequest), before: Scan, reply: ScanReply) -> bool {
    &&& res.0 matches TokenSearch::Counting { scan }
    &&& res.1 matches TokenRequest::Scan(request)
    &&& before.steps_to(reply, (scan, request))
}

/// Whether the search for the current market of BTC leads here.
pub open spec fn looks_for_btc(
    res: (TokenSearch, TokenRequest),
    eth: Option<&str>,
    now: u64,
    search: CurrentSearch,
    reply: CurrentReply,
) -> bool {
    exists|step: (CurrentSearch, CurrentRequest)|
        #[trigger] current_step("BTC"@, now, search, reply, step) && match step.0 {
            CurrentSearch::Finished { condition_id } => knows_btc(res, condition_id, eth, now),
            _ => res.0 == (TokenSearch::Btc { search: step.0 }) && res.1 == TokenRequest::Current(
                step.1,
            ),
        }
}

/// Whether the search goes on from here, once the market of BTC has been found or given
/// up.
pub open spec fn knows_btc(
    res: (TokenSearch, TokenRequest),
    btc: Option<String>,
    eth: Option<&str>,
    now: u64,
) -> bool {
    match eth {
        Some(id) => exists|eth: String| #[trigger] eth@ == id@ && begins_count(res, btc, Some(eth)),
        None => looks_for_eth(res, btc, now, CurrentSearch::Start, CurrentReply::Nothing),
    }
}

/// Whether the search for the current market of ETH leads here.
pub open spec fn looks_for_eth(
    res: (TokenSearch, TokenRequest),
    btc: Option<String>,
    now: u64,
    search: CurrentSearch,
    reply: CurrentReply,
) -> bool {
    exists|step: (CurrentSearch, CurrentRequest)|
        #[trigger] current_step("ETH"@, now, search, reply, step) && match step.0 {
            CurrentSearch::Finished { condition_id } => begins_count(res, btc, condition_id),
            _ => res.0 == (TokenSearch::Eth { btc, search: step.0 }) && res.1
                == TokenRequest::Current(step.1),
        }
}

/// The markets of BTC and of ETH whose conditions are known.
pub open spec fn known_targets(btc: Option<String>, eth: Option<String>) -> Seq<Target> {
    let first = match btc {
        Some(id) => seq![
            Target {
                asset: Asset::Btc,
                lookup: Lookup::Condition(id),
                period: None,
                alternative: false,
            },
        ],
        None => Seq::empty(),
    };
    match eth {
        Some(id) => first.push(
            Target {
                asset: Asset::Eth,
                lookup: Lookup::Condition(id),
                period: None,
                alternative: false,
            },
        ),
        None => first,
    }
}

/// What a search has found stays found, and what it adds is a token of which some are
/// held, as the exchange told it.
pub proof fn law_found_tokens_stay(before: Scan, reply: ScanReply, after: (Scan, ScanRequest))
    requires
        before.wf(),
        before.steps_to(reply, after),
    ensures
        before.found@.len() <= after.0.found@.len() <= before.found@.len() + 1,
        after.0.found@.take(before.found@.len() as int) == before.found@,
        after.0.found@.len() > before.found@.len() ==> {
            let added = after.0.found@[before.found@.len() as int];
            added.shares > 0 && reply == ScanReply::Shares(Some(added.shares))
        },
{
    assert(before.found@.take(before.found@.len() as int) =~= before.found@);
    if let Scanning::Token { condition_id, tokens, token } = before.state {
        let target = before.targets@[before.at as int];
        if let ScanReply::Shares(Some(shares)) = reply {
            if shares > 0 {
                let h = choose|h: Holding|
                    {
                        &&& #[trigger] h.holds(
                            tokens@[token as int],
                            shares,
                            target.asset,
                            target.period,
                            condition_id,
                        )
                        &&& after.0.comes_to_token(
                            after.1,
                            before,
                            before.found@.push(h),
                            condition_id,
                            tokens,
                            token + 1,
                        )
                    };
                assert(before.found@.push(h).take(before.found@.len() as int) =~= before.found@);
            }
        }
    }
}

/// A search comes to no market twice: with each step it is over, comes to a later market,
/// or to what is asked later of the same one.
pub proof fn law_a_search_goes_forward(before: Scan, reply: ScanReply, after: (Scan, ScanRequest))
    requires
        before.wf(),
        !(before.state is Finished),
        before.steps_to(reply, after),
    ensures
        after.0.targets == before.targets,
        after.0.state is Finished || after.0.at > before.at || (after.0.at == before.at
            && after.0.questions() > before.questions()),
{
    lemma_next_target(before.targets@, before.at + 1, true);
}

proof fn lemma_next_target(targets: Seq<Target>, at: int, known: bool)
    ensures
        next_target(targets, at, known) >= at,
    decreases targets.len() - at,
{
    if at < targets.len() && known && targets[at].alternative {
        lemma_next_target(targets, at + 1, known);
    }
}

/// Shares that are held of a token are kept, with the token's identifier, its market's
/// condition, its asset and outcome and, where it is told, its period; a token of which none
/// are held, or of which that cannot be told, adds nothing.
pub proof fn law_tokens_that_are_held_are_kept(
    before: Scan,
    reply: ScanReply,
    after: (Scan, ScanRequest),
)
    requires
        before.wf(),
        before.state is Token,
        before.steps_to(reply, after),
    ensures
        ({
            let token = before.state->tokens@[before.state->token as int];
            let target = before.targets@[before.at as int];
            match reply {
                ScanReply::Shares(Some(shares)) if shares > 0 => {
                    &&& after.0.found@.len() == before.found@.len() + 1
                    &&& after.0.found@.last().token_id == token.token_id
                    &&& after.0.found@.last().shares == shares
                    &&& after.0.found@.last().condition_id == before.state->Token_condition_id
                    &&& after.0.found@.last().description@ == (match target.asset {
                        Asset::Btc => "BTC"@,
                        Asset::Eth => "ETH"@,
                        Asset::Solana => "Solana"@,
                        Asset::Xrp => "XRP"@,
                    }) + " "@ + token.outcome@ + (match target.period {
                        Some(period) => " (period: "@ + decimal_text(period as nat) + ")"@,
                        None => Seq::empty(),
                    })
                },
                _ => after.0.found@ == before.found@,
            }
        }),
        before.state->token + 1 < before.state->tokens@.len() ==> after.1 == (
        ScanRequest::Shares {
            token_id: before.state->tokens@[before.state->token + 1].token_id,
        }) && after.0.at == before.at && (after.0.state matches Scanning::Token {
            condition_id: id,
            tokens: list,
            token: at,
        } && id == before.state->Token_condition_id && list == before.state->tokens && at
            == before.state->token + 1),
{
    let condition_id = before.state->Token_condition_id;
    let tokens = before.state->tokens;
    let token = before.state->token;
    let target = before.targets@[before.at as int];
    if let ScanReply::Shares(Some(shares)) = reply {
        if shares > 0 {
            let h = choose|h: Holding|
                {
                    &&& #[trigger] h.holds(
                        tokens@[token as int],
                        shares,
                        target.asset,
                        target.period,
                        condition_id,
                    )
                    &&& after.0.comes_to_token(
                        after.1,
                        before,
                        before.found@.push(h),
                        condition_id,
                        tokens,
                        token + 1,
                    )
                };
            let text = target.asset.name() + " "@ + tokens@[token as int].outcome@;
            assert(text + Seq::<char>::empty() =~= text);
            if let Some(period) = target.period {
                assert(h.description@ =~= text + (" (period: "@ + decimal_text(period as nat)
                    + ")"@));
            }
            assert(before.found@.push(h).last() == h);
        }
    }
}

/// The markets that are searched are those of this period and of the ten before it, each by its
/// slug, fifteen minutes apart.
pub proof fn law_eleven_periods_are_searched(
    targets: Seq<Target>,
    asset: Asset,
    prefix: Seq<char>,
    now: u64,
    i: int,
)
    requires
        are_markets(targets, asset, prefix, now),
        0 <= i < targets.len(),
        now >= 9000,
    ensures
        targets.len() == 11,
        targets[i].asset == asset,
        targets[i].lookup matches Lookup::Slug(s) && s@ == prefix + "-updown-15m-"@ + decimal_text(
            ((now as int / 900) * 900 - i * 900) as nat,
        ),
        targets[i].period matches Some(p) && p == (now as int / 900) * 900 - i * 900,
        !targets[i].alternative,
{
    assert(is_market(targets[i], asset, prefix, now, i, false));
    assert(now as int / 900 >= 10);
}

/// A market that was found is asked for its details, and those for its first token; one that
/// was not found is passed over. The conditions that are known are looked up directly.
pub proof fn law_a_market_leads_to_its_tokens(
    before: Scan,
    reply: ScanReply,
    after: (Scan, ScanRequest),
    btc: Option<String>,
    eth: Option<String>,
)
    requires
        before.wf(),
        before.steps_to(reply, after),
    ensures
        before.state is Market && (reply matches ScanReply::Market(Some(market))) ==> after.1 == (
        ScanRequest::Details { condition_id: reply->Market_0->0.condition_id }) && after.0.at
            == before.at,
        before.state is Details && (reply matches ScanReply::Details(Some(market))
            && market.tokens@.len() > 0) ==> after.1 == (ScanRequest::Shares {
            token_id: reply->Details_0->0.tokens@[0].token_id,
        }) && after.0.at == before.at && (after.0.state matches Scanning::Token {
            condition_id: id,
            tokens: list,
            token: first,
        } && id == before.state->Details_condition_id && list == reply->Details_0->0.tokens
            && first == 0),
        !(before.state is Token) ==> after.0.found@ == before.found@,
        known_targets(btc, eth).len() == (if btc is Some {
            1int
        } else {
            0
        }) + (if eth is Some {
            1int
        } else {
            0
        }),
        btc matches Some(id) ==> known_targets(btc, eth)[0].lookup == Lookup::Condition(id)
            && known_targets(btc, eth)[0].asset is Btc,
        eth matches Some(id) ==> known_targets(btc, eth).last().lookup == Lookup::Condition(id)
            && known_targets(btc, eth).last().asset is Eth,
{
}

/// Once a market was found, the other slugs of it that follow are passed over, and nothing
/// else is; a slug under which none was found is followed by the very next one.
pub proof fn law_other_slugs_of_a_found_market_are_passed_over(targets: Seq<Target>, at: int)
    requires
        0 <= at <= targets.len(),
    ensures
        at <= next_target(targets, at, true) <= targets.len(),
        next_target(targets, at, true) < targets.len() ==> !targets[next_target(
            targets,
            at,
            true,
        )].alternative,
        forall|i: int|
            at <= i < next_target(targets, at, true) ==> (#[trigger] targets[i]).alternative,
        next_target(targets, at, false) == at,
    decreases targets.len() - at,
{
    if at < targets.len() && targets[at].alternative {
        law_other_slugs_of_a_found_market_are_passed_over(targets, at + 1);
    }
}

/// A market that was not found under its slug leads to the very next target; the search is over
/// exactly after the last one.
pub proof fn law_a_missing_market_leads_to_the_next_target(
    before: Scan,
    reply: ScanReply,
    after: (Scan, ScanRequest),
)
    requires
        before.wf(),
        before.state is Market,
        !(reply matches ScanReply::Market(Some(_))),
        before.steps_to(reply, after),
    ensures
        before.at + 1 < before.targets@.len() ==> after.0.at == before.at + 1
            && match before.targets@[before.at + 1].lookup {
            Lookup::Slug(slug) => after.1 == (ScanRequest::Market { slug }),
            Lookup::Condition(id) => after.1 == (ScanRequest::Details { condition_id: id }),
        },
        before.at + 1 >= before.targets@.len() ==> after.1 is Finished && after.0.state is Finished,
{
}

/// A search without conditions begins with the market of BTC in this period, by its slug; once
/// that is found or given up, the market of ETH is looked for in the same way.
pub proof fn law_current_markets_are_looked_for_in_order(
    res: (TokenSearch, TokenRequest),
    btc: Option<String>,
    eth: Option<&str>,
    now: u64,
)
    ensures
        looks_for_btc(res, eth, now, CurrentSearch::Start, CurrentReply::Nothing) ==> res.0 is Btc
            && (res.1 matches TokenRequest::Current(request) && (
        request matches CurrentRequest::Market { slug: s } && s@ == lowercase("BTC"@)
            + "-updown-15m-"@ + decimal_text(((now as int / 900) * 900) as nat))),
        knows_btc(res, btc, None, now) ==> res.0 is Eth && (res.0->Eth_btc == btc) && (
        res.1 matches TokenRequest::Current(request) && (
        request matches CurrentRequest::Market { slug: s } && s@ == lowercase("ETH"@)
            + "-updown-15m-"@ + decimal_text(((now as int / 900) * 900) as nat))),
{
}

/// The markets of Solana are searched from this period back, ten periods, each under its long
/// name first and under its short one as the alternative.
pub proof fn law_solana_is_searched_under_two_names(targets: Seq<Target>, now: u64, back: int)
    requires
        are_solana_markets(targets, now),
        0 <= back <= 10,
        now >= 9000,
    ensures
        targets.len() == 22,
        ({
            let period = (now as int / 900) * 900 - back * 900;
            let (long, short) = (targets[2 * back], targets[2 * back + 1]);
            &&& long.asset is Solana && short.asset is Solana
            &&& long.lookup matches Lookup::Slug(s)
            &&& s@ == "solana"@ + "-updown-15m-"@ + decimal_text(period as nat)
            &&& short.lookup matches Lookup::Slug(t)
            &&& t@ == "sol"@ + "-updown-15m-"@ + decimal_text(period as nat)
            &&& long.period == Some(period as u64) && short.period == Some(period as u64)
            &&& !long.alternative && short.alternative
        }),
{
    let (i, j) = (2 * back, 2 * back + 1);
    assert(i % 2 == 0 && i / 2 == back && j % 2 == 1 && j / 2 == back);
    assert(is_market(targets[i], Asset::Solana, "solana"@, now, back, false));
    assert(is_market(targets[j], Asset::Solana, "sol"@, now, back, true));
}

/// A reply to one kind of question tells nothing to the other.
pub proof fn law_replies_go_to_what_was_asked(reply: TokenReply)
    ensures
        match reply {
            TokenReply::Current(r) => reply.current() == r && reply.scan() is Nothing,
            TokenReply::Scan(r) => reply.scan() == r && reply.current() is Nothing,
        },
{
}

} // verus!

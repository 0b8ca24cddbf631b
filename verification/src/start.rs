//! Buying at the start of a market.

use vstd::prelude::*;

use crate::closing::PERIOD_SECONDS;
use crate::models::{Asset, BuyOpportunity, TokenPrice, TokenType};
use crate::trader::{has_open, Trader};

verus! {

/// The price that is offered where none is configured, in millionths of a dollar.
pub const LIMIT_PRICE: u64 = 450_000;

/// For how many seconds a market counts as having just started.
pub const START_SECONDS: u64 = 2;

/// A market as it was seen: its condition, and its tokens with their prices.
pub struct MarketData {
    pub condition_id: String,
    pub up_token: Option<TokenPrice>,
    pub down_token: Option<TokenPrice>,
}

/// The four markets of a period at a moment.
pub struct MarketSnapshot {
    pub eth_market: MarketData,
    pub btc_market: MarketData,
    pub solana_market: MarketData,
    pub xrp_market: MarketData,
    pub period_timestamp: u64,
    pub time_remaining_seconds: u64,
}

/// What is bought at the start of a market, and for what price.
pub struct StartConfig {
    /// In millionths of a dollar.
    pub limit_price: u64,
    pub enable_eth: bool,
    pub enable_solana: bool,
    pub enable_xrp: bool,
}

/// Whether anything has been seen, and which period is skipped and which was bought last.
pub struct MarketStart {
    pub seen: bool,
    pub skipped: Option<u64>,
    pub last_placed: Option<u64>,
}

/// The price that is offered: the configured one or, without one, the usual one.
pub fn limit_price_of(configured: Option<u64>) -> (res: u64)
    ensures
        res == match configured {
            Some(price) => price,
            None => LIMIT_PRICE,
        },
        configured is None ==> res == 450_000,
{
    match configured {
        Some(price) => price,
        None => LIMIT_PRICE,
    }
}

impl StartConfig {
    /// Whether tokens of an asset are bought: those of BTC always are.
    pub open spec fn covers(self, asset: Asset) -> bool {
        match asset {
            Asset::Btc => true,
            Asset::Eth => self.enable_eth,
            Asset::Solana => self.enable_solana,
            Asset::Xrp => self.enable_xrp,
        }
    }
}

impl MarketSnapshot {
    /// The market of an asset.
    pub open spec fn market(self, asset: Asset) -> MarketData {
        match asset {
            Asset::Btc => self.btc_market,
            Asset::Eth => self.eth_market,
            Asset::Solana => self.solana_market,
            Asset::Xrp => self.xrp_market,
        }
    }

    /// The token of a side.
    pub open spec fn token(self, side: TokenType) -> Option<TokenPrice> {
        if side.up() {
            self.market(side.asset()).up_token
        } else {
            self.market(side.asset()).down_token
        }
    }

    /// Whether the market has just started.
    pub open spec fn just_started(self) -> bool {
        &&& self.time_remaining_seconds > 0
        &&& PERIOD_SECONDS - self.time_remaining_seconds <= START_SECONDS
    }
}

/// The sides that are bought, in their order.
pub open spec fn sides() -> Seq<TokenType> {
    seq![
        TokenType::BtcUp,
        TokenType::BtcDown,
        TokenType::EthUp,
        TokenType::EthDown,
        TokenType::SolanaUp,
        TokenType::SolanaDown,
        TokenType::XrpUp,
        TokenType::XrpDown,
    ]
}

/// The limit buy of a token of a side.
pub open spec fn offer(
    config: StartConfig,
    snapshot: MarketSnapshot,
    side: TokenType,
    token: TokenPrice,
) -> BuyOpportunity {
    BuyOpportunity {
        condition_id: snapshot.market(side.asset()).condition_id,
        token_id: token.token_id,
        token_type: side,
        bid_price: config.limit_price,
        period_timestamp: snapshot.period_timestamp,
        time_remaining_seconds: snapshot.time_remaining_seconds,
        time_elapsed_seconds: (PERIOD_SECONDS - snapshot.time_remaining_seconds) as u64,
        use_market_order: false,
    }
}

/// The limit buys of the first so many sides: one for each token of a market that is
/// traded.
pub open spec fn offers(config: StartConfig, snapshot: MarketSnapshot, count: int) -> Seq<
    BuyOpportunity,
>
    decreases count,
{
    if count <= 0 {
        Seq::empty()
    } else {
        let side = sides()[count - 1];
        let before = offers(config, snapshot, count - 1);
        match snapshot.token(side) {
            Some(token) if config.covers(side.asset()) => before.push(
                offer(config, snapshot, side, token),
            ),
            _ => before,
        }
    }
}

/// What a snapshot makes of what has been seen and bought, and which limit buys it places.
pub open spec fn starts(
    before: MarketStart,
    config: StartConfig,
    snapshot: MarketSnapshot,
    after: MarketStart,
    res: Seq<BuyOpportunity>,
) -> bool {
    &&& after == before.after(snapshot)
    &&& res == if before.buys_at(snapshot) {
        offers(config, snapshot, sides().len() as int)
    } else {
        Seq::empty()
    }
}

impl MarketStart {
    /// Whether limit buys are placed on seeing a snapshot: where it is not the first one,
    /// its period is not skipped, its market has just started, and its period was not the
    /// last one bought.
    pub open spec fn buys_at(self, snapshot: MarketSnapshot) -> bool {
        &&& self.seen
        &&& self.skipped != Some(snapshot.period_timestamp)
        &&& snapshot.just_started()
        &&& self.last_placed != Some(snapshot.period_timestamp)
    }

    /// What has been seen and bought, after a snapshot. The market of the first one is
    /// skipped where it had already begun.
    pub open spec fn after(self, snapshot: MarketSnapshot) -> MarketStart {
        MarketStart {
            seen: self.seen || snapshot.time_remaining_seconds > 0,
            skipped: if self.seen || snapshot.time_remaining_seconds == 0
                || snapshot.time_remaining_seconds >= PERIOD_SECONDS {
                self.skipped
            } else {
                Some(snapshot.period_timestamp)
            },
            last_placed: if self.buys_at(snapshot) {
                Some(snapshot.period_timestamp)
            } else {
                self.last_placed
            },
        }
    }

    /// What has been seen and bought, after the first so many snapshots.
    pub open spec fn after_all(self, snapshots: Seq<MarketSnapshot>, count: int) -> MarketStart
        decreases count,
    {
        if count <= 0 {
            self
        } else {
            self.after_all(snapshots, count - 1).after(snapshots[count - 1])
        }
    }

    /// Nothing seen, nothing bought.
    pub fn new() -> (res: MarketStart)
        ensures
            !res.seen,
            res.skipped is None,
            res.last_placed is None,
    {
        MarketStart { seen: false, skipped: None, last_placed: None }
    }

    /// The limit buys that are placed on seeing a snapshot.
    pub fn on_snapshot(&mut self, config: &StartConfig, snapshot: &MarketSnapshot) -> (res: Vec<
        BuyOpportunity,
    >)
        requires
            snapshot.time_remaining_seconds <= PERIOD_SECONDS,
        ensures
            starts(*old(self), *config, *snapshot, *final(self), res@),
    {
        if snapshot.time_remaining_seconds == 0 {
            return Vec::new();
        }
        if !self.seen {
            self.seen = true;
            if snapshot.time_remaining_seconds < PERIOD_SECONDS {
                self.skipped = Some(snapshot.period_timestamp);
            }
            return Vec::new();
        }
        if let Some(period) = self.skipped {
            if period == snapshot.period_timestamp {
                return Vec::new();
            }
        }
        if PERIOD_SECONDS - snapshot.time_remaining_seconds > START_SECONDS {
            return Vec::new();
        }
        if let Some(period) = self.last_placed {
            if period == snapshot.period_timestamp {
                return Vec::new();
            }
        }
        self.last_placed = Some(snapshot.period_timestamp);
        opportunities(config, snapshot)
    }
}

fn opportunities(config: &StartConfig, snapshot: &MarketSnapshot) -> (res: Vec<BuyOpportunity>)
    requires
        snapshot.time_remaining_seconds <= PERIOD_SECONDS,
    ensures
        res@ == offers(*config, *snapshot, sides().len() as int),
{
    let mut res: Vec<BuyOpportunity> = Vec::new();
    proof {
        reveal_with_fuel(offers, 9);
    }
    push_offer(&mut res, config, snapshot, TokenType::BtcUp, &snapshot.btc_market);
    push_offer(&mut res, config, snapshot, TokenType::BtcDown, &snapshot.btc_market);
    if config.enable_eth {
        push_offer(&mut res, config, snapshot, TokenType::EthUp, &snapshot.eth_market);
        push_offer(&mut res, config, snapshot, TokenType::EthDown, &snapshot.eth_market);
    }
    if config.enable_solana {
        push_offer(&mut res, config, snapshot, TokenType::SolanaUp, &snapshot.solana_market);
        push_offer(&mut res, config, snapshot, TokenType::SolanaDown, &snapshot.solana_market);
    }
    if config.enable_xrp {
        push_offer(&mut res, config, snapshot, TokenType::XrpUp, &snapshot.xrp_market);
        push_offer(&mut res, config, snapshot, TokenType::XrpDown, &snapshot.xrp_market);
    }
    res
}

fn push_offer(
    list: &mut Vec<BuyOpportunity>,
    config: &StartConfig,
    snapshot: &MarketSnapshot,
    side: TokenType,
    market: &MarketData,
)
    requires
        snapshot.time_remaining_seconds <= PERIOD_SECONDS,
        *market == snapshot.market(side.asset()),
    ensures
        final(list)@ == match snapshot.token(side) {
            Some(token) => old(list)@.push(offer(*config, *snapshot, side, token)),
            None => old(list)@,
        },
{
    let token = if side.is_up() {
        &market.up_token
    } else {
        &market.down_token
    };
    if let Some(token) = token {
        list.push(
            BuyOpportunity {
                condition_id: market.condition_id.clone(),
                token_id: token.token_id.clone(),
                token_type: side,
                bid_price: config.limit_price,
                period_timestamp: snapshot.period_timestamp,
                time_remaining_seconds: snapshot.time_remaining_seconds,
                time_elapsed_seconds: PERIOD_SECONDS - snapshot.time_remaining_seconds,
                use_market_order: false,
            },
        );
    }
}

impl Trader {
    /// The first of the limit buys, from a place on, whose side holds no open position in
    /// its period.
    pub fn next_limit_buy(&self, opportunities: &Vec<BuyOpportunity>, from: usize) -> (res: Option<
        usize,
    >)
        ensures
            match res {
                Some(at) => {
                    &&& from <= at < opportunities@.len()
                    &&& !has_open(
                        self.pending@,
                        opportunities@[at as int].period_timestamp,
                        opportunities@[at as int].token_type,
                    )
                    &&& forall|i: int|
                        from <= i < at ==> #[trigger] has_open(
                            self.pending@,
                            opportunities@[i].period_timestamp,
                            opportunities@[i].token_type,
                        )
                },
                None => forall|i: int|
                    from <= i < opportunities@.len() ==> #[trigger] has_open(
                        self.pending@,
                        opportunities@[i].period_timestamp,
                        opportunities@[i].token_type,
                    ),
            },
    {
        let mut at: usize = from;
        while at < opportunities.len()
            invariant
                from <= at,
                forall|i: int|
                    from <= i < at && i < opportunities@.len() ==> #[trigger] has_open(
                        self.pending@,
                        opportunities@[i].period_timestamp,
                        opportunities@[i].token_type,
                    ),
            decreases opportunities@.len() - at,
        {
            if !self.has_active_position(
                opportunities[at].period_timestamp,
                opportunities[at].token_type,
            ) {
                return Some(at);
            }
            at = at + 1;
        }
        None
    }
}

/// The limit buys of a market's start are all at the configured price, in the snapshot's
/// period, and on markets that are traded.
pub proof fn law_offers_are_at_the_limit_price(
    config: StartConfig,
    snapshot: MarketSnapshot,
    i: int,
)
    requires
        0 <= i < offers(config, snapshot, sides().len() as int).len(),
    ensures
        ({
            let one = offers(config, snapshot, sides().len() as int)[i];
            &&& one.bid_price == config.limit_price
            &&& one.period_timestamp == snapshot.period_timestamp
            &&& !one.use_market_order
            &&& config.covers(one.token_type.asset())
        }),
{
    lemma_offers(config, snapshot, sides().len() as int, i);
}

/// No two of the limit buys of a market's start are of one side.
pub proof fn law_a_side_is_bought_once(
    config: StartConfig,
    snapshot: MarketSnapshot,
    i: int,
    j: int,
)
    requires
        0 <= i < j < offers(config, snapshot, sides().len() as int).len(),
    ensures
        offers(config, snapshot, sides().len() as int)[i].token_type != offers(
            config,
            snapshot,
            sides().len() as int,
        )[j].token_type,
{
    lemma_offers_in_order(config, snapshot, sides().len() as int, i, j);
}

/// Where a side stands in the order of buying.
spec fn rank(side: TokenType) -> int {
    match side {
        TokenType::BtcUp => 0,
        TokenType::BtcDown => 1,
        TokenType::EthUp => 2,
        TokenType::EthDown => 3,
        TokenType::SolanaUp => 4,
        TokenType::SolanaDown => 5,
        TokenType::XrpUp => 6,
        TokenType::XrpDown => 7,
    }
}

proof fn lemma_offers(config: StartConfig, snapshot: MarketSnapshot, count: int, i: int)
    requires
        count <= sides().len(),
        0 <= i < offers(config, snapshot, count).len(),
    ensures
        ({
            let one = offers(config, snapshot, count)[i];
            &&& one.bid_price == config.limit_price
            &&& one.period_timestamp == snapshot.period_timestamp
            &&& !one.use_market_order
            &&& config.covers(one.token_type.asset())
            &&& rank(one.token_type) < count
        }),
    decreases count,
{
    if count > 0 {
        assert(rank(sides()[count - 1]) == count - 1);
        if i < offers(config, snapshot, count - 1).len() {
            lemma_offers(config, snapshot, count - 1, i);
        }
    }
}

proof fn lemma_offers_in_order(
    config: StartConfig,
    snapshot: MarketSnapshot,
    count: int,
    i: int,
    j: int,
)
    requires
        count <= sides().len(),
        0 <= i < j < offers(config, snapshot, count).len(),
    ensures
        rank(offers(config, snapshot, count)[i].token_type) < rank(
            offers(config, snapshot, count)[j].token_type,
        ),
    decreases count,
{
    if count > 0 {
        assert(rank(sides()[count - 1]) == count - 1);
        if j < offers(config, snapshot, count - 1).len() {
            lemma_offers_in_order(config, snapshot, count - 1, i, j);
        } else {
            lemma_offers(config, snapshot, count - 1, i);
        }
    }
}

/// The first snapshot buys nothing, whenever it is taken.
pub proof fn law_the_first_snapshot_buys_nothing(start: MarketStart, snapshot: MarketSnapshot)
    requires
        !start.seen,
    ensures
        !start.buys_at(snapshot),
{
}

/// A market that had already begun when the bot started is skipped: no snapshot of its
/// period buys anything, neither the first one nor a later one.
pub proof fn law_a_market_that_had_begun_is_skipped(
    start: MarketStart,
    snapshots: Seq<MarketSnapshot>,
    i: int,
    j: int,
)
    requires
        !start.seen,
        0 <= i <= j < snapshots.len(),
        forall|a: int| 0 <= a < i ==> (#[trigger] snapshots[a]).time_remaining_seconds == 0,
        0 < snapshots[i].time_remaining_seconds < PERIOD_SECONDS,
        snapshots[j].period_timestamp == snapshots[i].period_timestamp,
    ensures
        !start.after_all(snapshots, j).buys_at(snapshots[j]),
{
    lemma_nothing_seen(start, snapshots, i);
    if i < j {
        lemma_skipped_stays(start, snapshots, i, j);
    }
}

proof fn lemma_nothing_seen(start: MarketStart, snapshots: Seq<MarketSnapshot>, count: int)
    requires
        !start.seen,
        0 <= count <= snapshots.len(),
        forall|a: int| 0 <= a < count ==> (#[trigger] snapshots[a]).time_remaining_seconds == 0,
    ensures
        !start.after_all(snapshots, count).seen,
    decreases count,
{
    if count > 0 {
        lemma_nothing_seen(start, snapshots, count - 1);
    }
}

proof fn lemma_skipped_stays(start: MarketStart, snapshots: Seq<MarketSnapshot>, i: int, j: int)
    requires
        0 <= i < j <= snapshots.len(),
        !start.after_all(snapshots, i).seen,
        0 < snapshots[i].time_remaining_seconds < PERIOD_SECONDS,
    ensures
        start.after_all(snapshots, j).seen,
        start.after_all(snapshots, j).skipped == Some(snapshots[i].period_timestamp),
    decreases j,
{
    if i < j - 1 {
        lemma_skipped_stays(start, snapshots, i, j - 1);
    }
}

/// While periods only go forward, each is bought at most once: of two snapshots of one
/// period, the later buys nothing where the earlier one bought.
pub proof fn law_a_period_is_bought_once(
    start: MarketStart,
    snapshots: Seq<MarketSnapshot>,
    i: int,
    j: int,
)
    requires
        0 <= i < j < snapshots.len(),
        forall|a: int, b: int|
            0 <= a <= b < snapshots.len() ==> (#[trigger] snapshots[a]).period_timestamp <= (
            #[trigger] snapshots[b]).period_timestamp,
        snapshots[i].period_timestamp == snapshots[j].period_timestamp,
        start.after_all(snapshots, i).buys_at(snapshots[i]),
    ensures
        !start.after_all(snapshots, j).buys_at(snapshots[j]),
{
    lemma_placed_stays(start, snapshots, i, j);
}

proof fn lemma_placed_stays(start: MarketStart, snapshots: Seq<MarketSnapshot>, i: int, j: int)
    requires
        0 <= i < j < snapshots.len(),
        forall|a: int, b: int|
            0 <= a <= b < snapshots.len() ==> (#[trigger] snapshots[a]).period_timestamp <= (
            #[trigger] snapshots[b]).period_timestamp,
        snapshots[i].period_timestamp == snapshots[j].period_timestamp,
        start.after_all(snapshots, i).buys_at(snapshots[i]),
    ensures
        start.after_all(snapshots, j).last_placed == Some(snapshots[j].period_timestamp),
    decreases j,
{
    if i < j - 1 {
        assert(snapshots[i].period_timestamp <= snapshots[j - 1].period_timestamp);
        assert(snapshots[j - 1].period_timestamp <= snapshots[j].period_timestamp);
        lemma_placed_stays(start, snapshots, i, j - 1);
    }
}

proof fn lemma_offers_come_from(
    config: StartConfig,
    snapshot: MarketSnapshot,
    count: int,
    i: int,
)
    requires
        count <= sides().len(),
        0 <= i < offers(config, snapshot, count).len(),
    ensures
        ({
            let one = offers(config, snapshot, count)[i];
            &&& snapshot.token(one.token_type) matches Some(token)
            &&& config.covers(one.token_type.asset())
            &&& one == offer(config, snapshot, one.token_type, token)
        }),
    decreases count,
{
    if count > 0 {
        if i < offers(config, snapshot, count - 1).len() {
            lemma_offers_come_from(config, snapshot, count - 1, i);
        }
    }
}

proof fn lemma_side_is_offered(
    config: StartConfig,
    snapshot: MarketSnapshot,
    count: int,
    at: int,
) -> (i: int)
    requires
        0 <= at < count <= sides().len(),
        snapshot.token(sides()[at]) is Some,
        config.covers(sides()[at].asset()),
    ensures
        0 <= i < offers(config, snapshot, count).len(),
        offers(config, snapshot, count)[i].token_type == sides()[at],
    decreases count,
{
    if at == count - 1 {
        offers(config, snapshot, count - 1).len() as int
    } else {
        lemma_side_is_offered(config, snapshot, count - 1, at)
    }
}

/// Each limit buy of a market's start is of the token of its own side in the market of its
/// own asset, under that market's condition, at the configured price, in the snapshot's
/// period, and with the time that is left and that has passed of fifteen minutes.
pub proof fn law_offers_are_of_their_own_market(
    config: StartConfig,
    snapshot: MarketSnapshot,
    i: int,
)
    requires
        snapshot.time_remaining_seconds <= 900,
        0 <= i < offers(config, snapshot, sides().len() as int).len(),
    ensures
        ({
            let one = offers(config, snapshot, sides().len() as int)[i];
            &&& one.bid_price == config.limit_price
            &&& one.period_timestamp == snapshot.period_timestamp
            &&& one.time_remaining_seconds == snapshot.time_remaining_seconds
            &&& one.time_elapsed_seconds + one.time_remaining_seconds == 900
            &&& !one.use_market_order
            &&& match one.token_type {
                TokenType::BtcUp => one.condition_id == snapshot.btc_market.condition_id && (
                snapshot.btc_market.up_token matches Some(t) && one.token_id == t.token_id),
                TokenType::BtcDown => one.condition_id == snapshot.btc_market.condition_id && (
                snapshot.btc_market.down_token matches Some(t) && one.token_id == t.token_id),
                TokenType::EthUp => config.enable_eth && one.condition_id
                    == snapshot.eth_market.condition_id && (
                snapshot.eth_market.up_token matches Some(t) && one.token_id == t.token_id),
                TokenType::EthDown => config.enable_eth && one.condition_id
                    == snapshot.eth_market.condition_id && (
                snapshot.eth_market.down_token matches Some(t) && one.token_id == t.token_id),
                TokenType::SolanaUp => config.enable_solana && one.condition_id
                    == snapshot.solana_market.condition_id && (
                snapshot.solana_market.up_token matches Some(t) && one.token_id == t.token_id),
                TokenType::SolanaDown => config.enable_solana && one.condition_id
                    == snapshot.solana_market.condition_id && (
                snapshot.solana_market.down_token matches Some(t) && one.token_id == t.token_id),
                TokenType::XrpUp => config.enable_xrp && one.condition_id
                    == snapshot.xrp_market.condition_id && (
                snapshot.xrp_market.up_token matches Some(t) && one.token_id == t.token_id),
                TokenType::XrpDown => config.enable_xrp && one.condition_id
                    == snapshot.xrp_market.condition_id && (
                snapshot.xrp_market.down_token matches Some(t) && one.token_id == t.token_id),
            }
        }),
{
    lemma_offers_come_from(config, snapshot, sides().len() as int, i);
}

/// Every side of a market that is traded and has a token for it is bought: those of BTC
/// always, those of the other assets where they are enabled.
pub proof fn law_every_enabled_side_is_offered(
    config: StartConfig,
    snapshot: MarketSnapshot,
    side: TokenType,
)
    requires
        match side {
            TokenType::BtcUp => snapshot.btc_market.up_token is Some,
            TokenType::BtcDown => snapshot.btc_market.down_token is Some,
            TokenType::EthUp => config.enable_eth && snapshot.eth_market.up_token is Some,
            TokenType::EthDown => config.enable_eth && snapshot.eth_market.down_token is Some,
            TokenType::SolanaUp => config.enable_solana && snapshot.solana_market.up_token is Some,
            TokenType::SolanaDown => config.enable_solana
                && snapshot.solana_market.down_token is Some,
            TokenType::XrpUp => config.enable_xrp && snapshot.xrp_market.up_token is Some,
            TokenType::XrpDown => config.enable_xrp && snapshot.xrp_market.down_token is Some,
        },
    ensures
        exists|i: int|
            0 <= i < offers(config, snapshot, sides().len() as int).len() && (
            #[trigger] offers(config, snapshot, sides().len() as int)[i]).token_type == side,
{
    let at = rank(side);
    assert(sides()[at] == side);
    let i = lemma_side_is_offered(config, snapshot, sides().len() as int, at);
}

/// Limit buys are placed exactly on a snapshot that is not the first, with time left and at
/// most two seconds into its period, of a period that was neither skipped nor bought last;
/// and then that period is the one that was bought last.
pub proof fn law_a_start_is_bought_within_two_seconds(
    start: MarketStart,
    snapshot: MarketSnapshot,
)
    requires
        snapshot.time_remaining_seconds <= 900,
    ensures
        start.buys_at(snapshot) <==> start.seen && 898 <= snapshot.time_remaining_seconds
            && start.skipped != Some(snapshot.period_timestamp) && start.last_placed != Some(
            snapshot.period_timestamp,
        ),
        start.after(snapshot).last_placed == if start.buys_at(snapshot) {
            Some(snapshot.period_timestamp)
        } else {
            start.last_placed
        },
        start.after(snapshot).seen <==> start.seen || snapshot.time_remaining_seconds > 0,
        start.after(snapshot).skipped == if !start.seen && 0 < snapshot.time_remaining_seconds
            < 900 {
            Some(snapshot.period_timestamp)
        } else {
            start.skipped
        },
{
}

/// Seeing a market at most two seconds after its start, and not as the first thing seen, buys
/// every side that is enabled and has a token, unless its period is skipped or was bought
/// already; seeing it at any other time buys nothing. What is bought is of the side's own
/// token and market, at the configured price.
pub proof fn law_a_start_buys_every_enabled_side(
    before: MarketStart,
    config: StartConfig,
    snapshot: MarketSnapshot,
    after: MarketStart,
    res: Seq<BuyOpportunity>,
    side: TokenType,
    i: int,
)
    requires
        starts(before, config, snapshot, after, res),
        snapshot.time_remaining_seconds <= 900,
    ensures
        ({
            let buys = before.seen && snapshot.time_remaining_seconds >= 898 && before.skipped
                != Some(snapshot.period_timestamp) && before.last_placed != Some(
                snapshot.period_timestamp,
            );
            let (market, enabled) = match side {
                TokenType::BtcUp | TokenType::BtcDown => (snapshot.btc_market, true),
                TokenType::EthUp | TokenType::EthDown => (snapshot.eth_market, config.enable_eth),
                TokenType::SolanaUp | TokenType::SolanaDown => (
                    snapshot.solana_market,
                    config.enable_solana,
                ),
                TokenType::XrpUp | TokenType::XrpDown => (snapshot.xrp_market, config.enable_xrp),
            };
            let token = match side {
                TokenType::BtcUp | TokenType::EthUp | TokenType::SolanaUp | TokenType::XrpUp => market.up_token,
                _ => market.down_token,
            };
            &&& !buys ==> res.len() == 0
            &&& buys && enabled && token is Some ==> exists|k: int|
                0 <= k < res.len() && (#[trigger] res[k]).token_type == side
            &&& 0 <= i < res.len() && res[i].token_type == side ==> {
                &&& buys && enabled
                &&& token matches Some(t)
                &&& res[i].token_id == t.token_id
                &&& res[i].condition_id == market.condition_id
                &&& res[i].bid_price == config.limit_price
                &&& res[i].period_timestamp == snapshot.period_timestamp
                &&& res[i].time_remaining_seconds == snapshot.time_remaining_seconds
                &&& res[i].time_elapsed_seconds == 900 - snapshot.time_remaining_seconds
                &&& !res[i].use_market_order
            }
            &&& after.last_placed == if buys {
                Some(snapshot.period_timestamp)
            } else {
                before.last_placed
            }
            &&& after.seen <==> before.seen || snapshot.time_remaining_seconds > 0
            &&& after.skipped == if !before.seen && 0 < snapshot.time_remaining_seconds < 900 {
                Some(snapshot.period_timestamp)
            } else {
                before.skipped
            }
        }),
{
    let all = offers(config, snapshot, sides().len() as int);
    if 0 <= i < all.len() {
        law_offers_are_of_their_own_market(config, snapshot, i);
        lemma_offers_come_from(config, snapshot, sides().len() as int, i);
    }
    if snapshot.token(side) is Some && config.covers(side.asset()) {
        law_every_enabled_side_is_offered(config, snapshot, side);
    }
}

} // verus!

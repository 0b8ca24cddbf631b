//! The trader: its trades, its profit, and the rules that it decides by.

use vstd::prelude::*;
use vstd::string::*;

use crate::models::{MarketDetails, PendingTrade, Token, TokenType};
use crate::text::{contains, occurs_in, same_text, to_uppercase, uppercase};
use crate::trades::{with_sold, without, Class, Trades};

verus! {

/// How the bot trades. Prices and amounts are in millionths.
#[derive(Clone, Copy, Debug)]
pub struct TradingConfig {
    /// What a market buy spends.
    pub fixed_trade_amount: u64,
    /// The price at which a position is sold.
    pub sell_price: u64,
    /// The price at which a losing position is sold, if it is.
    pub stop_loss_price: Option<u64>,
    /// How much of a period must be left for a market buy.
    pub min_time_remaining_seconds: Option<u64>,
}

/// The state of the bot's trading.
pub struct Trader {
    pub config: TradingConfig,
    /// Whether orders are only simulated.
    pub simulation_mode: bool,
    /// Whether a detector wants to know of completed cycles.
    pub tracks_cycles: bool,
    /// What was made so far, in millionths of a millionth of a dollar.
    pub total_profit: i128,
    /// The number of buys so far.
    pub trades_executed: u64,
    pub pending: Trades,
}

/// Whether an outcome, in upper case, is the one that wins when the price goes up
/// (`up`) or down.
pub open spec fn names_side(outcome: Seq<char>, up: bool) -> bool {
    if up {
        occurs_in(outcome, "UP"@) || outcome == "1"@
    } else {
        occurs_in(outcome, "DOWN"@) || outcome == "0"@
    }
}

/// Whether an outcome, in upper case, is the one that wins when the price goes up
/// (`up`) or down.
pub fn outcome_names_side(outcome: &str, up: bool) -> (res: bool)
    ensures
        res == names_side(outcome@, up),
{
    if up {
        contains(outcome, "UP") || same_text(outcome, "1")
    } else {
        contains(outcome, "DOWN") || same_text(outcome, "0")
    }
}

/// The first of the tokens whose outcome is the side `up`.
pub open spec fn token_of_side(tokens: Seq<Token>, up: bool) -> Option<String>
    decreases tokens.len(),
{
    if tokens.len() == 0 {
        None
    } else if names_side(uppercase(tokens[0].outcome@), up) {
        Some(tokens[0].token_id)
    } else {
        token_of_side(tokens.skip(1), up)
    }
}

/// The token of a side is the first whose outcome, in upper case, names it: by `UP` or by
/// `1` the one that wins when the price goes up, by `DOWN` or by `0` the other one.
pub proof fn law_a_side_is_told_by_its_outcome(tokens: Seq<Token>, up: bool)
    ensures
        match token_of_side(tokens, up) {
            Some(token_id) => exists|k: int|
                0 <= k < tokens.len() && #[trigger] tokens[k].token_id == token_id && (if up {
                    occurs_in(uppercase(tokens[k].outcome@), "UP"@) || uppercase(tokens[k].outcome@)
                        == "1"@
                } else {
                    occurs_in(uppercase(tokens[k].outcome@), "DOWN"@) || uppercase(
                        tokens[k].outcome@,
                    ) == "0"@
                }) && forall|j: int|
                    0 <= j < k ==> !(if up {
                        occurs_in(uppercase((#[trigger] tokens[j]).outcome@), "UP"@) || uppercase(
                            tokens[j].outcome@,
                        ) == "1"@
                    } else {
                        occurs_in(uppercase(tokens[j].outcome@), "DOWN"@) || uppercase(
                            tokens[j].outcome@,
                        ) == "0"@
                    }),
            None => forall|j: int|
                0 <= j < tokens.len() ==> !(if up {
                    occurs_in(uppercase((#[trigger] tokens[j]).outcome@), "UP"@) || uppercase(
                        tokens[j].outcome@,
                    ) == "1"@
                } else {
                    occurs_in(uppercase(tokens[j].outcome@), "DOWN"@) || uppercase(
                        tokens[j].outcome@,
                    ) == "0"@
                }),
        },
    decreases tokens.len(),
{
    if tokens.len() > 0 {
        let rest = tokens.skip(1);
        if names_side(uppercase(tokens[0].outcome@), up) {
            assert(tokens[0].token_id == token_of_side(tokens, up)->0);
        } else {
            law_a_side_is_told_by_its_outcome(rest, up);
            assert forall|j: int| 1 <= j < tokens.len() implies tokens[j] == rest[j - 1] by {}
            if let Some(token_id) = token_of_side(rest, up) {
                let k = choose|k: int|
                    0 <= k < rest.len() && #[trigger] rest[k].token_id == token_id && names_side(
                        uppercase(rest[k].outcome@),
                        up,
                    ) && forall|j: int|
                        0 <= j < k ==> !names_side(
                            uppercase((#[trigger] rest[j]).outcome@),
                            up,
                        );
                assert(tokens[k + 1].token_id == token_id);
            }
        }
    }
}

/// Whether one of the tokens has this identifier and has won.
pub open spec fn has_winner(tokens: Seq<Token>, token_id: Seq<char>) -> bool {
    exists|i: int| 0 <= i < tokens.len() && (#[trigger] tokens[i]).token_id@ == token_id
        && tokens[i].winner
}

/// The token on the other side of a market, if the market has one.
pub fn get_opposite_token_id(token_type: TokenType, market: &MarketDetails) -> (res: Option<String>)
    ensures
        res == token_of_side(market.tokens@, token_type.other_side().up()),
{
    let up = token_type.opposite().is_up();
    let mut i: usize = 0;
    assert(market.tokens@.skip(0) =~= market.tokens@);
    while i < market.tokens.len()
        invariant
            i <= market.tokens@.len(),
            up == token_type.other_side().up(),
            token_of_side(market.tokens@, up) == token_of_side(market.tokens@.skip(i as int), up),
        decreases market.tokens@.len() - i,
    {
        let token = &market.tokens[i];
        assert(market.tokens@.skip(i as int)[0] == *token);
        assert(market.tokens@.skip(i as int).skip(1) =~= market.tokens@.skip(i + 1));
        let outcome = to_uppercase(token.outcome.as_str());
        if outcome_names_side(outcome.as_str(), up) {
            return Some(token.token_id.clone());
        }
        i = i + 1;
    }
    None
}

/// Whether a market is closed, and whether a token of it has won.
pub fn check_market_result(market: &MarketDetails, token_id: &str) -> (res: (bool, bool))
    ensures
        res.0 == market.closed,
        res.1 == has_winner(market.tokens@, token_id@),
{
    let mut i: usize = 0;
    while i < market.tokens.len()
        invariant
            i <= market.tokens@.len(),
            forall|j: int|
                0 <= j < i ==> !((#[trigger] market.tokens@[j]).token_id@ == token_id@
                    && market.tokens@[j].winner),
        decreases market.tokens@.len() - i,
    {
        if market.tokens[i].winner && same_text(market.tokens[i].token_id.as_str(), token_id) {
            return (market.closed, true);
        }
        i = i + 1;
    }
    (market.closed, false)
}

/// Whether a market went up, given that a token of one of its sides won or lost.
pub open spec fn went_up(side: TokenType, won: bool) -> bool {
    side.up() == won
}

/// Whether a market went up, given that a token of one of its sides won or lost.
pub fn market_resolved_up(side: TokenType, won: bool) -> (res: bool)
    ensures
        res == went_up(side, won),
{
    if side.is_up() {
        won
    } else {
        !won
    }
}

/// A market that one side has won went the same way as one that the other side has
/// lost.
pub proof fn law_resolution_is_the_same_from_both_sides(side: TokenType, won: bool)
    ensures
        went_up(side, won) == went_up(side.other_side(), !won),
        went_up(side, won) != went_up(side.other_side(), won),
{
}

impl Trader {
    /// A trader without trades.
    pub fn new(config: TradingConfig, simulation_mode: bool, tracks_cycles: bool) -> (res: Trader)
        ensures
            res.config == config,
            res.simulation_mode == simulation_mode,
            res.tracks_cycles == tracks_cycles,
            res.total_profit == 0,
            res.trades_executed == 0,
            res.pending@ == Map::<Seq<char>, PendingTrade>::empty(),
            res.holds_to_closure(),
    {
        Trader {
            config,
            simulation_mode,
            tracks_cycles,
            total_profit: 0,
            trades_executed: 0,
            pending: Trades::new(),
        }
    }

    /// Whether, in a simulation, every trade is held until its market closes.
    pub open spec fn holds_to_closure(self) -> bool {
        self.simulation_mode ==> all_claimed(self.pending@)
    }

    /// Whether nothing but the pending trades differs.
    pub open spec fn same_but_pending(self, other: Trader) -> bool {
        &&& self.config == other.config
        &&& self.simulation_mode == other.simulation_mode
        &&& self.tracks_cycles == other.tracks_cycles
        &&& self.total_profit == other.total_profit
        &&& self.trades_executed == other.trades_executed
    }

    /// Whether there is an open position in a side of a market in a period.
    pub fn has_active_position(&self, period_timestamp: u64, token_type: TokenType) -> (res: bool)
        ensures
            res == has_open(self.pending@, period_timestamp, token_type),
    {
        self.pending.any(Class::Open { period: period_timestamp, side: token_type })
    }

    /// Forgets the trades of earlier periods whose redemption was given up.
    pub fn cleanup_old_abandoned_trades(&mut self, current_period_timestamp: u64)
        ensures
            final(self).pending@ == without(
                old(self).pending@,
                (Class::AbandonedBefore { period: current_period_timestamp }),
            ),
            final(self).same_but_pending(*old(self)),
            old(self).holds_to_closure() ==> final(self).holds_to_closure(),
    {
        self.pending.drop_all(Class::AbandonedBefore { period: current_period_timestamp });
    }

    /// Marks the positions of a period as sold, so that it can be entered again.
    pub fn mark_position_closed(&mut self, period_timestamp: u64)
        ensures
            final(self).pending@ == with_sold(
                old(self).pending@,
                (Class::OfPeriod { period: period_timestamp }),
            ),
            final(self).same_but_pending(*old(self)),
            old(self).holds_to_closure() ==> final(self).holds_to_closure(),
    {
        self.pending.mark_sold(Class::OfPeriod { period: period_timestamp });
    }

    /// Forgets the trades of a period.
    pub fn reset_period(&mut self, old_period: u64)
        ensures
            final(self).pending@ == without(
                old(self).pending@,
                (Class::OfPeriod { period: old_period }),
            ),
            final(self).same_but_pending(*old(self)),
            old(self).holds_to_closure() ==> final(self).holds_to_closure(),
    {
        self.pending.drop_all(Class::OfPeriod { period: old_period });
    }
}

/// Whether every trade is to be claimed when its market closes.
pub open spec fn all_claimed(trades: Map<Seq<char>, PendingTrade>) -> bool {
    forall|key: Seq<char>| trades.contains_key(key) ==> (#[trigger] trades[key]).claim_on_closure
}

/// Whether there is an open position in a side of a market in a period.
pub open spec fn has_open(
    trades: Map<Seq<char>, PendingTrade>,
    period: u64,
    side: TokenType,
) -> bool {
    exists|key: Seq<char>|
        trades.contains_key(key) && (Class::Open { period, side }).holds(#[trigger] trades[key])
}

/// A trade that is sold, given up, of another period or of another side does not
/// keep a position from being opened.
pub proof fn law_only_open_positions_block(
    trades: Map<Seq<char>, PendingTrade>,
    key: Seq<char>,
    trade: PendingTrade,
    period: u64,
    side: TokenType,
)
    requires
        !has_open(trades, period, side),
        trade.sold || trade.redemption_abandoned || trade.market_timestamp != period
            || trade.token_type != side,
    ensures
        !has_open(trades.insert(key, trade), period, side),
{
    let next = trades.insert(key, trade);
    let class = Class::Open { period, side };
    assert forall|k: Seq<char>| next.contains_key(k) implies !class.holds(#[trigger] next[k]) by {
        if k != key {
            assert(trades.contains_key(k) && trades[k] == next[k]);
        }
    }
}

/// Closing the positions of a period, or forgetting its trades, leaves no open
/// position in it, and changes nothing in any other period.
pub proof fn law_closing_a_period_frees_it(
    trades: Map<Seq<char>, PendingTrade>,
    period: u64,
    other: u64,
    side: TokenType,
)
    requires
        other != period,
    ensures
        !has_open(with_sold(trades, (Class::OfPeriod { period })), period, side),
        !has_open(without(trades, (Class::OfPeriod { period })), period, side),
        has_open(with_sold(trades, (Class::OfPeriod { period })), other, side) == has_open(
            trades,
            other,
            side,
        ),
        has_open(without(trades, (Class::OfPeriod { period })), other, side) == has_open(
            trades,
            other,
            side,
        ),
{
    let class = Class::OfPeriod { period };
    let open = Class::Open { period: other, side };
    let a = with_sold(trades, class);
    let b = without(trades, class);
    if has_open(trades, other, side) {
        let key = choose|key: Seq<char>| trades.contains_key(key) && open.holds(#[trigger] trades[key]);
        assert(a.contains_key(key) && open.holds(a[key]));
        assert(b.contains_key(key) && open.holds(b[key]));
    }
    if has_open(a, other, side) {
        let key = choose|key: Seq<char>| a.contains_key(key) && open.holds(#[trigger] a[key]);
        assert(trades.contains_key(key) && open.holds(trades[key]));
    }
    if has_open(b, other, side) {
        let key = choose|key: Seq<char>| b.contains_key(key) && open.holds(#[trigger] b[key]);
        assert(trades.contains_key(key) && open.holds(trades[key]));
    }
}

/// Forgetting the abandoned trades of earlier periods changes no answer to whether
/// there is an open position.
pub proof fn law_cleanup_keeps_open_positions(
    trades: Map<Seq<char>, PendingTrade>,
    current: u64,
    period: u64,
    side: TokenType,
)
    ensures
        has_open(without(trades, (Class::AbandonedBefore { period: current })), period, side)
            == has_open(trades, period, side),
{
    let next = without(trades, Class::AbandonedBefore { period: current });
    let open = Class::Open { period, side };
    if has_open(trades, period, side) {
        let key = choose|key: Seq<char>| trades.contains_key(key) && open.holds(#[trigger] trades[key]);
        assert(next.contains_key(key) && open.holds(next[key]));
    }
    if has_open(next, period, side) {
        let key = choose|key: Seq<char>| next.contains_key(key) && open.holds(#[trigger] next[key]);
        assert(trades.contains_key(key) && open.holds(trades[key]));
    }
}

/// There is an open position in a side of a market in a period exactly where some trade of that
/// side and period is neither sold nor given up.
pub proof fn law_a_position_is_open_until_sold_or_given_up(
    trades: Map<Seq<char>, PendingTrade>,
    period: u64,
    side: TokenType,
)
    ensures
        has_open(trades, period, side) <==> exists|key: Seq<char>|
            trades.contains_key(key) && (#[trigger] trades[key]).market_timestamp == period
                && trades[key].token_type == side && !trades[key].sold
                && !trades[key].redemption_abandoned,
{
    if exists|key: Seq<char>|
        trades.contains_key(key) && (#[trigger] trades[key]).market_timestamp == period
            && trades[key].token_type == side && !trades[key].sold
            && !trades[key].redemption_abandoned {
        let key = choose|key: Seq<char>|
            trades.contains_key(key) && (#[trigger] trades[key]).market_timestamp == period
                && trades[key].token_type == side && !trades[key].sold
                && !trades[key].redemption_abandoned;
        assert((Class::Open { period, side }).holds(trades[key]));
    }
}

/// A market went up where a token that wins when the price goes up has won, or one that wins
/// when it goes down has lost.
pub proof fn law_a_market_goes_the_way_of_its_winner(side: TokenType, won: bool)
    ensures
        went_up(side, won) == match side {
            TokenType::BtcUp | TokenType::EthUp | TokenType::SolanaUp | TokenType::XrpUp => won,
            TokenType::BtcDown
            | TokenType::EthDown
            | TokenType::SolanaDown
            | TokenType::XrpDown => !won,
        },
{
}

/// A token has won where it is marked as the winner among the tokens of its market, and has not
/// where none of the tokens that go by its identifier is; how other tokens are marked does not
/// matter.
pub proof fn law_a_token_wins_by_its_own_mark(
    tokens: Seq<Token>,
    others: Seq<Token>,
    token_id: Seq<char>,
    i: int,
)
    requires
        0 <= i < tokens.len(),
        others.len() == tokens.len(),
        forall|j: int|
            0 <= j < tokens.len() ==> (#[trigger] others[j]).token_id == tokens[j].token_id && (
            tokens[j].token_id@ == token_id ==> others[j].winner == tokens[j].winner),
    ensures
        tokens[i].token_id@ == token_id && tokens[i].winner ==> has_winner(tokens, token_id),
        (forall|j: int|
            0 <= j < tokens.len() && (#[trigger] tokens[j]).token_id@ == token_id
                ==> !tokens[j].winner) ==> !has_winner(tokens, token_id),
        has_winner(others, token_id) == has_winner(tokens, token_id),
{
    if has_winner(others, token_id) {
        let j = choose|j: int|
            0 <= j < others.len() && (#[trigger] others[j]).token_id@ == token_id
                && others[j].winner;
        assert(tokens[j].winner);
    }
    if has_winner(tokens, token_id) {
        let j = choose|j: int|
            0 <= j < tokens.len() && (#[trigger] tokens[j]).token_id@ == token_id
                && tokens[j].winner;
        assert(others[j].winner);
    }
}

} // verus!

//! What holds of every check for closed markets.

use vstd::prelude::*;

use crate::closing::{
    closes, first_due, first_unsettled, settles, ClosureCheck, ClosureProgress, Settling,
};
use crate::events::Event;
use crate::exchange::{Position, Reply, Request};
use crate::models::{PendingTrade, TokenType};
use crate::trader::Trader;
use crate::trades::{has_key, law_trades_are_their_entries, listing, place_of, Listing};

verus! {

/// A step of a check for closed markets, with the trader before and after it.
pub ghost struct ClosureTurn {
    pub before: Trader,
    pub check: ClosureCheck,
    pub reply: Reply,
    pub now: u64,
    pub after: Trader,
    pub progress: ClosureProgress,
}

impl ClosureTurn {
    /// Whether this is a step of a check.
    #[verifier::opaque]
    pub open spec fn is_step(self) -> bool {
        &&& self.check.wf()
        &&& self.progress.check.wf()
        &&& closes(self.before, self.check, self.reply, self.now, self.after, self.progress)
    }

    /// Whether the market of the trade under a key is asked for.
    pub open spec fn asks_market_of(self, key: Seq<char>, trade: PendingTrade) -> bool {
        &&& self.progress.check matches ClosureCheck::Entry { entries, at, settling, .. }
        &&& entries@[at as int].0@ == key
        &&& entries@[at as int].1 == trade
        &&& settling is Market
        &&& self.progress.request == (Request::Market { condition_id: trade.condition_id })
    }

    /// Whether the trade that the check has come to is unsold, and its market has closed or
    /// closes within thirty seconds.
    pub open spec fn is_at_a_due_trade(self, now: u64) -> bool {
        self.progress.check matches ClosureCheck::Entry { entries, at, .. } ==> !entries@[at as int].1.sold
            && now + 30 >= entries@[at as int].1.market_timestamp + 900
    }
}

/// Whether steps make up a check for closed markets, from its start to its end.
pub open spec fn is_whole_closure_check(turns: Seq<ClosureTurn>) -> bool {
    &&& turns.len() > 0
    &&& turns[0].check is Start
    &&& turns.last().progress.check is Finished
    &&& forall|i: int| 0 <= i < turns.len() ==> (#[trigger] turns[i]).is_step()
    &&& forall|i: int|
        0 < i < turns.len() ==> (#[trigger] turns[i]).before == turns[i - 1].after
            && turns[i].check == turns[i - 1].progress.check
}

/// A check asks for the market of every trade that is unsold and whose market has closed or
/// closes within thirty seconds, whatever else is known of the trade; and it looks at no
/// other.
pub proof fn law_every_due_trade_is_looked_at(
    turns: Seq<ClosureTurn>,
    key: Seq<char>,
    trade: PendingTrade,
)
    requires
        is_whole_closure_check(turns),
        !turns[0].before.simulation_mode,
        turns[0].before.pending@.contains_key(key),
        turns[0].before.pending@[key] == trade,
        !trade.sold,
        turns[0].now + 30 >= trade.market_timestamp + 900,
    ensures
        exists|i: int| 0 <= i < turns.len() && (#[trigger] turns[i]).asks_market_of(key, trade),
        forall|i: int|
            0 <= i < turns.len() ==> (#[trigger] turns[i]).is_at_a_due_trade(turns[0].now),
{
    let list = turns[0].before.pending.list();
    law_trades_are_their_entries(turns[0].before.pending);
    assert(has_key(list, key));
    let p = place_of(list, key);
    assert(list[p] == (key, trade));
    lemma_on_the_way(turns, list, p, turns.len() as int);
    assert forall|i: int| 0 <= i < turns.len() implies (#[trigger] turns[i]).is_at_a_due_trade(
        turns[0].now,
    ) by {
        lemma_on_the_way(turns, list, p, i + 1);
    }
}

/// Whether a check goes through a list at a time, and is at a trade that is due.
spec fn goes_through(check: ClosureCheck, list: Listing, now: u64) -> bool {
    match check {
        ClosureCheck::Entry { entries, at, now: then, .. } => {
            &&& listing(entries@) == list
            &&& then == now
            &&& !list[at as int].1.sold
            &&& now + 30 >= list[at as int].1.market_timestamp + 900
        },
        ClosureCheck::Finished => true,
        _ => false,
    }
}

/// Whether a check has not come as far as a place of its list.
spec fn is_before(check: ClosureCheck, p: int) -> bool {
    check matches ClosureCheck::Entry { at, .. } && at < p
}

/// The entries that are passed over are sold or not due.
proof fn lemma_first_unsettled(list: Listing, from: int, now: u64)
    requires
        0 <= from <= list.len(),
    ensures
        from <= first_unsettled(list, from, now) <= list.len(),
        first_unsettled(list, from, now) < list.len() ==> !list[first_unsettled(
            list,
            from,
            now,
        )].1.sold && now + 30 >= list[first_unsettled(list, from, now)].1.market_timestamp + 900,
        forall|i: int|
            from <= i < first_unsettled(list, from, now) ==> (#[trigger] list[i]).1.sold || now + 30
                < list[i].1.market_timestamp + 900,
    decreases list.len() - from,
{
    if from < list.len() && (list[from].1.sold || now + 30 < list[from].1.market_timestamp + 900) {
        lemma_first_unsettled(list, from + 1, now);
    }
}

/// Going on from a place does not pass over a due trade.
proof fn lemma_goes_on(
    turn: ClosureTurn,
    list: Listing,
    from: int,
    now: u64,
    p: int,
)
    requires
        turn.progress.goes_on(list, from, now),
        turn.progress.check.wf(),
        0 <= from <= list.len(),
        0 <= p < list.len(),
        !list[p].1.sold,
        now + 30 >= list[p].1.market_timestamp + 900,
    ensures
        goes_through(turn.progress.check, list, now),
        from <= p ==> is_before(turn.progress.check, p) || turn.asks_market_of(
            list[p].0,
            list[p].1,
        ),
{
    lemma_first_unsettled(list, from, now);
    if turn.progress.check is Entry {
        let entries = turn.progress.check->entries@;
        let at = turn.progress.check->Entry_at as int;
        assert(listing(entries)[at] == (entries[at].0@, entries[at].1));
    }
}

/// What a check has done after so many steps.
proof fn lemma_on_the_way(turns: Seq<ClosureTurn>, list: Listing, p: int, count: int)
    requires
        is_whole_closure_check(turns),
        !turns[0].before.simulation_mode,
        list == turns[0].before.pending.list(),
        0 <= p < list.len(),
        !list[p].1.sold,
        turns[0].now + 30 >= list[p].1.market_timestamp + 900,
        1 <= count <= turns.len(),
    ensures
        goes_through(turns[count - 1].progress.check, list, turns[0].now),
        turns[count - 1].is_at_a_due_trade(turns[0].now),
        is_before(turns[count - 1].progress.check, p) || exists|i: int|
            0 <= i < count && (#[trigger] turns[i]).asks_market_of(list[p].0, list[p].1),
    decreases count,
{
    let turn = turns[count - 1];
    let now = turns[0].now;
    assert(turn.is_step());
    reveal(ClosureTurn::is_step);
    if count == 1 {
        lemma_goes_on(turn, list, 0, now, p);
        if turn.asks_market_of(list[p].0, list[p].1) {
            assert(turns[0].asks_market_of(list[p].0, list[p].1));
        }
    } else {
        lemma_on_the_way(turns, list, p, count - 1);
        let previous = turns[count - 2];
        assert(turn.check == previous.progress.check);
        if let ClosureCheck::Entry { entries, at, now: then, settling } = turn.check {
            let moves = turn.progress.goes_on(list, at + 1, now);
            if moves {
                lemma_goes_on(turn, list, at + 1, now, p);
                if at < p && turn.asks_market_of(list[p].0, list[p].1) {
                    assert(turns[count - 1].asks_market_of(list[p].0, list[p].1));
                }
            } else {
                assert(turn.progress.check matches ClosureCheck::Entry {
                    entries: e,
                    at: a,
                    now: n,
                    ..
                } && e == entries && a == at && n == then);
            }
        }
        if !is_before(previous.progress.check, p) {
            let i = choose|i: int|
                0 <= i < count - 1 && (#[trigger] turns[i]).asks_market_of(list[p].0, list[p].1);
            assert(turns[i].asks_market_of(list[p].0, list[p].1));
        }
    }
    if let ClosureCheck::Entry { entries, at, .. } = turn.progress.check {
        assert(listing(entries@)[at as int] == (entries@[at as int].0@, entries@[at as int].1));
    }
}

/// A closed market leads to the question how many shares are held, and the trade counts as
/// won exactly where a token of the market with the trade's identifier is its winner. A
/// market that is open, or of which nothing is known, leaves the trade for later.
pub proof fn law_the_winner_is_told_by_the_market(
    before: Trader,
    after: Trader,
    entries: Vec<(String, PendingTrade)>,
    at: usize,
    now: u64,
    reply: Reply,
    res: ClosureProgress,
)
    requires
        at < entries@.len(),
        settles(before, after, entries, at, now, Settling::Market, reply, res),
    ensures
        after == before,
        (reply matches Reply::Market(Some(market)) && market.closed) ==> {
            &&& res.request == (Request::Holding { token_id: entries@[at as int].1.token_id })
            &&& res.check matches ClosureCheck::Entry { entries: e, at: a, settling, .. }
            &&& e == entries && a == at
            &&& settling matches Settling::Holding { won }
            &&& won <==> exists|j: int|
                0 <= j < reply->Market_0->0.tokens@.len() && (
                #[trigger] reply->Market_0->0.tokens@[j]).token_id@
                    == entries@[at as int].1.token_id@ && reply->Market_0->0.tokens@[j].winner
        },
        !(reply matches Reply::Market(Some(market)) && market.closed) ==> (
        res.check is Finished || (res.check matches ClosureCheck::Entry { at: a, settling, .. } && a
            > at && settling is Market)),
{
    lemma_goes_forward(listing(entries@), at + 1, now);
}

/// Where shares are held, or nobody can tell, the trade's own token is redeemed under its own
/// condition, and nothing is booked before that is answered. Where none are held the trade
/// is booked and forgotten without a redemption.
pub proof fn law_held_shares_are_redeemed(
    before: Trader,
    after: Trader,
    entries: Vec<(String, PendingTrade)>,
    at: usize,
    now: u64,
    won: bool,
    reply: Reply,
    res: ClosureProgress,
)
    requires
        at < entries@.len(),
        settles(before, after, entries, at, now, (Settling::Holding { won }), reply, res),
    ensures
        !(reply matches Reply::Balance(Some(0u64))) && (reply is Balance && reply->Balance_0 is Some
            || entries@[at as int].1.units > 0) ==> {
            &&& after == before
            &&& res.request == (Request::Redeem {
                condition_id: entries@[at as int].1.condition_id,
                token_id: entries@[at as int].1.token_id,
                token_type: entries@[at as int].1.token_type,
            })
            &&& res.check == (ClosureCheck::Entry {
                entries,
                at,
                now,
                settling: Settling::Redeemed { won },
            })
        },
        reply matches Reply::Balance(Some(0u64)) ==> {
            &&& !after.pending@.contains_key(entries@[at as int].0@)
            &&& books(before, after, entries@[at as int].1, won)
            &&& !(res.request is Redeem)
        },
{
    lemma_goes_forward(listing(entries@), at + 1, now);
}

/// Whether the profit grows by what the shares of a trade are worth, a dollar each where it
/// has won and nothing where it has lost, less what was paid for them: as far as that is
/// within range.
pub open spec fn books(before: Trader, after: Trader, trade: PendingTrade, won: bool) -> bool {
    let made = if won {
        trade.units * (1_000_000 - trade.purchase_price)
    } else {
        trade.units * (0 - trade.purchase_price)
    };
    (i128::MIN <= made <= i128::MAX && i128::MIN <= before.total_profit + made <= i128::MAX)
        ==> after.total_profit == before.total_profit + made
}

/// A redemption that was confirmed books the trade and forgets it. Any other answer leaves it
/// pending, unsold and as it was, with one attempt more, and it is given up exactly at the
/// twentieth.
pub proof fn law_a_confirmed_redemption_is_booked(
    before: Trader,
    after: Trader,
    entries: Vec<(String, PendingTrade)>,
    at: usize,
    now: u64,
    won: bool,
    reply: Reply,
    res: ClosureProgress,
)
    requires
        at < entries@.len(),
        before.pending@.contains_key(entries@[at as int].0@),
        !entries@[at as int].1.redemption_abandoned,
        settles(before, after, entries, at, now, (Settling::Redeemed { won }), reply, res),
    ensures
        (reply matches Reply::Redeemed(Ok(response)) && response.success) ==> {
            &&& !after.pending@.contains_key(entries@[at as int].0@)
            &&& books(before, after, entries@[at as int].1, won)
        },
        !(reply matches Reply::Redeemed(Ok(response)) && response.success) ==> {
            let was = entries@[at as int].1;
            &&& after.total_profit == before.total_profit
            &&& after.pending@.contains_key(entries@[at as int].0@)
            &&& {
                let is = after.pending@[entries@[at as int].0@];
                &&& is.sold == was.sold
                &&& is.units == was.units
                &&& is.token_id == was.token_id
                &&& is.condition_id == was.condition_id
                &&& is.token_type == was.token_type
                &&& is.market_timestamp == was.market_timestamp
                &&& is.purchase_price == was.purchase_price
                &&& was.redemption_attempts < u32::MAX ==> is.redemption_attempts
                    == was.redemption_attempts + 1
                &&& is.redemption_abandoned <==> was.redemption_attempts + 1 >= 20
            }
        },
        !(res.request is Redeem),
        res.check is Finished || (res.check matches ClosureCheck::Entry { at: a, .. } && a > at),
{
    lemma_goes_forward(listing(entries@), at + 1, now);
}

proof fn lemma_goes_forward(list: Listing, from: int, now: u64)
    requires
        0 <= from <= list.len(),
    ensures
        first_unsettled(list, from, now) >= from,
{
    lemma_first_unsettled(list, from, now);
}

/// In a simulation a closed market resolves the positions in it: up exactly where the
/// position's token is a winner and stands for up, or is no winner and stands for down.
pub proof fn law_simulated_positions_are_resolved(
    before: Trader,
    positions: Vec<Position>,
    at: usize,
    then: u64,
    reply: Reply,
    now: u64,
    after: Trader,
    res: ClosureProgress,
)
    requires
        at < positions@.len(),
        closes(before, (ClosureCheck::Position { positions, at, now: then }), reply, now, after, res),
    ensures
        after == before,
        (reply matches Reply::Market(Some(market)) && market.closed) ==> {
            let won = exists|j: int|
                0 <= j < reply->Market_0->0.tokens@.len() && (
                #[trigger] reply->Market_0->0.tokens@[j]).token_id@
                    == positions@[at as int].token_id@ && reply->Market_0->0.tokens@[j].winner;
            &&& res.request matches Request::Resolve { condition_id, token_type, period, up }
            &&& condition_id == positions@[at as int].condition_id
            &&& token_type == positions@[at as int].token_type
            &&& period == positions@[at as int].period_timestamp
            &&& up <==> match positions@[at as int].token_type {
                TokenType::BtcUp | TokenType::EthUp | TokenType::SolanaUp | TokenType::XrpUp => won,
                _ => !won,
            }
        },
        !(reply matches Reply::Market(Some(market)) && market.closed) ==> !(res.request is Resolve),
{
}

/// The simulated positions that are passed over are not due.
pub proof fn law_due_positions_are_looked_at(positions: Seq<Position>, from: int, now: u64)
    requires
        0 <= from <= positions.len(),
    ensures
        from <= first_due(positions, from, now) <= positions.len(),
        first_due(positions, from, now) < positions.len() ==> now + 30 >= positions[first_due(
            positions,
            from,
            now,
        )].period_timestamp + 900,
        forall|i: int|
            from <= i < first_due(positions, from, now) ==> now + 30 < (
            #[trigger] positions[i]).period_timestamp + 900,
    decreases positions.len() - from,
{
    if from < positions.len() && now + 30 < positions[from].period_timestamp + 900 {
        law_due_positions_are_looked_at(positions, from + 1, now);
    }
}

/// What is reported of a trade whose market has closed is of its own side, period and
/// condition: the end and the result of the market, then what became of its redemption.
pub proof fn law_a_settlement_is_reported_as_it_was(
    before: Trader,
    after: Trader,
    entries: Vec<(String, PendingTrade)>,
    at: usize,
    now: u64,
    settling: Settling,
    reply: Reply,
    res: ClosureProgress,
)
    requires
        at < entries@.len(),
        settles(before, after, entries, at, now, settling, reply, res),
    ensures
        settling is Market ==> res.events@.len() == if reply matches Reply::Market(Some(market))
            && market.closed {
            2int
        } else {
            0
        },
        settling is Holding && reply == Reply::Balance(Some(0)) ==> res.events@.len() == 1,
        settling is Holding && (reply matches Reply::Balance(Some(held)) && held > 0)
            ==> res.events@.len() == 0,
        settling is Redeemed && reply is Redeemed ==> res.events@.len() == 1,
        ({
            let trade = entries@[at as int].1;
            forall|i: int|
                0 <= i < res.events@.len() ==> match #[trigger] res.events@[i] {
                    Event::MarketEnded { token_type, period, condition_id } => {
                        &&& settling is Market && i == 0
                        &&& token_type == trade.token_type
                        &&& period == trade.market_timestamp
                        &&& condition_id == trade.condition_id
                    },
                    Event::MarketResult { token_type, period, won, units, purchase_price } => {
                        &&& settling is Market && i == 1
                        &&& token_type == trade.token_type
                        &&& period == trade.market_timestamp
                        &&& units == trade.units
                        &&& purchase_price == trade.purchase_price
                        &&& won <==> exists|j: int|
                            0 <= j < reply->Market_0->0.tokens@.len() && (
                            #[trigger] reply->Market_0->0.tokens@[j]).token_id@ == trade.token_id@
                                && reply->Market_0->0.tokens@[j].winner
                    },
                    Event::AlreadyRedeemed { token_type, period } => {
                        &&& settling is Holding
                        &&& token_type == trade.token_type
                        &&& period == trade.market_timestamp
                    },
                    Event::Redeemed { token_type, period, attempt } => {
                        &&& settling is Redeemed
                        &&& token_type == trade.token_type
                        &&& period == trade.market_timestamp
                        &&& reply matches Reply::Redeemed(Ok(response)) && response.success
                        &&& trade.redemption_attempts < u32::MAX ==> attempt
                            == trade.redemption_attempts + 1
                    },
                    Event::RedemptionRetry { token_type, period, attempt } => {
                        &&& settling is Redeemed
                        &&& token_type == trade.token_type
                        &&& period == trade.market_timestamp
                        &&& attempt == trade.redemption_attempts + 1
                        &&& attempt < 20
                    },
                    Event::RedemptionAbandoned { token_type, period, attempts, message } => {
                        &&& settling is Redeemed
                        &&& reply matches Reply::Redeemed(Err(failure)) ==> message@
                            == failure.message@
                        &&& reply matches Reply::Redeemed(Ok(response)) ==> (
                        response.message matches Some(told) ==> message@ == told@)
                        &&& token_type == trade.token_type
                        &&& period == trade.market_timestamp
                        &&& attempts >= 20
                    },
                    _ => false,
                }
        }),
{
}

/// The simulated positions are gone through in their order: the market of the first one that has
/// closed or closes within thirty seconds is asked for, and without one the check is over.
pub proof fn law_the_next_due_position_is_asked_about(
    res: ClosureProgress,
    positions: Vec<Position>,
    from: int,
    now: u64,
)
    requires
        res.looks_on(positions, from, now),
        0 <= from <= positions@.len(),
    ensures
        res.check matches ClosureCheck::Position { positions: list, at, now: then } ==> {
            &&& list == positions && then == now
            &&& from <= at < positions@.len()
            &&& now + 30 >= positions@[at as int].period_timestamp + 900
            &&& res.request == (Request::Market {
                condition_id: positions@[at as int].condition_id,
            })
            &&& forall|i: int|
                from <= i < at ==> now + 30 < (#[trigger] positions@[i]).period_timestamp + 900
        },
        !(res.check is Position) ==> res.check is Finished && res.request is Finished && forall|
            i: int,
        |
            from <= i < positions@.len() ==> now + 30 < (
            #[trigger] positions@[i]).period_timestamp + 900,
{
    law_due_positions_are_looked_at(positions@, from, now);
    assert(positions.len() == positions@.len());
}

/// A check of a simulation asks for the simulated positions, goes through those that it is told
/// from the first one on, and after each that is resolved or not yet closed goes on with the
/// next.
pub proof fn law_simulated_positions_are_gone_through(turn: ClosureTurn)
    requires
        turn.is_step(),
    ensures
        turn.check is Start && turn.before.simulation_mode ==> turn.progress.request is Positions
            && turn.progress.check is Positions,
        turn.check is Positions && (turn.reply matches Reply::Positions(positions))
            ==> turn.progress.looks_on(turn.reply->Positions_0, 0, turn.now),
        turn.check is Positions && !(turn.reply is Positions) ==> turn.progress.check is Finished,
        turn.check matches ClosureCheck::Position { positions, at, now } ==> !(
        turn.reply matches Reply::Market(Some(market)) && market.closed) ==> turn.progress.looks_on(
            positions,
            at + 1,
            now,
        ),
        turn.check matches ClosureCheck::Resolving { positions, at, now } ==> turn.progress.looks_on(
            positions,
            at + 1,
            now,
        ),
{
    reveal(ClosureTurn::is_step);
}

/// A check for closed markets that is over stays over: nothing is asked for, nothing changes and
/// nothing is reported.
pub proof fn law_a_finished_closure_check_stays_finished(
    before: Trader,
    reply: Reply,
    now: u64,
    after: Trader,
    res: ClosureProgress,
)
    requires
        closes(before, ClosureCheck::Finished, reply, now, after, res),
    ensures
        after == before,
        res.check is Finished,
        res.request is Finished,
        res.events@.len() == 0,
{
}

/// A check for closed markets leaves the configuration, the mode and the number of buys as they
/// are.
pub proof fn law_a_closure_check_leaves_the_settings(before: Trader, after: Trader)
    requires
        after.same_but_books(before),
    ensures
        after.config == before.config,
        after.simulation_mode == before.simulation_mode,
        after.tracks_cycles == before.tracks_cycles,
        after.trades_executed == before.trades_executed,
{
}

} // verus!

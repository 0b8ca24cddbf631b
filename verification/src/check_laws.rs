//! What holds of every check of the pending trades.

use vstd::prelude::*;

use crate::checks::{
    advances, effect, first_concern, hedge_key, last_shares, resumed, sale, Effect, PendingCheck, Place,
    Progress, Sale, Stage, Visit, Wait,
};
use crate::decimal::Decimal;
use crate::events::MAX_SELL_ATTEMPTS;
use crate::exchange::{Reply, Request, Side};
use crate::keys::{is_limit, is_opposite, law_keys_tell_their_kind};
use crate::models::PendingTrade;
use crate::money::{fixed2, plain, plain_price, price2};
use crate::text::decimal_text;
use crate::trader::{all_claimed, Trader};
use crate::trades::{
    distinct, has_key, law_mapping_holds_the_entries, law_trades_are_their_entries, listing,
    mapping, place_of, Listing,
};

verus! {

/// Whether a request reaches the exchange with an order, or moves tokens on chain.
pub open spec fn trades_for_real(request: Request) -> bool {
    request is Limit || request is AtMarket || request is RefreshAllowance || request is Redeem
}

/// Whether a walk in a simulation can wait for this.
pub open spec fn harmless(wait: Wait) -> bool {
    wait is First || wait is Buyers
}

/// Whether every entry is to be claimed when its market closes.
pub open spec fn list_claimed(list: Listing) -> bool {
    forall|i: int| 0 <= i < list.len() ==> (#[trigger] list[i]).1.claim_on_closure
}

/// In a simulation, a reply leads to no order, makes no profit, and leaves every
/// trade to be claimed when its market closes.
pub proof fn law_simulation_trades_nothing(trader: Trader, visit: Visit, wait: Wait, reply: Reply)
    requires
        trader.simulation_mode,
        trader.holds_to_closure(),
        visit.trade.claim_on_closure,
        harmless(wait),
    ensures
        all_claimed(effect(trader, visit, wait, reply).trades),
        effect(trader, visit, wait, reply).profit == trader.total_profit,
        effect(trader, visit, wait, reply).next matches Some((next, request)) ==> harmless(next)
            && !trades_for_real(request),
{
}

/// Where the walks go on, they go on with the first question about an entry that the
/// walk is concerned with, out of the list at hand or out of the trades as they are.
pub proof fn law_walk_goes_on_with_a_concern(stage: Stage, list: Listing, from: int, fresh: Listing)
    requires
        0 <= from,
    ensures
        match resumed(stage, list, from, fresh).0 {
            Place::Entry { stage: s, list: l, at, wait } => {
                &&& 0 <= at < l.len()
                &&& s.concerns(l[at].0, l[at].1)
                &&& wait is First
                &&& l == list || l == fresh
                &&& s.walks_left() <= stage.walks_left()
                &&& s == stage ==> l == list && at >= from
                &&& resumed(stage, list, from, fresh).1 == s.question(l[at].1.token_id)
            },
            Place::Finished => resumed(stage, list, from, fresh).1 is Finished,
        },
    decreases stage.walks_left(),
{
    law_walk_misses_nothing(stage, list, from);
    if first_concern(stage, list, from) >= list.len() {
        if let Some(next) = stage.following() {
            let l = if next.is_fresh() {
                fresh
            } else {
                list
            };
            law_walk_goes_on_with_a_concern(next, l, 0, fresh);
        }
    }
}

/// A walk passes over no entry that it is concerned with.
pub proof fn law_walk_misses_nothing(stage: Stage, list: Listing, from: int)
    requires
        0 <= from,
    ensures
        from <= list.len() ==> from <= first_concern(stage, list, from) <= list.len(),
        first_concern(stage, list, from) < list.len() ==> from <= first_concern(stage, list, from)
            && stage.concerns(
            list[first_concern(stage, list, from)].0,
            list[first_concern(stage, list, from)].1,
        ),
        forall|i: int|
            from <= i < first_concern(stage, list, from) ==> !stage.concerns(
                (#[trigger] list[i]).0,
                list[i].1,
            ),
    decreases list.len() - from,
{
    if from < list.len() && !stage.concerns(list[from].0, list[from].1) {
        law_walk_misses_nothing(stage, list, from + 1);
    }
}

/// Whether a check belongs to a simulation: every entry that it has listed is to be
/// claimed when its market closes, and it waits for nothing that could send an order.
pub open spec fn simulated(check: PendingCheck) -> bool {
    check matches PendingCheck::Entry { entries, wait, .. } ==> list_claimed(listing(entries@))
        && harmless(wait)
}

/// The trades that a simulation lists are all to be claimed when their markets close.
pub proof fn lemma_fresh_list_claimed(list: Listing)
    requires
        distinct(list),
        all_claimed(mapping(list)),
    ensures
        list_claimed(list),
{
    law_mapping_holds_the_entries(list);
    assert forall|i: int| 0 <= i < list.len() implies (#[trigger] list[i]).1.claim_on_closure by {
        assert(mapping(list)[list[i].0] == list[i].1);
    }
}

/// The number of questions about a trade that can still follow in a walk.
pub open spec fn questions_left(wait: Wait) -> int {
    match wait {
        Wait::First => 165,
        Wait::Buyers { .. } => 164,
        Wait::Holding { .. } => 163,
        Wait::Refresh { attempt, rounds, .. } => attempts_left(attempt) + 3 + 2 * rounds,
        Wait::Settle { attempt, rounds, .. } => attempts_left(attempt) + 2 + 2 * rounds,
        Wait::Sent { attempt, .. } => attempts_left(attempt) + 3,
        Wait::Requote { attempt, .. } => attempts_left(attempt) + 2,
        Wait::Pause { attempt, .. } => attempts_left(attempt) + 1,
        Wait::Opposite { .. } => 2,
        Wait::OppositeHolding { .. } => 1,
        Wait::Hedge { .. } => 0,
        Wait::Offer { .. } => 0,
        Wait::Told => 0,
    }
}

/// The questions of the attempts that can still follow.
pub open spec fn attempts_left(attempt: u32) -> int {
    3 + (MAX_SELL_ATTEMPTS - attempt) * 8
}

/// No trade is asked about without end: each question about it leaves fewer to come,
/// and so at most twenty attempts to sell it are made in one walk.
pub proof fn law_questions_about_a_trade_end(
    trader: Trader,
    visit: Visit,
    wait: Wait,
    reply: Reply,
)
    requires
        wait.wf(),
    ensures
        0 <= questions_left(wait),
        effect(trader, visit, wait, reply).next matches Some((next, _)) ==> next.wf()
            && questions_left(next) < questions_left(wait),
{
}

/// A reply changes no trade but the one that it is about, except that an order on an
/// opposite token that was taken puts the trade that follows it under its own key.
pub proof fn law_other_trades_stay(
    trader: Trader,
    visit: Visit,
    wait: Wait,
    reply: Reply,
    key: Seq<char>,
)
    requires
        key != visit.key,
        !(wait matches Wait::Hedge { token_id, held, .. } && reply.order_taken() && key
            == hedge_key(visit.trade, token_id@, held)),
    ensures
        effect(trader, visit, wait, reply).trades.contains_key(key)
            == trader.pending@.contains_key(key),
        trader.pending@.contains_key(key) ==> effect(trader, visit, wait, reply).trades[key]
            == trader.pending@[key],
{
}

/// Profit is made by a sale alone: one that the exchange took or, in a simulation,
/// one that was decided on.
pub proof fn law_profit_comes_from_sales(trader: Trader, visit: Visit, wait: Wait, reply: Reply)
    requires
        effect(trader, visit, wait, reply).profit != trader.total_profit,
    ensures
        trader.simulation_mode || (wait is Sent && reply.order_taken()),
{
}

/// After the last attempt to sell it failed, a position is to be claimed when its
/// market closes, and from then on no walk sells it.
pub proof fn law_unsellable_positions_are_claimed(
    trader: Trader,
    visit: Visit,
    wait: Wait,
    reply: Reply,
    price: Decimal,
    later: Trader,
    answer: Reply,
)
    requires
        wait matches Wait::Requote { attempt, .. } && attempt == MAX_SELL_ATTEMPTS,
        trader.pending@.contains_key(visit.key),
    ensures
        effect(trader, visit, wait, reply).next is None,
        effect(trader, visit, wait, reply).trades[visit.key].claim_on_closure,
        effect(
            later,
            Visit {
                stage: Stage::Sales,
                key: visit.key,
                trade: effect(trader, visit, wait, reply).trades[visit.key],
            },
            Wait::Buyers { price },
            answer,
        ) == Effect::pass(later.pending@, later.total_profit as int),
{
}

/// A position whose sale was taken at the target is gone; one whose sale was taken at
/// a stop-loss is marked as sold at the latest when the opposite token was dealt with.
pub proof fn law_sold_positions_are_closed(
    trader: Trader,
    visit: Visit,
    wait: Wait,
    reply: Reply,
)
    requires
        wait is Hedge || (wait matches Wait::Sent { sale, .. } && sale == Sale::OppositeStop
            && reply.order_taken()) || (wait matches Wait::Sent { sale, .. } && sale == Sale::Target
            && reply.order_taken()),
    ensures
        wait matches Wait::Sent { sale, .. } && sale == Sale::Target ==> !effect(
            trader,
            visit,
            wait,
            reply,
        ).trades.contains_key(visit.key),
        !(wait matches Wait::Sent { sale, .. } && sale == Sale::Target) && effect(
            trader,
            visit,
            wait,
            reply,
        ).trades.contains_key(visit.key) ==> effect(trader, visit, wait, reply).trades[visit.key].sold,
{
}

/// A step of a check of the pending trades, with the trader before and after it.
pub ghost struct Turn {
    pub before: Trader,
    pub check: PendingCheck,
    pub reply: Reply,
    pub after: Trader,
    pub progress: Progress,
}

impl Turn {
    /// Whether this is a step of a check.
    #[verifier::opaque]
    pub open spec fn is_step(self) -> bool {
        &&& self.check.wf()
        &&& self.progress.check.wf()
        &&& advances(self.before, self.check, self.reply, self.after, self.progress)
    }

    /// Whether an order is sent about the trade under a key.
    pub open spec fn orders(self, key: Seq<char>) -> bool {
        &&& self.progress.check matches PendingCheck::Entry { entries, at, .. }
        &&& listing(entries@)[at as int].0 == key
        &&& self.progress.request is Limit || self.progress.request is AtMarket
    }

    /// Whether the shares that were just told are offered for sale at the configured price,
    /// both rounded to hundredths.
    pub open spec fn offers(self, token_id: String) -> bool {
        &&& self.reply.shares() matches Some(shares)
        &&& self.progress.request matches Request::Limit(order)
        &&& order.token_id == token_id
        &&& order.side == Side::Sell
        &&& order.size == shares
        &&& order.price == self.before.config.sell_price
        &&& order.texts().size == fixed2(shares as nat)
        &&& order.texts().price == price2(self.before.config.sell_price as int)
    }

    /// Whether, where the shares of the trade under a key are asked for, there are some, and
    /// hardly more than are known of.
    pub open spec fn counts(self, key: Seq<char>, known: u64) -> bool {
        (self.check matches PendingCheck::Entry { stage, entries, at, wait } && listing(
            entries@,
        )[at as int].0 == key && wait is First && stage != Stage::Sales && stage
            != Stage::Positions) ==> (self.reply.shares() matches Some(shares) && 1 <= shares
            <= known + 1)
    }
}

/// Whether steps make up a check of the pending trades, from its start to its end.
pub open spec fn is_whole_check(turns: Seq<Turn>) -> bool {
    &&& turns.len() > 0
    &&& turns[0].check is Start
    &&& turns.last().progress.check is Finished
    &&& forall|i: int| 0 <= i < turns.len() ==> (#[trigger] turns[i]).is_step()
    &&& forall|i: int|
        0 < i < turns.len() ==> (#[trigger] turns[i]).before == turns[i - 1].after
            && turns[i].check == turns[i - 1].progress.check
}

/// Where no stop-loss is configured, a confirmed market buy is offered for sale exactly
/// once over two checks, in the first one, with the shares that are held then and at the
/// configured price, and nothing else is ordered about it, whether the order was taken or
/// refused: provided that the shares that are told stay between the smallest number and
/// hardly more than were confirmed.
pub proof fn law_a_market_buy_is_offered_once(
    first: Seq<Turn>,
    second: Seq<Turn>,
    key: Seq<char>,
    trade: PendingTrade,
    known: u64,
)
    requires
        is_whole_check(first),
        is_whole_check(second),
        second[0].before == first.last().after,
        !first[0].before.simulation_mode,
        first[0].before.config.stop_loss_price is None,
        first[0].before.pending@.contains_key(key),
        first[0].before.pending@[key] == trade,
        !is_limit(key),
        !trade.sold,
        trade.buy_order_confirmed,
        !trade.limit_sell_orders_placed,
        trade.confirmed_balance == Some(known),
        forall|i: int| 0 <= i < first.len() ==> (#[trigger] first[i]).counts(key, known),
        forall|i: int| 0 <= i < second.len() ==> (#[trigger] second[i]).counts(key, known),
    ensures
        exists|m: int|
            0 <= m < first.len() && (#[trigger] first[m]).orders(key) && first[m].offers(
                trade.token_id,
            ) && first[m].before.config == first[0].before.config && forall|i: int|
                0 <= i < first.len() && i != m ==> !(#[trigger] first[i]).orders(key),
        forall|i: int| 0 <= i < second.len() ==> !(#[trigger] second[i]).orders(key),
        first.last().after.pending@.contains_key(key),
        first.last().after.pending@[key] == (PendingTrade {
            limit_sell_orders_placed: true,
            ..trade
        }),
        second.last().after.pending@.contains_key(key),
        second.last().after.pending@[key] == first.last().after.pending@[key],
{
    let count = first.len() as int;
    lemma_offered_in_first(first, key, trade, known, count);
    reveal(awaiting);
    reveal(settled);
    let m = choose|m: int| #[trigger] asked_at(first, m, count, key, trade.token_id);
    assert(first[m].orders(key));
    assert forall|i: int| 0 <= i < second.len() implies quiet(#[trigger] second[i], key) by {
        lemma_config_stays(second, i);
    }
    lemma_settled_in_second(second, key, offered(trade), known, second.len() as int);
}

/// The trade after it was offered for sale.
spec fn offered(trade: PendingTrade) -> PendingTrade {
    PendingTrade { limit_sell_orders_placed: true, ..trade }
}

/// Whether an entry of a list is a trade under a key.
spec fn entry_at(list: Listing, p: int, key: Seq<char>, trade: PendingTrade) -> bool {
    0 <= p < list.len() && list[p] == (key, trade)
}

/// Whether the trade waits for being offered for sale or, where it was `asked` for, for the
/// answer.
#[verifier::opaque]
spec fn awaiting(
    trader: Trader,
    check: PendingCheck,
    key: Seq<char>,
    trade: PendingTrade,
    asked: bool,
) -> bool {
    &&& trader.pending@.contains_key(key)
    &&& trader.pending@[key] == trade
    &&& match check {
        PendingCheck::Start => !asked,
        PendingCheck::Entry { stage, entries, at, wait } => {
            let list = listing(entries@);
            &&& wait is First || wait is Offer
            &&& exists|p: int| #[trigger]
                entry_at(list, p, key, trade) && {
                    ||| stage == Stage::LimitFills && list[at as int].0 != key && !asked
                    ||| stage == Stage::Offers && at < p && !asked
                    ||| stage == Stage::Offers && at == p && asked == (wait is Offer)
                }
        },
        _ => false,
    }
}

/// Whether a step leaves a limit buy of an opposite token alone: it does not track one
/// anew under its key, and finds the price that it holds against it above the stop-loss
/// of its own, a dollar less the stop-loss price less a tenth.
pub open spec fn undisturbed(turn: Turn, key: Seq<char>) -> bool {
    turn.check matches PendingCheck::Entry { entries, at, wait, .. } ==> {
        let here = listing(entries@)[at as int];
        &&& !(wait matches Wait::Hedge { token_id, held, .. } && turn.reply.order_taken() && key
            == decimal_text(here.1.market_timestamp as nat) + (if held {
            "_opposite_"@
        } else {
            "_opposite_limit_"@
        }) + token_id@)
        &&& here.0 == key ==> (wait matches Wait::Buyers { price } ==> (
        turn.before.config.stop_loss_price matches Some(stop) ==> !price.at_most(
            1_000_000 - stop - 100_000,
        )))
    }
}

/// Whether a trade that is offered for sale is not sold otherwise: no stop-loss is
/// configured, or the trade is a limit buy, and one of an opposite token is left alone.
spec fn quiet(turn: Turn, key: Seq<char>) -> bool {
    turn.before.config.stop_loss_price is None || (is_limit(key) && (is_opposite(key)
        ==> undisturbed(turn, key)))
}

/// A step that leaves a trade alone does not track one under its key.
proof fn lemma_not_tracked_anew(turn: Turn, key: Seq<char>)
    requires
        quiet(turn, key),
    ensures
        turn.before.config.stop_loss_price is Some ==> (
        turn.check matches PendingCheck::Entry { entries, at, wait, .. } ==> !(
        wait matches Wait::Hedge { token_id, held, .. } && turn.reply.order_taken() && key
            == hedge_key(listing(entries@)[at as int].1, token_id@, held))),
{
    if let PendingCheck::Entry { entries, at, wait, .. } = turn.check {
        if let Wait::Hedge { token_id, held, .. } = wait {
            lemma_hedges_are_opposite(listing(entries@)[at as int].1, token_id@, held);
        }
    }
}

/// Whether a walk waits for something that leads to no stop-loss.
spec fn calm(stage: Stage, wait: Wait) -> bool {
    match wait {
        Wait::First => stage != Stage::Positions,
        Wait::Offer { .. } => stage != Stage::Sales && stage != Stage::Positions,
        Wait::Buyers { .. } => stage == Stage::Sales,
        Wait::Holding { sale, .. } => stage == Stage::Sales && sale == Sale::Target,
        Wait::Refresh { sale, .. } => stage == Stage::Sales && sale == Sale::Target,
        Wait::Settle { sale, .. } => stage == Stage::Sales && sale == Sale::Target,
        Wait::Sent { sale, .. } => stage == Stage::Sales && sale == Sale::Target,
        Wait::Requote { .. } => stage == Stage::Sales,
        Wait::Pause { .. } => stage == Stage::Sales,
        Wait::Told => stage == Stage::Sales,
        _ => false,
    }
}

/// Whether a list holds nothing but one trade under a key, from a place on.
spec fn only(list: Listing, from: int, key: Seq<char>, trade: PendingTrade) -> bool {
    forall|i: int| from <= i < list.len() && (#[trigger] list[i]).0 == key ==> list[i].1 == trade
}

/// Where the entries of the list at hand matter from: a list is walked twice where the next
/// walk is not over a fresh one.
spec fn matters(stage: Stage, from: int) -> int {
    if stage == Stage::LimitFills {
        0
    } else {
        from
    }
}

/// Whether the trade is offered for sale, and the check will leave it so.
#[verifier::opaque]
spec fn settled(trader: Trader, check: PendingCheck, key: Seq<char>, trade: PendingTrade) -> bool {
    &&& trader.pending@.contains_key(key)
    &&& trader.pending@[key] == trade
    &&& match check {
        PendingCheck::Start => true,
        PendingCheck::Finished => true,
        PendingCheck::Entry { stage, entries, at, wait } => {
            let list = listing(entries@);
            &&& only(list, matters(stage, at as int), key, trade)
            &&& stage != Stage::Positions
            &&& trader.config.stop_loss_price is None ==> calm(stage, wait)
            &&& list[at as int].0 == key ==> stage.is_fresh() && stage != Stage::LimitFills && (
            wait is First || wait is Buyers)
        },
        _ => false,
    }
}

/// A walk that has not offered the trade goes on to it.
proof fn lemma_resumed_awaiting(
    stage: Stage,
    list: Listing,
    from: int,
    fresh: Listing,
    p: int,
    key: Seq<char>,
    trade: PendingTrade,
)
    requires
        stage == Stage::LimitFills || stage == Stage::Offers,
        0 <= from,
        entry_at(list, p, key, trade),
        stage == Stage::Offers ==> from <= p,
        !is_limit(key),
        !trade.sold,
        trade.buy_order_confirmed,
        !trade.limit_sell_orders_placed,
    ensures
        resumed(stage, list, from, fresh).0 matches Place::Entry { stage: s, list: l, at, wait } && {
            &&& l == list
            &&& wait is First
            &&& 0 <= at < list.len()
            &&& s == Stage::LimitFills || s == Stage::Offers
            &&& s == Stage::LimitFills ==> is_limit(list[at].0)
            &&& s == Stage::Offers ==> at <= p
        },
        !(resumed(stage, list, from, fresh).1 is Limit),
        !(resumed(stage, list, from, fresh).1 is AtMarket),
    decreases stage.walks_left(),
{
    law_walk_misses_nothing(stage, list, from);
    let at = first_concern(stage, list, from);
    if stage == Stage::Offers {
        assert(stage.concerns(list[p].0, list[p].1));
    } else if at >= list.len() {
        lemma_resumed_awaiting(Stage::Offers, list, 0, fresh, p, key, trade);
    }
}

/// A walk comes to the trade that was offered only where it leaves it alone.
proof fn lemma_resumed_settled(
    stage: Stage,
    list: Listing,
    from: int,
    fresh: Listing,
    key: Seq<char>,
    trade: PendingTrade,
)
    requires
        stage != Stage::Positions,
        0 <= from,
        only(list, matters(stage, from), key, trade),
        only(fresh, 0, key, trade),
        trade.buy_order_confirmed,
        trade.limit_sell_orders_placed,
    ensures
        match resumed(stage, list, from, fresh).0 {
            Place::Entry { stage: s, list: l, at, wait } => {
                &&& only(l, matters(s, at), key, trade)
                &&& wait is First
                &&& s != Stage::Positions
                &&& l[at].0 == key ==> s.is_fresh() && s != Stage::LimitFills
            },
            Place::Finished => true,
        },
        !(resumed(stage, list, from, fresh).1 is Limit),
        !(resumed(stage, list, from, fresh).1 is AtMarket),
    decreases stage.walks_left(),
{
    law_walk_misses_nothing(stage, list, from);
    let at = first_concern(stage, list, from);
    if at >= list.len() {
        if let Some(next) = stage.following() {
            let l = if next.is_fresh() {
                fresh
            } else {
                list
            };
            lemma_resumed_settled(next, l, 0, fresh, key, trade);
        }
    }
}

/// The trades as they are hold one trade under a key.
proof fn lemma_fresh_holds_only(trader: Trader, key: Seq<char>)
    requires
        trader.pending@.contains_key(key),
        distinct(trader.pending.list()),
    ensures
        only(trader.pending.list(), 0, key, trader.pending@[key]),
{
    law_trades_are_their_entries(trader.pending);
    law_mapping_holds_the_entries(trader.pending.list());
}

/// The trades as they are hold the trade under a key somewhere.
proof fn lemma_fresh_holds(trader: Trader, key: Seq<char>) -> (p: int)
    requires
        trader.pending@.contains_key(key),
    ensures
        entry_at(trader.pending.list(), p, key, trader.pending@[key]),
{
    let list = trader.pending.list();
    law_trades_are_their_entries(trader.pending);
    assert(has_key(list, key));
    place_of(list, key)
}

/// What is asked of another trade leaves this one as it is and, where none is configured,
/// leads to no stop-loss.
proof fn lemma_others_are_calm(
    trader: Trader,
    visit: Visit,
    wait: Wait,
    reply: Reply,
    key: Seq<char>,
)
    requires
        key != visit.key,
        visit.stage != Stage::Positions,
        trader.config.stop_loss_price is None ==> calm(visit.stage, wait),
        trader.config.stop_loss_price is Some ==> !(wait matches Wait::Hedge {
            token_id,
            held,
            ..
        } && reply.order_taken() && key == hedge_key(visit.trade, token_id@, held)),
        trader.pending@.contains_key(key),
        !trader.simulation_mode,
    ensures
        effect(trader, visit, wait, reply).trades.contains_key(key),
        effect(trader, visit, wait, reply).trades[key] == trader.pending@[key],
        effect(trader, visit, wait, reply).next matches Some((next, _)) ==> (
        trader.config.stop_loss_price is None ==> calm(visit.stage, next)) && (visit.stage
            != Stage::Sales && (wait is First || wait is Offer) ==> next is Offer),
{
    law_other_trades_stay(trader, visit, wait, reply, key);
}

/// The key of a trade that follows a stop-loss tells that it is of the opposite token.
proof fn lemma_hedges_are_opposite(trade: PendingTrade, token_id: Seq<char>, held: bool)
    ensures
        is_opposite(hedge_key(trade, token_id, held)),
{
    law_keys_tell_their_kind(trade.market_timestamp as nat, token_id);
}

/// A step before the offer was answered.
proof fn lemma_awaiting_turn(
    turn: Turn,
    key: Seq<char>,
    trade: PendingTrade,
    known: u64,
    asked: bool,
)
    requires
        awaiting(turn.before, turn.check, key, trade, asked),
        turn.is_step(),
        turn.counts(key, known),
        !turn.before.simulation_mode,
        turn.before.config.stop_loss_price is None,
        !is_limit(key),
        !trade.sold,
        trade.buy_order_confirmed,
        !trade.limit_sell_orders_placed,
        trade.confirmed_balance == Some(known),
    ensures
        turn.after.config == turn.before.config,
        turn.after.simulation_mode == turn.before.simulation_mode,
        asked ==> !turn.orders(key),
        turn.orders(key) ==> turn.offers(trade.token_id),
        awaiting(turn.after, turn.progress.check, key, trade, asked || turn.orders(key)) || (asked
            && settled(turn.after, turn.progress.check, key, offered(trade))),
{
    reveal(Turn::is_step);
    reveal(awaiting);
    reveal(settled);
    match turn.check {
        PendingCheck::Start => {
            let list = turn.before.pending.list();
            let p = lemma_fresh_holds(turn.before, key);
            lemma_resumed_awaiting(Stage::LimitFills, list, 0, list, p, key, trade);
            assert(entry_at(listing(turn.progress.check->entries@), p, key, trade));
        },
        PendingCheck::Entry { stage, entries, at, wait } => {
            let list = listing(entries@);
            let here = list[at as int];
            let visit = Visit { stage, key: here.0, trade: here.1 };
            let e = effect(turn.before, visit, wait, turn.reply);
            let p = choose|p: int| #[trigger]
                entry_at(list, p, key, trade) && {
                    ||| stage == Stage::LimitFills && list[at as int].0 != key && !asked
                    ||| stage == Stage::Offers && at < p && !asked
                    ||| stage == Stage::Offers && at == p && asked == (wait is Offer)
                };
            let fresh = turn.after.pending.list();
            if here.0 != key {
                lemma_others_are_calm(turn.before, visit, wait, turn.reply, key);
                if e.next is None {
                    lemma_resumed_awaiting(stage, list, at + 1, fresh, p, key, trade);
                }
                assert(entry_at(listing(turn.progress.check->entries@), p, key, trade));
            } else {
                assert(at == p) by {
                    if at < p {
                        assert(list[at as int].0 != list[p].0);
                    }
                }
                if wait is First {
                    assert(e.next is Some);
                    assert(entry_at(listing(turn.progress.check->entries@), p, key, trade));
                } else {
                    assert(e.next is None);
                    assert(only(list, at + 1, key, offered(trade))) by {
                        assert forall|i: int| at + 1 <= i < list.len() implies (
                        #[trigger] list[i]).0 != key by {
                            assert(list[at as int].0 != list[i].0);
                        }
                    }
                    if turn.progress.check is Entry {
                        lemma_after_offer(turn, list, at + 1, stage, key, offered(trade));
                    } else {
                        assert(turn.progress.check is Finished);
                    }
                }
            }
        },
        _ => {},
    }
}

/// Where the walks go on after the trade was offered for sale, and are not over, they leave
/// it alone.
proof fn lemma_after_offer(
    turn: Turn,
    list: Listing,
    from: int,
    stage: Stage,
    key: Seq<char>,
    trade: PendingTrade,
)
    requires
        turn.progress.check is Entry,
        turn.progress.check.wf(),
        turn.progress.check.is_at(resumed(stage, list, from, turn.after.pending.list()).0),
        turn.progress.request == resumed(stage, list, from, turn.after.pending.list()).1,
        turn.after.pending@.contains_key(key),
        turn.after.pending@[key] == trade,
        stage != Stage::Positions,
        0 <= from,
        only(list, matters(stage, from), key, trade),
        trade.buy_order_confirmed,
        trade.limit_sell_orders_placed,
    ensures
        settled(turn.after, turn.progress.check, key, trade),
        !turn.orders(key),
{
    reveal(settled);
    let fresh = turn.after.pending.list();
    law_walk_goes_on_with_a_concern(stage, list, from, fresh);
    let now = listing(turn.progress.check->entries@);
    if now == fresh {
        lemma_fresh_holds_only(turn.after, key);
        lemma_resumed_settled(stage, list, from, fresh, key, trade);
    } else {
        lemma_resumed_same_list(stage, list, from, fresh, key, trade);
    }
}

/// A walk over the list at hand comes to the trade that was offered only where it leaves it
/// alone, whatever the fresh list holds.
proof fn lemma_resumed_same_list(
    stage: Stage,
    list: Listing,
    from: int,
    fresh: Listing,
    key: Seq<char>,
    trade: PendingTrade,
)
    requires
        stage != Stage::Positions,
        0 <= from,
        only(list, matters(stage, from), key, trade),
        trade.buy_order_confirmed,
        trade.limit_sell_orders_placed,
        resumed(stage, list, from, fresh).0 matches Place::Entry { list: l, .. } && l != fresh,
    ensures
        resumed(stage, list, from, fresh).0 matches Place::Entry { stage: s, list: l, at, wait } && {
            &&& only(l, matters(s, at), key, trade)
            &&& wait is First
            &&& s != Stage::Positions
            &&& l[at].0 == key ==> s.is_fresh() && s != Stage::LimitFills
        },
        !(resumed(stage, list, from, fresh).1 is Limit),
        !(resumed(stage, list, from, fresh).1 is AtMarket),
    decreases stage.walks_left(),
{
    law_walk_misses_nothing(stage, list, from);
    let at = first_concern(stage, list, from);
    if at >= list.len() {
        if let Some(next) = stage.following() {
            if next.is_fresh() {
                law_walk_goes_on_with_a_concern(next, fresh, 0, fresh);
            } else {
                lemma_resumed_same_list(next, list, 0, fresh, key, trade);
            }
        }
    }
}

/// A step after the offer was answered.
proof fn lemma_settled_turn(turn: Turn, key: Seq<char>, trade: PendingTrade, known: u64)
    requires
        settled(turn.before, turn.check, key, trade),
        turn.is_step(),
        turn.counts(key, known),
        !turn.before.simulation_mode,
        quiet(turn, key),
        !trade.sold,
        trade.buy_order_confirmed,
        trade.limit_sell_orders_placed,
        trade.confirmed_balance == Some(known),
    ensures
        turn.after.config == turn.before.config,
        turn.after.simulation_mode == turn.before.simulation_mode,
        !turn.orders(key),
        settled(turn.after, turn.progress.check, key, trade),
{
    reveal(Turn::is_step);
    reveal(settled);
    lemma_not_tracked_anew(turn, key);
    match turn.check {
        PendingCheck::Start => {
            let list = turn.before.pending.list();
            if turn.progress.check is Entry {
                law_walk_goes_on_with_a_concern(Stage::LimitFills, list, 0, list);
                lemma_fresh_holds_only(turn.before, key);
                lemma_after_offer(turn, list, 0, Stage::LimitFills, key, trade);
            }
        },
        PendingCheck::Entry { stage, entries, at, wait } => {
            let list = listing(entries@);
            let here = list[at as int];
            let visit = Visit { stage, key: here.0, trade: here.1 };
            let e = effect(turn.before, visit, wait, turn.reply);
            if here.0 != key {
                lemma_others_are_calm(turn.before, visit, wait, turn.reply, key);
            } else {
                assert(here.1 == trade);
                if let Wait::Buyers { price } = wait {
                    assert(sale(turn.before.config, key, trade, price) is None);
                }
            }
            if e.next is None && turn.progress.check is Entry {
                lemma_after_offer(turn, list, at + 1, stage, key, trade);
            }
        },
        _ => {},
    }
}

/// A check changes neither the configuration nor whether orders are simulated.
proof fn lemma_config_stays(turns: Seq<Turn>, i: int)
    requires
        is_whole_check(turns),
        0 <= i < turns.len(),
    ensures
        turns[i].before.config == turns[0].before.config,
        turns[i].before.simulation_mode == turns[0].before.simulation_mode,
        turns[i].after.config == turns[0].before.config,
        turns[i].after.simulation_mode == turns[0].before.simulation_mode,
    decreases i,
{
    reveal(Turn::is_step);
    assert(turns[i].is_step());
    if i > 0 {
        lemma_config_stays(turns, i - 1);
        assert(turns[i].before == turns[i - 1].after);
    }
}

/// Whether the first so many steps order nothing about the trade under a key.
spec fn unasked(turns: Seq<Turn>, count: int, key: Seq<char>) -> bool {
    forall|i: int| 0 <= i < count ==> !(#[trigger] turns[i]).orders(key)
}

/// Whether one of the first so many steps offers the trade under a key for sale, and no
/// other orders anything about it.
spec fn asked_once(turns: Seq<Turn>, count: int, key: Seq<char>, token_id: String) -> bool {
    exists|m: int| #[trigger] asked_at(turns, m, count, key, token_id)
}

/// Whether that step is the one at a place.
spec fn asked_at(turns: Seq<Turn>, m: int, count: int, key: Seq<char>, token_id: String) -> bool {
    &&& 0 <= m < count
    &&& turns[m].orders(key)
    &&& turns[m].offers(token_id)
    &&& turns[m].before.config == turns[0].before.config
    &&& forall|i: int| 0 <= i < count && i != m ==> !(#[trigger] turns[i]).orders(key)
}

/// A step that orders nothing about the trade leaves it ordered about once.
proof fn lemma_asked_once_stays(turns: Seq<Turn>, count: int, key: Seq<char>, token_id: String)
    requires
        count >= 1,
        asked_once(turns, count - 1, key, token_id),
        !turns[count - 1].orders(key),
    ensures
        asked_once(turns, count, key, token_id),
{
    let m = choose|m: int| #[trigger] asked_at(turns, m, count - 1, key, token_id);
    assert(asked_at(turns, m, count, key, token_id));
}

/// The step at which the trade is ordered about.
proof fn lemma_asked_now(turns: Seq<Turn>, count: int, key: Seq<char>, token_id: String)
    requires
        count >= 1,
        unasked(turns, count - 1, key),
        turns[count - 1].orders(key) ==> turns[count - 1].offers(token_id),
        turns[count - 1].before.config == turns[0].before.config,
    ensures
        turns[count - 1].orders(key) ==> asked_once(turns, count, key, token_id),
        !turns[count - 1].orders(key) ==> unasked(turns, count, key),
{
    if turns[count - 1].orders(key) {
        assert(asked_at(turns, count - 1, count, key, token_id));
    }
}

/// What the first check has done after so many steps.
proof fn lemma_offered_in_first(
    turns: Seq<Turn>,
    key: Seq<char>,
    trade: PendingTrade,
    known: u64,
    count: int,
)
    requires
        is_whole_check(turns),
        !turns[0].before.simulation_mode,
        turns[0].before.config.stop_loss_price is None,
        turns[0].before.pending@.contains_key(key),
        turns[0].before.pending@[key] == trade,
        !is_limit(key),
        !trade.sold,
        trade.buy_order_confirmed,
        !trade.limit_sell_orders_placed,
        trade.confirmed_balance == Some(known),
        forall|i: int| 0 <= i < turns.len() ==> (#[trigger] turns[i]).counts(key, known),
        1 <= count <= turns.len(),
    ensures
        turns[count - 1].after.config == turns[0].before.config,
        !turns[count - 1].after.simulation_mode,
        ({
            let last = turns[count - 1];
            let check = last.progress.check;
            ||| awaiting(last.after, check, key, trade, false) && unasked(turns, count, key)
            ||| awaiting(last.after, check, key, trade, true) && asked_once(
                turns,
                count,
                key,
                trade.token_id,
            )
            ||| settled(last.after, check, key, offered(trade)) && asked_once(
                turns,
                count,
                key,
                trade.token_id,
            )
        }),
    decreases count,
{
    let turn = turns[count - 1];
    assert(turn.is_step() && turn.counts(key, known));
    if count == 1 {
        assert(awaiting(turn.before, turn.check, key, trade, false)) by {
            reveal(awaiting);
        }
        lemma_awaiting_turn(turn, key, trade, known, false);
        lemma_asked_now(turns, count, key, trade.token_id);
    } else {
        lemma_offered_in_first(turns, key, trade, known, count - 1);
        assert(turn.before == turns[count - 2].after && turn.check == turns[count
            - 2].progress.check);
        if awaiting(turn.before, turn.check, key, trade, false) && unasked(turns, count - 1, key) {
            lemma_awaiting_turn(turn, key, trade, known, false);
            lemma_asked_now(turns, count, key, trade.token_id);
        } else if settled(turn.before, turn.check, key, offered(trade)) {
            lemma_settled_turn(turn, key, offered(trade), known);
            lemma_asked_once_stays(turns, count, key, trade.token_id);
        } else {
            lemma_awaiting_turn(turn, key, trade, known, true);
            lemma_asked_once_stays(turns, count, key, trade.token_id);
        }
    }
}

/// A check of a trade that was offered for sale orders nothing about it.
proof fn lemma_settled_in_second(
    turns: Seq<Turn>,
    key: Seq<char>,
    trade: PendingTrade,
    known: u64,
    count: int,
)
    requires
        is_whole_check(turns),
        !turns[0].before.simulation_mode,
        forall|i: int| 0 <= i < turns.len() ==> quiet(#[trigger] turns[i], key),
        turns[0].before.pending@.contains_key(key),
        turns[0].before.pending@[key] == trade,
        !trade.sold,
        trade.buy_order_confirmed,
        trade.limit_sell_orders_placed,
        trade.confirmed_balance == Some(known),
        forall|i: int| 0 <= i < turns.len() ==> (#[trigger] turns[i]).counts(key, known),
        1 <= count <= turns.len(),
    ensures
        turns[count - 1].after.config == turns[0].before.config,
        !turns[count - 1].after.simulation_mode,
        settled(turns[count - 1].after, turns[count - 1].progress.check, key, trade),
        forall|i: int| 0 <= i < count ==> !(#[trigger] turns[i]).orders(key),
    decreases count,
{
    let turn = turns[count - 1];
    if count > 1 {
        lemma_settled_in_second(turns, key, trade, known, count - 1);
        let previous = turns[count - 2];
        assert(turn.before == previous.after && turn.check == previous.progress.check);
    } else {
        assert(settled(turn.before, turn.check, key, trade)) by {
            reveal(settled);
        }
    }
    assert(quiet(turn, key));
    lemma_settled_turn(turn, key, trade, known);
}

/// Whether, where the shares of the trade under a key are asked for, so many are told.
pub open spec fn tells(turn: Turn, key: Seq<char>, shares: u64) -> bool {
    (turn.check matches PendingCheck::Entry { stage, entries, at, wait } && listing(
        entries@,
    )[at as int].0 == key && wait is First && stage != Stage::Sales && stage != Stage::Positions)
        ==> turn.reply.shares() == Some(shares)
}

/// A limit buy that is filled gets exactly one limit sell: over a check whose balances of
/// its token are all the same, higher number, those shares are offered for sale at the
/// trade's target, nothing else is ordered about it, and a second such check orders nothing
/// more, whether the order was taken or refused. One of an opposite token is meant to stay
/// above the stop-loss of its own and not to be tracked anew meanwhile.
pub proof fn law_a_filled_limit_buy_is_offered_once(
    first: Seq<Turn>,
    second: Seq<Turn>,
    key: Seq<char>,
    trade: PendingTrade,
    shares: u64,
)
    requires
        is_whole_check(first),
        is_whole_check(second),
        second[0].before == first.last().after,
        !first[0].before.simulation_mode,
        first[0].before.pending@.contains_key(key),
        first[0].before.pending@[key] == trade,
        is_limit(key),
        is_opposite(key) ==> forall|i: int|
            0 <= i < first.len() ==> undisturbed(#[trigger] first[i], key),
        is_opposite(key) ==> forall|i: int|
            0 <= i < second.len() ==> undisturbed(#[trigger] second[i], key),
        !trade.sold,
        !trade.buy_order_confirmed,
        !trade.no_sell,
        shares > last_shares(trade) + 1,
        forall|i: int| 0 <= i < first.len() ==> tells(#[trigger] first[i], key, shares),
        forall|i: int| 0 <= i < second.len() ==> tells(#[trigger] second[i], key, shares),
    ensures
        exists|m: int|
            0 <= m < first.len() && (#[trigger] first[m]).orders(key) && sells(
                first[m],
                trade,
                shares,
            ) && forall|i: int|
                0 <= i < first.len() && i != m ==> !(#[trigger] first[i]).orders(key),
        forall|i: int| 0 <= i < second.len() ==> !(#[trigger] second[i]).orders(key),
        first.last().after.pending@.contains_key(key),
        first.last().after.pending@[key] == (PendingTrade {
            units: shares,
            confirmed_balance: Some(shares),
            buy_order_confirmed: true,
            limit_sell_orders_placed: true,
            ..trade
        }),
        second.last().after.pending@.contains_key(key),
        second.last().after.pending@[key] == first.last().after.pending@[key],
{
    let count = first.len() as int;
    assert forall|i: int| 0 <= i < first.len() implies quiet(#[trigger] first[i], key) by {
        assert(is_opposite(key) ==> undisturbed(first[i], key));
    }
    lemma_filled_in_first(first, key, trade, shares, count);
    reveal(filling);
    reveal(settled);
    let m = choose|m: int| #[trigger] sold_at(first, m, count, key, trade, shares);
    assert(first[m].orders(key));
    assert forall|i: int| 0 <= i < second.len() implies (#[trigger] second[i]).counts(
        key,
        shares,
    ) && quiet(second[i], key) by {
        assert(tells(second[i], key, shares));
    }
    lemma_settled_in_second(
        second,
        key,
        offered(filled(trade, shares)),
        shares,
        second.len() as int,
    );
}

/// Whether shares of a trade are offered for sale, at its target.
pub open spec fn sells(turn: Turn, trade: PendingTrade, shares: u64) -> bool {
    &&& turn.progress.request matches Request::Limit(order)
    &&& order.token_id == trade.token_id
    &&& order.side == Side::Sell
    &&& order.size == shares
    &&& order.price == trade.sell_price
    &&& order.texts().size == plain(shares as nat, 6)
    &&& order.texts().price == plain_price(trade.sell_price as int)
}

/// The trade after so many shares arrived.
spec fn filled(trade: PendingTrade, shares: u64) -> PendingTrade {
    PendingTrade {
        units: shares,
        confirmed_balance: Some(shares),
        buy_order_confirmed: true,
        ..trade
    }
}

/// Whether the fill of the trade is yet to be noticed or, where it was `asked` for, the
/// answer to its limit sell is waited for.
#[verifier::opaque]
spec fn filling(
    trader: Trader,
    check: PendingCheck,
    key: Seq<char>,
    trade: PendingTrade,
    shares: u64,
    asked: bool,
) -> bool {
    &&& trader.pending@.contains_key(key)
    &&& trader.pending@[key] == if asked {
        filled(trade, shares)
    } else {
        trade
    }
    &&& match check {
        PendingCheck::Start => !asked,
        PendingCheck::Entry { stage, entries, at, wait } => {
            let list = listing(entries@);
            &&& stage == Stage::LimitFills
            &&& wait is First || wait is Offer
            &&& exists|p: int| #[trigger]
                entry_at(list, p, key, trade) && at <= p && (at < p ==> !asked) && (at == p
                    ==> asked == (wait is Offer))
        },
        _ => false,
    }
}

/// A walk that has not noticed the fill goes on to the trade.
proof fn lemma_resumed_filling(
    list: Listing,
    from: int,
    fresh: Listing,
    p: int,
    key: Seq<char>,
    trade: PendingTrade,
)
    requires
        0 <= from <= p,
        entry_at(list, p, key, trade),
        is_limit(key),
        !trade.sold,
        !trade.buy_order_confirmed,
    ensures
        resumed(Stage::LimitFills, list, from, fresh).0 matches Place::Entry {
            stage,
            list: l,
            at,
            wait,
        } && stage == Stage::LimitFills && l == list && wait is First && from <= at <= p,
        !(resumed(Stage::LimitFills, list, from, fresh).1 is Limit),
        !(resumed(Stage::LimitFills, list, from, fresh).1 is AtMarket),
{
    law_walk_misses_nothing(Stage::LimitFills, list, from);
    assert(Stage::LimitFills.concerns(list[p].0, list[p].1));
}

/// A walk over a list that holds the trade as it was before it was offered does not come to
/// it again; later walks leave it alone.
proof fn lemma_after_limit_offer(
    turn: Turn,
    list: Listing,
    p: int,
    key: Seq<char>,
    trade: PendingTrade,
    before: PendingTrade,
)
    requires
        turn.progress.check is Entry,
        turn.progress.check.wf(),
        turn.progress.check.is_at(
            resumed(Stage::LimitFills, list, p + 1, turn.after.pending.list()).0,
        ),
        turn.progress.request == resumed(
            Stage::LimitFills,
            list,
            p + 1,
            turn.after.pending.list(),
        ).1,
        turn.after.pending@.contains_key(key),
        turn.after.pending@[key] == trade,
        distinct(list),
        entry_at(list, p, key, before),
        is_limit(key),
        trade.buy_order_confirmed,
        trade.limit_sell_orders_placed,
    ensures
        passed(turn.after, turn.progress.check, key, trade),
        !turn.orders(key),
{
    reveal(passed);
    let fresh = turn.after.pending.list();
    let at = first_concern(Stage::LimitFills, list, p + 1);
    law_walk_misses_nothing(Stage::LimitFills, list, p + 1);
    assert forall|i: int| 0 <= i < list.len() && i != p implies (#[trigger] list[i]).0 != key by {
        if i < p {
            assert(list[i].0 != list[p].0);
        } else {
            assert(list[p].0 != list[i].0);
        }
    }
    if at >= list.len() {
        lemma_after_offers(turn, list, 0, key, trade);
    }
}

/// The walk over the offers passes over limit buys; later walks leave the trade alone.
proof fn lemma_after_offers(
    turn: Turn,
    list: Listing,
    from: int,
    key: Seq<char>,
    trade: PendingTrade,
)
    requires
        turn.progress.check is Entry,
        turn.progress.check.wf(),
        turn.progress.check.is_at(resumed(Stage::Offers, list, from, turn.after.pending.list()).0),
        turn.progress.request == resumed(
            Stage::Offers,
            list,
            from,
            turn.after.pending.list(),
        ).1,
        turn.after.pending@.contains_key(key),
        turn.after.pending@[key] == trade,
        0 <= from <= list.len(),
        is_limit(key),
        trade.buy_order_confirmed,
        trade.limit_sell_orders_placed,
    ensures
        passed(turn.after, turn.progress.check, key, trade),
        !turn.orders(key),
{
    reveal(passed);
    reveal(settled);
    let fresh = turn.after.pending.list();
    law_walk_misses_nothing(Stage::Offers, list, from);
    if first_concern(Stage::Offers, list, from) >= list.len() {
        law_walk_goes_on_with_a_concern(Stage::Refills, fresh, 0, fresh);
        lemma_fresh_holds_only(turn.after, key);
        lemma_resumed_settled(Stage::Refills, fresh, 0, fresh, key, trade);
    }
}

/// Whether the trade is offered for sale, and the check is past it: in the walk that noticed
/// its fill, in the one over the same list, or in a later one.
#[verifier::opaque]
spec fn passed(trader: Trader, check: PendingCheck, key: Seq<char>, trade: PendingTrade) -> bool {
    ||| settled(trader, check, key, trade)
    ||| {
        &&& trader.pending@.contains_key(key)
        &&& trader.pending@[key] == trade
        &&& check matches PendingCheck::Entry { stage, entries, at, wait }
        &&& wait is First || wait is Offer
        &&& listing(entries@)[at as int].0 != key
        &&& stage == Stage::Offers || (stage == Stage::LimitFills && exists|p: int|
            0 <= p < at && (#[trigger] listing(entries@)[p]).0 == key)
    }
}

/// A step before the limit sell was answered.
proof fn lemma_filling_turn(
    turn: Turn,
    key: Seq<char>,
    trade: PendingTrade,
    shares: u64,
    asked: bool,
)
    requires
        filling(turn.before, turn.check, key, trade, shares, asked),
        turn.is_step(),
        tells(turn, key, shares),
        !turn.before.simulation_mode,
        is_limit(key),
        quiet(turn, key),
        !trade.sold,
        !trade.buy_order_confirmed,
        !trade.no_sell,
        shares > last_shares(trade) + 1,
    ensures
        turn.after.config == turn.before.config,
        turn.after.simulation_mode == turn.before.simulation_mode,
        asked ==> !turn.orders(key),
        turn.orders(key) ==> sells(turn, trade, shares),
        filling(turn.after, turn.progress.check, key, trade, shares, asked || turn.orders(key)) || (
        asked && passed(turn.after, turn.progress.check, key, offered(filled(trade, shares)))),
{
    reveal(Turn::is_step);
    reveal(filling);
    lemma_not_tracked_anew(turn, key);
    match turn.check {
        PendingCheck::Start => {
            let list = turn.before.pending.list();
            let p = lemma_fresh_holds(turn.before, key);
            lemma_resumed_filling(list, 0, list, p, key, trade);
            let now = listing(turn.progress.check->entries@);
            assert(entry_at(now, p, key, trade));
        },
        PendingCheck::Entry { stage, entries, at, wait } => {
            let list = listing(entries@);
            let here = list[at as int];
            let visit = Visit { stage, key: here.0, trade: here.1 };
            let e = effect(turn.before, visit, wait, turn.reply);
            let p = choose|p: int| #[trigger]
                entry_at(list, p, key, trade) && at <= p && (at < p ==> !asked) && (at == p
                    ==> asked == (wait is Offer));
            let fresh = turn.after.pending.list();
            if at < p {
                assert(list[at as int].0 != list[p].0);
                lemma_others_are_calm(turn.before, visit, wait, turn.reply, key);
                if e.next is None {
                    lemma_resumed_filling(list, at + 1, fresh, p, key, trade);
                }
                assert(entry_at(listing(turn.progress.check->entries@), p, key, trade));
            } else if wait is First {
                assert(e.next is Some);
                assert(entry_at(listing(turn.progress.check->entries@), p, key, trade));
            } else {
                assert(e.next is None);
                if turn.progress.check is Entry {
                    lemma_after_limit_offer(
                        turn,
                        list,
                        p,
                        key,
                        offered(filled(trade, shares)),
                        trade,
                    );
                } else {
                    assert(turn.progress.check is Finished);
                    reveal(passed);
                    reveal(settled);
                }
            }
        },
        _ => {},
    }
}

/// A step after the limit sell was answered.
proof fn lemma_passed_turn(turn: Turn, key: Seq<char>, trade: PendingTrade, shares: u64)
    requires
        passed(turn.before, turn.check, key, trade),
        turn.is_step(),
        tells(turn, key, shares),
        shares >= 1,
        !turn.before.simulation_mode,
        is_limit(key),
        quiet(turn, key),
        !trade.sold,
        trade.buy_order_confirmed,
        trade.limit_sell_orders_placed,
        trade.confirmed_balance == Some(shares),
    ensures
        turn.after.config == turn.before.config,
        turn.after.simulation_mode == turn.before.simulation_mode,
        !turn.orders(key),
        passed(turn.after, turn.progress.check, key, trade),
{
    if settled(turn.before, turn.check, key, trade) {
        assert(turn.counts(key, shares));
        lemma_settled_turn(turn, key, trade, shares);
        reveal(passed);
    } else {
        reveal(Turn::is_step);
        reveal(passed);
        lemma_not_tracked_anew(turn, key);
        if let PendingCheck::Entry { stage, entries, at, wait } = turn.check {
            let list = listing(entries@);
            let here = list[at as int];
            let visit = Visit { stage, key: here.0, trade: here.1 };
            let e = effect(turn.before, visit, wait, turn.reply);
            lemma_others_are_calm(turn.before, visit, wait, turn.reply, key);
            if e.next is None {
                if turn.progress.check is Finished {
                    reveal(settled);
                } else if stage == Stage::LimitFills {
                    let p = choose|p: int| 0 <= p < at && (#[trigger] list[p]).0 == key;
                    law_walk_misses_nothing(stage, list, at + 1);
                    let next = first_concern(stage, list, at + 1);
                    if next >= list.len() {
                        lemma_after_offers(turn, list, 0, key, trade);
                    } else {
                        assert(list[p].0 != list[next].0);
                        assert(listing(turn.progress.check->entries@)[p].0 == key);
                    }
                } else {
                    lemma_after_offers(turn, list, at + 1, key, trade);
                }
            } else if stage == Stage::LimitFills {
                let p = choose|p: int| 0 <= p < at && (#[trigger] list[p]).0 == key;
                assert(listing(turn.progress.check->entries@)[p].0 == key);
            }
        }
    }
}

/// Whether one of the first so many steps, at a place, offers the shares of the trade under
/// a key for sale, and no other orders anything about it.
spec fn sold_at(
    turns: Seq<Turn>,
    m: int,
    count: int,
    key: Seq<char>,
    trade: PendingTrade,
    shares: u64,
) -> bool {
    &&& 0 <= m < count
    &&& turns[m].orders(key)
    &&& sells(turns[m], trade, shares)
    &&& forall|i: int| 0 <= i < count && i != m ==> !(#[trigger] turns[i]).orders(key)
}

/// Whether there is such a step.
spec fn sold_once(
    turns: Seq<Turn>,
    count: int,
    key: Seq<char>,
    trade: PendingTrade,
    shares: u64,
) -> bool {
    exists|m: int| #[trigger] sold_at(turns, m, count, key, trade, shares)
}

/// One more step: it is the one that offers the shares, or it orders nothing.
proof fn lemma_sold_once(
    turns: Seq<Turn>,
    count: int,
    key: Seq<char>,
    trade: PendingTrade,
    shares: u64,
)
    requires
        count >= 1,
        turns[count - 1].orders(key) ==> sells(turns[count - 1], trade, shares),
    ensures
        unasked(turns, count - 1, key) && turns[count - 1].orders(key) ==> sold_once(
            turns,
            count,
            key,
            trade,
            shares,
        ),
        unasked(turns, count - 1, key) && !turns[count - 1].orders(key) ==> unasked(
            turns,
            count,
            key,
        ),
        sold_once(turns, count - 1, key, trade, shares) && !turns[count - 1].orders(key)
            ==> sold_once(turns, count, key, trade, shares),
{
    if unasked(turns, count - 1, key) && turns[count - 1].orders(key) {
        assert(sold_at(turns, count - 1, count, key, trade, shares));
    }
    if sold_once(turns, count - 1, key, trade, shares) && !turns[count - 1].orders(key) {
        let m = choose|m: int| #[trigger] sold_at(turns, m, count - 1, key, trade, shares);
        assert(sold_at(turns, m, count, key, trade, shares));
    }
}

/// What the first check has done after so many steps.
proof fn lemma_filled_in_first(
    turns: Seq<Turn>,
    key: Seq<char>,
    trade: PendingTrade,
    shares: u64,
    count: int,
)
    requires
        is_whole_check(turns),
        !turns[0].before.simulation_mode,
        turns[0].before.pending@.contains_key(key),
        turns[0].before.pending@[key] == trade,
        is_limit(key),
        forall|i: int| 0 <= i < turns.len() ==> quiet(#[trigger] turns[i], key),
        !trade.sold,
        !trade.buy_order_confirmed,
        !trade.no_sell,
        shares > last_shares(trade) + 1,
        forall|i: int| 0 <= i < turns.len() ==> tells(#[trigger] turns[i], key, shares),
        1 <= count <= turns.len(),
    ensures
        !turns[count - 1].after.simulation_mode,
        ({
            let last = turns[count - 1];
            let check = last.progress.check;
            ||| filling(last.after, check, key, trade, shares, false) && unasked(turns, count, key)
            ||| filling(last.after, check, key, trade, shares, true) && sold_once(
                turns,
                count,
                key,
                trade,
                shares,
            )
            ||| passed(last.after, check, key, offered(filled(trade, shares))) && sold_once(
                turns,
                count,
                key,
                trade,
                shares,
            )
        }),
        count == turns.len() ==> sold_once(turns, count, key, trade, shares) && settled(
            turns[count - 1].after,
            turns[count - 1].progress.check,
            key,
            offered(filled(trade, shares)),
        ),
    decreases count,
{
    let turn = turns[count - 1];
    assert(turn.is_step() && tells(turn, key, shares) && quiet(turn, key));
    if count == 1 {
        assert(filling(turn.before, turn.check, key, trade, shares, false)) by {
            reveal(filling);
        }
        assert(unasked(turns, 0, key));
        lemma_filling_turn(turn, key, trade, shares, false);
    } else {
        lemma_filled_in_first(turns, key, trade, shares, count - 1);
        assert(turn.before == turns[count - 2].after && turn.check == turns[count
            - 2].progress.check);
        if filling(turn.before, turn.check, key, trade, shares, false) && unasked(
            turns,
            count - 1,
            key,
        ) {
            lemma_filling_turn(turn, key, trade, shares, false);
        } else if passed(turn.before, turn.check, key, offered(filled(trade, shares))) {
            lemma_passed_turn(turn, key, offered(filled(trade, shares)), shares);
        } else {
            lemma_filling_turn(turn, key, trade, shares, true);
        }
    }
    lemma_sold_once(turns, count, key, trade, shares);
    if count == turns.len() {
        reveal(filling);
        reveal(passed);
    }
}

} // verus!

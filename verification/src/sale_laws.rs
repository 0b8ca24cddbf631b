//! What holds of every walk over the trades: which trades are asked about, and what follows
//! the answers.

use vstd::prelude::*;

use crate::book::first_of;
use crate::check_laws::{
    is_whole_check, law_questions_about_a_trade_end, law_walk_goes_on_with_a_concern,
    law_walk_misses_nothing, Turn,
};
use crate::checks::{first_concern, resumed, PendingCheck, Place, Sale, Stage, Visit, Wait};
use crate::decimal::Decimal;
use crate::events::Event;
use crate::exchange::{Failure, Fill, Reply, Request, Side};
use crate::models::PendingTrade;
use crate::money::gain;
use crate::text::{law_unique_texts_are_the_same_once, occurs_in, texts, unique};
use crate::trader::Trader;
use crate::trades::{has_key, law_trades_are_their_entries, listing, place_of, Listing};

verus! {

/// Whether an entry of a list is one of a key that a walk is concerned with.
spec fn concern_at(list: Listing, p: int, key: Seq<char>, stage: Stage) -> bool {
    0 <= p < list.len() && list[p].0 == key && stage.concerns(list[p].0, list[p].1)
}

/// Whether a walk over the trades can still come to the trade under a key.
#[verifier::opaque]
spec fn ahead(check: PendingCheck, key: Seq<char>, stage: Stage) -> bool {
    match check {
        PendingCheck::Finished => false,
        PendingCheck::Entry { stage: s, entries, at, wait } => {
            &&& s.walks_left() >= stage.walks_left()
            &&& s == stage ==> exists|p: int|
                at < p && #[trigger] concern_at(listing(entries@), p, key, stage)
            &&& s == Stage::LimitFills && stage == Stage::Offers ==> exists|p: int| #[trigger]
                concern_at(listing(entries@), p, key, stage)
        },
        _ => true,
    }
}

/// Whether the walk has come to the trade under a key and has just asked about it.
#[verifier::opaque]
spec fn asks(turn: Turn, key: Seq<char>, stage: Stage) -> bool {
    &&& turn.progress.check matches PendingCheck::Entry { stage: s, entries, at, wait }
    &&& s == stage
    &&& wait is First
    &&& listing(entries@)[at as int].0 == key
    &&& turn.progress.request == stage.question(listing(entries@)[at as int].1.token_id)
    &&& turn.after.pending@.contains_key(key)
}

/// Where the walks go on before they have come to a trade, they come to it or stay before it.
proof fn lemma_resumed_reaches(
    s: Stage,
    list: Listing,
    from: int,
    fresh: Listing,
    p: int,
    q: int,
    key: Seq<char>,
    stage: Stage,
)
    requires
        s.walks_left() >= stage.walks_left(),
        0 <= from,
        s == stage ==> from <= p && concern_at(list, p, key, stage),
        s == Stage::LimitFills && stage == Stage::Offers ==> concern_at(list, p, key, stage),
        concern_at(fresh, q, key, stage),
    ensures
        resumed(s, list, from, fresh).0 matches Place::Entry { stage: t, list: l, at, wait } && {
            &&& t.walks_left() >= stage.walks_left()
            &&& wait is First
            &&& 0 <= at < l.len()
            &&& resumed(s, list, from, fresh).1 == t.question(l[at].1.token_id)
            &&& t == stage ==> exists|k: int| at <= k && #[trigger] concern_at(l, k, key, stage)
            &&& t == Stage::LimitFills && stage == Stage::Offers ==> exists|k: int| #[trigger]
                concern_at(l, k, key, stage)
        },
    decreases s.walks_left(),
{
    law_walk_misses_nothing(s, list, from);
    let at = first_concern(s, list, from);
    if s == stage {
        assert(at <= p) by {
            if at > p {
                assert(!s.concerns(list[p].0, list[p].1));
            }
        }
        assert(concern_at(list, p, key, stage));
    } else if at >= list.len() {
        let next = s.following()->0;
        let l = if next.is_fresh() {
            fresh
        } else {
            list
        };
        lemma_resumed_reaches(
            next,
            l,
            0,
            fresh,
            if next.is_fresh() {
                q
            } else {
                p
            },
            q,
            key,
            stage,
        );
    } else if s == Stage::LimitFills && stage == Stage::Offers {
        assert(concern_at(list, p, key, stage));
    }
}

/// The trades as they are hold the trade under a key somewhere.
proof fn lemma_holds(trader: Trader, key: Seq<char>, stage: Stage) -> (p: int)
    requires
        trader.pending@.contains_key(key),
        stage.concerns(key, trader.pending@[key]),
    ensures
        concern_at(trader.pending.list(), p, key, stage),
{
    let list = trader.pending.list();
    law_trades_are_their_entries(trader.pending);
    assert(has_key(list, key));
    place_of(list, key)
}

/// A step before the trade is asked about leads to it or stays before it.
proof fn lemma_ahead_turn(turn: Turn, key: Seq<char>, stage: Stage)
    requires
        turn.is_step(),
        ahead(turn.check, key, stage),
        turn.check is Start ==> !turn.before.simulation_mode && stage != Stage::Positions,
        !(turn.check is Orders),
        turn.before.pending@.contains_key(key),
        turn.after.pending@.contains_key(key),
        stage.concerns(key, turn.before.pending@[key]),
        stage.concerns(key, turn.after.pending@[key]),
    ensures
        asks(turn, key, stage) || ahead(turn.progress.check, key, stage),
{
    reveal(Turn::is_step);
    reveal(ahead);
    reveal(asks);
    let fresh = turn.after.pending.list();
    let q = lemma_holds(turn.after, key, stage);
    match turn.check {
        PendingCheck::Start => {
            lemma_resumed_reaches(Stage::LimitFills, fresh, 0, fresh, q, q, key, stage);
            lemma_came(turn, Stage::LimitFills, fresh, 0, key, stage);
        },
        PendingCheck::Filling => {
            lemma_resumed_reaches(Stage::Positions, fresh, 0, fresh, q, q, key, stage);
            lemma_came(turn, Stage::Positions, fresh, 0, key, stage);
        },
        PendingCheck::Entry { stage: s, entries, at, wait } => {
            let list = listing(entries@);
            let p = choose|p: int|
                (s == stage ==> at < p) && #[trigger] concern_at(list, p, key, stage);
            if turn.progress.check.is_at(resumed(s, list, at + 1, fresh).0) && turn.progress.request
                == resumed(s, list, at + 1, fresh).1 {
                lemma_resumed_reaches(s, list, at + 1, fresh, p, q, key, stage);
                lemma_came(turn, s, list, at + 1, key, stage);
            } else {
                let now = turn.progress.check;
                assert(now is Entry && listing(now->entries@) == list && now->stage == s
                    && now->Entry_at == at);
            }
        },
        _ => {},
    }
}

/// Where the walks have gone on before a trade, it is asked about or still ahead.
proof fn lemma_came(
    turn: Turn,
    s: Stage,
    list: Listing,
    from: int,
    key: Seq<char>,
    stage: Stage,
)
    requires
        turn.progress.check.wf(),
        turn.progress.check.is_at(resumed(s, list, from, turn.after.pending.list()).0),
        turn.progress.request == resumed(s, list, from, turn.after.pending.list()).1,
        turn.after.pending@.contains_key(key),
        resumed(s, list, from, turn.after.pending.list()).0 matches Place::Entry {
            stage: t,
            list: l,
            at,
            wait,
        } && {
            &&& t.walks_left() >= stage.walks_left()
            &&& wait is First
            &&& 0 <= at < l.len()
            &&& resumed(s, list, from, turn.after.pending.list()).1 == t.question(
                l[at].1.token_id,
            )
            &&& t == stage ==> exists|k: int| at <= k && #[trigger] concern_at(l, k, key, stage)
            &&& t == Stage::LimitFills && stage == Stage::Offers ==> exists|k: int| #[trigger]
                concern_at(l, k, key, stage)
        },
    ensures
        asks(turn, key, stage) || ahead(turn.progress.check, key, stage),
{
    reveal(ahead);
    reveal(asks);
    let now = turn.progress.check;
    let l = listing(now->entries@);
    if now->stage == stage {
        let k = choose|k: int|
            now->Entry_at <= k && #[trigger] concern_at(l, k, key, stage);
        if k > now->Entry_at {
            assert(concern_at(l, k, key, stage));
        }
    }
}

/// Of the first steps, one asks about the trade, or it is still ahead.
proof fn lemma_asked_or_ahead(turns: Seq<Turn>, from: int, count: int, key: Seq<char>, stage: Stage)
    requires
        is_whole_check(turns),
        0 <= from < count <= turns.len(),
        turns[from].check is Filling || (turns[from].check is Start
            && !turns[from].before.simulation_mode && stage != Stage::Positions),
        forall|i: int|
            from <= i < turns.len() ==> (#[trigger] turns[i]).before.pending@.contains_key(key)
                && stage.concerns(key, turns[i].before.pending@[key]),
        turns.last().after.pending@.contains_key(key),
        stage.concerns(key, turns.last().after.pending@[key]),
    ensures
        (exists|i: int| from <= i < count && asks(#[trigger] turns[i], key, stage)) || (ahead(
            turns[count - 1].progress.check,
            key,
            stage,
        ) && walking(turns[count - 1].progress.check)),
    decreases count,
{
    let turn = turns[count - 1];
    assert(turn.is_step());
    assert(turn.after.pending@.contains_key(key) && stage.concerns(key, turn.after.pending@[key]))
        by {
        if count < turns.len() {
            assert(turns[count].before == turns[count - 1].after);
        }
    }
    if count - 1 == from {
        assert(ahead(turn.check, key, stage)) by {
            reveal(ahead);
        }
        lemma_ahead_turn(turn, key, stage);
        lemma_walking(turn);
    } else {
        lemma_asked_or_ahead(turns, from, count - 1, key, stage);
        if !(exists|i: int| from <= i < count - 1 && asks(#[trigger] turns[i], key, stage)) {
            assert(turn.check == turns[count - 2].progress.check);
            lemma_ahead_turn(turn, key, stage);
            lemma_walking(turn);
        } else {
            let i = choose|i: int| from <= i < count - 1 && asks(#[trigger] turns[i], key, stage);
            assert(asks(turns[i], key, stage));
        }
    }
}

/// Whether the trades are being walked over, or that is over.
spec fn walking(check: PendingCheck) -> bool {
    check is Entry || check is Finished
}

/// Once the walks have begun they go on to the end.
proof fn lemma_walking(turn: Turn)
    requires
        turn.is_step(),
        walking(turn.check) || turn.check is Filling || (turn.check is Start
            && !turn.before.simulation_mode),
    ensures
        walking(turn.progress.check),
{
    reveal(Turn::is_step);
}

/// A walk asks about every trade that it is concerned with.
proof fn lemma_every_concern_is_asked(turns: Seq<Turn>, from: int, key: Seq<char>, stage: Stage)
    -> (i: int)
    requires
        is_whole_check(turns),
        0 <= from < turns.len(),
        turns[from].check is Filling || (turns[from].check is Start
            && !turns[from].before.simulation_mode && stage != Stage::Positions),
        forall|i: int|
            from <= i < turns.len() ==> (#[trigger] turns[i]).before.pending@.contains_key(key)
                && stage.concerns(key, turns[i].before.pending@[key]),
        turns.last().after.pending@.contains_key(key),
        stage.concerns(key, turns.last().after.pending@[key]),
    ensures
        0 <= i < turns.len(),
        asks(turns[i], key, stage),
{
    lemma_asked_or_ahead(turns, from, turns.len() as int, key, stage);
    assert(!ahead(turns.last().progress.check, key, stage)) by {
        reveal(ahead);
    }
    choose|i: int| from <= i < turns.len() && asks(#[trigger] turns[i], key, stage)
}

/// Whether a step ends with a question about the trade under a key.
pub open spec fn is_question_about(turn: Turn, key: Seq<char>, request: Request) -> bool {
    &&& turn.progress.check matches PendingCheck::Entry { entries, at, wait, .. }
    &&& wait is First
    &&& listing(entries@)[at as int].0 == key
    &&& turn.progress.request == request
}

/// A check asks what every trade sells for that stays unsold.
pub proof fn law_every_unsold_trade_is_priced(turns: Seq<Turn>, key: Seq<char>)
    requires
        is_whole_check(turns),
        !turns[0].before.simulation_mode,
        forall|i: int|
            0 <= i < turns.len() ==> (#[trigger] turns[i]).before.pending@.contains_key(key)
                && !turns[i].before.pending@[key].sold,
        turns.last().after.pending@.contains_key(key),
        !turns.last().after.pending@[key].sold,
    ensures
        exists|i: int|
            0 <= i < turns.len() && exists|token_id: String|
                is_question_about(#[trigger] turns[i], key, (Request::Price { token_id })),
{
    let i = lemma_every_concern_is_asked(turns, 0, key, Stage::Sales);
    reveal(asks);
    let list = listing(turns[i].progress.check->entries@);
    let token_id = list[turns[i].progress.check->Entry_at as int].1.token_id;
    assert(is_question_about(turns[i], key, (Request::Price { token_id })));
}

/// A check asks how many shares are held of every limit buy that stays unsold and
/// unconfirmed, of every market buy that stays unsold, confirmed and unoffered, of every
/// trade that stays unsold, confirmed and offered, and of every trade at all.
pub proof fn law_the_shares_of_every_trade_are_counted(turns: Seq<Turn>, key: Seq<char>)
    requires
        is_whole_check(turns),
        !turns[0].before.simulation_mode,
        forall|i: int|
            0 <= i < turns.len() ==> (#[trigger] turns[i]).before.pending@.contains_key(key),
        turns.last().after.pending@.contains_key(key),
    ensures
        exists|i: int| 0 <= i < turns.len() && counts_at(#[trigger] turns[i], key, Stage::Refills),
        occurs_in(key, "_limit"@) && (forall|i: int|
            0 <= i < turns.len() ==> !(#[trigger] turns[i]).before.pending@[key].sold
                && !turns[i].before.pending@[key].buy_order_confirmed)
            && !turns.last().after.pending@[key].sold
            && !turns.last().after.pending@[key].buy_order_confirmed ==> exists|i: int|
            0 <= i < turns.len() && counts_at(#[trigger] turns[i], key, Stage::LimitFills),
        !occurs_in(key, "_limit"@) && (forall|i: int|
            0 <= i < turns.len() ==> !(#[trigger] turns[i]).before.pending@[key].sold
                && turns[i].before.pending@[key].buy_order_confirmed
                && !turns[i].before.pending@[key].limit_sell_orders_placed)
            && !turns.last().after.pending@[key].sold
            && turns.last().after.pending@[key].buy_order_confirmed
            && !turns.last().after.pending@[key].limit_sell_orders_placed ==> exists|i: int|
            0 <= i < turns.len() && counts_at(#[trigger] turns[i], key, Stage::Offers),
        (forall|i: int|
            0 <= i < turns.len() ==> !(#[trigger] turns[i]).before.pending@[key].sold
                && turns[i].before.pending@[key].buy_order_confirmed
                && turns[i].before.pending@[key].limit_sell_orders_placed)
            && !turns.last().after.pending@[key].sold
            && turns.last().after.pending@[key].buy_order_confirmed
            && turns.last().after.pending@[key].limit_sell_orders_placed ==> exists|i: int|
            0 <= i < turns.len() && counts_at(#[trigger] turns[i], key, Stage::SellFills),
{
    let last = turns.last().after.pending@[key];
    lemma_counts(turns, key, Stage::Refills);
    if occurs_in(key, "_limit"@) && (forall|i: int|
        0 <= i < turns.len() ==> !(#[trigger] turns[i]).before.pending@[key].sold
            && !turns[i].before.pending@[key].buy_order_confirmed) && !last.sold
        && !last.buy_order_confirmed {
        lemma_counts(turns, key, Stage::LimitFills);
    }
    if !occurs_in(key, "_limit"@) && (forall|i: int|
        0 <= i < turns.len() ==> !(#[trigger] turns[i]).before.pending@[key].sold
            && turns[i].before.pending@[key].buy_order_confirmed
            && !turns[i].before.pending@[key].limit_sell_orders_placed) && !last.sold
        && last.buy_order_confirmed && !last.limit_sell_orders_placed {
        lemma_counts(turns, key, Stage::Offers);
    }
    if (forall|i: int|
        0 <= i < turns.len() ==> !(#[trigger] turns[i]).before.pending@[key].sold
            && turns[i].before.pending@[key].buy_order_confirmed
            && turns[i].before.pending@[key].limit_sell_orders_placed) && !last.sold
        && last.buy_order_confirmed && last.limit_sell_orders_placed {
        lemma_counts(turns, key, Stage::SellFills);
    }
}

/// Whether a step ends with the question how many shares are held of the trade under a key, in
/// a walk.
pub open spec fn counts_at(turn: Turn, key: Seq<char>, stage: Stage) -> bool {
    &&& turn.progress.check matches PendingCheck::Entry { stage: s, entries, at, wait }
    &&& s == stage
    &&& wait is First
    &&& listing(entries@)[at as int].0 == key
    &&& turn.progress.request == (Request::Balance {
        token_id: listing(entries@)[at as int].1.token_id,
    })
}

/// A walk that counts shares counts those of every trade that it is concerned with.
proof fn lemma_counts(turns: Seq<Turn>, key: Seq<char>, stage: Stage)
    requires
        is_whole_check(turns),
        !turns[0].before.simulation_mode,
        stage == Stage::LimitFills || stage == Stage::Offers || stage == Stage::Refills || stage
            == Stage::SellFills,
        forall|i: int|
            0 <= i < turns.len() ==> (#[trigger] turns[i]).before.pending@.contains_key(key)
                && stage.concerns(key, turns[i].before.pending@[key]),
        turns.last().after.pending@.contains_key(key),
        stage.concerns(key, turns.last().after.pending@[key]),
    ensures
        exists|i: int| 0 <= i < turns.len() && counts_at(#[trigger] turns[i], key, stage),
{
    let i = lemma_every_concern_is_asked(turns, 0, key, stage);
    reveal(asks);
    assert(counts_at(turns[i], key, stage));
}

/// A check in a simulation that fills its orders asks about every trade that stays unsold and
/// unconfirmed whether there is a position, and what every trade sells for that stays
/// unsold.
pub proof fn law_every_simulated_trade_is_looked_at(turns: Seq<Turn>, from: int, key: Seq<char>)
    requires
        is_whole_check(turns),
        0 <= from < turns.len(),
        turns[from].check is Filling,
        forall|i: int|
            from <= i < turns.len() ==> (#[trigger] turns[i]).before.pending@.contains_key(key)
                && !turns[i].before.pending@[key].sold,
        turns.last().after.pending@.contains_key(key),
        !turns.last().after.pending@[key].sold,
    ensures
        exists|i: int|
            0 <= i < turns.len() && exists|token_id: String|
                is_question_about(#[trigger] turns[i], key, (Request::Price { token_id })),
        (forall|i: int|
            from <= i < turns.len()
                ==> !(#[trigger] turns[i]).before.pending@[key].buy_order_confirmed)
            && !turns.last().after.pending@[key].buy_order_confirmed ==> exists|i: int|
            0 <= i < turns.len() && exists|token_id: String|
                is_question_about(#[trigger] turns[i], key, (Request::Position { token_id })),
{
    let i = lemma_every_concern_is_asked(turns, from, key, Stage::Sales);
    reveal(asks);
    let list = listing(turns[i].progress.check->entries@);
    let token_id = list[turns[i].progress.check->Entry_at as int].1.token_id;
    assert(is_question_about(turns[i], key, (Request::Price { token_id })));
    if (forall|i: int|
        from <= i < turns.len() ==> !(#[trigger] turns[i]).before.pending@[key].buy_order_confirmed)
        && !turns.last().after.pending@[key].buy_order_confirmed {
        let k = lemma_every_concern_is_asked(turns, from, key, Stage::Positions);
        let list = listing(turns[k].progress.check->entries@);
        let token_id = list[turns[k].progress.check->Entry_at as int].1.token_id;
        assert(is_question_about(turns[k], key, (Request::Position { token_id })));
    }
}

/// Whether a step takes the reply to what a walk asked of a trade.
pub open spec fn is_about(
    turn: Turn,
    stage: Stage,
    key: Seq<char>,
    trade: PendingTrade,
    wait: Wait,
) -> bool {
    &&& turn.is_step()
    &&& turn.check matches PendingCheck::Entry { stage: s, entries, at, wait: w }
    &&& s == stage
    &&& listing(entries@)[at as int] == (key, trade)
    &&& w == wait
}

/// Whether a step leaves the trades and the profit as they are.
pub open spec fn changes_nothing(turn: Turn) -> bool {
    &&& turn.after.pending@ == turn.before.pending@
    &&& turn.after.total_profit == turn.before.total_profit
}

/// Whether a step neither orders anything nor looks at what is held for an order.
pub open spec fn sells_nothing(turn: Turn) -> bool {
    &&& !(turn.progress.request is Limit)
    &&& !(turn.progress.request is AtMarket)
    &&& !(turn.progress.request is RefreshAllowance)
    &&& !(turn.progress.request is Holding)
}

/// Where a walk goes on to another entry, it orders nothing about it yet.
proof fn lemma_going_on_sells_nothing(stage: Stage, list: Listing, from: int, fresh: Listing)
    requires
        0 <= from,
    ensures
        ({
            let request = resumed(stage, list, from, fresh).1;
            &&& !(request is Limit)
            &&& !(request is AtMarket)
            &&& !(request is RefreshAllowance)
            &&& !(request is Holding)
            &&& !(request is Wait)
            &&& !(request is Market)
            &&& !(request is CycleCompleted)
            &&& !(request is BestPrice)
        }),
{
    law_walk_goes_on_with_a_concern(stage, list, from, fresh);
}

/// When a price is known and there may be a buyer, a position is sold exactly where it is not
/// left to the closure of its market and one of these holds: it is of an opposite token and the
/// price is at most a dollar less the stop-loss price less a tenth; it is a market buy offered
/// for sale and the price is at most the stop-loss price; it is a market buy not offered for
/// sale and the price is below the stop-loss price; or it is not offered for sale and the
/// price is at least its target or a dollar.
pub proof fn law_when_a_position_is_sold(
    turn: Turn,
    key: Seq<char>,
    trade: PendingTrade,
    price: Decimal,
)
    requires
        is_about(turn, Stage::Sales, key, trade, (Wait::Buyers { price })),
    ensures
        changes_nothing(turn),
        !(turn.progress.request is Limit),
        !(turn.progress.request is AtMarket),
        !(turn.progress.request is RefreshAllowance),
        (turn.reply matches Reply::BestPrice(Some(Some(best))) && best.bid is None) ==> !(
        turn.progress.request is Holding),
        (turn.reply matches Reply::BestPrice(Some(None))) ==> !(turn.progress.request is Holding),
        !(turn.reply matches Reply::BestPrice(Some(Some(best))) && best.bid is None) && !(
        turn.reply matches Reply::BestPrice(Some(None))) ==> (turn.progress.request == (
        Request::Holding { token_id: trade.token_id }) <==> {
            let stop = turn.before.config.stop_loss_price;
            let opposite = occurs_in(key, "_opposite_"@);
            let limit = occurs_in(key, "_limit"@);
            &&& !trade.claim_on_closure
            &&& {
                ||| opposite && stop is Some && price.at_most(1_000_000 - stop->0 - 100_000)
                ||| trade.limit_sell_orders_placed && !opposite && !limit && stop is Some
                    && price.at_most(stop->0 as int)
                ||| !trade.limit_sell_orders_placed && !limit && stop is Some && price.below(
                    stop->0 as int,
                )
                ||| !trade.limit_sell_orders_placed && (!price.below(trade.sell_price as int)
                    || !price.below(1_000_000))
            }
        }),
        turn.progress.request is Holding ==> turn.progress.request == (Request::Holding {
            token_id: trade.token_id,
        }),
{
    reveal(Turn::is_step);
    let at = turn.check->Entry_at as int;
    lemma_going_on_sells_nothing(
        Stage::Sales,
        listing(turn.check->entries@),
        at + 1,
        turn.after.pending.list(),
    );
}

/// The reason for which a position is sold: an opposite token at its own stop-loss, else at
/// the stop-loss price that is configured, else at its target.
pub proof fn law_why_a_position_is_sold(
    turn: Turn,
    key: Seq<char>,
    trade: PendingTrade,
    price: Decimal,
)
    requires
        is_about(turn, Stage::Sales, key, trade, (Wait::Buyers { price })),
        turn.progress.request is Holding,
    ensures
        turn.progress.check matches PendingCheck::Entry { wait, .. } && (
        wait matches Wait::Holding { price: p, sale } && p == price && {
            let stop = turn.before.config.stop_loss_price;
            let own = occurs_in(key, "_opposite_"@) && stop is Some && price.at_most(
                1_000_000 - stop->0 - 100_000,
            );
            let falls = !own && stop is Some && !occurs_in(key, "_limit"@) && (
            trade.limit_sell_orders_placed || price.below(stop->0 as int));
            &&& own ==> sale is OppositeStop
            &&& falls ==> sale == (Sale::StopLoss { stop: stop->0 })
            &&& !own && !falls ==> sale is Target
        }),
{
    reveal(Turn::is_step);
    let at = turn.check->Entry_at as int;
    lemma_going_on_sells_nothing(
        Stage::Sales,
        listing(turn.check->entries@),
        at + 1,
        turn.after.pending.list(),
    );
}

/// What is sold is what is held, or what the trade knows of where that is more; where both are
/// nothing, the position is passed over. The allowance is looked up again before the order.
pub proof fn law_the_larger_number_of_shares_is_sold(
    turn: Turn,
    key: Seq<char>,
    trade: PendingTrade,
    price: Decimal,
    sale: Sale,
)
    requires
        is_about(turn, Stage::Sales, key, trade, (Wait::Holding { price, sale })),
        !turn.before.simulation_mode,
    ensures
        changes_nothing(turn),
        ({
            let held = match turn.reply {
                Reply::Balance(Some(shares)) => shares,
                _ => 0,
            };
            if held == 0 && trade.units == 0 {
                sells_nothing(turn)
            } else {
                &&& turn.progress.request == (Request::RefreshAllowance {
                    token_id: trade.token_id,
                })
                &&& turn.progress.check matches PendingCheck::Entry { wait, .. }
                &&& wait matches Wait::Refresh { price: p, sale: s, units, attempt, rounds }
                &&& p == price && s == sale && attempt == 1 && rounds == 1
                &&& units >= held && units >= trade.units
                &&& units == held || units == trade.units
            }
        }),
{
    reveal(Turn::is_step);
    let at = turn.check->Entry_at as int;
    lemma_going_on_sells_nothing(
        Stage::Sales,
        listing(turn.check->entries@),
        at + 1,
        turn.after.pending.list(),
    );
}

/// After the last look at the allowance, and half a second where it could be looked up, the
/// shares are ordered to be sold at the market, as many as there are buyers for. Before any
/// but the first attempt the allowance is looked up twice.
pub proof fn law_a_sale_is_ordered_after_its_allowance(
    turn: Turn,
    key: Seq<char>,
    trade: PendingTrade,
    price: Decimal,
    sale: Sale,
    units: u64,
    attempt: u32,
    rounds: u32,
)
    requires
        is_about(
            turn,
            Stage::Sales,
            key,
            trade,
            (Wait::Refresh { price, sale, units, attempt, rounds }),
        ) || is_about(
            turn,
            Stage::Sales,
            key,
            trade,
            (Wait::Settle { price, sale, units, attempt, rounds }),
        ),
        rounds == 1 || rounds == 2,
    ensures
        changes_nothing(turn),
        turn.check->wait is Refresh && (turn.reply matches Reply::Refreshed(done) && done)
            ==> turn.progress.request == (Request::Wait { milliseconds: 500 })
            && turn.progress.check->wait == (Wait::Settle {
            price,
            sale,
            units,
            attempt,
            rounds,
        }),
        turn.check->wait is Settle || !(turn.reply matches Reply::Refreshed(done) && done) ==> if rounds
            == 2 {
            turn.progress.request == (Request::RefreshAllowance { token_id: trade.token_id })
                && turn.progress.check->wait == (Wait::Refresh {
                price,
                sale,
                units,
                attempt,
                rounds: 1,
            })
        } else {
            turn.progress.request == (Request::AtMarket {
                token_id: trade.token_id,
                amount: units,
                side: Side::Sell,
                fill: Fill::FillAndKill,
            }) && turn.progress.check->wait == (Wait::Sent { price, sale, units, attempt })
        },
{
    reveal(Turn::is_step);
}

/// A sale that was taken adds to the profit what the shares make at the price over what they
/// cost. A position that was sold at its target is gone; an opposite token that was sold at its
/// own stop-loss is marked as sold, with no shares left; after any other stop-loss the
/// opposite token is looked for.
pub proof fn law_a_sale_that_is_taken_is_booked(
    turn: Turn,
    key: Seq<char>,
    trade: PendingTrade,
    price: Decimal,
    sale: Sale,
    units: u64,
    attempt: u32,
)
    requires
        is_about(turn, Stage::Sales, key, trade, (Wait::Sent { price, sale, units, attempt })),
        turn.reply matches Reply::Order(Ok(_)),
    ensures
        ({
            let made = turn.before.total_profit + gain(
                units as int,
                price,
                trade.purchase_price as int,
            );
            i128::MIN <= made <= i128::MAX ==> turn.after.total_profit == made
        }),
        sale is Target ==> turn.after.pending@ == turn.before.pending@.remove(key),
        sale is Target && turn.before.tracks_cycles ==> turn.progress.request == (
        Request::CycleCompleted { token_type: trade.token_type }),
        !(sale is Target && turn.before.tracks_cycles) ==> !(turn.progress.request is CycleCompleted),
        sale is OppositeStop && turn.before.pending@.contains_key(key) ==> turn.after.pending@
            == turn.before.pending@.insert(
            key,
            PendingTrade {
                sold: true,
                confirmed_balance: Some(0),
                ..turn.before.pending@[key]
            },
        ),
        sale is StopLoss ==> turn.after.pending@ == turn.before.pending@ && turn.progress.request
            == (Request::Market { condition_id: trade.condition_id }),
        !(sale is StopLoss) ==> !(turn.progress.request is Market),
        sells_nothing(turn),
{
    reveal(Turn::is_step);
    let at = turn.check->Entry_at as int;
    lemma_going_on_sells_nothing(
        Stage::Sales,
        listing(turn.check->entries@),
        at + 1,
        turn.after.pending.list(),
    );
}

/// A sale that was refused makes no profit and changes no trade. At a stop-loss it is given up
/// for this check; at the target the price is asked again.
pub proof fn law_a_sale_that_is_refused_is_retried_at_the_target(
    turn: Turn,
    key: Seq<char>,
    trade: PendingTrade,
    price: Decimal,
    sale: Sale,
    units: u64,
    attempt: u32,
)
    requires
        is_about(turn, Stage::Sales, key, trade, (Wait::Sent { price, sale, units, attempt })),
        !(turn.reply matches Reply::Order(Ok(_))),
    ensures
        changes_nothing(turn),
        sells_nothing(turn),
        sale is Target ==> turn.progress.request == (Request::Price { token_id: trade.token_id })
            && turn.progress.check is Entry && (turn.progress.check->wait matches Wait::Requote {
            price: p,
            units: u,
            attempt: a,
            ..
        } && p == price && u == units && a == attempt),
{
    reveal(Turn::is_step);
    let at = turn.check->Entry_at as int;
    lemma_going_on_sells_nothing(
        Stage::Sales,
        listing(turn.check->entries@),
        at + 1,
        turn.after.pending.list(),
    );
}

/// After a refused sale at the target: on the twentieth attempt the position is left to the
/// closure of its market; before that, below the target it is left for now, and at the
/// target it is tried again after a second and a half, as the next attempt.
pub proof fn law_a_sale_is_tried_twenty_times(
    turn: Turn,
    key: Seq<char>,
    trade: PendingTrade,
    price: Decimal,
    units: u64,
    attempt: u32,
    failure: Option<Failure>,
)
    requires
        is_about(
            turn,
            Stage::Sales,
            key,
            trade,
            (Wait::Requote { price, units, attempt, failure }),
        ),
        turn.before.pending@.contains_key(key),
    ensures
        turn.after.total_profit == turn.before.total_profit,
        sells_nothing(turn),
        ({
            let now = match turn.reply {
                Reply::Price(Some(quote)) => quote,
                _ => price,
            };
            let after = turn.after.pending@;
            if attempt >= 20 {
                &&& after == turn.before.pending@.insert(
                    key,
                    PendingTrade { sell_attempts: attempt, claim_on_closure: true, ..trade },
                )
                &&& !(turn.progress.request is Wait)
            } else if now.below(trade.sell_price as int) {
                &&& after == turn.before.pending@.insert(
                    key,
                    PendingTrade { sell_attempts: attempt, ..turn.before.pending@[key] },
                )
                &&& !(turn.progress.request is Wait)
            } else {
                &&& after == turn.before.pending@
                &&& turn.progress.request == (Request::Wait { milliseconds: 1500 })
                &&& turn.progress.check is Entry
                &&& turn.progress.check->wait == (Wait::Pause { price: now, units, attempt })
            }
        }),
{
    reveal(Turn::is_step);
    let at = turn.check->Entry_at as int;
    lemma_going_on_sells_nothing(
        Stage::Sales,
        listing(turn.check->entries@),
        at + 1,
        turn.after.pending.list(),
    );
}

/// The next attempt is for the same shares, at the target, and looks at the allowance twice.
pub proof fn law_the_next_attempt_is_counted(
    turn: Turn,
    key: Seq<char>,
    trade: PendingTrade,
    price: Decimal,
    units: u64,
    attempt: u32,
)
    requires
        is_about(turn, Stage::Sales, key, trade, (Wait::Pause { price, units, attempt })),
        !turn.before.simulation_mode,
    ensures
        changes_nothing(turn),
        turn.progress.request == (Request::RefreshAllowance { token_id: trade.token_id }),
        turn.progress.check is Entry,
        turn.progress.check->wait matches Wait::Refresh { price: p, sale, units: u, attempt: a, rounds }
            && p == price && sale is Target && u == units && a == attempt + 1 && rounds == 2,
{
    reveal(Turn::is_step);
}

/// A price that is told is followed by the question whether somebody bids; without one the
/// trade is passed over.
pub proof fn law_a_price_is_followed_by_the_bids(turn: Turn, key: Seq<char>, trade: PendingTrade)
    requires
        is_about(turn, Stage::Sales, key, trade, Wait::First),
    ensures
        changes_nothing(turn),
        sells_nothing(turn),
        match turn.reply {
            Reply::Price(Some(price)) => {
                &&& turn.progress.request == (Request::BestPrice { token_id: trade.token_id })
                &&& turn.progress.check is Entry
                &&& turn.progress.check->wait == (Wait::Buyers { price })
            },
            _ => !(turn.progress.request is BestPrice),
        },
{
    reveal(Turn::is_step);
    let at = turn.check->Entry_at as int;
    lemma_going_on_sells_nothing(
        Stage::Sales,
        listing(turn.check->entries@),
        at + 1,
        turn.after.pending.list(),
    );
}

/// A trade that is offered for sale is marked as sold, with no shares left, exactly where none
/// are told of a token of which more than the smallest number was known.
pub proof fn law_a_filled_sell_closes_its_trade(turn: Turn, key: Seq<char>, trade: PendingTrade)
    requires
        is_about(turn, Stage::SellFills, key, trade, Wait::First),
        turn.before.pending@.contains_key(key),
    ensures
        turn.after.total_profit == turn.before.total_profit,
        sells_nothing(turn),
        turn.after.pending@ == if turn.reply == Reply::Balance(Some(0)) && (
        trade.confirmed_balance matches Some(known) && known > 1) {
            turn.before.pending@.insert(
                key,
                PendingTrade { sold: true, confirmed_balance: Some(0), ..turn.before.pending@[key] },
            )
        } else {
            turn.before.pending@
        },
{
    reveal(Turn::is_step);
    let at = turn.check->Entry_at as int;
    lemma_going_on_sells_nothing(
        Stage::SellFills,
        listing(turn.check->entries@),
        at + 1,
        turn.after.pending.list(),
    );
}

/// Where more shares are told than were known, by more than the smallest number, they are the
/// trade's from then on, and its buy is confirmed. They are offered for sale unless the trade
/// is kept from being sold: what was bought by a limit order at the trade's target, what
/// came in besides at the configured price.
pub proof fn law_shares_that_arrive_are_offered(
    turn: Turn,
    stage: Stage,
    key: Seq<char>,
    trade: PendingTrade,
)
    requires
        stage == Stage::LimitFills || stage == Stage::Refills,
        is_about(turn, stage, key, trade, Wait::First),
        turn.before.pending@.contains_key(key),
        !turn.before.simulation_mode,
    ensures
        turn.after.total_profit == turn.before.total_profit,
        ({
            let known = match trade.confirmed_balance {
                Some(b) => b as int,
                None => 0,
            };
            match turn.reply {
                Reply::Balance(Some(shares)) if shares > known + 1 => {
                    &&& turn.after.pending@ == turn.before.pending@.insert(
                        key,
                        PendingTrade {
                            buy_order_confirmed: true,
                            confirmed_balance: Some(shares),
                            units: shares,
                            limit_sell_orders_placed: turn.before.pending@[key].limit_sell_orders_placed
                                || (trade.no_sell && stage == Stage::LimitFills),
                            ..turn.before.pending@[key]
                        },
                    )
                    &&& trade.no_sell ==> sells_nothing(turn)
                    &&& !trade.no_sell ==> {
                        &&& turn.progress.request matches Request::Limit(order)
                        &&& order.token_id == trade.token_id
                        &&& order.side == Side::Sell
                        &&& order.size == shares
                        &&& stage == Stage::LimitFills ==> order.price == trade.sell_price
                            && !order.rounded
                        &&& stage == Stage::Refills ==> order.price
                            == turn.before.config.sell_price && order.rounded
                    }
                },
                _ => changes_nothing(turn) && sells_nothing(turn),
            }
        }),
{
    reveal(Turn::is_step);
    let at = turn.check->Entry_at as int;
    lemma_going_on_sells_nothing(
        stage,
        listing(turn.check->entries@),
        at + 1,
        turn.after.pending.list(),
    );
    assert(turn.before.pending@[key] == (PendingTrade { ..turn.before.pending@[key] }));
}

/// A trade is marked as offered for sale once its order was answered, whatever the answer was.
pub proof fn law_an_answered_offer_is_marked(
    turn: Turn,
    stage: Stage,
    key: Seq<char>,
    trade: PendingTrade,
    shares: u64,
)
    requires
        is_about(turn, stage, key, trade, (Wait::Offer { shares })),
        turn.before.pending@.contains_key(key),
    ensures
        turn.after.total_profit == turn.before.total_profit,
        sells_nothing(turn),
        turn.after.pending@ == turn.before.pending@.insert(
            key,
            PendingTrade { limit_sell_orders_placed: true, ..turn.before.pending@[key] },
        ),
{
    reveal(Turn::is_step);
    let at = turn.check->Entry_at as int;
    lemma_going_on_sells_nothing(
        stage,
        listing(turn.check->entries@),
        at + 1,
        turn.after.pending.list(),
    );
}

/// A simulated buy of which there is a position is confirmed, with the shares that it was for;
/// without one nothing changes.
pub proof fn law_a_simulated_position_confirms_its_buy(
    turn: Turn,
    key: Seq<char>,
    trade: PendingTrade,
)
    requires
        is_about(turn, Stage::Positions, key, trade, Wait::First),
        turn.before.pending@.contains_key(key),
    ensures
        turn.after.total_profit == turn.before.total_profit,
        sells_nothing(turn),
        turn.after.pending@ == if turn.reply == Reply::Position(true) {
            turn.before.pending@.insert(
                key,
                PendingTrade {
                    buy_order_confirmed: true,
                    confirmed_balance: Some(turn.before.pending@[key].units),
                    ..turn.before.pending@[key]
                },
            )
        } else {
            turn.before.pending@
        },
{
    reveal(Turn::is_step);
    let at = turn.check->Entry_at as int;
    lemma_going_on_sells_nothing(
        Stage::Positions,
        listing(turn.check->entries@),
        at + 1,
        turn.after.pending.list(),
    );
}

/// What is reported of a sale that was taken is of the trade's own side and period, at the
/// price and for the shares that were sold, and tells whether it was at a stop-loss.
pub proof fn law_a_sale_is_reported_as_it_was(
    turn: Turn,
    key: Seq<char>,
    trade: PendingTrade,
    price: Decimal,
    sale: Sale,
    units: u64,
    attempt: u32,
)
    requires
        is_about(turn, Stage::Sales, key, trade, (Wait::Sent { price, sale, units, attempt })),
    ensures
        !(turn.reply matches Reply::Order(Ok(_))) ==> turn.progress.events@.len() == 0,
        turn.reply matches Reply::Order(Ok(response)) ==> {
            &&& turn.progress.events@.len() == if sale is OppositeStop {
                2int
            } else {
                1
            }
            &&& turn.progress.events@[0] == (Event::Sold {
                stop_loss: !(sale is Target),
                token_type: trade.token_type,
                period: trade.market_timestamp,
                quote: price,
                units,
                purchase_price: trade.purchase_price,
                order_id: response.order_id,
            })
            &&& sale is OppositeStop ==> turn.progress.events@[1] == (Event::OppositeStopLoss {
                token_type: trade.token_type,
                period: trade.market_timestamp,
                token_id: trade.token_id,
                purchase_price: trade.purchase_price,
                quote: price,
                shares: units,
            })
        },
{
    reveal(Turn::is_step);
}

/// What is reported of a limit order that was taken is of its own token, price and size; of one
/// that was refused nothing is.
pub proof fn law_an_offer_is_reported_as_it_was(
    turn: Turn,
    stage: Stage,
    key: Seq<char>,
    trade: PendingTrade,
    shares: u64,
)
    requires
        is_about(turn, stage, key, trade, (Wait::Offer { shares })),
    ensures
        !(turn.reply matches Reply::Order(Ok(_))) ==> turn.progress.events@.len() == 0,
        turn.reply matches Reply::Order(Ok(response)) ==> {
            &&& turn.progress.events@.len() == 1
            &&& turn.progress.events@[0] matches Event::OrderPlaced {
                purpose,
                token_type,
                period,
                token_id,
                price,
                size,
                order_id,
            }
            &&& token_type == trade.token_type
            &&& period == trade.market_timestamp
            &&& token_id == trade.token_id
            &&& size == shares
            &&& order_id == response.order_id
            &&& stage == Stage::LimitFills ==> purpose is SellFilledBuy && price
                == trade.sell_price
            &&& stage != Stage::LimitFills ==> purpose is TakeProfit && price
                == turn.before.config.sell_price
        },
{
    reveal(Turn::is_step);
}

/// What is reported of a limit sell that was filled is of the trade's own token and prices, with
/// the shares that it last knew of, and tells whether the token was an opposite one.
pub proof fn law_a_filled_sell_is_reported_as_it_was(
    turn: Turn,
    key: Seq<char>,
    trade: PendingTrade,
)
    requires
        is_about(turn, Stage::SellFills, key, trade, Wait::First),
    ensures
        turn.reply == Reply::Balance(Some(0)) && (trade.confirmed_balance matches Some(known)
            && known > 1) ==> turn.progress.events@ == seq![
            Event::SellFilled {
                opposite: occurs_in(key, "_opposite_"@),
                token_type: trade.token_type,
                period: trade.market_timestamp,
                token_id: trade.token_id,
                purchase_price: trade.purchase_price,
                sell_price: trade.sell_price,
                shares: trade.confirmed_balance->0,
            },
        ],
        !(turn.reply == Reply::Balance(Some(0)) && (trade.confirmed_balance matches Some(known)
            && known > 1)) ==> turn.progress.events@.len() == 0,
{
    reveal(Turn::is_step);
}

/// What is reported of an order on an opposite token that was taken is of that token, of the
/// other side of the trade's market, at the price and of the size that were ordered.
pub proof fn law_a_hedge_is_reported_as_it_was(
    turn: Turn,
    key: Seq<char>,
    trade: PendingTrade,
    stop: u64,
    token_id: String,
    size: u64,
    held: bool,
)
    requires
        is_about(turn, Stage::Sales, key, trade, (Wait::Hedge { stop, token_id, size, held })),
        turn.reply matches Reply::Order(Ok(_)),
    ensures
        turn.progress.events@.len() == 1,
        turn.progress.events@[0] matches Event::OrderPlaced {
            purpose,
            token_type,
            period,
            token_id: id,
            price,
            size: s,
            ..
        } && {
            &&& token_type.asset() == trade.token_type.asset()
            &&& token_type.up() == !trade.token_type.up()
            &&& period == trade.market_timestamp
            &&& id == token_id
            &&& s == size
            &&& held ==> purpose is SellOpposite && price == 1_000_000 - stop + 100_000
            &&& !held ==> purpose is BuyOpposite && price == 1_000_000 - stop
        },
{
    reveal(Turn::is_step);
}

/// Which of the walks over the trades it is.
pub open spec fn walk_number(stage: Stage) -> int {
    match stage {
        Stage::Positions => 0,
        Stage::LimitFills => 1,
        Stage::Offers => 2,
        Stage::Refills => 3,
        Stage::SellFills => 4,
        Stage::Sales => 5,
    }
}

/// The walks come in their order: simulated buys are confirmed before limit buys are noticed,
/// these before market buys are offered, these before what came in besides is, that before
/// filled sells are noticed, and those before positions are sold. Within a walk no entry is
/// come to twice.
pub proof fn law_walks_come_in_order(turn: Turn)
    requires
        turn.is_step(),
        turn.progress.check is Entry,
    ensures
        turn.check is Start ==> walk_number(turn.progress.check->stage) >= 1,
        turn.check matches PendingCheck::Entry { stage, at, .. } ==> {
            &&& walk_number(turn.progress.check->stage) >= walk_number(stage)
            &&& turn.progress.check->stage == stage ==> turn.progress.check->Entry_at >= at
            &&& turn.progress.check->stage == stage && turn.progress.check->wait is First
                ==> turn.progress.check->Entry_at > at
        },
{
    reveal(Turn::is_step);
    let fresh = turn.after.pending.list();
    match turn.check {
        PendingCheck::Start => {
            law_walk_goes_on_with_a_concern(Stage::LimitFills, fresh, 0, fresh);
        },
        PendingCheck::Entry { stage, entries, at, wait } => {
            law_walk_goes_on_with_a_concern(stage, listing(entries@), at + 1, fresh);
            law_questions_about_a_trade_end(
                turn.before,
                Visit {
                    stage,
                    key: listing(entries@)[at as int].0,
                    trade: listing(entries@)[at as int].1,
                },
                wait,
                turn.reply,
            );
        },
        _ => {},
    }
}

/// In a simulation a check first asks for the tokens of the open orders, then for the order book
/// of each of them once, and then has the orders filled at the prices of the first levels of the
/// books that were told. Without open orders it is over.
pub proof fn law_simulated_orders_are_filled_at_the_first_prices(turn: Turn)
    requires
        turn.is_step(),
        turn.before.simulation_mode,
        !(turn.check is Entry),
    ensures
        changes_nothing(turn),
        turn.check is Start ==> turn.progress.request is OpenOrders && turn.progress.check is Orders,
        turn.check is Orders ==> match turn.reply {
            Reply::Tokens(list) if list@.len() > 0 => {
                &&& turn.progress.check matches PendingCheck::Quotes { tokens, at, prices }
                &&& at == 0
                &&& prices@.len() == 0
                &&& turn.progress.request == (Request::Book { token_id: tokens@[0] })
                &&& texts(tokens@).no_duplicates()
                &&& forall|text: Seq<char>| #[trigger]
                    texts(tokens@).contains(text) <==> texts(list@).contains(text)
            },
            _ => turn.progress.request is Finished && turn.progress.check is Finished,
        },
        turn.check matches PendingCheck::Quotes { tokens, at, prices } ==> {
            let known = match turn.progress.request {
                Request::FillOrders { prices: p } => p@,
                _ => turn.progress.check->prices@,
            };
            &&& at + 1 < tokens@.len() ==> turn.progress.request == (Request::Book {
                token_id: tokens@[at + 1],
            }) && turn.progress.check is Quotes && turn.progress.check->Quotes_at == at + 1
                && turn.progress.check->tokens == tokens
            &&& at + 1 >= tokens@.len() ==> turn.progress.request is FillOrders
                && turn.progress.check is Filling
            &&& match turn.reply {
                Reply::Book(Some(book)) => {
                    &&& known.len() == prices@.len() + 1
                    &&& known.take(prices@.len() as int) == prices@
                    &&& known.last().token_id == tokens@[at as int]
                    &&& match known.last().bid {
                        Some(price) => book.bids@.len() > 0 && book.bids@[0].price == price,
                        None => book.bids@.len() == 0,
                    }
                    &&& match known.last().ask {
                        Some(price) => book.asks@.len() > 0 && book.asks@[0].price == price,
                        None => book.asks@.len() == 0,
                    }
                },
                _ => known == prices@,
            }
        },
        turn.check is Filling ==> turn.progress.check is Entry || turn.progress.check is Finished,
{
    reveal(Turn::is_step);
    match turn.check {
        PendingCheck::Orders => {
            if let Reply::Tokens(list) = turn.reply {
                let all = texts(list@);
                law_unique_texts_are_the_same_once(all);
                assert(all.len() == list@.len());
                if list@.len() > 0 {
                    assert(all.contains(all[0]));
                    assert(unique(all).contains(all[0]));
                    assert(unique(all).len() > 0);
                } else {
                    assert(unique(all) =~= Seq::<Seq<char>>::empty());
                }
            }
        },
        PendingCheck::Quotes { tokens, at, prices } => {
            if let Reply::Book(Some(book)) = turn.reply {
                let known = prices@.push(first_of(tokens@[at as int], book));
                assert(known.take(prices@.len() as int) =~= prices@);
            }
        },
        _ => {},
    }
}

/// A sale that is given up for now, or for good, is reported where its price fell below the
/// target and it is known why it was refused: with that, the attempt, and the price at which it
/// stopped. Nothing else is reported after a refused sale.
pub proof fn law_a_stopped_sale_is_reported_as_it_was(
    turn: Turn,
    key: Seq<char>,
    trade: PendingTrade,
    price: Decimal,
    units: u64,
    attempt: u32,
    failure: Option<Failure>,
)
    requires
        is_about(
            turn,
            Stage::Sales,
            key,
            trade,
            (Wait::Requote { price, units, attempt, failure }),
        ),
    ensures
        ({
            let now = match turn.reply {
                Reply::Price(Some(quote)) => quote,
                _ => price,
            };
            turn.progress.events@ == if now.below(trade.sell_price as int) && failure is Some {
                seq![
                    Event::SellStopped {
                        token_type: trade.token_type,
                        period: trade.market_timestamp,
                        quote: now,
                        units,
                        purchase_price: trade.purchase_price,
                        attempt,
                        details: failure->0.details,
                    },
                ]
            } else {
                Seq::empty()
            }
        }),
{
    reveal(Turn::is_step);
}

/// Of a market buy that is confirmed and not yet offered, the shares that are told are offered
/// for sale at the configured price, unless there are none or nobody can tell.
pub proof fn law_confirmed_shares_are_offered(turn: Turn, key: Seq<char>, trade: PendingTrade)
    requires
        is_about(turn, Stage::Offers, key, trade, Wait::First),
        !turn.before.simulation_mode,
    ensures
        changes_nothing(turn),
        match turn.reply {
            Reply::Balance(Some(shares)) if shares >= 1 => {
                &&& turn.progress.request matches Request::Limit(order)
                &&& order.token_id == trade.token_id
                &&& order.side == Side::Sell
                &&& order.size == shares
                &&& order.price == turn.before.config.sell_price
                &&& order.rounded
                &&& turn.progress.check is Entry
                &&& turn.progress.check->wait == (Wait::Offer { shares })
            },
            _ => sells_nothing(turn),
        },
{
    reveal(Turn::is_step);
    let at = turn.check->Entry_at as int;
    lemma_going_on_sells_nothing(
        Stage::Offers,
        listing(turn.check->entries@),
        at + 1,
        turn.after.pending.list(),
    );
}

/// In a simulation, shares that arrive are noticed as otherwise, but nothing is offered; and a
/// position that is to be sold is sold on paper at once, with the profit that it makes.
pub proof fn law_a_simulation_sells_on_paper(
    turn: Turn,
    stage: Stage,
    key: Seq<char>,
    trade: PendingTrade,
    wait: Wait,
)
    requires
        is_about(turn, stage, key, trade, wait),
        turn.before.simulation_mode,
        turn.before.pending@.contains_key(key),
    ensures
        wait is First ==> sells_nothing(turn) && turn.after.total_profit
            == turn.before.total_profit,
        wait is First && stage == Stage::Refills ==> {
            let known = match trade.confirmed_balance {
                Some(b) => b as int,
                None => 0,
            };
            turn.after.pending@ == match turn.reply {
                Reply::Balance(Some(shares)) if shares > known + 1 => turn.before.pending@.insert(
                    key,
                    PendingTrade {
                        buy_order_confirmed: true,
                        confirmed_balance: Some(shares),
                        units: shares,
                        ..turn.before.pending@[key]
                    },
                ),
                _ => turn.before.pending@,
            }
        },
        wait matches Wait::Holding { price, sale } ==> {
            let held = match turn.reply {
                Reply::Balance(Some(shares)) => shares,
                _ => 0,
            };
            let units = if held > trade.units {
                held
            } else {
                trade.units
            };
            let made = turn.before.total_profit + gain(
                units as int,
                price,
                trade.purchase_price as int,
            );
            &&& sells_nothing(turn)
            &&& units > 0 && i128::MIN <= made <= i128::MAX ==> turn.after.total_profit == made
            &&& units == 0 ==> changes_nothing(turn)
            &&& units > 0 && sale is Target ==> turn.after.pending@
                == turn.before.pending@.remove(key)
            &&& turn.progress.events@.len() == if units > 0 && sale is OppositeStop {
                1int
            } else {
                0
            }
        },
{
    reveal(Turn::is_step);
    let at = turn.check->Entry_at as int;
    lemma_going_on_sells_nothing(
        stage,
        listing(turn.check->entries@),
        at + 1,
        turn.after.pending.list(),
    );
}

/// Once the detector was told of a completed cycle, the walk goes on and nothing changes.
pub proof fn law_a_told_cycle_changes_nothing(
    turn: Turn,
    stage: Stage,
    key: Seq<char>,
    trade: PendingTrade,
)
    requires
        is_about(turn, stage, key, trade, Wait::Told),
    ensures
        changes_nothing(turn),
        sells_nothing(turn),
        turn.progress.events@.len() == 0,
{
    reveal(Turn::is_step);
    let at = turn.check->Entry_at as int;
    lemma_going_on_sells_nothing(
        stage,
        listing(turn.check->entries@),
        at + 1,
        turn.after.pending.list(),
    );
}

/// A check of the pending trades that is over stays over: nothing is asked for, nothing changes
/// and nothing is reported.
pub proof fn law_a_finished_check_stays_finished(turn: Turn)
    requires
        turn.is_step(),
        turn.check is Finished,
    ensures
        changes_nothing(turn),
        turn.progress.check is Finished,
        turn.progress.request is Finished,
        turn.progress.events@.len() == 0,
{
    reveal(Turn::is_step);
}

/// A walk comes only to trades that it is for: one that looks for filled limit buys to limit buys
/// that are neither sold nor confirmed, one that offers shares to confirmed market buys that are
/// neither sold nor offered, one that looks for filled sells to trades that are confirmed and
/// offered but not sold, one that sells to trades that are not sold, and one over the positions of
/// a simulation to trades that are neither sold nor confirmed.
pub proof fn law_a_walk_comes_only_to_its_trades(turn: Turn)
    requires
        turn.is_step(),
        turn.progress.check is Entry,
        turn.progress.check->wait is First,
    ensures
        ({
            let here = listing(turn.progress.check->entries@)[turn.progress.check->Entry_at as int];
            let trade = here.1;
            match turn.progress.check->stage {
                Stage::Positions => !trade.sold && !trade.buy_order_confirmed,
                Stage::LimitFills => !trade.sold && !trade.buy_order_confirmed && occurs_in(
                    here.0,
                    "_limit"@,
                ),
                Stage::Offers => !trade.sold && trade.buy_order_confirmed
                    && !trade.limit_sell_orders_placed && !occurs_in(here.0, "_limit"@),
                Stage::Refills => true,
                Stage::SellFills => !trade.sold && trade.buy_order_confirmed
                    && trade.limit_sell_orders_placed,
                Stage::Sales => !trade.sold,
            }
        }),
{
    reveal(Turn::is_step);
    let fresh = turn.after.pending.list();
    match turn.check {
        PendingCheck::Start => {
            law_walk_goes_on_with_a_concern(Stage::LimitFills, fresh, 0, fresh);
        },
        PendingCheck::Filling => {
            law_walk_goes_on_with_a_concern(Stage::Positions, fresh, 0, fresh);
        },
        PendingCheck::Entry { stage, entries, at, wait } => {
            law_walk_goes_on_with_a_concern(stage, listing(entries@), at + 1, fresh);
        },
        _ => {},
    }
}

/// A step of a check leaves the configuration, the mode and the number of buys as they are, and
/// before the trades are walked over it changes and reports nothing.
pub proof fn law_a_check_leaves_the_settings(turn: Turn)
    requires
        turn.is_step(),
    ensures
        turn.after.config == turn.before.config,
        turn.after.simulation_mode == turn.before.simulation_mode,
        turn.after.tracks_cycles == turn.before.tracks_cycles,
        turn.after.trades_executed == turn.before.trades_executed,
        !(turn.check is Entry) ==> turn.after == turn.before && turn.progress.events@.len() == 0,
{
    reveal(Turn::is_step);
}

} // verus!

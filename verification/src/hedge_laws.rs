//! What holds of every stop-loss: the opposite token is bought or offered for sale, and
//! what was bought is offered for sale when it arrives.

use vstd::prelude::*;

use crate::check_laws::{
    is_whole_check, law_a_filled_limit_buy_is_offered_once, law_other_trades_stay,
    law_walk_goes_on_with_a_concern, tells, undisturbed, Turn,
};
use crate::checks::{effect, PendingCheck, Sale, Stage, Visit, Wait};
use crate::exchange::{Reply, Request, Side};
use crate::keys::{is_limit, law_keys_tell_their_kind};
use crate::models::PendingTrade;
use crate::text::decimal_text;
use crate::trader::token_of_side;
use crate::trades::{listing, Listing};

verus! {

/// Whether a trade is the one that follows an order for so many shares of an opposite token,
/// made after a trade was sold at a stop-loss price: bought at what is left of a dollar, to
/// be sold at a tenth more, neither kept from being sold nor left to the market's closure.
pub open spec fn is_hedge(
    hedge: PendingTrade,
    trade: PendingTrade,
    token_id: String,
    stop: u64,
    size: u64,
) -> bool {
    &&& hedge.token_id == token_id
    &&& hedge.condition_id == trade.condition_id
    &&& hedge.market_timestamp == trade.market_timestamp
    &&& hedge.token_type.asset() == trade.token_type.asset()
    &&& hedge.token_type.up() == !trade.token_type.up()
    &&& hedge.units == size
    &&& hedge.purchase_price == 1_000_000 - stop
    &&& hedge.sell_price == 1_000_000 - stop + 100_000
    &&& i128::MIN <= size * (1_000_000 - stop) <= i128::MAX ==> hedge.investment_amount == size * (
    1_000_000 - stop)
    &&& !hedge.sold
    &&& !hedge.no_sell
    &&& !hedge.claim_on_closure
    &&& hedge.sell_attempts == 0
    &&& hedge.redemption_attempts == 0
    &&& !hedge.redemption_abandoned
}

/// Whether consecutive steps of a check, from the one at a place on, follow a sale at a
/// stop-loss price: the sale of so many shares was taken, the market told the opposite
/// token, and so many shares were told to be held of it.
pub open spec fn is_stop_loss(
    turns: Seq<Turn>,
    m: int,
    key: Seq<char>,
    trade: PendingTrade,
    stop: u64,
    units: u64,
    token_id: String,
) -> bool {
    &&& 0 <= m && m + 3 < turns.len()
    &&& turns[m].check matches PendingCheck::Entry { stage, entries, at, wait }
    &&& stage == Stage::Sales
    &&& listing(entries@)[at as int] == (key, trade)
    &&& wait matches Wait::Sent { sale, units: sent, .. }
    &&& sale == (Sale::StopLoss { stop })
    &&& sent == units
    &&& turns[m].reply matches Reply::Order(Ok(_))
    &&& turns[m + 1].reply matches Reply::Market(Some(market))
    &&& token_of_side(market.tokens@, !trade.token_type.up()) == Some(token_id)
}

/// After a stop-loss sale was taken, the market is asked for the opposite token, and its
/// shares are asked for. Where there are none, as many as were sold are ordered to be bought
/// at what is left of a dollar; where there are some, all of them are ordered to be sold at a
/// tenth more than that. Once that order is taken, the trade that follows it is tracked under
/// the key of the period and the token, and the trade that was sold is marked so.
pub proof fn law_a_stop_loss_is_followed_by_its_hedge(
    turns: Seq<Turn>,
    m: int,
    key: Seq<char>,
    trade: PendingTrade,
    stop: u64,
    units: u64,
    token_id: String,
)
    requires
        is_whole_check(turns),
        is_stop_loss(turns, m, key, trade, stop, units, token_id),
    ensures
        turns[m].progress.request == (Request::Market { condition_id: trade.condition_id }),
        turns[m + 1].progress.request == (Request::Balance { token_id }),
        ({
            let held = turns[m + 2].reply matches Reply::Balance(Some(shares)) && shares > 1;
            let size = if held {
                turns[m + 2].reply->Balance_0->0
            } else {
                units
            };
            let hedge_key = decimal_text(trade.market_timestamp as nat) + (if held {
                "_opposite_"@
            } else {
                "_opposite_limit_"@
            }) + token_id@;
            let after = turns[m + 3].after.pending@;
            &&& turns[m + 2].progress.request matches Request::Limit(order)
            &&& order.token_id == token_id
            &&& order.size == size
            &&& order.rounded
            &&& held ==> order.side == Side::Sell && order.price == 1_000_000 - stop + 100_000
            &&& !held ==> order.side == Side::Buy && order.price == 1_000_000 - stop
            &&& turns[m + 3].reply matches Reply::Order(Ok(_)) ==> {
                let hedge = after[hedge_key];
                &&& after.contains_key(hedge_key)
                &&& key != hedge_key ==> is_hedge(hedge, trade, token_id, stop, size)
                &&& key != hedge_key ==> hedge.buy_order_confirmed == held
                    && hedge.limit_sell_orders_placed == held && hedge.confirmed_balance == Some(
                    if held {
                        size
                    } else {
                        0
                    },
                )
            }
            &&& !(turns[m + 3].reply matches Reply::Order(Ok(_))) ==> after.dom()
                == turns[m + 3].before.pending@.dom()
            &&& after.contains_key(key) ==> after[key].sold
        }),
{
    reveal(Turn::is_step);
    assert(turns[m].is_step());
    assert(turns[m + 1].is_step());
    assert(turns[m + 2].is_step());
    assert(turns[m + 3].is_step());
    assert(turns[m + 1].before == turns[m].after && turns[m + 1].check == turns[m].progress.check);
    assert(turns[m + 2].before == turns[m + 1].after && turns[m + 2].check == turns[m
        + 1].progress.check);
    assert(turns[m + 3].before == turns[m + 2].after && turns[m + 3].check == turns[m
        + 2].progress.check);
    let wait = turns[m].check->wait;
    assert(effect(
        turns[m].before,
        Visit { stage: Stage::Sales, key, trade },
        wait,
        turns[m].reply,
    ).next == Some(
        (
            Wait::Opposite { stop, units },
            Request::Market { condition_id: trade.condition_id },
        ),
    ));
    assert(turns[m + 1].check->wait == (Wait::Opposite { stop, units }));
    assert(turns[m + 2].check->wait == (Wait::OppositeHolding { stop, units, token_id }));
    assert(turns[m + 3].check->wait is Hedge);
}

/// Where the opposite token is not to be found, nothing is ordered, and the trade is marked as
/// sold.
pub proof fn law_a_stop_loss_without_opposite_token_ends(first: Turn, second: Turn, stop: u64)
    requires
        first.is_step(),
        second.is_step(),
        second.before == first.after,
        second.check == first.progress.check,
        first.check matches PendingCheck::Entry { stage, wait, .. } && stage == Stage::Sales && (
        wait matches Wait::Sent { sale, .. } && sale == (Sale::StopLoss { stop })),
        first.reply matches Reply::Order(Ok(_)),
        second.reply matches Reply::Market(Some(market)) ==> token_of_side(
            market.tokens@,
            !listing(first.check->entries@)[first.check->Entry_at as int].1.token_type.up(),
        ) is None,
    ensures
        !(second.progress.request is Limit),
        !(second.progress.request is AtMarket),
        ({
            let key = listing(first.check->entries@)[first.check->Entry_at as int].0;
            let after = second.after.pending@;
            &&& after.dom() == first.before.pending@.dom()
            &&& after.contains_key(key) ==> after[key].sold
            &&& forall|other: Seq<char>|
                other != key && after.contains_key(other) ==> #[trigger] after[other]
                    == first.before.pending@[other]
        }),
{
    reveal(Turn::is_step);
    let list = listing(first.check->entries@);
    law_walk_goes_on_with_a_concern(
        Stage::Sales,
        list,
        first.check->Entry_at + 1,
        second.after.pending.list(),
    );
}

/// Whether the last walk of a check is over a list, or the check is over.
spec fn in_last_walk(check: PendingCheck, list: Listing) -> bool {
    match check {
        PendingCheck::Entry { stage, entries, .. } => stage == Stage::Sales && listing(entries@)
            == list,
        PendingCheck::Finished => true,
        _ => false,
    }
}

/// A step of the last walk leaves a trade that is not on its list as it is, unless one is
/// tracked anew under its key.
proof fn lemma_unlisted_stays(turn: Turn, list: Listing, key: Seq<char>)
    requires
        turn.is_step(),
        in_last_walk(turn.check, list),
        forall|i: int| 0 <= i < list.len() ==> (#[trigger] list[i]).0 != key,
        undisturbed(turn, key),
        turn.before.pending@.contains_key(key),
    ensures
        in_last_walk(turn.progress.check, list),
        turn.after.pending@.contains_key(key),
        turn.after.pending@[key] == turn.before.pending@[key],
{
    reveal(Turn::is_step);
    if let PendingCheck::Entry { stage, entries, at, wait } = turn.check {
        let here = list[at as int];
        let visit = Visit { stage, key: here.0, trade: here.1 };
        assert(list.len() == entries@.len());
        law_other_trades_stay(turn.before, visit, wait, turn.reply, key);
        lemma_last_walk_goes_on(turn, list);
    }
}

/// A trade that is tracked in the last walk is kept to the end of the check.
proof fn lemma_kept_to_the_end(turns: Seq<Turn>, m: int, count: int, list: Listing, key: Seq<char>)
    requires
        is_whole_check(turns),
        0 <= m < count <= turns.len(),
        in_last_walk(turns[m].progress.check, list),
        forall|i: int| 0 <= i < list.len() ==> (#[trigger] list[i]).0 != key,
        forall|i: int| m < i < turns.len() ==> undisturbed(#[trigger] turns[i], key),
        turns[m].after.pending@.contains_key(key),
    ensures
        in_last_walk(turns[count - 1].progress.check, list),
        turns[count - 1].after.pending@.contains_key(key),
        turns[count - 1].after.pending@[key] == turns[m].after.pending@[key],
    decreases count,
{
    if count > m + 1 {
        lemma_kept_to_the_end(turns, m, count - 1, list, key);
        let turn = turns[count - 1];
        assert(turn.is_step() && undisturbed(turn, key));
        assert(turn.before == turns[count - 2].after && turn.check == turns[count
            - 2].progress.check);
        lemma_unlisted_stays(turn, list, key);
    }
}

/// The key under which a limit buy of an opposite token is tracked.
pub open spec fn hedge_key_of(trade: PendingTrade, token_id: String) -> Seq<char> {
    decimal_text(trade.market_timestamp as nat) + "_opposite_limit_"@ + token_id@
}

/// End to end: after a stop-loss sale and a limit buy of the opposite token were taken in one
/// check, a next check that is told of more shares of that token offers them for sale by
/// exactly one limit order, at a dollar less the stop-loss price plus a tenth, and a third one
/// orders nothing more about them. The opposite token is meant to be new to the first check,
/// to stay above its own stop-loss, and not to be bought again meanwhile.
pub proof fn law_a_hedge_that_fills_is_offered_once(
    first: Seq<Turn>,
    second: Seq<Turn>,
    third: Seq<Turn>,
    m: int,
    key: Seq<char>,
    trade: PendingTrade,
    stop: u64,
    units: u64,
    token_id: String,
    shares: u64,
)
    requires
        is_whole_check(first),
        is_whole_check(second),
        is_whole_check(third),
        second[0].before == first.last().after,
        third[0].before == second.last().after,
        !second[0].before.simulation_mode,
        is_stop_loss(first, m, key, trade, stop, units, token_id),
        !(first[m + 2].reply matches Reply::Balance(Some(b)) && b > 1),
        first[m + 3].reply matches Reply::Order(Ok(_)),
        forall|i: int|
            #![trigger listing(first[m].check->entries@)[i]]
            0 <= i < listing(first[m].check->entries@).len() ==> listing(
                first[m].check->entries@,
            )[i].0 != hedge_key_of(trade, token_id),
        forall|i: int|
            m + 3 < i < first.len() ==> undisturbed(
                #[trigger] first[i],
                hedge_key_of(trade, token_id),
            ),
        forall|i: int|
            0 <= i < second.len() ==> undisturbed(
                #[trigger] second[i],
                hedge_key_of(trade, token_id),
            ),
        forall|i: int|
            0 <= i < third.len() ==> undisturbed(#[trigger] third[i], hedge_key_of(trade, token_id)),
        shares > 1,
        forall|i: int|
            0 <= i < second.len() ==> tells(
                #[trigger] second[i],
                hedge_key_of(trade, token_id),
                shares,
            ),
        forall|i: int|
            0 <= i < third.len() ==> tells(
                #[trigger] third[i],
                hedge_key_of(trade, token_id),
                shares,
            ),
    ensures
        first[m + 2].progress.request matches Request::Limit(order) && order.token_id == token_id
            && order.side == Side::Buy && order.size == units && order.price == 1_000_000 - stop,
        exists|k: int|
            0 <= k < second.len() && (#[trigger] second[k]).orders(hedge_key_of(trade, token_id))
                && (second[k].progress.request matches Request::Limit(order) && order.token_id
                == token_id && order.side == Side::Sell && order.size == shares && order.price
                == 1_000_000 - stop + 100_000) && forall|i: int|
                0 <= i < second.len() && i != k ==> !(#[trigger] second[i]).orders(
                    hedge_key_of(trade, token_id),
                ),
        forall|i: int|
            0 <= i < third.len() ==> !(#[trigger] third[i]).orders(hedge_key_of(trade, token_id)),
{
    let hkey = hedge_key_of(trade, token_id);
    let list = listing(first[m].check->entries@);
    law_a_stop_loss_is_followed_by_its_hedge(first, m, key, trade, stop, units, token_id);
    assert(first[m].is_step());
    assert(list[first[m].check->Entry_at as int].0 == key && key != hkey) by {
        reveal(Turn::is_step);
        assert(list.len() == first[m].check->entries@.len());
    }
    assert(in_last_walk(first[m + 3].progress.check, list)) by {
        lemma_stays_in_last_walk(first, m, list);
    }
    lemma_kept_to_the_end(first, m + 3, first.len() as int, list, hkey);
    law_keys_tell_their_kind(trade.market_timestamp as nat, token_id@);
    let hedge = first[m + 3].after.pending@[hkey];
    assert(is_hedge(hedge, trade, token_id, stop, units));
    assert(is_limit(hkey));
    law_a_filled_limit_buy_is_offered_once(second, third, hkey, hedge, shares);
}

/// The steps that follow a stop-loss belong to the walk in which it was sold, and so does what
/// comes after them.
proof fn lemma_stays_in_last_walk(turns: Seq<Turn>, m: int, list: Listing)
    requires
        is_whole_check(turns),
        0 <= m && m + 3 < turns.len(),
        in_last_walk(turns[m].check, list),
    ensures
        in_last_walk(turns[m + 3].progress.check, list),
{
    assert(turns[m].is_step());
    assert(turns[m + 1].is_step());
    assert(turns[m + 2].is_step());
    assert(turns[m + 3].is_step());
    assert(turns[m + 1].check == turns[m].progress.check);
    assert(turns[m + 2].check == turns[m + 1].progress.check);
    assert(turns[m + 3].check == turns[m + 2].progress.check);
    lemma_last_walk_goes_on(turns[m], list);
    lemma_last_walk_goes_on(turns[m + 1], list);
    lemma_last_walk_goes_on(turns[m + 2], list);
    lemma_last_walk_goes_on(turns[m + 3], list);
}

/// No walk follows the last one.
proof fn lemma_last_walk_goes_on(turn: Turn, list: Listing)
    requires
        turn.is_step(),
        in_last_walk(turn.check, list),
    ensures
        in_last_walk(turn.progress.check, list),
{
    reveal(Turn::is_step);
    if let PendingCheck::Entry { at, .. } = turn.check {
        let fresh = turn.after.pending.list();
        law_walk_goes_on_with_a_concern(Stage::Sales, list, at + 1, fresh);
        assert(Stage::Sales.following() is None);
    }
}

} // verus!

//! What holds of every buy.

use vstd::prelude::*;

use crate::buying::{limit_buys, market_buys, BuyProgress, Buying};
use crate::check_laws::{
    is_whole_check, law_a_filled_limit_buy_is_offered_once, law_a_market_buy_is_offered_once,
    tells, Turn,
};
use crate::events::Event;
use crate::exchange::{Fill, Reply, Request, Side};
use crate::keys::{is_limit, is_opposite, law_keys_tell_their_kind};
use crate::models::{BuyOpportunity, PendingTrade};
use crate::money::{half_even, law_rounding_is_to_the_nearest, units_of};
use crate::text::{decimal_text, occurs_in};
use crate::trader::{Trader, TradingConfig};

verus! {

/// Whether a trade is of the token that was bought, at the price that was bid, with the
/// configured price as its target, and nothing has happened to it yet.
pub open spec fn is_bought_as(
    trade: PendingTrade,
    config: TradingConfig,
    opportunity: BuyOpportunity,
) -> bool {
    &&& trade.token_id == opportunity.token_id
    &&& trade.condition_id == opportunity.condition_id
    &&& trade.token_type == opportunity.token_type
    &&& trade.market_timestamp == opportunity.period_timestamp
    &&& trade.purchase_price == opportunity.bid_price
    &&& trade.sell_price == config.sell_price
    &&& !trade.sold
    &&& !trade.limit_sell_orders_placed
    &&& trade.sell_attempts == 0
    &&& trade.redemption_attempts == 0
    &&& !trade.redemption_abandoned
}

/// Whether a number of shares is what an amount buys at a price, to the nearest millionth.
pub open spec fn is_bought_for(units: u64, amount: u64, price: u64) -> bool {
    price > 0 && (amount + 1) * 1_000_000 <= 0xffff_ffff_ffff_ffff * price ==> -(price as int) <= 2
        * (units * price - amount * 1_000_000) <= price
}

proof fn lemma_units(amount: u64, price: u64)
    ensures
        is_bought_for(
            units_of(amount as int, price as int) as u64,
            amount,
            price,
        ),
{
    if price > 0 && (amount + 1) * 1_000_000 <= 0xffff_ffff_ffff_ffff * price {
        let n = (amount * 1_000_000) as nat;
        let q = half_even(n, price as nat);
        law_rounding_is_to_the_nearest(n, price as nat);
        assert(q <= 0xffff_ffff_ffff_ffff) by (nonlinear_arith)
            requires
                2 * (q * price - n) <= price,
                n + 1_000_000 <= 0xffff_ffff_ffff_ffff * price,
                price > 0,
                q >= 0,
        ;
    }
}

/// A limit buy that was taken is tracked under the key of its period and token: by what was
/// bought and at what price, with the configured sell price as its target, to be sold where
/// sell orders are to be placed, with the shares that were held before it. No other trade
/// and no profit changes.
pub proof fn law_a_taken_limit_buy_is_tracked(
    before: Trader,
    opportunity: BuyOpportunity,
    place_sell_orders: bool,
    size: Option<u64>,
    order_id: Option<String>,
    reply: Reply,
    after: Trader,
    res: BuyProgress,
)
    requires
        limit_buys(
            before,
            opportunity,
            place_sell_orders,
            size,
            (Buying::Holding { order_id }),
            reply,
            after,
            res,
        ),
    ensures
        ({
            let key = decimal_text(opportunity.period_timestamp as nat) + "_"@
                + opportunity.token_id@ + "_limit"@;
            let trade = after.pending@[key];
            &&& after.pending@.contains_key(key)
            &&& after.pending@ == before.pending@.insert(key, trade)
            &&& is_bought_as(trade, before.config, opportunity)
            &&& !trade.buy_order_confirmed
            &&& trade.no_sell == !place_sell_orders
            &&& !trade.claim_on_closure
            &&& trade.confirmed_balance == Some(
                match reply {
                    Reply::Balance(Some(held)) => held,
                    _ => 0,
                },
            )
            &&& match size {
                Some(units) => trade.units == units,
                None => is_bought_for(
                    trade.units,
                    before.config.fixed_trade_amount,
                    opportunity.bid_price,
                ),
            }
            &&& size is None ==> trade.investment_amount == before.config.fixed_trade_amount
                * 1_000_000
        }),
        res.buying is Finished,
        res.request is Finished,
{
    lemma_units(before.config.fixed_trade_amount, opportunity.bid_price);
}

/// A limit buy orders the token, to buy, at the price that is bid, and in a simulation only
/// on paper. An order that was taken is followed by the question what is held; one that was
/// refused tracks nothing and hands its failure on.
pub proof fn law_a_limit_buy_is_ordered_at_the_bid(
    before: Trader,
    opportunity: BuyOpportunity,
    place_sell_orders: bool,
    size: Option<u64>,
    buying: Buying,
    reply: Reply,
    after: Trader,
    res: BuyProgress,
)
    requires
        limit_buys(
            before,
            opportunity,
            place_sell_orders,
            size,
            buying,
            reply,
            after,
            res,
        ),
    ensures
        buying is Start ==> after == before,
        buying is Start && !before.simulation_mode ==> {
            &&& res.buying is Sent
            &&& res.request matches Request::Limit(order)
            &&& order.token_id == opportunity.token_id
            &&& order.side == Side::Buy
            &&& order.price == opportunity.bid_price
            &&& order.rounded
            &&& size matches Some(units) ==> order.size == units
        },
        buying is Start && before.simulation_mode ==> {
            &&& res.buying is Simulated
            &&& res.request matches Request::Simulate {
                token_id,
                token_type,
                condition_id,
                price,
                units,
                period,
            }
            &&& token_id == opportunity.token_id
            &&& token_type == opportunity.token_type
            &&& condition_id == opportunity.condition_id
            &&& price == opportunity.bid_price
            &&& period == opportunity.period_timestamp
            &&& size matches Some(given) ==> units == given
        },
        buying is Sent ==> after == before,
        buying is Sent && (reply matches Reply::Order(Ok(_))) ==> res.request == (
        Request::Balance { token_id: opportunity.token_id }) && res.buying is Holding,
        buying is Sent ==> (reply matches Reply::Order(Err(failure)) ==> res.buying == (
        Buying::Failed { failure: Some(failure) }) && res.request is Finished),
        buying is Simulated ==> {
            let key = decimal_text(opportunity.period_timestamp as nat) + "_"@
                + opportunity.token_id@ + "_limit"@;
            &&& after.pending@.contains_key(key)
            &&& is_bought_as(after.pending@[key], before.config, opportunity)
            &&& after.pending@[key].no_sell
            &&& after.pending@[key].claim_on_closure
            &&& !after.pending@[key].buy_order_confirmed
            &&& after.pending@ == before.pending@.insert(key, after.pending@[key])
        },
{
}

/// A limit buy that was taken, and whose shares are to be sold, is offered for sale once when
/// it fills: those shares, at the sell price that was configured when it was bought.
pub proof fn law_a_limit_buy_is_sold_at_the_configured_price(
    before: Trader,
    opportunity: BuyOpportunity,
    size: Option<u64>,
    order_id: Option<String>,
    reply: Reply,
    after: Trader,
    res: BuyProgress,
    first: Seq<Turn>,
    second: Seq<Turn>,
    shares: u64,
)
    requires
        limit_buys(
            before,
            opportunity,
            true,
            size,
            (Buying::Holding { order_id }),
            reply,
            after,
            res,
        ),
        is_whole_check(first),
        is_whole_check(second),
        first[0].before == after,
        second[0].before == first.last().after,
        !after.simulation_mode,
        !occurs_in(limit_key_of(opportunity), "_opposite_"@),
        shares > 1 + match reply {
            Reply::Balance(Some(held)) => held as int,
            _ => 0,
        },
        forall|i: int|
            0 <= i < first.len() ==> tells(#[trigger] first[i], limit_key_of(opportunity), shares),
        forall|i: int|
            0 <= i < second.len() ==> tells(#[trigger] second[i], limit_key_of(opportunity), shares),
    ensures
        exists|m: int|
            0 <= m < first.len() && (#[trigger] first[m]).orders(limit_key_of(opportunity)) && (
            first[m].progress.request matches Request::Limit(order) && order.token_id
                == opportunity.token_id && order.side == Side::Sell && order.size == shares
                && order.price == before.config.sell_price) && forall|i: int|
                0 <= i < first.len() && i != m ==> !(#[trigger] first[i]).orders(
                    limit_key_of(opportunity),
                ),
        forall|i: int|
            0 <= i < second.len() ==> !(#[trigger] second[i]).orders(limit_key_of(opportunity)),
{
    let key = limit_key_of(opportunity);
    law_keys_tell_their_kind(opportunity.period_timestamp as nat, opportunity.token_id@);
    law_a_taken_limit_buy_is_tracked(
        before,
        opportunity,
        true,
        size,
        order_id,
        reply,
        after,
        res,
    );
    let trade = after.pending@[key];
    assert(is_limit(key) && !is_opposite(key));
    law_a_filled_limit_buy_is_offered_once(first, second, key, trade, shares);
}

/// The key under which a limit buy is tracked.
pub open spec fn limit_key_of(opportunity: BuyOpportunity) -> Seq<char> {
    decimal_text(opportunity.period_timestamp as nat) + "_"@ + opportunity.token_id@ + "_limit"@
}

/// A market buy is refused exactly where less time is left than is configured, or than half
/// a minute where nothing is. Else the configured amount is spent on the token, filled at
/// once or not at all, and in a simulation only on paper.
pub proof fn law_a_market_buy_spends_the_configured_amount(
    before: Trader,
    opportunity: BuyOpportunity,
    reply: Reply,
    elapsed: u64,
    after: Trader,
    res: BuyProgress,
)
    requires
        market_buys(before, opportunity, Buying::Start, reply, elapsed, after, res),
    ensures
        after == before,
        res.buying is Refused <==> opportunity.time_remaining_seconds < match before.config.min_time_remaining_seconds {
            Some(seconds) => seconds,
            None => 30,
        },
        res.buying is Refused ==> res.request is Finished,
        !(res.buying is Refused) && !before.simulation_mode ==> res.buying is Sent && res.request
            == (Request::AtMarket {
            token_id: opportunity.token_id,
            amount: before.config.fixed_trade_amount,
            side: Side::Buy,
            fill: Fill::FillOrKill,
        }),
        !(res.buying is Refused) && before.simulation_mode ==> res.buying is Simulated && (
        res.request matches Request::Simulate { token_id, token_type, condition_id, price, units, period }
            && token_id == opportunity.token_id && token_type == opportunity.token_type
            && condition_id == opportunity.condition_id && price == opportunity.bid_price && period
            == opportunity.period_timestamp && is_bought_for(
            units,
            before.config.fixed_trade_amount,
            opportunity.bid_price,
        )),
{
    lemma_units(before.config.fixed_trade_amount, opportunity.bid_price);
}

/// Whether a market buy is booked with so many shares: one more buy is counted, and it is
/// tracked under the key of its period and token by what was bought and at what price, with
/// the configured sell price as its target and these shares, confirmed where there are any.
pub open spec fn is_booked(
    before: Trader,
    opportunity: BuyOpportunity,
    after: Trader,
    shares: u64,
) -> bool {
    let key = decimal_text(opportunity.period_timestamp as nat) + "_"@ + opportunity.token_id@;
    let trade = after.pending@[key];
    &&& after.pending@.contains_key(key)
    &&& after.pending@ == before.pending@.insert(key, trade)
    &&& is_bought_as(trade, before.config, opportunity)
    &&& trade.units == shares
    &&& trade.confirmed_balance == Some(shares)
    &&& trade.buy_order_confirmed == (shares > 0)
    &&& !trade.no_sell
    &&& !trade.claim_on_closure
    &&& trade.investment_amount == before.config.fixed_trade_amount * 1_000_000
    &&& before.trades_executed < u64::MAX ==> after.trades_executed == before.trades_executed + 1
}

/// A market buy that was taken waits for its shares, asking every two seconds. It is booked
/// with the shares that arrive or, after a minute, without any; before that nothing
/// changes. One that was refused changes nothing and hands its failure on.
pub proof fn law_a_market_buy_is_booked_when_its_shares_arrive(
    before: Trader,
    opportunity: BuyOpportunity,
    buying: Buying,
    reply: Reply,
    elapsed: u64,
    after: Trader,
    res: BuyProgress,
)
    requires
        market_buys(before, opportunity, buying, reply, elapsed, after, res),
    ensures
        (buying is Holding && (reply matches Reply::Balance(Some(shares)) && shares > 0)) ==> (
        res.buying is Finished && is_booked(before, opportunity, after, reply->Balance_0->0)),
        (buying is Holding && !(reply matches Reply::Balance(Some(shares)) && shares > 0)) ==> (
        after == before && res.buying is Pause && res.request == (Request::Wait {
            milliseconds: 2000,
        })),
        (buying is Pause || (buying is Sent && (reply matches Reply::Order(Ok(_))))) ==> (
        if elapsed >= 60 {
            res.buying is Finished && is_booked(before, opportunity, after, 0)
        } else {
            after == before && res.buying is Holding && res.request == (Request::Holding {
                token_id: opportunity.token_id,
            })
        }),
        (buying is Sent && !(reply matches Reply::Order(Ok(_)))) ==> after == before
            && res.buying is Failed && res.request is Finished && (
        reply matches Reply::Order(Err(failure)) ==> res.buying == (Buying::Failed {
            failure: Some(failure),
        })),
        buying is Simulated ==> {
            let key = decimal_text(opportunity.period_timestamp as nat) + "_"@
                + opportunity.token_id@ + "_market"@;
            &&& after.pending@.contains_key(key)
            &&& is_bought_as(after.pending@[key], before.config, opportunity)
            &&& after.pending@[key].no_sell
            &&& after.pending@[key].claim_on_closure
            &&& !after.pending@[key].buy_order_confirmed
            &&& after.pending@[key].confirmed_balance is None
            &&& after.pending@[key].investment_amount == before.config.fixed_trade_amount
                * 1_000_000
            &&& is_bought_for(
                after.pending@[key].units,
                before.config.fixed_trade_amount,
                opportunity.bid_price,
            )
            &&& after.pending@ == before.pending@.insert(key, after.pending@[key])
            &&& after.trades_executed == before.trades_executed
        },
{
    lemma_units(before.config.fixed_trade_amount, opportunity.bid_price);
}

/// Without a given size a limit buy orders what the configured amount buys at the bid, in whole
/// hundredths of a share, the nearest number of them.
pub proof fn law_a_limit_buy_spends_the_configured_amount(
    before: Trader,
    opportunity: BuyOpportunity,
    place_sell_orders: bool,
    reply: Reply,
    after: Trader,
    res: BuyProgress,
)
    requires
        limit_buys(
            before,
            opportunity,
            place_sell_orders,
            None,
            Buying::Start,
            reply,
            after,
            res,
        ),
        opportunity.bid_price > 0,
    ensures
        res.request matches Request::Limit(order) ==> order.size < u64::MAX ==> {
            &&& order.size % 10_000 == 0
            &&& -(10_000 * opportunity.bid_price) <= 2 * (order.size * opportunity.bid_price
                - before.config.fixed_trade_amount * 1_000_000) <= 10_000 * opportunity.bid_price
        },
        res.request matches Request::Simulate { units, .. } ==> is_bought_for(
            units,
            before.config.fixed_trade_amount,
            opportunity.bid_price,
        ),
{
    let (amount, price) = (before.config.fixed_trade_amount, opportunity.bid_price);
    lemma_units(amount, price);
    let h = half_even((amount * 100) as nat, price as nat) as int;
    law_rounding_is_to_the_nearest((amount * 100) as nat, price as nat);
    assert((10_000 * h) * price == 10_000 * (h * price)) by (nonlinear_arith);
}

/// A buy that is booked or tracked knows what was invested: the configured amount or, where a
/// size was given, what that many shares cost at the bid.
pub proof fn law_a_buy_knows_its_investment(
    before: Trader,
    opportunity: BuyOpportunity,
    place_sell_orders: bool,
    size: Option<u64>,
    buying: Buying,
    reply: Reply,
    after: Trader,
    res: BuyProgress,
)
    requires
        limit_buys(
            before,
            opportunity,
            place_sell_orders,
            size,
            buying,
            reply,
            after,
            res,
        ),
        buying is Holding || buying is Simulated,
    ensures
        ({
            let trade = after.pending@[limit_key_of(opportunity)];
            &&& buying is Simulated ==> trade.confirmed_balance is None
            &&& size matches Some(units) ==> trade.units == units && (units * opportunity.bid_price
                <= i128::MAX ==> trade.investment_amount == units * opportunity.bid_price)
            &&& size is None ==> trade.investment_amount == before.config.fixed_trade_amount
                * 1_000_000
            &&& size is None ==> is_bought_for(
                trade.units,
                before.config.fixed_trade_amount,
                opportunity.bid_price,
            )
        }),
{
    lemma_units(before.config.fixed_trade_amount, opportunity.bid_price);
    if let Some(units) = size {
        let price = opportunity.bid_price;
        assert(0 <= units * price) by (nonlinear_arith)
            requires
                0 <= units,
                0 <= price,
        ;
    }
}

/// What is reported of a buy is of the token, the side and the period that were bought, at the
/// bid: a confirmed one with the shares that arrived, an unconfirmed one without any, a
/// failed one with what was said of its failure, a limit buy with its target.
pub proof fn law_a_buy_is_reported_as_it_was(
    before: Trader,
    opportunity: BuyOpportunity,
    buying: Buying,
    reply: Reply,
    elapsed: u64,
    after: Trader,
    res: BuyProgress,
)
    requires
        market_buys(before, opportunity, buying, reply, elapsed, after, res),
    ensures
        res.events@.len() == if (buying is Holding && (reply matches Reply::Balance(Some(shares))
            && shares > 0)) || (buying is Sent && (reply matches Reply::Order(Err(_)))) || ((
        buying is Pause || (buying is Sent && (reply matches Reply::Order(Ok(_))))) && elapsed >= 60) {
            1int
        } else {
            0
        },
        res.events@.len() == 1 ==> match res.events@[0] {
            Event::BuyConfirmed { token_type, period, token_id, price, units, .. } => {
                &&& token_type == opportunity.token_type
                &&& period == opportunity.period_timestamp
                &&& token_id == opportunity.token_id
                &&& price == opportunity.bid_price
                &&& reply == Reply::Balance(Some(units))
                &&& units > 0
            },
            Event::BuyUnconfirmed { token_type, period, token_id, price, units, .. } => {
                &&& token_type == opportunity.token_type
                &&& period == opportunity.period_timestamp
                &&& token_id == opportunity.token_id
                &&& price == opportunity.bid_price
                &&& units == 0
                &&& elapsed >= 60
            },
            Event::BuyFailed { token_type, period, token_id, price, details, .. } => {
                &&& token_type == opportunity.token_type
                &&& period == opportunity.period_timestamp
                &&& token_id == opportunity.token_id
                &&& price == opportunity.bid_price
                &&& reply matches Reply::Order(Err(failure))
                &&& details == failure.details
            },
            _ => false,
        },
{
}

/// What is reported of a limit buy that was taken is of the token that was bought, at the bid,
/// with the configured sell price as its target; of any other step nothing is.
pub proof fn law_a_limit_buy_is_reported_as_it_was(
    before: Trader,
    opportunity: BuyOpportunity,
    place_sell_orders: bool,
    size: Option<u64>,
    buying: Buying,
    reply: Reply,
    after: Trader,
    res: BuyProgress,
)
    requires
        limit_buys(
            before,
            opportunity,
            place_sell_orders,
            size,
            buying,
            reply,
            after,
            res,
        ),
    ensures
        !(buying is Holding) ==> res.events@.len() == 0,
        buying matches Buying::Holding { order_id: taken } ==> {
            &&& res.events@.len() == 1
            &&& res.events@[0] matches Event::LimitBuy {
                token_type,
                period,
                token_id,
                price,
                units,
                order_id,
                sell_price,
            }
            &&& token_type == opportunity.token_type
            &&& period == opportunity.period_timestamp
            &&& token_id == opportunity.token_id
            &&& price == opportunity.bid_price
            &&& units == after.pending@[limit_key_of(opportunity)].units
            &&& order_id == taken
            &&& sell_price == before.config.sell_price
        },
{
}

/// A market buy whose shares have arrived is, where no stop-loss is configured, offered for sale
/// once: the shares that are held then, at the sell price that was configured when it was
/// bought.
pub proof fn law_a_market_buy_is_sold_at_the_configured_price(
    before: Trader,
    opportunity: BuyOpportunity,
    order_id: Option<String>,
    reply: Reply,
    elapsed: u64,
    after: Trader,
    res: BuyProgress,
    first: Seq<Turn>,
    second: Seq<Turn>,
    shares: u64,
)
    requires
        market_buys(
            before,
            opportunity,
            (Buying::Holding { order_id }),
            reply,
            elapsed,
            after,
            res,
        ),
        after.same_but_trades(before),
        reply == Reply::Balance(Some(shares)),
        shares > 0,
        is_whole_check(first),
        is_whole_check(second),
        first[0].before == after,
        second[0].before == first.last().after,
        !before.simulation_mode,
        before.config.stop_loss_price is None,
        !occurs_in(market_key_of(opportunity), "_limit"@),
        forall|i: int|
            0 <= i < first.len() ==> (#[trigger] first[i]).counts(
                market_key_of(opportunity),
                shares,
            ),
        forall|i: int|
            0 <= i < second.len() ==> (#[trigger] second[i]).counts(
                market_key_of(opportunity),
                shares,
            ),
    ensures
        exists|m: int|
            0 <= m < first.len() && (#[trigger] first[m]).orders(market_key_of(opportunity)) && (
            first[m].progress.request matches Request::Limit(order) && order.token_id
                == opportunity.token_id && order.side == Side::Sell && first[m].reply
                == Reply::Balance(Some(order.size)) && order.price == before.config.sell_price)
                && forall|i: int|
                0 <= i < first.len() && i != m ==> !(#[trigger] first[i]).orders(
                    market_key_of(opportunity),
                ),
        forall|i: int|
            0 <= i < second.len() ==> !(#[trigger] second[i]).orders(market_key_of(opportunity)),
{
    let key = market_key_of(opportunity);
    law_a_market_buy_is_booked_when_its_shares_arrive(
        before,
        opportunity,
        (Buying::Holding { order_id }),
        reply,
        elapsed,
        after,
        res,
    );
    assert(is_booked(before, opportunity, after, shares));
    let trade = after.pending@[key];
    assert(!is_limit(key));
    law_a_market_buy_is_offered_once(first, second, key, trade, shares);
    let m = choose|m: int|
        0 <= m < first.len() && (#[trigger] first[m]).orders(key) && first[m].offers(
            trade.token_id,
        ) && first[m].before.config == first[0].before.config && forall|i: int|
            0 <= i < first.len() && i != m ==> !(#[trigger] first[i]).orders(key);
    assert(first[m].orders(key));
}

/// The key under which a market buy is tracked.
pub open spec fn market_key_of(opportunity: BuyOpportunity) -> Seq<char> {
    decimal_text(opportunity.period_timestamp as nat) + "_"@ + opportunity.token_id@
}

/// A buy that is over stays as it ended, whatever comes after: nothing is asked for, nothing
/// changes and nothing is reported. One that failed keeps the reason.
pub proof fn law_a_buy_that_is_over_stays_over(
    before: Trader,
    opportunity: BuyOpportunity,
    place_sell_orders: bool,
    size_override: Option<u64>,
    buying: Buying,
    reply: Reply,
    elapsed: u64,
    after: Trader,
    res: BuyProgress,
)
    requires
        buying is Finished || buying is Refused || buying is Failed,
        market_buys(before, opportunity, buying, reply, elapsed, after, res) || limit_buys(
            before,
            opportunity,
            place_sell_orders,
            size_override,
            buying,
            reply,
            after,
            res,
        ),
    ensures
        after == before,
        res.buying == buying,
        res.request is Finished,
        res.events@.len() == 0,
{
}

/// A buy that begins changes no trade. One whose order is refused ends with the failure that
/// came, and changes no trade either.
pub proof fn law_a_refused_buy_changes_nothing(
    before: Trader,
    opportunity: BuyOpportunity,
    place_sell_orders: bool,
    size_override: Option<u64>,
    buying: Buying,
    reply: Reply,
    elapsed: u64,
    after: Trader,
    res: BuyProgress,
)
    requires
        buying is Start || (buying is Sent && !(reply matches Reply::Order(Ok(_)))),
        market_buys(before, opportunity, buying, reply, elapsed, after, res) || limit_buys(
            before,
            opportunity,
            place_sell_orders,
            size_override,
            buying,
            reply,
            after,
            res,
        ),
    ensures
        after == before,
        buying is Sent ==> res.request is Finished && (res.buying matches Buying::Failed {
            failure,
        } && (reply matches Reply::Order(Err(told)) ==> failure == Some(told)) && (!(reply
            matches Reply::Order(_)) ==> failure is None)),
{
}

/// A buy leaves the configuration, the mode and the profit as they are.
pub proof fn law_a_buy_leaves_the_settings(before: Trader, after: Trader)
    requires
        after.same_but_trades(before),
    ensures
        after.config == before.config,
        after.simulation_mode == before.simulation_mode,
        after.tracks_cycles == before.tracks_cycles,
        after.total_profit == before.total_profit,
{
}

} // verus!

//! The regular look at the pending trades.
//!
//! The trades are walked six times. Simulated buys are confirmed, limit buys that
//! were filled are noticed and offered for sale, and so are market buys and what was
//! bought besides; then limit sells that were filled are noticed, and last every
//! unsold trade is held against the current price: sold at its stop-loss, sold at
//! its target, or left alone.

use vstd::prelude::*;
use vstd::string::*;

use crate::book::{first_of, first_prices};
use crate::check_laws::{
    law_simulation_trades_nothing, lemma_fresh_list_claimed, list_claimed, simulated,
    trades_for_real,
};
use crate::decimal::Decimal;
use crate::events::{Event, Purpose, MAX_SELL_ATTEMPTS};
use crate::exchange::{Failure, Fill, LimitOrder, Reply, Request, Side};
use crate::keys::{
    is_limit, is_opposite, opposite, opposite_key, opposite_limit, opposite_limit_key,
};
use crate::models::{PendingTrade, TokenPrice};
use crate::money::{capped, gain, plus, quoted_profit, value, value_of, ONE};
use crate::text::{contains, texts, unique, unique_texts};
use crate::trader::{get_opposite_token_id, token_of_side, Trader, TradingConfig};
use crate::trades::{distinct, listing, replaced, revised, Change, Listing};

verus! {

/// How long the exchange is given to look up an allowance.
pub const SETTLE_MILLISECONDS: u64 = 500;

/// How long the bot waits between two attempts to sell.
pub const RETRY_MILLISECONDS: u64 = 1500;

/// A tenth of a dollar: how far the opposite token may move from its price.
pub const OPPOSITE_MARGIN: u64 = 100_000;

/// What a walk over the trades is for.
#[derive(Clone, Copy, Debug, PartialEq, Eq, Structural)]
pub enum Stage {
    /// To confirm simulated buys.
    Positions,
    /// To notice limit buys that were filled.
    LimitFills,
    /// To offer market buys for sale.
    Offers,
    /// To notice shares that came in besides.
    Refills,
    /// To notice limit sells that were filled.
    SellFills,
    /// To sell at a stop-loss or at the target.
    Sales,
}

impl Stage {
    /// Whether a trade is looked at.
    pub open spec fn concerns(self, key: Seq<char>, trade: PendingTrade) -> bool {
        match self {
            Stage::Positions => !trade.buy_order_confirmed && !trade.sold,
            Stage::LimitFills => !trade.sold && !trade.buy_order_confirmed && is_limit(key),
            Stage::Offers => !trade.sold && trade.buy_order_confirmed
                && !trade.limit_sell_orders_placed && !is_limit(key),
            Stage::Refills => true,
            Stage::SellFills => !trade.sold && trade.buy_order_confirmed
                && trade.limit_sell_orders_placed,
            Stage::Sales => !trade.sold,
        }
    }

    /// What is asked first of a trade that is looked at.
    pub open spec fn question(self, token_id: String) -> Request {
        match self {
            Stage::Positions => Request::Position { token_id },
            Stage::Sales => Request::Price { token_id },
            _ => Request::Balance { token_id },
        }
    }

    /// The next walk.
    pub open spec fn following(self) -> Option<Stage> {
        match self {
            Stage::Positions => Some(Stage::LimitFills),
            Stage::LimitFills => Some(Stage::Offers),
            Stage::Offers => Some(Stage::Refills),
            Stage::Refills => Some(Stage::SellFills),
            Stage::SellFills => Some(Stage::Sales),
            Stage::Sales => None,
        }
    }

    /// Whether the walk is over the trades as they are when it begins, and not as they
    /// were when the last walk began.
    pub open spec fn is_fresh(self) -> bool {
        self != Stage::Offers
    }

    /// How many walks follow.
    pub open spec fn walks_left(self) -> nat {
        match self {
            Stage::Positions => 5,
            Stage::LimitFills => 4,
            Stage::Offers => 3,
            Stage::Refills => 2,
            Stage::SellFills => 1,
            Stage::Sales => 0,
        }
    }

    fn concerns_entry(self, key: &str, trade: &PendingTrade) -> (res: bool)
        ensures
            res == self.concerns(key@, *trade),
    {
        match self {
            Stage::Positions => !trade.buy_order_confirmed && !trade.sold,
            Stage::LimitFills => !trade.sold && !trade.buy_order_confirmed && contains(
                key,
                "_limit",
            ),
            Stage::Offers => !trade.sold && trade.buy_order_confirmed
                && !trade.limit_sell_orders_placed && !contains(key, "_limit"),
            Stage::Refills => true,
            Stage::SellFills => !trade.sold && trade.buy_order_confirmed
                && trade.limit_sell_orders_placed,
            Stage::Sales => !trade.sold,
        }
    }

    fn ask(self, token_id: &String) -> (res: Request)
        ensures
            res == self.question(*token_id),
    {
        let token_id = token_id.clone();
        match self {
            Stage::Positions => Request::Position { token_id },
            Stage::Sales => Request::Price { token_id },
            _ => Request::Balance { token_id },
        }
    }

    fn next(self) -> (res: Option<Stage>)
        ensures
            res == self.following(),
    {
        match self {
            Stage::Positions => Some(Stage::LimitFills),
            Stage::LimitFills => Some(Stage::Offers),
            Stage::Offers => Some(Stage::Refills),
            Stage::Refills => Some(Stage::SellFills),
            Stage::SellFills => Some(Stage::Sales),
            Stage::Sales => None,
        }
    }
}

/// Why a position is sold.
#[derive(Clone, Copy, Debug, PartialEq, Eq, Structural)]
pub enum Sale {
    /// The price of an opposite token fell to its own stop-loss.
    OppositeStop,
    /// The price fell to the stop-loss `stop`.
    StopLoss { stop: u64 },
    /// The price reached the target.
    Target,
}

/// Whether and why a position is sold at a price.
///
/// A position that is to be claimed when its market closes is not sold. An opposite
/// token is sold when its price is at most a dollar less the stop-loss price less a
/// tenth. A market buy that is offered for sale is sold at the stop-loss price or
/// below it; an opposite token that is offered for sale is not, for it has its own.
/// A position for which no limit sell stands is sold below the stop-loss price, at its
/// target or at a dollar. A limit buy has no stop-loss.
pub open spec fn sale(
    config: TradingConfig,
    key: Seq<char>,
    trade: PendingTrade,
    price: Decimal,
) -> Option<Sale> {
    if trade.claim_on_closure {
        None
    } else if is_opposite(key) && config.stop_loss_price is Some && price.at_most(
        ONE - config.stop_loss_price->0 - OPPOSITE_MARGIN,
    ) {
        Some(Sale::OppositeStop)
    } else if trade.limit_sell_orders_placed {
        if !is_limit(key) && !is_opposite(key) && config.stop_loss_price is Some && price.at_most(
            config.stop_loss_price->0 as int,
        ) {
            Some(Sale::StopLoss { stop: config.stop_loss_price->0 })
        } else {
            None
        }
    } else if !is_limit(key) && config.stop_loss_price is Some && price.below(
        config.stop_loss_price->0 as int,
    ) {
        Some(Sale::StopLoss { stop: config.stop_loss_price->0 })
    } else if !price.below(trade.sell_price as int) || !price.below(ONE as int) {
        Some(Sale::Target)
    } else {
        None
    }
}

/// Whether and why a position is sold at a price.
pub fn decide_sale(config: &TradingConfig, key: &str, trade: &PendingTrade, price: Decimal) -> (res:
    Option<Sale>)
    ensures
        res == sale(*config, key@, *trade, price),
{
    if trade.claim_on_closure {
        return None;
    }
    if let Some(stop) = config.stop_loss_price {
        if contains(key, "_opposite_") && price.is_at_most(
            ONE as i128 - stop as i128 - OPPOSITE_MARGIN as i128,
        ) {
            return Some(Sale::OppositeStop);
        }
        if trade.limit_sell_orders_placed {
            return if !contains(key, "_limit") && !contains(key, "_opposite_") && price.is_at_most(
                stop as i128,
            ) {
                Some(Sale::StopLoss { stop })
            } else {
                None
            };
        }
        if !contains(key, "_limit") && price.is_below(stop as i128) {
            return Some(Sale::StopLoss { stop });
        }
    } else if trade.limit_sell_orders_placed {
        return None;
    }
    if !price.is_below(trade.sell_price) || !price.is_below(ONE as i128) {
        Some(Sale::Target)
    } else {
        None
    }
}

/// The shares to sell: what is held, where that is more than the trade knows of.
pub open spec fn shares_to_sell(units: u64, held: Option<u64>) -> u64 {
    match held {
        Some(b) => if b > units {
            b
        } else {
            units
        },
        None => units,
    }
}

/// The shares that a trade was last known to hold.
pub open spec fn last_shares(trade: PendingTrade) -> u64 {
    match trade.confirmed_balance {
        Some(b) => b,
        None => 0,
    }
}

/// The price at which the opposite token is bought after a stop-loss: what is left of a
/// dollar, which is less than nothing where the stop-loss price is above one.
pub open spec fn opposite_buy_price(stop: u64) -> i128 {
    (ONE - stop) as i128
}

/// The price at which the opposite token is offered for sale after a stop-loss.
pub open spec fn opposite_sell_price(stop: u64) -> i128 {
    (opposite_buy_price(stop) + OPPOSITE_MARGIN) as i128
}

/// What the walk waits for, of the trade that it has come to.
pub enum Wait {
    /// The answer to the walk's first question.
    First,
    /// The answer to a limit order to sell so many shares.
    Offer { shares: u64 },
    /// Whether somebody bids.
    Buyers { price: Decimal },
    /// The shares held.
    Holding { price: Decimal, sale: Sale },
    /// An allowance that is looked up, so many times still.
    Refresh { price: Decimal, sale: Sale, units: u64, attempt: u32, rounds: u32 },
    /// The pause after it.
    Settle { price: Decimal, sale: Sale, units: u64, attempt: u32, rounds: u32 },
    /// The answer to a market order to sell.
    Sent { price: Decimal, sale: Sale, units: u64, attempt: u32 },
    /// The price after a failed attempt.
    Requote { price: Decimal, units: u64, attempt: u32, failure: Option<Failure> },
    /// The pause between two attempts.
    Pause { price: Decimal, units: u64, attempt: u32 },
    /// That the detector was told.
    Told,
    /// The market, to find the opposite token.
    Opposite { stop: u64, units: u64 },
    /// The shares held of the opposite token.
    OppositeHolding { stop: u64, units: u64, token_id: String },
    /// The answer to a limit order on the opposite token: to sell it if it is `held`.
    Hedge { stop: u64, token_id: String, size: u64, held: bool },
}

impl Wait {
    /// Whether the attempts are counted from one to the last.
    pub open spec fn wf(self) -> bool {
        match self {
            Wait::Refresh { attempt, rounds, .. } => 1 <= attempt <= MAX_SELL_ATTEMPTS && 1
                <= rounds <= 2,
            Wait::Settle { attempt, rounds, .. } => 1 <= attempt <= MAX_SELL_ATTEMPTS && 1
                <= rounds <= 2,
            Wait::Sent { attempt, .. } => 1 <= attempt <= MAX_SELL_ATTEMPTS,
            Wait::Requote { attempt, .. } => 1 <= attempt <= MAX_SELL_ATTEMPTS,
            Wait::Pause { attempt, .. } => 1 <= attempt < MAX_SELL_ATTEMPTS,
            _ => true,
        }
    }
}

/// What a step does to the trades and the profit, what it reports, and what it asks
/// next of the same trade: nothing, where the walk goes on to the next one.
pub ghost struct Effect {
    pub trades: Map<Seq<char>, PendingTrade>,
    pub profit: int,
    pub events: Seq<Event>,
    pub next: Option<(Wait, Request)>,
}

/// The entry that a walk has come to, as the trade was when the walk began.
pub ghost struct Visit {
    pub stage: Stage,
    pub key: Seq<char>,
    pub trade: PendingTrade,
}

/// The shares of a limit order to sell what a trade holds.
pub open spec fn offer(config: TradingConfig, visit: Visit, shares: u64) -> LimitOrder {
    LimitOrder {
        token_id: visit.trade.token_id,
        side: Side::Sell,
        size: shares,
        price: offer_price(config, visit),
        rounded: visit.stage != Stage::LimitFills,
    }
}

/// The price of such an order: the trade's own target after a limit buy, else the
/// configured one.
pub open spec fn offer_price(config: TradingConfig, visit: Visit) -> i128 {
    if visit.stage == Stage::LimitFills {
        visit.trade.sell_price
    } else {
        config.sell_price as i128
    }
}

/// The limit order on the opposite token after a stop-loss.
pub open spec fn hedge_order(stop: u64, token_id: String, size: u64, held: bool) -> LimitOrder {
    LimitOrder {
        token_id,
        side: if held {
            Side::Sell
        } else {
            Side::Buy
        },
        size,
        price: if held {
            opposite_sell_price(stop)
        } else {
            opposite_buy_price(stop)
        },
        rounded: true,
    }
}

/// The key of the trade that follows such an order.
pub open spec fn hedge_key(trade: PendingTrade, token_id: Seq<char>, held: bool) -> Seq<char> {
    if held {
        opposite(trade.market_timestamp as nat, token_id)
    } else {
        opposite_limit(trade.market_timestamp as nat, token_id)
    }
}

/// The trade that follows such an order.
pub open spec fn hedge_trade(
    trade: PendingTrade,
    stop: u64,
    token_id: String,
    size: u64,
    held: bool,
) -> PendingTrade {
    PendingTrade {
        token_id,
        condition_id: trade.condition_id,
        token_type: trade.token_type.other_side(),
        investment_amount: value_of(size as int, opposite_buy_price(stop) as int) as i128,
        units: size,
        purchase_price: opposite_buy_price(stop),
        sell_price: opposite_sell_price(stop),
        market_timestamp: trade.market_timestamp,
        sold: false,
        confirmed_balance: Some(
            if held {
                size
            } else {
                0
            },
        ),
        buy_order_confirmed: held,
        limit_sell_orders_placed: held,
        no_sell: false,
        claim_on_closure: false,
        sell_attempts: 0,
        redemption_attempts: 0,
        redemption_abandoned: false,
    }
}

/// What is made by selling shares of a trade at a price.
pub open spec fn sale_profit(trade: PendingTrade, price: Decimal, units: u64) -> int {
    gain(units as int, price, trade.purchase_price as int)
}

impl Effect {
    /// Nothing happens, and the walk goes on.
    pub open spec fn pass(trades: Map<Seq<char>, PendingTrade>, profit: int) -> Effect {
        Effect { trades, profit, events: Seq::empty(), next: None }
    }

    /// Nothing happens yet, and something is asked.
    pub open spec fn asking(self, wait: Wait, request: Request) -> Effect {
        Effect { next: Some((wait, request)), ..self }
    }

    /// Something is reported.
    pub open spec fn reporting(self, event: Event) -> Effect {
        Effect { events: self.events.push(event), ..self }
    }

    /// The trade under a key is changed.
    pub open spec fn changing(self, key: Seq<char>, change: Change) -> Effect {
        Effect { trades: revised(self.trades, key, change), ..self }
    }
}

/// What follows a first answer.
pub open spec fn on_first(trader: Trader, visit: Visit, reply: Reply) -> Effect {
    let Visit { stage, key, trade } = visit;
    let none = Effect::pass(trader.pending@, trader.total_profit as int);
    let shares = reply.shares();
    let offered = none.asking(
        Wait::Offer { shares: shares->0 },
        Request::Limit(offer(trader.config, visit, shares->0)),
    );
    let risen = shares is Some && shares->0 > last_shares(trade) + 1;
    match stage {
        Stage::Positions => if reply.held() {
            none.changing(key, Change::Confirmed)
        } else {
            none
        },
        Stage::LimitFills => if !risen {
            none
        } else if trade.no_sell {
            none.changing(key, Change::Filled { shares: shares->0 }).changing(key, Change::Offered)
        } else if trader.simulation_mode {
            none.changing(key, Change::Filled { shares: shares->0 })
        } else {
            offered.changing(key, Change::Filled { shares: shares->0 })
        },
        Stage::Offers => if shares is Some && shares->0 >= 1 && !trader.simulation_mode {
            offered
        } else {
            none
        },
        Stage::Refills => if !risen {
            none
        } else if trade.no_sell || trader.simulation_mode {
            none.changing(key, Change::Filled { shares: shares->0 })
        } else {
            offered.changing(key, Change::Filled { shares: shares->0 })
        },
        Stage::SellFills => if shares is Some && last_shares(trade) > 1 && shares->0 < 1 {
            none.changing(key, Change::SoldOut).reporting(
                Event::SellFilled {
                    opposite: is_opposite(key),
                    token_type: trade.token_type,
                    period: trade.market_timestamp,
                    token_id: trade.token_id,
                    purchase_price: trade.purchase_price,
                    sell_price: trade.sell_price,
                    shares: last_shares(trade),
                },
            )
        } else {
            none
        },
        Stage::Sales => match reply.quote() {
            Some(price) => none.asking(
                Wait::Buyers { price },
                Request::BestPrice { token_id: trade.token_id },
            ),
            None => none,
        },
    }
}

/// What follows the answer to a limit order to sell.
pub open spec fn on_offer(trader: Trader, visit: Visit, shares: u64, reply: Reply) -> Effect {
    let marked = Effect::pass(trader.pending@, trader.total_profit as int).changing(
        visit.key,
        Change::Offered,
    );
    match reply {
        Reply::Order(Ok(response)) => marked.reporting(
            Event::OrderPlaced {
                purpose: if visit.stage == Stage::LimitFills {
                    Purpose::SellFilledBuy
                } else {
                    Purpose::TakeProfit
                },
                token_type: visit.trade.token_type,
                period: visit.trade.market_timestamp,
                token_id: visit.trade.token_id,
                price: offer_price(trader.config, visit),
                size: shares,
                order_id: response.order_id,
            },
        ),
        _ => marked,
    }
}

/// What begins an attempt to sell: in a simulation the sale itself, else a look at the
/// allowance, and a second one before any but the first attempt.
pub open spec fn on_attempt(
    trader: Trader,
    visit: Visit,
    price: Decimal,
    sale: Sale,
    units: u64,
    attempt: u32,
) -> Effect {
    if trader.simulation_mode {
        on_sold(trader, visit, price, sale, units, None)
    } else {
        Effect::pass(trader.pending@, trader.total_profit as int).asking(
            Wait::Refresh {
                price,
                sale,
                units,
                attempt,
                rounds: if attempt > 1 {
                    2
                } else {
                    1
                },
            },
            Request::RefreshAllowance { token_id: visit.trade.token_id },
        )
    }
}

/// What follows a look at the allowance and the pause after it.
pub open spec fn on_settled(
    trader: Trader,
    visit: Visit,
    price: Decimal,
    sale: Sale,
    units: u64,
    attempt: u32,
    rounds: u32,
) -> Effect {
    let none = Effect::pass(trader.pending@, trader.total_profit as int);
    if rounds > 1 {
        none.asking(
            Wait::Refresh { price, sale, units, attempt, rounds: (rounds - 1) as u32 },
            Request::RefreshAllowance { token_id: visit.trade.token_id },
        )
    } else {
        none.asking(
            Wait::Sent { price, sale, units, attempt },
            Request::AtMarket {
                token_id: visit.trade.token_id,
                amount: units,
                side: Side::Sell,
                fill: Fill::FillAndKill,
            },
        )
    }
}

/// What follows a sale, of which the exchange told the order unless it was simulated.
pub open spec fn on_sold(
    trader: Trader,
    visit: Visit,
    price: Decimal,
    sale: Sale,
    units: u64,
    order: Option<Option<String>>,
) -> Effect {
    let Visit { stage, key, trade } = visit;
    let earned = Effect::pass(
        trader.pending@,
        capped(trader.total_profit + sale_profit(trade, price, units)),
    );
    let told = match order {
        Some(order_id) => earned.reporting(
            Event::Sold {
                stop_loss: sale != Sale::Target,
                token_type: trade.token_type,
                period: trade.market_timestamp,
                quote: price,
                units,
                purchase_price: trade.purchase_price,
                order_id,
            },
        ),
        None => earned,
    };
    match sale {
        Sale::OppositeStop => told.changing(key, Change::SoldOut).reporting(
            Event::OppositeStopLoss {
                token_type: trade.token_type,
                period: trade.market_timestamp,
                token_id: trade.token_id,
                purchase_price: trade.purchase_price,
                quote: price,
                shares: units,
            },
        ),
        Sale::StopLoss { stop } => told.asking(
            Wait::Opposite { stop, units },
            Request::Market { condition_id: trade.condition_id },
        ),
        Sale::Target => {
            let gone = Effect { trades: told.trades.remove(key), ..told };
            if trader.tracks_cycles {
                gone.asking(Wait::Told, Request::CycleCompleted { token_type: trade.token_type })
            } else {
                gone
            }
        },
    }
}

/// What follows the answer to a market order to sell.
pub open spec fn on_sent(
    trader: Trader,
    visit: Visit,
    price: Decimal,
    sale: Sale,
    units: u64,
    attempt: u32,
    reply: Reply,
) -> Effect {
    let none = Effect::pass(trader.pending@, trader.total_profit as int);
    match reply {
        Reply::Order(Ok(response)) => on_sold(
            trader,
            visit,
            price,
            sale,
            units,
            Some(response.order_id),
        ),
        _ => if sale == Sale::Target {
            none.asking(
                Wait::Requote {
                    price,
                    units,
                    attempt,
                    failure: match reply {
                        Reply::Order(Err(failure)) => Some(failure),
                        _ => None,
                    },
                },
                Request::Price { token_id: visit.trade.token_id },
            )
        } else {
            none
        },
    }
}

/// What follows the price after a failed attempt to sell at the target: below the
/// target the sale is given up for now; after the last attempt the position is to be
/// claimed when its market closes.
pub open spec fn on_requote(
    trader: Trader,
    visit: Visit,
    price: Decimal,
    units: u64,
    attempt: u32,
    failure: Option<Failure>,
    reply: Reply,
) -> Effect {
    let Visit { stage, key, trade } = visit;
    let none = Effect::pass(trader.pending@, trader.total_profit as int);
    let now = match reply.quote() {
        Some(p) => p,
        None => price,
    };
    let fell = now.below(trade.sell_price as int);
    let told = if fell && failure is Some {
        none.reporting(
            Event::SellStopped {
                token_type: trade.token_type,
                period: trade.market_timestamp,
                quote: now,
                units,
                purchase_price: trade.purchase_price,
                attempt,
                details: failure->0.details,
            },
        )
    } else {
        none
    };
    if attempt >= MAX_SELL_ATTEMPTS {
        Effect {
            trades: replaced(
                told.trades,
                key,
                PendingTrade { sell_attempts: attempt, claim_on_closure: true, ..trade },
            ),
            ..told
        }
    } else if fell {
        told.changing(key, Change::Attempted { attempts: attempt })
    } else {
        told.asking(
            Wait::Pause { price: now, units, attempt },
            Request::Wait { milliseconds: RETRY_MILLISECONDS },
        )
    }
}

/// What follows the market of a trade that was sold at its stop-loss.
pub open spec fn on_opposite(
    trader: Trader,
    visit: Visit,
    stop: u64,
    units: u64,
    reply: Reply,
) -> Effect {
    let none = Effect::pass(trader.pending@, trader.total_profit as int);
    let up = visit.trade.token_type.other_side().up();
    match reply {
        Reply::Market(Some(market)) => match token_of_side(market.tokens@, up) {
            Some(token_id) => none.asking(
                Wait::OppositeHolding { stop, units, token_id },
                Request::Balance { token_id },
            ),
            None => none.changing(visit.key, Change::Sold),
        },
        _ => none.changing(visit.key, Change::Sold),
    }
}

/// What follows the shares held of the opposite token: they are offered for sale or,
/// where there are none, as many are bought as were sold.
pub open spec fn on_opposite_holding(
    trader: Trader,
    stop: u64,
    units: u64,
    token_id: String,
    reply: Reply,
) -> Effect {
    let none = Effect::pass(trader.pending@, trader.total_profit as int);
    let held = reply.shares() is Some && reply.shares()->0 > 1;
    let size = if held {
        reply.shares()->0
    } else {
        units
    };
    none.asking(
        Wait::Hedge { stop, token_id, size, held },
        Request::Limit(hedge_order(stop, token_id, size, held)),
    )
}

/// What follows the answer to the order on the opposite token.
pub open spec fn on_hedge(
    trader: Trader,
    visit: Visit,
    stop: u64,
    token_id: String,
    size: u64,
    held: bool,
    reply: Reply,
) -> Effect {
    let Visit { stage, key, trade } = visit;
    let none = Effect::pass(trader.pending@, trader.total_profit as int);
    let placed = match reply {
        Reply::Order(Ok(response)) => Effect {
            trades: none.trades.insert(
                hedge_key(trade, token_id@, held),
                hedge_trade(trade, stop, token_id, size, held),
            ),
            ..none
        }.reporting(
            Event::OrderPlaced {
                purpose: if held {
                    Purpose::SellOpposite
                } else {
                    Purpose::BuyOpposite
                },
                token_type: trade.token_type.other_side(),
                period: trade.market_timestamp,
                token_id,
                price: hedge_order(stop, token_id, size, held).price,
                size,
                order_id: response.order_id,
            },
        ),
        _ => none,
    };
    placed.changing(key, Change::Sold)
}

/// What a reply does to the trade that a walk has come to.
pub open spec fn effect(trader: Trader, visit: Visit, wait: Wait, reply: Reply) -> Effect {
    let none = Effect::pass(trader.pending@, trader.total_profit as int);
    let Visit { stage, key, trade } = visit;
    match wait {
        Wait::First => on_first(trader, visit, reply),
        Wait::Offer { shares } => on_offer(trader, visit, shares, reply),
        Wait::Buyers { price } => if !reply.liquid() {
            none
        } else {
            match sale(trader.config, key, trade, price) {
                Some(sale) => none.asking(
                    Wait::Holding { price, sale },
                    Request::Holding { token_id: trade.token_id },
                ),
                None => none,
            }
        },
        Wait::Holding { price, sale } => {
            let units = shares_to_sell(trade.units, reply.shares());
            if units == 0 {
                none
            } else {
                on_attempt(trader, visit, price, sale, units, 1)
            }
        },
        Wait::Refresh { price, sale, units, attempt, rounds } => if reply.refreshed() {
            none.asking(
                Wait::Settle { price, sale, units, attempt, rounds },
                Request::Wait { milliseconds: SETTLE_MILLISECONDS },
            )
        } else {
            on_settled(trader, visit, price, sale, units, attempt, rounds)
        },
        Wait::Settle { price, sale, units, attempt, rounds } => on_settled(
            trader,
            visit,
            price,
            sale,
            units,
            attempt,
            rounds,
        ),
        Wait::Sent { price, sale, units, attempt } => on_sent(
            trader,
            visit,
            price,
            sale,
            units,
            attempt,
            reply,
        ),
        Wait::Requote { price, units, attempt, failure } => on_requote(
            trader,
            visit,
            price,
            units,
            attempt,
            failure,
            reply,
        ),
        Wait::Pause { price, units, attempt } => on_attempt(
            trader,
            visit,
            price,
            Sale::Target,
            units,
            (attempt + 1) as u32,
        ),
        Wait::Told => none,
        Wait::Opposite { stop, units } => on_opposite(trader, visit, stop, units, reply),
        Wait::OppositeHolding { stop, units, token_id } => on_opposite_holding(
            trader,
            stop,
            units,
            token_id,
            reply,
        ),
        Wait::Hedge { stop, token_id, size, held } => on_hedge(
            trader,
            visit,
            stop,
            token_id,
            size,
            held,
            reply,
        ),
    }
}

/// What a step reports and asks.
pub struct Step {
    pub events: Vec<Event>,
    pub next: Option<(Wait, Request)>,
}

impl Step {
    /// Whether this step, with the trader before and after it, has an effect.
    pub open spec fn carries_out(self, before: Trader, after: Trader, effect: Effect) -> bool {
        &&& after.pending@ == effect.trades
        &&& after.total_profit == effect.profit
        &&& after.config == before.config
        &&& after.simulation_mode == before.simulation_mode
        &&& after.tracks_cycles == before.tracks_cycles
        &&& after.trades_executed == before.trades_executed
        &&& self.events@ == effect.events
        &&& self.next == effect.next
    }

    fn pass() -> (res: Step)
        ensures
            res.events@ == Seq::<Event>::empty(),
            res.next is None,
    {
        Step { events: Vec::new(), next: None }
    }

    fn asking(wait: Wait, request: Request) -> (res: Step)
        ensures
            res.events@ == Seq::<Event>::empty(),
            res.next == Some((wait, request)),
    {
        Step { events: Vec::new(), next: Some((wait, request)) }
    }

    fn reporting(event: Event) -> (res: Step)
        ensures
            res.events@ == Seq::<Event>::empty().push(event),
            res.next is None,
    {
        let mut events: Vec<Event> = Vec::new();
        events.push(event);
        Step { events, next: None }
    }
}

fn last_shares_of(trade: &PendingTrade) -> (res: u64)
    ensures
        res == last_shares(*trade),
{
    match trade.confirmed_balance {
        Some(b) => b,
        None => 0,
    }
}

fn hedge_buy_price(stop: u64) -> (res: i128)
    ensures
        res == opposite_buy_price(stop),
        -0x1_0000_0000_0000_0000 < res <= ONE,
{
    ONE as i128 - stop as i128
}

fn hedge_price(stop: u64, held: bool) -> (res: i128)
    ensures
        res == if held {
            opposite_sell_price(stop)
        } else {
            opposite_buy_price(stop)
        },
{
    if held {
        hedge_buy_price(stop) + OPPOSITE_MARGIN as i128
    } else {
        hedge_buy_price(stop)
    }
}

/// The entry that a walk has come to.
pub open spec fn visiting(stage: Stage, key: Seq<char>, trade: PendingTrade) -> Visit {
    Visit { stage, key, trade }
}

impl Trader {
    fn offer_shares(&self, stage: Stage, trade: &PendingTrade, shares: u64) -> (res: Step)
        ensures
            res.events@ == Seq::<Event>::empty(),
            forall|key: Seq<char>|
                res.next == Some(
                    (
                        Wait::Offer { shares },
                        Request::Limit(
                            #[trigger] offer(self.config, visiting(stage, key, *trade), shares),
                        ),
                    ),
                ),
    {
        let at_target = stage == Stage::LimitFills;
        let price: i128 = if at_target {
            trade.sell_price
        } else {
            self.config.sell_price as i128
        };
        let order = LimitOrder {
            token_id: trade.token_id.clone(),
            side: Side::Sell,
            size: shares,
            price,
            rounded: !at_target,
        };
        Step::asking(Wait::Offer { shares }, Request::Limit(order))
    }

    fn first_answer(&mut self, stage: Stage, key: &str, trade: &PendingTrade, reply: Reply) -> (res:
        Step)
        ensures
            res.carries_out(
                *old(self),
                *final(self),
                on_first(*old(self), visiting(stage, key@, *trade), reply),
            ),
    {
        let shares = reply.balance();
        let last: u64 = last_shares_of(trade);
        match stage {
            Stage::Positions => {
                if reply.is_held() {
                    self.pending.revise(key, Change::Confirmed);
                }
                Step::pass()
            },
            Stage::LimitFills => match shares {
                Some(b) => if b > last && b - last > 1 {
                    self.pending.revise(key, Change::Filled { shares: b });
                    if trade.no_sell {
                        self.pending.revise(key, Change::Offered);
                        Step::pass()
                    } else if self.simulation_mode {
                        Step::pass()
                    } else {
                        self.offer_shares(stage, trade, b)
                    }
                } else {
                    Step::pass()
                },
                None => Step::pass(),
            },
            Stage::Offers => match shares {
                Some(b) => if b >= 1 && !self.simulation_mode {
                    self.offer_shares(stage, trade, b)
                } else {
                    Step::pass()
                },
                None => Step::pass(),
            },
            Stage::Refills => match shares {
                Some(b) => if b > last && b - last > 1 {
                    self.pending.revise(key, Change::Filled { shares: b });
                    if trade.no_sell || self.simulation_mode {
                        Step::pass()
                    } else {
                        self.offer_shares(stage, trade, b)
                    }
                } else {
                    Step::pass()
                },
                None => Step::pass(),
            },
            Stage::SellFills => match shares {
                Some(b) => if last > 1 && b < 1 {
                    self.pending.revise(key, Change::SoldOut);
                    Step::reporting(
                        Event::SellFilled {
                            opposite: contains(key, "_opposite_"),
                            token_type: trade.token_type,
                            period: trade.market_timestamp,
                            token_id: trade.token_id.clone(),
                            purchase_price: trade.purchase_price,
                            sell_price: trade.sell_price,
                            shares: last,
                        },
                    )
                } else {
                    Step::pass()
                },
                None => Step::pass(),
            },
            Stage::Sales => match reply.price() {
                Some(price) => Step::asking(
                    Wait::Buyers { price },
                    Request::BestPrice { token_id: trade.token_id.clone() },
                ),
                None => Step::pass(),
            },
        }
    }

    fn offer_answered(
        &mut self,
        stage: Stage,
        key: &str,
        trade: &PendingTrade,
        shares: u64,
        reply: Reply,
    ) -> (res: Step)
        ensures
            res.carries_out(
                *old(self),
                *final(self),
                on_offer(*old(self), visiting(stage, key@, *trade), shares, reply),
            ),
    {
        self.pending.revise(key, Change::Offered);
        match reply {
            Reply::Order(Ok(response)) => {
                let at_target = stage == Stage::LimitFills;
                Step::reporting(
                    Event::OrderPlaced {
                        purpose: if at_target {
                            Purpose::SellFilledBuy
                        } else {
                            Purpose::TakeProfit
                        },
                        token_type: trade.token_type,
                        period: trade.market_timestamp,
                        token_id: trade.token_id.clone(),
                        price: if at_target {
                            trade.sell_price
                        } else {
                            self.config.sell_price as i128
                        },
                        size: shares,
                        order_id: response.order_id,
                    },
                )
            },
            _ => Step::pass(),
        }
    }

    fn sold(
        &mut self,
        stage: Stage,
        key: &str,
        trade: &PendingTrade,
        price: Decimal,
        sale: Sale,
        units: u64,
        order: Option<Option<String>>,
    ) -> (res: Step)
        ensures
            res.carries_out(
                *old(self),
                *final(self),
                on_sold(*old(self), visiting(stage, key@, *trade), price, sale, units, order),
            ),
    {
        let made: i128 = quoted_profit(units, &price, trade.purchase_price);
        self.total_profit = plus(self.total_profit, made);
        let mut events: Vec<Event> = Vec::new();
        if let Some(order_id) = order {
            events.push(
                Event::Sold {
                    stop_loss: sale != Sale::Target,
                    token_type: trade.token_type,
                    period: trade.market_timestamp,
                    quote: price,
                    units,
                    purchase_price: trade.purchase_price,
                    order_id,
                },
            );
        }
        match sale {
            Sale::OppositeStop => {
                self.pending.revise(key, Change::SoldOut);
                events.push(
                    Event::OppositeStopLoss {
                        token_type: trade.token_type,
                        period: trade.market_timestamp,
                        token_id: trade.token_id.clone(),
                        purchase_price: trade.purchase_price,
                        quote: price,
                        shares: units,
                    },
                );
                Step { events, next: None }
            },
            Sale::StopLoss { stop } => Step {
                events,
                next: Some(
                    (
                        Wait::Opposite { stop, units },
                        Request::Market { condition_id: trade.condition_id.clone() },
                    ),
                ),
            },
            Sale::Target => {
                self.pending.remove(key);
                Step {
                    events,
                    next: if self.tracks_cycles {
                        Some(
                            (Wait::Told, Request::CycleCompleted { token_type: trade.token_type }),
                        )
                    } else {
                        None
                    },
                }
            },
        }
    }

    /// Begins an attempt to sell.
    fn execute_sell(
        &mut self,
        stage: Stage,
        key: &str,
        trade: &PendingTrade,
        price: Decimal,
        sale: Sale,
        units: u64,
        attempt: u32,
    ) -> (res: Step)
        ensures
            res.carries_out(
                *old(self),
                *final(self),
                on_attempt(*old(self), visiting(stage, key@, *trade), price, sale, units, attempt),
            ),
    {
        if self.simulation_mode {
            self.sold(stage, key, trade, price, sale, units, None)
        } else {
            let rounds: u32 = if attempt > 1 {
                2
            } else {
                1
            };
            Step::asking(
                Wait::Refresh { price, sale, units, attempt, rounds },
                Request::RefreshAllowance { token_id: trade.token_id.clone() },
            )
        }
    }

    fn settled(
        &self,
        trade: &PendingTrade,
        price: Decimal,
        sale: Sale,
        units: u64,
        attempt: u32,
        rounds: u32,
    ) -> (res: Step)
        ensures
            forall|stage: Stage, key: Seq<char>|
                res.carries_out(
                    *self,
                    *self,
                    on_settled(
                        *self,
                        #[trigger] visiting(stage, key, *trade),
                        price,
                        sale,
                        units,
                        attempt,
                        rounds,
                    ),
                ),
    {
        let token_id = trade.token_id.clone();
        if rounds > 1 {
            Step::asking(
                Wait::Refresh { price, sale, units, attempt, rounds: rounds - 1 },
                Request::RefreshAllowance { token_id },
            )
        } else {
            Step::asking(
                Wait::Sent { price, sale, units, attempt },
                Request::AtMarket {
                    token_id,
                    amount: units,
                    side: Side::Sell,
                    fill: Fill::FillAndKill,
                },
            )
        }
    }

    fn sale_answered(
        &mut self,
        stage: Stage,
        key: &str,
        trade: &PendingTrade,
        price: Decimal,
        sale: Sale,
        units: u64,
        attempt: u32,
        reply: Reply,
    ) -> (res: Step)
        ensures
            res.carries_out(
                *old(self),
                *final(self),
                on_sent(
                    *old(self),
                    visiting(stage, key@, *trade),
                    price,
                    sale,
                    units,
                    attempt,
                    reply,
                ),
            ),
    {
        let failure = match reply {
            Reply::Order(Ok(response)) => {
                return self.sold(stage, key, trade, price, sale, units, Some(response.order_id));
            },
            Reply::Order(Err(failure)) => Some(failure),
            _ => None,
        };
        if sale == Sale::Target {
            Step::asking(
                Wait::Requote { price, units, attempt, failure },
                Request::Price { token_id: trade.token_id.clone() },
            )
        } else {
            Step::pass()
        }
    }

    fn requoted(
        &mut self,
        stage: Stage,
        key: &str,
        trade: &PendingTrade,
        price: Decimal,
        units: u64,
        attempt: u32,
        failure: Option<Failure>,
        reply: Reply,
    ) -> (res: Step)
        ensures
            res.carries_out(
                *old(self),
                *final(self),
                on_requote(
                    *old(self),
                    visiting(stage, key@, *trade),
                    price,
                    units,
                    attempt,
                    failure,
                    reply,
                ),
            ),
    {
        let now = match reply.price() {
            Some(p) => p,
            None => price,
        };
        let fell = now.is_below(trade.sell_price);
        let mut events: Vec<Event> = Vec::new();
        if fell {
            if let Some(failure) = failure {
                events.push(
                    Event::SellStopped {
                        token_type: trade.token_type,
                        period: trade.market_timestamp,
                        quote: now,
                        units,
                        purchase_price: trade.purchase_price,
                        attempt,
                        details: failure.details,
                    },
                );
            }
        }
        if attempt >= MAX_SELL_ATTEMPTS {
            let mut claimed = trade.clone();
            claimed.sell_attempts = attempt;
            claimed.claim_on_closure = true;
            self.pending.replace(key, claimed);
            Step { events, next: None }
        } else if fell {
            self.pending.revise(key, Change::Attempted { attempts: attempt });
            Step { events, next: None }
        } else {
            Step {
                events,
                next: Some(
                    (
                        Wait::Pause { price: now, units, attempt },
                        Request::Wait { milliseconds: RETRY_MILLISECONDS },
                    ),
                ),
            }
        }
    }

    fn opposite_found(
        &mut self,
        stage: Stage,
        key: &str,
        trade: &PendingTrade,
        stop: u64,
        units: u64,
        reply: Reply,
    ) -> (res: Step)
        ensures
            res.carries_out(
                *old(self),
                *final(self),
                on_opposite(*old(self), visiting(stage, key@, *trade), stop, units, reply),
            ),
    {
        let found = match reply {
            Reply::Market(Some(market)) => get_opposite_token_id(trade.token_type, &market),
            _ => None,
        };
        match found {
            Some(token_id) => Step::asking(
                Wait::OppositeHolding { stop, units, token_id: token_id.clone() },
                Request::Balance { token_id },
            ),
            None => {
                self.pending.revise(key, Change::Sold);
                Step::pass()
            },
        }
    }

    fn opposite_counted(&self, stop: u64, units: u64, token_id: String, reply: Reply) -> (res: Step)
        ensures
            res.carries_out(
                *self,
                *self,
                on_opposite_holding(*self, stop, units, token_id, reply),
            ),
    {
        let (size, held): (u64, bool) = match reply.balance() {
            Some(b) => if b > 1 {
                (b, true)
            } else {
                (units, false)
            },
            None => (units, false),
        };
        let order = LimitOrder {
            token_id: token_id.clone(),
            side: if held {
                Side::Sell
            } else {
                Side::Buy
            },
            size,
            price: hedge_price(stop, held),
            rounded: true,
        };
        Step::asking(Wait::Hedge { stop, token_id, size, held }, Request::Limit(order))
    }

    fn hedge_answered(
        &mut self,
        stage: Stage,
        key: &str,
        trade: &PendingTrade,
        stop: u64,
        token_id: String,
        size: u64,
        held: bool,
        reply: Reply,
    ) -> (res: Step)
        ensures
            res.carries_out(
                *old(self),
                *final(self),
                on_hedge(
                    *old(self),
                    visiting(stage, key@, *trade),
                    stop,
                    token_id,
                    size,
                    held,
                    reply,
                ),
            ),
    {
        let step = match reply {
            Reply::Order(Ok(response)) => {
                let hedge_key = if held {
                    opposite_key(trade.market_timestamp, token_id.as_str())
                } else {
                    opposite_limit_key(trade.market_timestamp, token_id.as_str())
                };
                let buy_price: i128 = hedge_buy_price(stop);
                let hedge = PendingTrade {
                    token_id: token_id.clone(),
                    condition_id: trade.condition_id.clone(),
                    token_type: trade.token_type.opposite(),
                    investment_amount: value(size, buy_price),
                    units: size,
                    purchase_price: buy_price,
                    sell_price: hedge_price(stop, true),
                    market_timestamp: trade.market_timestamp,
                    sold: false,
                    confirmed_balance: Some(
                        if held {
                            size
                        } else {
                            0
                        },
                    ),
                    buy_order_confirmed: held,
                    limit_sell_orders_placed: held,
                    no_sell: false,
                    claim_on_closure: false,
                    sell_attempts: 0,
                    redemption_attempts: 0,
                    redemption_abandoned: false,
                };
                self.pending.insert(hedge_key, hedge);
                Step::reporting(
                    Event::OrderPlaced {
                        purpose: if held {
                            Purpose::SellOpposite
                        } else {
                            Purpose::BuyOpposite
                        },
                        token_type: trade.token_type.opposite(),
                        period: trade.market_timestamp,
                        token_id,
                        price: hedge_price(stop, held),
                        size,
                        order_id: response.order_id,
                    },
                )
            },
            _ => Step::pass(),
        };
        self.pending.revise(key, Change::Sold);
        step
    }

    /// Takes the reply to what was last asked of the trade that a walk has come to.
    pub fn take_reply(
        &mut self,
        stage: Stage,
        key: &str,
        trade: &PendingTrade,
        wait: Wait,
        reply: Reply,
    ) -> (res: Step)
        requires
            wait.wf(),
        ensures
            res.carries_out(
                *old(self),
                *final(self),
                effect(*old(self), visiting(stage, key@, *trade), wait, reply),
            ),
            res.next matches Some((next, _)) ==> next.wf(),
    {
        match wait {
            Wait::First => self.first_answer(stage, key, trade, reply),
            Wait::Offer { shares } => self.offer_answered(stage, key, trade, shares, reply),
            Wait::Buyers { price } => {
                if !reply.has_liquidity() {
                    return Step::pass();
                }
                match decide_sale(&self.config, key, trade, price) {
                    Some(sale) => Step::asking(
                        Wait::Holding { price, sale },
                        Request::Holding { token_id: trade.token_id.clone() },
                    ),
                    None => Step::pass(),
                }
            },
            Wait::Holding { price, sale } => {
                let units: u64 = match reply.balance() {
                    Some(b) => if b > trade.units {
                        b
                    } else {
                        trade.units
                    },
                    None => trade.units,
                };
                if units == 0 {
                    Step::pass()
                } else {
                    self.execute_sell(stage, key, trade, price, sale, units, 1)
                }
            },
            Wait::Refresh { price, sale, units, attempt, rounds } => if reply.is_refreshed() {
                Step::asking(
                    Wait::Settle { price, sale, units, attempt, rounds },
                    Request::Wait { milliseconds: SETTLE_MILLISECONDS },
                )
            } else {
                self.settled(trade, price, sale, units, attempt, rounds)
            },
            Wait::Settle { price, sale, units, attempt, rounds } => {
                self.settled(trade, price, sale, units, attempt, rounds)
            },
            Wait::Sent { price, sale, units, attempt } => self.sale_answered(
                stage,
                key,
                trade,
                price,
                sale,
                units,
                attempt,
                reply,
            ),
            Wait::Requote { price, units, attempt, failure } => self.requoted(
                stage,
                key,
                trade,
                price,
                units,
                attempt,
                failure,
                reply,
            ),
            Wait::Pause { price, units, attempt } => self.execute_sell(
                stage,
                key,
                trade,
                price,
                Sale::Target,
                units,
                attempt + 1,
            ),
            Wait::Told => Step::pass(),
            Wait::Opposite { stop, units } => self.opposite_found(
                stage,
                key,
                trade,
                stop,
                units,
                reply,
            ),
            Wait::OppositeHolding { stop, units, token_id } => self.opposite_counted(
                stop,
                units,
                token_id,
                reply,
            ),
            Wait::Hedge { stop, token_id, size, held } => self.hedge_answered(
                stage,
                key,
                trade,
                stop,
                token_id,
                size,
                held,
                reply,
            ),
        }
    }
}

/// Where a check of the pending trades has come to.
pub enum PendingCheck {
    /// It has not begun.
    Start,
    /// The open simulated orders are asked for.
    Orders,
    /// The order book of a token of theirs is asked for.
    Quotes { tokens: Vec<String>, at: usize, prices: Vec<TokenPrice> },
    /// The simulated orders are being filled.
    Filling,
    /// A walk over the trades has come to one of them.
    Entry { stage: Stage, entries: Vec<(String, PendingTrade)>, at: usize, wait: Wait },
    /// It is over.
    Finished,
}

/// A place in a walk.
pub ghost enum Place {
    Entry { stage: Stage, list: Listing, at: int, wait: Wait },
    Finished,
}

impl PendingCheck {
    /// Whether the place is within its list, and the list holds no key twice.
    pub open spec fn wf(self) -> bool {
        match self {
            PendingCheck::Quotes { tokens, at, prices } => at < tokens@.len(),
            PendingCheck::Entry { stage, entries, at, wait } => at < entries@.len() && wait.wf()
                && distinct(listing(entries@)),
            _ => true,
        }
    }

    /// Whether the check is at a place in a walk.
    pub open spec fn is_at(self, place: Place) -> bool {
        match place {
            Place::Entry { stage, list, at, wait } => {
                &&& self is Entry
                &&& self->stage == stage
                &&& listing(self->entries@) == list
                &&& self->Entry_at == at
                &&& self->wait == wait
            },
            Place::Finished => self is Finished,
        }
    }
}

/// The first entry from `from` on that a walk is concerned with, or the length.
pub open spec fn first_concern(stage: Stage, list: Listing, from: int) -> int
    decreases list.len() - from,
{
    if from >= list.len() {
        list.len() as int
    } else if stage.concerns(list[from].0, list[from].1) {
        from
    } else {
        first_concern(stage, list, from + 1)
    }
}

/// Where the walks go on from an entry of a list, and what is asked there. A walk that
/// begins anew is over the trades `fresh`.
pub open spec fn resumed(stage: Stage, list: Listing, from: int, fresh: Listing) -> (Place, Request)
    decreases stage.walks_left(),
{
    let at = first_concern(stage, list, from);
    if at < list.len() {
        (
            Place::Entry { stage, list, at, wait: Wait::First },
            stage.question(list[at].1.token_id),
        )
    } else {
        match stage.following() {
            Some(next) => resumed(
                next,
                if next.is_fresh() {
                    fresh
                } else {
                    list
                },
                0,
                fresh,
            ),
            None => (Place::Finished, Request::Finished),
        }
    }
}

/// The prices known of the tokens of simulated orders, one more reply taken in.
pub open spec fn prices_with(prices: Seq<TokenPrice>, token_id: String, reply: Reply) -> Seq<
    TokenPrice,
> {
    match reply {
        Reply::Book(Some(book)) => prices.push(first_of(token_id, book)),
        _ => prices,
    }
}

/// What a step of the check gives: where the check is, what is asked and what is to
/// be reported.
pub struct Progress {
    pub check: PendingCheck,
    pub request: Request,
    pub events: Vec<Event>,
}

/// What a step of the check makes of the trader and of the reply to the last request.
pub open spec fn advances(
    before: Trader,
    check: PendingCheck,
    reply: Reply,
    after: Trader,
    res: Progress,
) -> bool {
    match check {
        PendingCheck::Start => {
            &&& after == before
            &&& res.events@ == Seq::<Event>::empty()
            &&& if before.simulation_mode {
                res.check is Orders && res.request is OpenOrders
            } else {
                let list = before.pending.list();
                let next = resumed(Stage::LimitFills, list, 0, list);
                res.check.is_at(next.0) && res.request == next.1
            }
        },
        PendingCheck::Orders => {
            &&& after == before
            &&& res.events@ == Seq::<Event>::empty()
            &&& match reply {
                Reply::Tokens(list) => {
                    let open = unique(texts(list@));
                    if open.len() == 0 {
                        res.check is Finished && res.request is Finished
                    } else {
                        &&& res.check matches PendingCheck::Quotes { tokens, at, prices }
                        &&& texts(tokens@) == open && at == 0 && prices@.len() == 0
                        &&& res.request == (Request::Book { token_id: tokens@[0] })
                    }
                },
                _ => res.check is Finished && res.request is Finished,
            }
        },
        PendingCheck::Quotes { tokens, at, prices } => {
            let known = prices_with(prices@, tokens@[at as int], reply);
            &&& after == before
            &&& res.events@ == Seq::<Event>::empty()
            &&& if at + 1 < tokens@.len() {
                &&& res.check matches PendingCheck::Quotes { tokens: t, at: a, prices: p }
                &&& t == tokens && a == at + 1 && p@ == known
                &&& res.request == (Request::Book { token_id: tokens@[at + 1] })
            } else {
                &&& res.check is Filling
                &&& res.request matches Request::FillOrders { prices: p }
                &&& p@ == known
            }
        },
        PendingCheck::Filling => {
            let list = before.pending.list();
            let next = resumed(Stage::Positions, list, 0, list);
            &&& after == before
            &&& res.events@ == Seq::<Event>::empty()
            &&& res.check.is_at(next.0)
            &&& res.request == next.1
        },
        PendingCheck::Entry { stage, entries, at, wait } => {
            let list = listing(entries@);
            let here = list[at as int];
            let e = effect(before, visiting(stage, here.0, here.1), wait, reply);
            let next = match e.next {
                Some((wait, request)) => (
                    (Place::Entry { stage, list, at: at as int, wait }),
                    request,
                ),
                None => resumed(stage, list, at + 1, after.pending.list()),
            };
            &&& (Step { events: res.events, next: e.next }).carries_out(
                before,
                after,
                e,
            )
            &&& res.check.is_at(next.0)
            &&& res.request == next.1
        },
        PendingCheck::Finished => {
            &&& after == before
            &&& res.check is Finished
            &&& res.request is Finished
            &&& res.events@ == Seq::<Event>::empty()
        },
    }
}

impl Trader {
    fn walk(&self, stage: Stage, entries: Vec<(String, PendingTrade)>, from: usize) -> (res: (
        PendingCheck,
        Request,
    ))
        requires
            from <= entries@.len(),
            distinct(listing(entries@)),
        ensures
            res.0.wf(),
            res.0.is_at(
                resumed(stage, listing(entries@), from as int, self.pending.list()).0,
            ),
            res.1 == resumed(stage, listing(entries@), from as int, self.pending.list()).1,
            !trades_for_real(res.1),
            self.simulation_mode && self.holds_to_closure() && list_claimed(listing(entries@))
                ==> simulated(res.0),
        decreases stage.walks_left(),
    {
        let ghost list = listing(entries@);
        let mut at: usize = from;
        while at < entries.len()
            invariant
                at <= entries@.len(),
                list == listing(entries@),
                distinct(list),
                first_concern(stage, list, from as int) == first_concern(stage, list, at as int),
            decreases entries@.len() - at,
        {
            if stage.concerns_entry(entries[at].0.as_str(), &entries[at].1) {
                let request = stage.ask(&entries[at].1.token_id);
                return (PendingCheck::Entry { stage, entries, at, wait: Wait::First }, request);
            }
            at = at + 1;
        }
        match stage.next() {
            Some(next) => if next == Stage::Offers {
                self.walk(next, entries, 0)
            } else {
                let fresh = self.pending.snapshot();
                proof {
                    if self.simulation_mode && self.holds_to_closure() {
                        lemma_fresh_list_claimed(listing(fresh@));
                    }
                }
                self.walk(next, fresh, 0)
            },
            None => (PendingCheck::Finished, Request::Finished),
        }
    }

    /// One step of the check of the pending trades: takes the reply to the last
    /// request, and gives the next one.
    ///
    /// A check that takes place in a simulation from its start on sends no order.
    pub fn check_pending_trades(&mut self, check: PendingCheck, reply: Reply) -> (res: Progress)
        requires
            check.wf(),
        ensures
            res.check.wf(),
            old(self).simulation_mode && old(self).holds_to_closure() && simulated(check)
                ==> final(self).holds_to_closure() && simulated(res.check) && !trades_for_real(
                res.request,
            ),
            advances(*old(self), check, reply, *final(self), res),
    {
        let (check, request, events): (PendingCheck, Request, Vec<Event>) = match check {
            PendingCheck::Start => if self.simulation_mode {
                (PendingCheck::Orders, Request::OpenOrders, Vec::new())
            } else {
                let fresh = self.pending.snapshot();
                let (check, request) = self.walk(Stage::LimitFills, fresh, 0);
                (check, request, Vec::new())
            },
            PendingCheck::Orders => match reply {
                Reply::Tokens(list) => {
                    let tokens = unique_texts(&list);
                    assert(texts(tokens@).len() == tokens@.len());
                    if tokens.len() == 0 {
                        (PendingCheck::Finished, Request::Finished, Vec::new())
                    } else {
                        let token_id = tokens[0].clone();
                        (
                            PendingCheck::Quotes { tokens, at: 0, prices: Vec::new() },
                            Request::Book { token_id },
                            Vec::new(),
                        )
                    }
                },
                _ => (PendingCheck::Finished, Request::Finished, Vec::new()),
            },
            PendingCheck::Quotes { tokens, at, prices } => {
                let mut prices = prices;
                if let Reply::Book(Some(book)) = reply {
                    prices.push(first_prices(tokens[at].clone(), &book));
                }
                let last: usize = tokens.len() - 1;
                if at < last {
                    let token_id = tokens[at + 1].clone();
                    (
                        PendingCheck::Quotes { tokens, at: at + 1, prices },
                        Request::Book { token_id },
                        Vec::new(),
                    )
                } else {
                    (PendingCheck::Filling, Request::FillOrders { prices }, Vec::new())
                }
            },
            PendingCheck::Filling => {
                let fresh = self.pending.snapshot();
                proof {
                    if self.simulation_mode && self.holds_to_closure() {
                        lemma_fresh_list_claimed(listing(fresh@));
                    }
                }
                let (check, request) = self.walk(Stage::Positions, fresh, 0);
                (check, request, Vec::new())
            },
            PendingCheck::Entry { stage, entries, at, wait } => {
                let count: usize = entries.len();
                proof {
                    if self.simulation_mode && self.holds_to_closure() && simulated(check) {
                        let here = listing(entries@)[at as int];
                        law_simulation_trades_nothing(
                            *self,
                            visiting(stage, here.0, here.1),
                            wait,
                            reply,
                        );
                    }
                }
                let step = self.take_reply(
                    stage,
                    entries[at].0.as_str(),
                    &entries[at].1,
                    wait,
                    reply,
                );
                match step.next {
                    Some((wait, request)) => (
                        PendingCheck::Entry { stage, entries, at, wait },
                        request,
                        step.events,
                    ),
                    None => {
                        assert(at + 1 <= count);
                        let (check, request) = self.walk(stage, entries, at + 1);
                        (check, request, step.events)
                    },
                }
            },
            PendingCheck::Finished => (PendingCheck::Finished, Request::Finished, Vec::new()),
        };
        Progress { check, request, events }
    }
}

} // verus!

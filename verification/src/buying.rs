//! Buying: at the market, and with limit orders.

use vstd::prelude::*;
use vstd::string::*;

use crate::check_laws::trades_for_real;
use crate::events::Event;
use crate::exchange::{Failure, Fill, LimitOrder, Reply, Request, Side};
use crate::keys::{bought, bought_key, limit, limit_key, simulated, simulated_key};
use crate::models::{BuyOpportunity, PendingTrade};
use crate::money::{order_size_for, order_size_of, units_for, units_of, value, value_of, ONE};
use crate::text::{decimal_text, u64_text};
use crate::trader::{Trader, TradingConfig};

verus! {

/// How much of a period must be left for a market buy, unless configured otherwise.
pub const MIN_TIME_REMAINING_SECONDS: u64 = 30;

/// How long the bot waits for the shares of a market buy.
pub const MAX_SETTLEMENT_SECONDS: u64 = 60;

/// How long it waits between two looks.
pub const SETTLEMENT_MILLISECONDS: u64 = 2000;

/// How much of a period must be left for a market buy.
pub open spec fn min_time_remaining(config: TradingConfig) -> u64 {
    match config.min_time_remaining_seconds {
        Some(s) => s,
        None => MIN_TIME_REMAINING_SECONDS,
    }
}

/// What is said of a buy that comes too late.
pub open spec fn too_late(remaining: u64, required: u64) -> Seq<char> {
    "❌ SAFETY CHECK FAILED: Insufficient time remaining for buy\n\nTime remaining: "@
        + decimal_text(remaining as nat) + " seconds\nMinimum required: "@ + decimal_text(
        required as nat,
    )
        + " seconds\n\nBuy was blocked to prevent risky trades near market closure.\nThis opportunity should not have been created - please check detector logic."@
}

/// A trade as an opportunity opens it.
pub open spec fn opened(
    config: TradingConfig,
    opportunity: BuyOpportunity,
    investment: int,
    units: u64,
) -> PendingTrade {
    PendingTrade {
        token_id: opportunity.token_id,
        condition_id: opportunity.condition_id,
        token_type: opportunity.token_type,
        investment_amount: investment as i128,
        units,
        purchase_price: opportunity.bid_price as i128,
        sell_price: config.sell_price as i128,
        market_timestamp: opportunity.period_timestamp,
        sold: false,
        confirmed_balance: None,
        buy_order_confirmed: false,
        limit_sell_orders_placed: false,
        no_sell: false,
        claim_on_closure: false,
        sell_attempts: 0,
        redemption_attempts: 0,
        redemption_abandoned: false,
    }
}

/// A simulated trade: it is not sold, but claimed when its market closes.
pub open spec fn on_paper(trade: PendingTrade) -> PendingTrade {
    PendingTrade { no_sell: true, claim_on_closure: true, ..trade }
}

/// A trade of which so many shares have arrived.
pub open spec fn settled(trade: PendingTrade, shares: u64) -> PendingTrade {
    PendingTrade {
        units: shares,
        confirmed_balance: Some(shares),
        buy_order_confirmed: shares > 0,
        ..trade
    }
}

/// The simulated order of an opportunity.
pub open spec fn simulation(opportunity: BuyOpportunity, units: u64) -> Request {
    Request::Simulate {
        token_id: opportunity.token_id,
        token_type: opportunity.token_type,
        condition_id: opportunity.condition_id,
        price: opportunity.bid_price,
        units,
        period: opportunity.period_timestamp,
    }
}

/// Where a buy has come to.
pub enum Buying {
    Start,
    /// A simulated order is being placed.
    Simulated,
    /// An order is being placed.
    Sent,
    /// The shares held are asked for.
    Holding { order_id: Option<String> },
    /// The bot pauses before it looks again.
    Pause { order_id: Option<String> },
    /// The buy went through.
    Finished,
    /// There is too little time left.
    Refused { reason: String },
    /// The order failed, for a reason if one is known.
    Failed { failure: Option<Failure> },
}

/// What a step of a buy gives.
pub struct BuyProgress {
    pub buying: Buying,
    pub request: Request,
    pub events: Vec<Event>,
}

impl BuyProgress {
    fn new(buying: Buying, request: Request) -> (res: BuyProgress)
        ensures
            res.buying == buying,
            res.request == request,
            res.events@ == Seq::<Event>::empty(),
    {
        BuyProgress { buying, request, events: Vec::new() }
    }

    /// Whether this step goes on to `buying` with a request, and reports nothing.
    pub open spec fn goes_to(self, buying: Buying, request: Request) -> bool {
        self.buying == buying && self.request == request && self.events@ == Seq::<Event>::empty()
    }

    /// Whether this step ends the buy, and reports at most this.
    pub open spec fn ends(self, events: Seq<Event>) -> bool {
        self.buying is Finished && self.request is Finished && self.events@ == events
    }
}

fn open_trade(config: &TradingConfig, opportunity: &BuyOpportunity, investment: i128, units: u64) -> (res:
    PendingTrade)
    ensures
        res == opened(*config, *opportunity, investment as int, units),
{
    PendingTrade {
        token_id: opportunity.token_id.clone(),
        condition_id: opportunity.condition_id.clone(),
        token_type: opportunity.token_type,
        investment_amount: investment,
        units,
        purchase_price: opportunity.bid_price as i128,
        sell_price: config.sell_price as i128,
        market_timestamp: opportunity.period_timestamp,
        sold: false,
        confirmed_balance: None,
        buy_order_confirmed: false,
        limit_sell_orders_placed: false,
        no_sell: false,
        claim_on_closure: false,
        sell_attempts: 0,
        redemption_attempts: 0,
        redemption_abandoned: false,
    }
}

fn simulated_order(opportunity: &BuyOpportunity, units: u64) -> (res: Request)
    ensures
        res == simulation(*opportunity, units),
{
    Request::Simulate {
        token_id: opportunity.token_id.clone(),
        token_type: opportunity.token_type,
        condition_id: opportunity.condition_id.clone(),
        price: opportunity.bid_price,
        units,
        period: opportunity.period_timestamp,
    }
}

/// The trade of a market buy before its shares have arrived.
pub open spec fn market_trade(config: TradingConfig, opportunity: BuyOpportunity) -> PendingTrade {
    opened(
        config,
        opportunity,
        config.fixed_trade_amount * ONE,
        units_of(config.fixed_trade_amount as int, opportunity.bid_price as int) as u64,
    )
}

/// The shares that a limit buy orders: a given number, or what the configured amount
/// buys.
pub open spec fn limit_units(
    config: TradingConfig,
    opportunity: BuyOpportunity,
    size: Option<u64>,
) -> u64 {
    match size {
        Some(units) => units,
        None => units_of(config.fixed_trade_amount as int, opportunity.bid_price as int) as u64,
    }
}

/// The size of the order of a limit buy: a given number of shares, or what the configured
/// amount buys, in hundredths of a share.
pub open spec fn limit_size(
    config: TradingConfig,
    opportunity: BuyOpportunity,
    size: Option<u64>,
) -> u64 {
    match size {
        Some(units) => units,
        None => order_size_of(
            config.fixed_trade_amount as int,
            opportunity.bid_price as int,
        ) as u64,
    }
}

/// The trade of a limit buy before it is filled.
pub open spec fn limit_trade(
    config: TradingConfig,
    opportunity: BuyOpportunity,
    size: Option<u64>,
) -> PendingTrade {
    let units = limit_units(config, opportunity, size);
    opened(
        config,
        opportunity,
        match size {
            Some(units) => value_of(units as int, opportunity.bid_price as int),
            None => config.fixed_trade_amount * ONE,
        },
        units,
    )
}

impl Trader {
    /// Whether two traders differ at most in their trades and in the number of buys.
    pub open spec fn same_but_trades(self, other: Trader) -> bool {
        &&& self.config == other.config
        &&& self.simulation_mode == other.simulation_mode
        &&& self.tracks_cycles == other.tracks_cycles
        &&& self.total_profit == other.total_profit
    }

    fn await_shares(
        &mut self,
        opportunity: &BuyOpportunity,
        order_id: Option<String>,
        elapsed: u64,
    ) -> (res: BuyProgress)
        ensures
            awaits_shares(*old(self), *final(self), *opportunity, order_id, elapsed, res),
            final(self).same_but_trades(*old(self)),
    {
        if elapsed >= MAX_SETTLEMENT_SECONDS {
            self.settle(opportunity, 0);
            let mut events: Vec<Event> = Vec::new();
            events.push(
                Event::BuyUnconfirmed {
                    token_type: opportunity.token_type,
                    period: opportunity.period_timestamp,
                    token_id: opportunity.token_id.clone(),
                    price: opportunity.bid_price as i128,
                    units: 0,
                    order_id,
                },
            );
            BuyProgress { buying: Buying::Finished, request: Request::Finished, events }
        } else {
            BuyProgress::new(
                Buying::Holding { order_id },
                Request::Holding { token_id: opportunity.token_id.clone() },
            )
        }
    }

    fn settle(&mut self, opportunity: &BuyOpportunity, shares: u64)
        ensures
            has_settled(*old(self), *final(self), *opportunity, shares),
            final(self).same_but_trades(*old(self)),
    {
        let investment: i128 = self.config.fixed_trade_amount as i128 * ONE as i128;
        let units: u64 = units_for(self.config.fixed_trade_amount, opportunity.bid_price);
        let mut trade = open_trade(&self.config, opportunity, investment, units);
        trade.units = shares;
        trade.confirmed_balance = Some(shares);
        trade.buy_order_confirmed = shares > 0;
        let key = bought_key(opportunity.period_timestamp, opportunity.token_id.as_str());
        self.pending.insert(key, trade);
        self.trades_executed = self.trades_executed.saturating_add(1);
    }

    /// One step of a market buy: takes the reply to the last request and the seconds
    /// since the order was taken, and gives the next request.
    pub fn execute_buy(
        &mut self,
        opportunity: &BuyOpportunity,
        buying: Buying,
        reply: Reply,
        elapsed: u64,
    ) -> (res: BuyProgress)
        ensures
            final(self).same_but_trades(*old(self)),
            old(self).simulation_mode && old(self).holds_to_closure() && (buying is Start
                || buying is Simulated) ==> final(self).holds_to_closure() && !trades_for_real(
                res.request,
            ) && !(res.buying is Sent),
            market_buys(*old(self), *opportunity, buying, reply, elapsed, *final(self), res),
    {
        match buying {
            Buying::Start => {
                let required: u64 = match self.config.min_time_remaining_seconds {
                    Some(s) => s,
                    None => MIN_TIME_REMAINING_SECONDS,
                };
                if opportunity.time_remaining_seconds < required {
                    let mut reason =
                        "❌ SAFETY CHECK FAILED: Insufficient time remaining for buy\n\nTime remaining: ".to_owned();
                    reason.append(u64_text(opportunity.time_remaining_seconds).as_str());
                    reason.append(" seconds\nMinimum required: ");
                    reason.append(u64_text(required).as_str());
                    reason.append(
                        " seconds\n\nBuy was blocked to prevent risky trades near market closure.\nThis opportunity should not have been created - please check detector logic.",
                    );
                    BuyProgress::new(Buying::Refused { reason }, Request::Finished)
                } else if self.simulation_mode {
                    let units: u64 = units_for(
                        self.config.fixed_trade_amount,
                        opportunity.bid_price,
                    );
                    BuyProgress::new(Buying::Simulated, simulated_order(opportunity, units))
                } else {
                    BuyProgress::new(
                        Buying::Sent,
                        Request::AtMarket {
                            token_id: opportunity.token_id.clone(),
                            amount: self.config.fixed_trade_amount,
                            side: Side::Buy,
                            fill: Fill::FillOrKill,
                        },
                    )
                }
            },
            Buying::Simulated => {
                let investment: i128 = self.config.fixed_trade_amount as i128 * ONE as i128;
                let units: u64 = units_for(self.config.fixed_trade_amount, opportunity.bid_price);
                let mut trade = open_trade(&self.config, opportunity, investment, units);
                trade.no_sell = true;
                trade.claim_on_closure = true;
                let key = simulated_key(
                    opportunity.period_timestamp,
                    opportunity.token_id.as_str(),
                );
                self.pending.insert(key, trade);
                BuyProgress::new(Buying::Finished, Request::Finished)
            },
            Buying::Sent => match reply {
                Reply::Order(Ok(response)) => self.await_shares(
                    opportunity,
                    response.order_id,
                    elapsed,
                ),
                Reply::Order(Err(failure)) => {
                    let mut events: Vec<Event> = Vec::new();
                    events.push(
                        Event::BuyFailed {
                            token_type: opportunity.token_type,
                            period: opportunity.period_timestamp,
                            token_id: opportunity.token_id.clone(),
                            price: opportunity.bid_price as i128,
                            units: units_for(
                                self.config.fixed_trade_amount,
                                opportunity.bid_price,
                            ),
                            details: failure.details.clone(),
                        },
                    );
                    BuyProgress {
                        buying: Buying::Failed { failure: Some(failure) },
                        request: Request::Finished,
                        events,
                    }
                },
                _ => BuyProgress::new(Buying::Failed { failure: None }, Request::Finished),
            },
            Buying::Holding { order_id } => {
                if let Some(shares) = reply.balance() {
                    if shares > 0 {
                        self.settle(opportunity, shares);
                        let mut events: Vec<Event> = Vec::new();
                        events.push(
                            Event::BuyConfirmed {
                                token_type: opportunity.token_type,
                                period: opportunity.period_timestamp,
                                token_id: opportunity.token_id.clone(),
                                price: opportunity.bid_price as i128,
                                units: shares,
                                order_id,
                            },
                        );
                        return BuyProgress {
                            buying: Buying::Finished,
                            request: Request::Finished,
                            events,
                        };
                    }
                }
                BuyProgress::new(
                    Buying::Pause { order_id },
                    Request::Wait { milliseconds: SETTLEMENT_MILLISECONDS },
                )
            },
            Buying::Pause { order_id } => self.await_shares(opportunity, order_id, elapsed),
            _ => BuyProgress::new(buying, Request::Finished),
        }
    }

    /// One step of a limit buy: takes the reply to the last request, and gives the next
    /// one. The order is for `size` shares or, without one, for what the configured
    /// amount buys. What it buys is offered for sale only where `place_sell_orders`.
    pub fn execute_limit_buy(
        &mut self,
        opportunity: &BuyOpportunity,
        place_sell_orders: bool,
        size_override: Option<u64>,
        buying: Buying,
        reply: Reply,
    ) -> (res: BuyProgress)
        ensures
            final(self).same_but_trades(*old(self)),
            final(self).trades_executed == old(self).trades_executed,
            old(self).simulation_mode && old(self).holds_to_closure() && (buying is Start
                || buying is Simulated) ==> final(self).holds_to_closure() && !trades_for_real(
                res.request,
            ) && !(res.buying is Sent),
            limit_buys(
                *old(self),
                *opportunity,
                place_sell_orders,
                size_override,
                buying,
                reply,
                *final(self),
                res,
            ),
    {
        let units: u64 = match size_override {
            Some(units) => units,
            None => units_for(self.config.fixed_trade_amount, opportunity.bid_price),
        };
        let size: u64 = match size_override {
            Some(units) => units,
            None => order_size_for(self.config.fixed_trade_amount, opportunity.bid_price),
        };
        let investment: i128 = match size_override {
            Some(units) => value(units, opportunity.bid_price as i128),
            None => self.config.fixed_trade_amount as i128 * ONE as i128,
        };
        match buying {
            Buying::Start => if self.simulation_mode {
                BuyProgress::new(Buying::Simulated, simulated_order(opportunity, units))
            } else {
                BuyProgress::new(
                    Buying::Sent,
                    Request::Limit(
                        LimitOrder {
                            token_id: opportunity.token_id.clone(),
                            side: Side::Buy,
                            size,
                            price: opportunity.bid_price as i128,
                            rounded: true,
                        },
                    ),
                )
            },
            Buying::Simulated => {
                let mut trade = open_trade(&self.config, opportunity, investment, units);
                trade.no_sell = true;
                trade.claim_on_closure = true;
                let key = limit_key(opportunity.period_timestamp, opportunity.token_id.as_str());
                self.pending.insert(key, trade);
                BuyProgress::new(Buying::Finished, Request::Finished)
            },
            Buying::Sent => match reply {
                Reply::Order(Ok(response)) => BuyProgress::new(
                    Buying::Holding { order_id: response.order_id },
                    Request::Balance { token_id: opportunity.token_id.clone() },
                ),
                Reply::Order(Err(failure)) => BuyProgress::new(
                    Buying::Failed { failure: Some(failure) },
                    Request::Finished,
                ),
                _ => BuyProgress::new(Buying::Failed { failure: None }, Request::Finished),
            },
            Buying::Holding { order_id } => {
                let initial: u64 = match reply.balance() {
                    Some(b) => b,
                    None => 0,
                };
                let mut trade = open_trade(&self.config, opportunity, investment, units);
                trade.confirmed_balance = Some(initial);
                trade.no_sell = !place_sell_orders;
                let key = limit_key(opportunity.period_timestamp, opportunity.token_id.as_str());
                self.pending.insert(key, trade);
                let mut events: Vec<Event> = Vec::new();
                events.push(
                    Event::LimitBuy {
                        token_type: opportunity.token_type,
                        period: opportunity.period_timestamp,
                        token_id: opportunity.token_id.clone(),
                        price: opportunity.bid_price as i128,
                        units,
                        order_id,
                        sell_price: self.config.sell_price as i128,
                    },
                );
                BuyProgress { buying: Buying::Finished, request: Request::Finished, events }
            },
            _ => BuyProgress::new(buying, Request::Finished),
        }
    }
}

/// What a step of a market buy makes of the trader, of the reply to the last request and of
/// the seconds since the order was taken.
pub open spec fn market_buys(
    before: Trader,
    opportunity: BuyOpportunity,
    buying: Buying,
    reply: Reply,
    elapsed: u64,
    after: Trader,
    res: BuyProgress,
) -> bool {
    match buying {
        Buying::Start => {
            let required = min_time_remaining(before.config);
            let remaining = opportunity.time_remaining_seconds;
            &&& after == before
            &&& res.events@ == Seq::<Event>::empty()
            &&& if remaining < required {
                &&& res.request is Finished
                &&& res.buying matches Buying::Refused { reason }
                &&& reason@ == too_late(remaining, required)
            } else if before.simulation_mode {
                &&& res.buying is Simulated
                &&& res.request == simulation(
                    opportunity,
                    market_trade(before.config, opportunity).units,
                )
            } else {
                &&& res.buying is Sent
                &&& res.request == (Request::AtMarket {
                    token_id: opportunity.token_id,
                    amount: before.config.fixed_trade_amount,
                    side: Side::Buy,
                    fill: Fill::FillOrKill,
                })
            }
        },
        Buying::Simulated => {
            &&& res.ends(Seq::empty())
            &&& after.trades_executed == before.trades_executed
            &&& after.pending@ == before.pending@.insert(
                simulated(opportunity.period_timestamp as nat, opportunity.token_id@),
                on_paper(market_trade(before.config, opportunity)),
            )
        },
        Buying::Sent => match reply {
            Reply::Order(Ok(response)) => awaits_shares(
                before,
                after,
                opportunity,
                response.order_id,
                elapsed,
                res,
            ),
            _ => {
                &&& after == before
                &&& res.request is Finished
                &&& match reply {
                    Reply::Order(Err(failure)) => {
                        &&& res.buying == (Buying::Failed { failure: Some(failure) })
                        &&& res.events@ == seq![
                            Event::BuyFailed {
                                token_type: opportunity.token_type,
                                period: opportunity.period_timestamp,
                                token_id: opportunity.token_id,
                                price: opportunity.bid_price as i128,
                                units: market_trade(before.config, opportunity).units,
                                details: failure.details,
                            },
                        ]
                    },
                    _ => res.buying == (Buying::Failed { failure: None })
                        && res.events@ == Seq::<Event>::empty(),
                }
            },
        },
        Buying::Holding { order_id } => if reply.shares() is Some && reply.shares()->0 > 0 {
            &&& has_settled(before, after, opportunity, reply.shares()->0)
            &&& res.ends(
                seq![
                    Event::BuyConfirmed {
                        token_type: opportunity.token_type,
                        period: opportunity.period_timestamp,
                        token_id: opportunity.token_id,
                        price: opportunity.bid_price as i128,
                        units: reply.shares()->0,
                        order_id,
                    },
                ],
            )
        } else {
            &&& after == before
            &&& res.goes_to(
                (Buying::Pause { order_id }),
                (Request::Wait { milliseconds: SETTLEMENT_MILLISECONDS }),
            )
        },
        Buying::Pause { order_id } => awaits_shares(
            before,
            after,
            opportunity,
            order_id,
            elapsed,
            res,
        ),
        _ => after == before && res.goes_to(buying, Request::Finished),
    }
}

/// What a step of a limit buy makes of the trader and of the reply to the last request.
pub open spec fn limit_buys(
    before: Trader,
    opportunity: BuyOpportunity,
    place_sell_orders: bool,
    size_override: Option<u64>,
    buying: Buying,
    reply: Reply,
    after: Trader,
    res: BuyProgress,
) -> bool {
    match buying {
        Buying::Start => {
            let units = limit_units(before.config, opportunity, size_override);
            &&& after == before
            &&& if before.simulation_mode {
                res.goes_to(Buying::Simulated, simulation(opportunity, units))
            } else {
                res.goes_to(
                    Buying::Sent,
                    Request::Limit(
                        (LimitOrder {
                            token_id: opportunity.token_id,
                            side: Side::Buy,
                            size: limit_size(before.config, opportunity, size_override),
                            price: opportunity.bid_price as i128,
                            rounded: true,
                        }),
                    ),
                )
            }
        },
        Buying::Simulated => {
            &&& res.ends(Seq::empty())
            &&& after.pending@ == before.pending@.insert(
                limit(opportunity.period_timestamp as nat, opportunity.token_id@),
                on_paper(limit_trade(before.config, opportunity, size_override)),
            )
        },
        Buying::Sent => {
            &&& after == before
            &&& match reply {
                Reply::Order(Ok(response)) => res.goes_to(
                    (Buying::Holding { order_id: response.order_id }),
                    (Request::Balance { token_id: opportunity.token_id }),
                ),
                Reply::Order(Err(failure)) => res.goes_to(
                    (Buying::Failed { failure: Some(failure) }),
                    Request::Finished,
                ),
                _ => res.goes_to((Buying::Failed { failure: None }), Request::Finished),
            }
        },
        Buying::Holding { order_id } => {
            let units = limit_units(before.config, opportunity, size_override);
            &&& after.pending@ == before.pending@.insert(
                limit(opportunity.period_timestamp as nat, opportunity.token_id@),
                PendingTrade {
                    confirmed_balance: Some(
                        match reply.shares() {
                            Some(b) => b,
                            None => 0,
                        },
                    ),
                    no_sell: !place_sell_orders,
                    ..limit_trade(before.config, opportunity, size_override)
                },
            )
            &&& res.ends(
                seq![
                    Event::LimitBuy {
                        token_type: opportunity.token_type,
                        period: opportunity.period_timestamp,
                        token_id: opportunity.token_id,
                        price: opportunity.bid_price as i128,
                        units,
                        order_id,
                        sell_price: before.config.sell_price as i128,
                    },
                ],
            )
        },
        _ => after == before && res.goes_to(buying, Request::Finished),
    }
}

/// Whether a market buy was booked with so many shares.
pub open spec fn has_settled(
    before: Trader,
    after: Trader,
    opportunity: BuyOpportunity,
    shares: u64,
) -> bool {
    &&& after.pending@ == before.pending@.insert(
        bought(opportunity.period_timestamp as nat, opportunity.token_id@),
        settled(market_trade(before.config, opportunity), shares),
    )
    &&& after.trades_executed == if before.trades_executed == u64::MAX {
        u64::MAX as int
    } else {
        before.trades_executed + 1
    }
}

/// Whether a step waits for the shares of a market buy or, when the time is up, books
/// the buy without them.
pub open spec fn awaits_shares(
    before: Trader,
    after: Trader,
    opportunity: BuyOpportunity,
    order_id: Option<String>,
    elapsed: u64,
    progress: BuyProgress,
) -> bool {
    if elapsed >= MAX_SETTLEMENT_SECONDS {
        &&& has_settled(before, after, opportunity, 0)
        &&& progress.ends(
            seq![
                Event::BuyUnconfirmed {
                    token_type: opportunity.token_type,
                    period: opportunity.period_timestamp,
                    token_id: opportunity.token_id,
                    price: opportunity.bid_price as i128,
                    units: 0,
                    order_id,
                },
            ],
        )
    } else {
        &&& after == before
        &&& progress.goes_to(
            Buying::Holding { order_id },
            Request::Holding { token_id: opportunity.token_id },
        )
    }
}

} // verus!

//! Settling trades whose markets have closed.

use vstd::prelude::*;
use vstd::string::*;

use crate::check_laws::trades_for_real;
use crate::events::{resolved_price, Event, MAX_REDEMPTION_ATTEMPTS};
use crate::exchange::{Position, Reply, Request};
use crate::models::PendingTrade;
use crate::money::{capped, plus, profit, profit_of, ONE};
use crate::text::{leading, leading_text, same_text};
use crate::trader::{check_market_result, has_winner, market_resolved_up, went_up, Trader};
use crate::trades::{
    law_mapping_holds_the_entries, listing, mapping, replaced, Class, Listing,
};

verus! {

/// How long a market is open.
pub const PERIOD_SECONDS: u64 = 900;

/// How long before its end a market is looked at.
pub const EARLY_SECONDS: u64 = 30;

/// Whether a market of a period is looked at: it has closed, or is about to.
pub open spec fn is_due(period: u64, now: u64) -> bool {
    now + EARLY_SECONDS >= period + PERIOD_SECONDS
}

fn due(period: u64, now: u64) -> (res: bool)
    ensures
        res == is_due(period, now),
{
    now as u128 + EARLY_SECONDS as u128 >= period as u128 + PERIOD_SECONDS as u128
}

/// What a trade has made, given that its side has won or lost.
pub open spec fn resolved_profit(trade: PendingTrade, won: bool) -> int {
    profit_of(trade.units as int, resolved_price(won) as int, trade.purchase_price as int)
}

/// The number of attempts to redeem a trade after one more.
pub open spec fn attempts_after(trade: PendingTrade) -> u32 {
    if trade.redemption_attempts == u32::MAX {
        u32::MAX
    } else {
        (trade.redemption_attempts + 1) as u32
    }
}

/// A trade after one more attempt to redeem it failed: given up after the last one.
pub open spec fn unredeemed(trade: PendingTrade) -> PendingTrade {
    PendingTrade {
        redemption_attempts: attempts_after(trade),
        redemption_abandoned: trade.redemption_abandoned || attempts_after(trade)
            >= MAX_REDEMPTION_ATTEMPTS,
        ..trade
    }
}

/// What is waited for, of the trade that has been come to.
pub enum Settling {
    /// What the exchange says of its market.
    Market,
    /// The shares held.
    Holding { won: bool },
    /// The answer to its redemption.
    Redeemed { won: bool },
}

/// Where a check for closed markets has come to.
pub enum ClosureCheck {
    /// It has not begun.
    Start,
    /// The simulated positions are asked for.
    Positions,
    /// The market of a simulated position is asked for.
    Position { positions: Vec<Position>, at: usize, now: u64 },
    /// The simulated positions in a market are being resolved.
    Resolving { positions: Vec<Position>, at: usize, now: u64 },
    /// A trade is being settled.
    Entry { entries: Vec<(String, PendingTrade)>, at: usize, now: u64, settling: Settling },
    /// It is over.
    Finished,
}

impl ClosureCheck {
    /// Whether the place is within its list.
    pub open spec fn wf(self) -> bool {
        match self {
            ClosureCheck::Position { positions, at, now } => at < positions@.len(),
            ClosureCheck::Resolving { positions, at, now } => at < positions@.len(),
            ClosureCheck::Entry { entries, at, .. } => at < entries@.len(),
            _ => true,
        }
    }
}

/// The first trade from `from` on that is to be settled, or the length.
pub open spec fn first_unsettled(list: Listing, from: int, now: u64) -> int
    decreases list.len() - from,
{
    if from >= list.len() {
        list.len() as int
    } else if !list[from].1.sold && is_due(list[from].1.market_timestamp, now) {
        from
    } else {
        first_unsettled(list, from + 1, now)
    }
}

/// The first position from `from` on whose market is to be looked at, or the length.
pub open spec fn first_due(positions: Seq<Position>, from: int, now: u64) -> int
    decreases positions.len() - from,
{
    if from >= positions.len() {
        positions.len() as int
    } else if is_due(positions[from].period_timestamp, now) {
        from
    } else {
        first_due(positions, from + 1, now)
    }
}

/// What a step of the check gives.
pub struct ClosureProgress {
    pub check: ClosureCheck,
    pub request: Request,
    pub events: Vec<Event>,
}

impl ClosureProgress {
    /// Whether the check goes on with the first trade from `from` on that is to be
    /// settled.
    pub open spec fn goes_on(self, list: Listing, from: int, now: u64) -> bool {
        let next = first_unsettled(list, from, now);
        if next < list.len() {
            &&& self.check is Entry
            &&& listing(self.check->entries@) == list
            &&& self.check->Entry_at == next
            &&& self.check->Entry_now == now
            &&& self.check->settling is Market
            &&& self.request == (Request::Market { condition_id: list[next].1.condition_id })
        } else {
            self.check is Finished && self.request is Finished
        }
    }

    /// Whether the check stays with a trade and asks this.
    pub open spec fn stays(
        self,
        entries: Vec<(String, PendingTrade)>,
        at: usize,
        now: u64,
        settling: Settling,
        request: Request,
    ) -> bool {
        self.check == (ClosureCheck::Entry { entries, at, now, settling }) && self.request
            == request
    }

    /// Whether the check goes on with the first position from `from` on whose market is
    /// to be looked at.
    pub open spec fn looks_on(self, positions: Vec<Position>, from: int, now: u64) -> bool {
        let next = first_due(positions@, from, now);
        if next < positions@.len() {
            &&& self.check == (ClosureCheck::Position { positions, at: next as usize, now })
            &&& self.request == (Request::Market {
                condition_id: positions@[next].condition_id,
            })
        } else {
            self.check is Finished && self.request is Finished
        }
    }
}

fn next_position(positions: Vec<Position>, from: usize, now: u64) -> (res: ClosureProgress)
    requires
        from <= positions@.len(),
    ensures
        res.check.wf(),
        res.looks_on(positions, from as int, now),
        res.events@ == Seq::<Event>::empty(),
{
    let mut at: usize = from;
    while at < positions.len()
        invariant
            at <= positions@.len(),
            first_due(positions@, from as int, now) == first_due(positions@, at as int, now),
        decreases positions@.len() - at,
    {
        if due(positions[at].period_timestamp, now) {
            let condition_id = positions[at].condition_id.clone();
            return ClosureProgress {
                check: ClosureCheck::Position { positions, at, now },
                request: Request::Market { condition_id },
                events: Vec::new(),
            };
        }
        at = at + 1;
    }
    ClosureProgress {
        check: ClosureCheck::Finished,
        request: Request::Finished,
        events: Vec::new(),
    }
}

fn next_entry(
    entries: Vec<(String, PendingTrade)>,
    from: usize,
    now: u64,
    events: Vec<Event>,
) -> (res: ClosureProgress)
    requires
        from <= entries@.len(),
    ensures
        res.check.wf(),
        res.goes_on(listing(entries@), from as int, now),
        res.events == events,
{
    let ghost list = listing(entries@);
    let mut at: usize = from;
    while at < entries.len()
        invariant
            at <= entries@.len(),
            list == listing(entries@),
            first_unsettled(list, from as int, now) == first_unsettled(list, at as int, now),
        decreases entries@.len() - at,
    {
        if !entries[at].1.sold && due(entries[at].1.market_timestamp, now) {
            let condition_id = entries[at].1.condition_id.clone();
            return ClosureProgress {
                check: ClosureCheck::Entry { entries, at, now, settling: Settling::Market },
                request: Request::Market { condition_id },
                events,
            };
        }
        at = at + 1;
    }
    ClosureProgress { check: ClosureCheck::Finished, request: Request::Finished, events }
}

/// What a reply does to the trade that is being settled.
///
/// When its market is found closed, what it is worth is reported. Where no shares are
/// left to redeem it is settled at once; else it is settled when it was redeemed. A
/// redemption that fails is tried again, and after the last attempt the trade is
/// given up: it stays, but no longer counts as an open position.
pub open spec fn settles(
    before: Trader,
    after: Trader,
    entries: Vec<(String, PendingTrade)>,
    at: usize,
    now: u64,
    settling: Settling,
    reply: Reply,
    res: ClosureProgress,
) -> bool {
    let key = entries@[at as int].0@;
    let trade = entries@[at as int].1;
    match settling {
        Settling::Market => {
            &&& after == before
            &&& match reply {
                Reply::Market(Some(market)) if market.closed => {
                    let won = has_winner(market.tokens@, trade.token_id@);
                    &&& res.events@ == seq![
                        Event::MarketEnded {
                            token_type: trade.token_type,
                            period: trade.market_timestamp,
                            condition_id: trade.condition_id,
                        },
                        Event::MarketResult {
                            token_type: trade.token_type,
                            period: trade.market_timestamp,
                            won,
                            units: trade.units,
                            purchase_price: trade.purchase_price,
                        },
                    ]
                    &&& res.stays(
                        entries,
                        at,
                        now,
                        (Settling::Holding { won }),
                        (Request::Holding { token_id: trade.token_id }),
                    )
                },
                _ => res.events@ == Seq::<Event>::empty() && res.goes_on(
                    listing(entries@),
                    at + 1,
                    now,
                ),
            }
        },
        Settling::Holding { won } => {
            let held = match reply.shares() {
                Some(b) => b,
                None => trade.units,
            };
            if held == 0 {
                &&& after.has_booked(
                    before,
                    key,
                    resolved_profit(trade, won),
                )
                &&& res.events@ == seq![
                    Event::AlreadyRedeemed {
                        token_type: trade.token_type,
                        period: trade.market_timestamp,
                    },
                ]
                &&& res.goes_on(listing(entries@), at + 1, now)
            } else {
                &&& after == before
                &&& res.events@ == Seq::<Event>::empty()
                &&& res.stays(
                    entries,
                    at,
                    now,
                    (Settling::Redeemed { won }),
                    redemption_of(trade),
                )
            }
        },
        Settling::Redeemed { won } => {
            &&& res.goes_on(listing(entries@), at + 1, now)
            &&& if reply.redeemed() {
                &&& after.has_booked(
                    before,
                    key,
                    resolved_profit(trade, won),
                )
                &&& res.events@ == seq![
                    Event::Redeemed {
                        token_type: trade.token_type,
                        period: trade.market_timestamp,
                        attempt: attempts_after(trade),
                    },
                ]
            } else {
                &&& after.pending@ == replaced(
                    before.pending@,
                    key,
                    unredeemed(trade),
                )
                &&& after.total_profit == before.total_profit
                &&& if attempts_after(trade) < MAX_REDEMPTION_ATTEMPTS {
                    res.events@ == seq![
                        Event::RedemptionRetry {
                            token_type: trade.token_type,
                            period: trade.market_timestamp,
                            attempt: attempts_after(trade),
                        },
                    ]
                } else {
                    match reply.redemption_refusal() {
                        Some(reason) => {
                            &&& res.events@.len() == 1
                            &&& res.events@[0] matches Event::RedemptionAbandoned {
                                token_type,
                                period,
                                attempts,
                                message,
                            }
                            &&& token_type == trade.token_type
                            &&& period == trade.market_timestamp
                            &&& attempts == attempts_after(trade)
                            &&& message@ == reason
                        },
                        None => res.events@ == Seq::<Event>::empty(),
                    }
                }
            }
        },
    }
}

fn trade_profit(trade: &PendingTrade, won: bool) -> (res: i128)
    ensures
        res == resolved_profit(*trade, won),
{
    let price: i128 = if won {
        ONE as i128
    } else {
        0
    };
    profit(trade.units, price, trade.purchase_price)
}

/// The redemption of a trade.
pub open spec fn redemption_of(trade: PendingTrade) -> Request {
    Request::Redeem {
        condition_id: trade.condition_id,
        token_id: trade.token_id,
        token_type: trade.token_type,
    }
}

/// The redemption of a trade.
pub fn redemption(trade: &PendingTrade) -> (res: Request)
    ensures
        res == redemption_of(*trade),
{
    Request::Redeem {
        condition_id: trade.condition_id.clone(),
        token_id: trade.token_id.clone(),
        token_type: trade.token_type,
    }
}

/// What a step of the check makes of the trader, of the reply to the last request and of the
/// time.
pub open spec fn closes(
    before: Trader,
    check: ClosureCheck,
    reply: Reply,
    now: u64,
    after: Trader,
    res: ClosureProgress,
) -> bool {
    match check {
        ClosureCheck::Start => {
            &&& after == before
            &&& res.events@ == Seq::<Event>::empty()
            &&& if before.simulation_mode {
                res.check is Positions && res.request is Positions
            } else {
                res.goes_on(before.pending.list(), 0, now)
            }
        },
        ClosureCheck::Positions => {
            &&& after == before
            &&& res.events@ == Seq::<Event>::empty()
            &&& match reply {
                Reply::Positions(positions) => res.looks_on(positions, 0, now),
                _ => res.check is Finished && res.request is Finished,
            }
        },
        ClosureCheck::Position { positions, at, now } => {
            let p = positions@[at as int];
            &&& after == before
            &&& res.events@ == Seq::<Event>::empty()
            &&& match reply {
                Reply::Market(Some(market)) if market.closed => {
                    &&& res.check == (ClosureCheck::Resolving { positions, at, now })
                    &&& res.request == (Request::Resolve {
                        condition_id: p.condition_id,
                        token_type: p.token_type,
                        period: p.period_timestamp,
                        up: went_up(
                            p.token_type,
                            has_winner(market.tokens@, p.token_id@),
                        ),
                    })
                },
                _ => res.looks_on(positions, at + 1, now),
            }
        },
        ClosureCheck::Resolving { positions, at, now } => {
            &&& after == before
            &&& res.events@ == Seq::<Event>::empty()
            &&& res.looks_on(positions, at + 1, now)
        },
        ClosureCheck::Entry { entries, at, now, settling } => settles(
            before,
            after,
            entries,
            at,
            now,
            settling,
            reply,
            res,
        ),
        ClosureCheck::Finished => {
            &&& after == before
            &&& res.check is Finished
            &&& res.request is Finished
            &&& res.events@ == Seq::<Event>::empty()
        },
    }
}

impl Trader {
    /// Whether the trade under a key was settled: its profit booked, and it forgotten.
    pub open spec fn has_booked(self, before: Trader, key: Seq<char>, made: int) -> bool {
        &&& self.pending@ == before.pending@.remove(key)
        &&& self.total_profit == capped(before.total_profit + made)
        &&& self.same_but_books(before)
    }

    /// Whether two traders differ at most in their trades and their profit.
    pub open spec fn same_but_books(self, other: Trader) -> bool {
        &&& self.config == other.config
        &&& self.simulation_mode == other.simulation_mode
        &&& self.tracks_cycles == other.tracks_cycles
        &&& self.trades_executed == other.trades_executed
    }

    fn settle_trade(&mut self, key: &str, made: i128)
        ensures
            final(self).has_booked(*old(self), key@, made as int),
    {
        self.pending.remove(key);
        self.total_profit = plus(self.total_profit, made);
    }

    fn settle_entry(
        &mut self,
        entries: Vec<(String, PendingTrade)>,
        at: usize,
        now: u64,
        settling: Settling,
        reply: Reply,
    ) -> (res: ClosureProgress)
        requires
            at < entries@.len(),
        ensures
            res.check.wf(),
            final(self).same_but_books(*old(self)),
            settles(*old(self), *final(self), entries, at, now, settling, reply, res),
    {
        let count: usize = entries.len();
        assert(at + 1 <= count);
        let trade = &entries[at].1;
        let mut events: Vec<Event> = Vec::new();
        match settling {
            Settling::Market => {
                if let Reply::Market(Some(market)) = reply {
                    let (closed, won) = check_market_result(&market, trade.token_id.as_str());
                    if closed {
                        events.push(
                            Event::MarketEnded {
                                token_type: trade.token_type,
                                period: trade.market_timestamp,
                                condition_id: trade.condition_id.clone(),
                            },
                        );
                        events.push(
                            Event::MarketResult {
                                token_type: trade.token_type,
                                period: trade.market_timestamp,
                                won,
                                units: trade.units,
                                purchase_price: trade.purchase_price,
                            },
                        );
                        assert(events@ =~= seq![events@[0], events@[1]]);
                        let request = Request::Holding { token_id: trade.token_id.clone() };
                        let settling = Settling::Holding { won };
                        return ClosureProgress {
                            check: ClosureCheck::Entry { entries, at, now, settling },
                            request,
                            events,
                        };
                    }
                }
                next_entry(entries, at + 1, now, events)
            },
            Settling::Holding { won } => {
                let held: u64 = match reply.balance() {
                    Some(b) => b,
                    None => trade.units,
                };
                if held == 0 {
                    let made: i128 = trade_profit(trade, won);
                    self.settle_trade(entries[at].0.as_str(), made);
                    events.push(
                        Event::AlreadyRedeemed {
                            token_type: trade.token_type,
                            period: trade.market_timestamp,
                        },
                    );
                    next_entry(entries, at + 1, now, events)
                } else {
                    let request = redemption(trade);
                    let settling = Settling::Redeemed { won };
                    ClosureProgress {
                        check: ClosureCheck::Entry { entries, at, now, settling },
                        request,
                        events,
                    }
                }
            },
            Settling::Redeemed { won } => {
                let attempts: u32 = trade.redemption_attempts.saturating_add(1);
                if reply.is_redeemed() {
                    let made: i128 = trade_profit(trade, won);
                    self.settle_trade(entries[at].0.as_str(), made);
                    events.push(
                        Event::Redeemed {
                            token_type: trade.token_type,
                            period: trade.market_timestamp,
                            attempt: attempts,
                        },
                    );
                } else {
                    let mut next = trade.clone();
                    next.redemption_attempts = attempts;
                    if attempts >= MAX_REDEMPTION_ATTEMPTS {
                        next.redemption_abandoned = true;
                        if let Some(message) = reply.into_redemption_refusal() {
                            events.push(
                                Event::RedemptionAbandoned {
                                    token_type: trade.token_type,
                                    period: trade.market_timestamp,
                                    attempts,
                                    message,
                                },
                            );
                        }
                    } else {
                        events.push(
                            Event::RedemptionRetry {
                                token_type: trade.token_type,
                                period: trade.market_timestamp,
                                attempt: attempts,
                            },
                        );
                    }
                    self.pending.replace(entries[at].0.as_str(), next);
                }
                next_entry(entries, at + 1, now, events)
            },
        }
    }

    /// One step of the check for closed markets: takes the reply to the last request
    /// and, where the check begins to walk, the time, and gives the next request.
    ///
    /// A check that takes place in a simulation from its start on redeems nothing.
    pub fn check_market_closure(&mut self, check: ClosureCheck, reply: Reply, now: u64) -> (res:
        ClosureProgress)
        requires
            check.wf(),
        ensures
            res.check.wf(),
            final(self).same_but_books(*old(self)),
            old(self).simulation_mode && !(check is Entry) ==> !(res.check is Entry)
                && !trades_for_real(res.request) && *final(self) == *old(self),
            closes(*old(self), check, reply, now, *final(self), res),
    {
        match check {
            ClosureCheck::Start => if self.simulation_mode {
                ClosureProgress {
                    check: ClosureCheck::Positions,
                    request: Request::Positions,
                    events: Vec::new(),
                }
            } else {
                let entries = self.pending.snapshot();
                next_entry(entries, 0, now, Vec::new())
            },
            ClosureCheck::Positions => match reply {
                Reply::Positions(positions) => next_position(positions, 0, now),
                _ => ClosureProgress {
                    check: ClosureCheck::Finished,
                    request: Request::Finished,
                    events: Vec::new(),
                },
            },
            ClosureCheck::Position { positions, at, now } => {
                let count: usize = positions.len();
                let p = &positions[at];
                if let Reply::Market(Some(market)) = reply {
                    let (closed, won) = check_market_result(&market, p.token_id.as_str());
                    if closed {
                        let request = Request::Resolve {
                            condition_id: p.condition_id.clone(),
                            token_type: p.token_type,
                            period: p.period_timestamp,
                            up: market_resolved_up(p.token_type, won),
                        };
                        return ClosureProgress {
                            check: ClosureCheck::Resolving { positions, at, now },
                            request,
                            events: Vec::new(),
                        };
                    }
                }
                assert(at + 1 <= count);
                next_position(positions, at + 1, now)
            },
            ClosureCheck::Resolving { positions, at, now } => {
                let count: usize = positions.len();
                assert(at + 1 <= count);
                next_position(positions, at + 1, now)
            },
            ClosureCheck::Entry { entries, at, now, settling } => self.settle_entry(
                entries,
                at,
                now,
                settling,
                reply,
            ),
            ClosureCheck::Finished => ClosureProgress {
                check: ClosureCheck::Finished,
                request: Request::Finished,
                events: Vec::new(),
            },
        }
    }
}

impl Trader {
    /// The redemption of a trade in a token, if there is one.
    pub fn redeem_token_by_id(&self, token_id: &str) -> (res: Result<Request, String>)
        ensures
            match res {
                Ok(request) => exists|key: Seq<char>|
                    self.pending@.contains_key(key) && (#[trigger] self.pending@[key]).token_id@
                        == token_id@ && request == redemption_of(self.pending@[key]),
                Err(text) => {
                    &&& forall|key: Seq<char>|
                        self.pending@.contains_key(key) ==> (#[trigger] self.pending@[key]).token_id@
                            != token_id@
                    &&& text@ == "Trade not found for token "@ + leading(token_id@, 16)
                },
            },
    {
        let entries = self.pending.snapshot();
        let ghost list = listing(entries@);
        proof {
            law_mapping_holds_the_entries(list);
        }
        let mut i: usize = 0;
        while i < entries.len()
            invariant
                i <= entries@.len(),
                list == listing(entries@),
                mapping(list) == self.pending@,
                forall|j: int|
                    0 <= j < list.len() ==> mapping(list).contains_key((#[trigger] list[j]).0)
                        && mapping(list)[list[j].0] == list[j].1,
                forall|j: int| 0 <= j < i ==> (#[trigger] list[j]).1.token_id@ != token_id@,
            decreases entries@.len() - i,
        {
            if same_text(entries[i].1.token_id.as_str(), token_id) {
                assert(self.pending@[list[i as int].0] == list[i as int].1);
                return Ok(redemption(&entries[i].1));
            }
            assert(list[i as int].1.token_id@ != token_id@);
            i = i + 1;
        }
        assert forall|key: Seq<char>| self.pending@.contains_key(key) implies (
        #[trigger] self.pending@[key]).token_id@ != token_id@ by {
            let j = choose|j: int| 0 <= j < list.len() && (#[trigger] list[j]).0 == key;
            assert(list[j].1.token_id@ != token_id@);
        }
        let mut text = "Trade not found for token ".to_owned();
        text.append(leading_text(token_id, 16).as_str());
        Err(text)
    }
}

/// A trade that could not be redeemed is given up after the twentieth attempt, not
/// before, and then no longer counts as an open position.
pub proof fn law_redemption_is_given_up(trade: PendingTrade, class: Class)
    requires
        class is Open,
        !trade.redemption_abandoned,
    ensures
        unredeemed(trade).redemption_abandoned <==> trade.redemption_attempts + 1
            >= MAX_REDEMPTION_ATTEMPTS,
        trade.redemption_attempts + 1 >= MAX_REDEMPTION_ATTEMPTS ==> !class.holds(
            unredeemed(trade),
        ),
        trade.redemption_attempts + 1 < MAX_REDEMPTION_ATTEMPTS ==> class.holds(unredeemed(trade))
            == class.holds(trade),
{
}

/// A redemption that was not confirmed changes no profit: the trade stays under its key
/// as it was, but for the count of its attempts and for having been given up.
pub proof fn law_unconfirmed_redemptions_are_retried(
    before: Trader,
    after: Trader,
    entries: Vec<(String, PendingTrade)>,
    at: usize,
    now: u64,
    won: bool,
    reply: Reply,
    res: ClosureProgress,
)
    requires
        at < entries@.len(),
        before.pending@.contains_key(entries@[at as int].0@),
        settles(before, after, entries, at, now, (Settling::Redeemed { won }), reply, res),
        !reply.redeemed(),
    ensures
        after.total_profit == before.total_profit,
        after.pending@.contains_key(entries@[at as int].0@),
        after.pending@[entries@[at as int].0@] == (PendingTrade {
            redemption_attempts: attempts_after(entries@[at as int].1),
            redemption_abandoned: entries@[at as int].1.redemption_abandoned || attempts_after(
                entries@[at as int].1,
            ) >= MAX_REDEMPTION_ATTEMPTS,
            ..entries@[at as int].1
        }),
{
}

/// Profit is booked only together with forgetting the trade that made it, so that no
/// trade is booked twice.
pub proof fn law_settled_trades_are_forgotten(
    before: Trader,
    after: Trader,
    entries: Vec<(String, PendingTrade)>,
    at: usize,
    now: u64,
    settling: Settling,
    reply: Reply,
    res: ClosureProgress,
)
    requires
        at < entries@.len(),
        settles(before, after, entries, at, now, settling, reply, res),
        after.total_profit != before.total_profit,
    ensures
        !after.pending@.contains_key(entries@[at as int].0@),
{
}

/// Settling a trade changes no other.
pub proof fn law_settling_leaves_other_trades(
    before: Trader,
    after: Trader,
    entries: Vec<(String, PendingTrade)>,
    at: usize,
    now: u64,
    settling: Settling,
    reply: Reply,
    res: ClosureProgress,
    key: Seq<char>,
)
    requires
        at < entries@.len(),
        settles(before, after, entries, at, now, settling, reply, res),
        key != entries@[at as int].0@,
    ensures
        after.pending@.contains_key(key) == before.pending@.contains_key(key),
        before.pending@.contains_key(key) ==> after.pending@[key] == before.pending@[key],
{
}

/// A share that has won is worth a dollar more than one that has lost, whatever was
/// paid for it.
pub proof fn law_winning_is_worth_a_dollar_a_share(trade: PendingTrade)
    requires
        i128::MIN <= trade.units * (0 - trade.purchase_price),
        trade.units * (ONE - trade.purchase_price) <= i128::MAX,
    ensures
        resolved_profit(trade, true) - resolved_profit(trade, false) == trade.units * ONE,
{
    let (u, c) = (trade.units as int, trade.purchase_price as int);
    assert(u * (ONE - c) == u * ONE - u * c) by (nonlinear_arith);
    assert(u * (0 - c) == -(u * c)) by (nonlinear_arith);
}

/// A market is looked at from thirty seconds before its end on, and not before.
pub proof fn law_markets_are_looked_at_when_due(period: u64, now: u64)
    requires
        period + PERIOD_SECONDS <= u64::MAX,
    ensures
        is_due(period, now) <==> now >= period + PERIOD_SECONDS - EARLY_SECONDS,
        is_due(period, now) && now < u64::MAX ==> is_due(period, (now + 1) as u64),
{
}

} // verus!

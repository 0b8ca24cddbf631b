//! Holding the trades against the portfolio, and summing them up.

use vstd::prelude::*;
use vstd::string::*;

use crate::exchange::{Reply, Request};
use crate::logger::{emit, line, Level};
use crate::models::PendingTrade;
use crate::money::{fixed2, fixed2_text, price2, price2_text, value2, value2_text};
use crate::text::{decimal_text, is_among, texts, u64_text};
use crate::trader::Trader;
use crate::trades::{
    distinct, has_key, law_mapping_holds_the_entries, law_trades_are_their_entries, listing,
    place_of, revised, Change, Listing,
};

verus! {

/// How far the shares held may differ from those that a trade knows of: a thousandth
/// of a share.
pub const BALANCE_TOLERANCE: u64 = 1_000;

/// Where a comparison with the portfolio has come to.
pub enum PortfolioCheck {
    /// It has not begun.
    Start,
    /// The shares held of a trade's token are asked for.
    Entry { entries: Vec<(String, PendingTrade)>, at: usize },
    /// It is over.
    Finished,
}

impl PortfolioCheck {
    /// Whether the place is within its list, and the list holds no key twice.
    pub open spec fn wf(self) -> bool {
        self matches PortfolioCheck::Entry { entries, at } ==> at < entries@.len() && distinct(
            listing(entries@),
        )
    }
}

/// The first unsold trade from `from` on, or the length.
pub open spec fn first_unsold(list: Listing, from: int) -> int
    decreases list.len() - from,
{
    if from >= list.len() {
        list.len() as int
    } else if !list[from].1.sold {
        from
    } else {
        first_unsold(list, from + 1)
    }
}

/// Whether the comparison goes on with the first unsold trade from `from` on.
pub open spec fn compares_on(
    check: PortfolioCheck,
    request: Request,
    list: Listing,
    from: int,
) -> bool {
    let next = first_unsold(list, from);
    if next < list.len() {
        &&& check is Entry
        &&& listing(check->entries@) == list
        &&& check->at == next
        &&& request == (Request::Holding { token_id: list[next].1.token_id })
    } else {
        check is Finished && request is Finished
    }
}

/// The trades after the shares held of one of them were counted: without shares it is
/// forgotten, for it was redeemed; where they differ it is corrected.
pub open spec fn counted(
    trades: Map<Seq<char>, PendingTrade>,
    key: Seq<char>,
    trade: PendingTrade,
    held: Option<u64>,
) -> Map<Seq<char>, PendingTrade> {
    match held {
        None => trades,
        Some(shares) => if shares == 0 {
            trades.remove(key)
        } else if shares > trade.units + BALANCE_TOLERANCE || trade.units > shares
            + BALANCE_TOLERANCE {
            revised(trades, key, Change::Counted { shares })
        } else {
            trades
        },
    }
}

/// What a step of the comparison makes of the trader and of the reply to the last request.
pub open spec fn compares(
    before: Trader,
    check: PortfolioCheck,
    reply: Reply,
    after: Trader,
    res: (PortfolioCheck, Request),
) -> bool {
    &&& after.same_but_pending(before)
    &&& match check {
        PortfolioCheck::Start => {
            &&& after == before
            &&& compares_on(res.0, res.1, before.pending.list(), 0)
        },
        PortfolioCheck::Entry { entries, at } => {
            let list = listing(entries@);
            let (key, trade) = list[at as int];
            &&& after.pending@ == counted(
                before.pending@,
                key,
                trade,
                reply.shares(),
            )
            &&& compares_on(res.0, res.1, list, at + 1)
        },
        PortfolioCheck::Finished => {
            &&& after == before
            &&& res.0 is Finished
            &&& res.1 is Finished
        },
    }
}

fn next_comparison(entries: Vec<(String, PendingTrade)>, from: usize) -> (res: (
    PortfolioCheck,
    Request,
))
    requires
        from <= entries@.len(),
        distinct(listing(entries@)),
    ensures
        res.0.wf(),
        compares_on(res.0, res.1, listing(entries@), from as int),
{
    let ghost list = listing(entries@);
    let mut at: usize = from;
    while at < entries.len()
        invariant
            at <= entries@.len(),
            list == listing(entries@),
            distinct(list),
            first_unsold(list, from as int) == first_unsold(list, at as int),
        decreases entries@.len() - at,
    {
        if !entries[at].1.sold {
            let token_id = entries[at].1.token_id.clone();
            return (PortfolioCheck::Entry { entries, at }, Request::Holding { token_id });
        }
        at = at + 1;
    }
    (PortfolioCheck::Finished, Request::Finished)
}

/// What is said of an unsold trade.
pub open spec fn pending_text(key: Seq<char>, trade: PendingTrade) -> Seq<char> {
    "Pending "@ + key + " | "@ + trade.token_type.name() + " | "@ + fixed2(trade.units as nat)
        + " @ $"@ + price2(trade.purchase_price as int) + " | sell $"@ + price2(
        trade.sell_price as int,
    ) + " | inv $"@ + value2(trade.investment_amount as int)
}

/// The lines of the unsold trades.
pub open spec fn pending_lines(time: Seq<char>, list: Listing) -> Seq<char>
    decreases list.len(),
{
    if list.len() == 0 {
        Seq::empty()
    } else {
        let before = pending_lines(time, list.drop_last());
        let (key, trade) = list.last();
        if trade.sold {
            before
        } else {
            before + line(time, Level::Info.tag_text(), pending_text(key, trade))
        }
    }
}

/// The number of unsold trades.
pub open spec fn unsold(list: Listing) -> nat
    decreases list.len(),
{
    if list.len() == 0 {
        0
    } else if list.last().1.sold {
        unsold(list.drop_last())
    } else {
        unsold(list.drop_last()) + 1
    }
}

/// The summary of a trader's trades.
pub open spec fn summary(time: Seq<char>, executed: nat, profit: int, list: Listing) -> Seq<char> {
    line(
        time,
        Level::Info.tag_text(),
        "Trade summary | executed="@ + decimal_text(executed) + " | profit=$"@ + value2(profit)
            + " | pending="@ + decimal_text(unsold(list)),
    ) + if unsold(list) == 0 {
        line(time, Level::Info.tag_text(), "No pending trades."@)
    } else {
        pending_lines(time, list)
    }
}

/// A list of tokens with those of the trades that it lacks.
pub open spec fn with_tokens(tokens: Seq<Seq<char>>, list: Listing) -> Seq<Seq<char>>
    decreases list.len(),
{
    if list.len() == 0 {
        tokens
    } else {
        let before = with_tokens(tokens, list.drop_last());
        let token = list.last().1.token_id@;
        if before.contains(token) {
            before
        } else {
            before.push(token)
        }
    }
}

fn pending_line(key: &str, trade: &PendingTrade) -> (res: String)
    ensures
        res@ == pending_text(key@, *trade),
{
    let mut res = "Pending ".to_owned();
    res.append(key);
    res.append(" | ");
    res.append(trade.token_type.display_name());
    res.append(" | ");
    res.append(fixed2_text(trade.units).as_str());
    res.append(" @ $");
    res.append(price2_text(trade.purchase_price).as_str());
    res.append(" | sell $");
    res.append(price2_text(trade.sell_price).as_str());
    res.append(" | inv $");
    res.append(value2_text(trade.investment_amount).as_str());
    res
}

impl Trader {
    /// One step of the comparison of the trades with the portfolio: takes the reply to
    /// the last request, and gives the next one.
    pub fn sync_trades_with_portfolio(&mut self, check: PortfolioCheck, reply: Reply) -> (res: (
        PortfolioCheck,
        Request,
    ))
        requires
            check.wf(),
        ensures
            res.0.wf(),
            old(self).holds_to_closure() ==> final(self).holds_to_closure(),
            compares(*old(self), check, reply, *final(self), res),
    {
        match check {
            PortfolioCheck::Start => next_comparison(self.pending.snapshot(), 0),
            PortfolioCheck::Entry { entries, at } => {
                let count: usize = entries.len();
                assert(at + 1 <= count);
                let units: u64 = entries[at].1.units;
                if let Some(shares) = reply.balance() {
                    if shares == 0 {
                        self.pending.remove(entries[at].0.as_str());
                    } else if (shares > units && shares - units > BALANCE_TOLERANCE) || (units
                        > shares && units - shares > BALANCE_TOLERANCE) {
                        self.pending.revise(entries[at].0.as_str(), Change::Counted { shares });
                    }
                }
                next_comparison(entries, at + 1)
            },
            PortfolioCheck::Finished => (PortfolioCheck::Finished, Request::Finished),
        }
    }

    /// The summary of the trades at this time of day.
    pub fn print_trade_summary(&self, timestamp: &str) -> (res: String)
        ensures
            res@ == summary(
                timestamp@,
                self.trades_executed as nat,
                self.total_profit as int,
                self.pending.list(),
            ),
    {
        let entries = self.pending.snapshot();
        let ghost list = listing(entries@);
        let mut pending: u64 = 0;
        let mut details = String::new();
        let mut i: usize = 0;
        assert(list.take(0) =~= Listing::empty());
        while i < entries.len()
            invariant
                i <= entries@.len(),
                list == listing(entries@),
                pending == unsold(list.take(i as int)),
                pending <= i,
                details@ == pending_lines(timestamp@, list.take(i as int)),
            decreases entries@.len() - i,
        {
            assert(list.take(i + 1).drop_last() =~= list.take(i as int));
            assert(list.take(i + 1).last() == list[i as int]);
            if !entries[i].1.sold {
                pending = pending + 1;
                let text = pending_line(entries[i].0.as_str(), &entries[i].1);
                details.append(emit(timestamp, Level::Info, text.as_str()).as_str());
            }
            i = i + 1;
        }
        assert(list.take(i as int) =~= list);
        let mut head = "Trade summary | executed=".to_owned();
        head.append(u64_text(self.trades_executed).as_str());
        head.append(" | profit=$");
        head.append(value2_text(self.total_profit).as_str());
        head.append(" | pending=");
        head.append(u64_text(pending).as_str());
        let mut res = emit(timestamp, Level::Info, head.as_str());
        if pending == 0 {
            res.append(emit(timestamp, Level::Info, "No pending trades.").as_str());
        } else {
            res.append(details.as_str());
        }
        res
    }

    /// The tokens whose prices a summary of simulated positions needs: those of the
    /// positions, then those of the trades.
    pub fn summary_tokens(&self, positions: Vec<String>) -> (res: Vec<String>)
        ensures
            texts(res@) == with_tokens(texts(positions@), self.pending.list()),
    {
        let entries = self.pending.snapshot();
        let ghost list = listing(entries@);
        let ghost known = texts(positions@);
        let mut res = positions;
        let mut i: usize = 0;
        assert(list.take(0) =~= Listing::empty());
        while i < entries.len()
            invariant
                i <= entries@.len(),
                list == listing(entries@),
                texts(res@) == with_tokens(known, list.take(i as int)),
            decreases entries@.len() - i,
        {
            let ghost was = texts(res@);
            assert(list.take(i + 1).drop_last() =~= list.take(i as int));
            assert(list.take(i + 1).last() == list[i as int]);
            if !is_among(entries[i].1.token_id.as_str(), &res) {
                res.push(entries[i].1.token_id.clone());
                assert(texts(res@) =~= was.push(list[i as int].1.token_id@));
            }
            i = i + 1;
        }
        assert(list.take(i as int) =~= list);
        res
    }
}

/// A trade whose shares are gone is forgotten, one whose shares are as expected stays
/// as it is, and a second comparison with the same portfolio changes nothing more.
pub proof fn law_comparison_settles(
    trades: Map<Seq<char>, PendingTrade>,
    key: Seq<char>,
    held: Option<u64>,
)
    requires
        trades.contains_key(key),
    ensures
        held == Some(0u64) ==> !counted(trades, key, trades[key], held).contains_key(key),
        held == Some(trades[key].units) && held != Some(0u64) ==> counted(
            trades,
            key,
            trades[key],
            held,
        ) == trades,
        held != Some(0u64) ==> counted(
            counted(trades, key, trades[key], held),
            key,
            counted(trades, key, trades[key], held)[key],
            held,
        ) == counted(trades, key, trades[key], held),
{
}

/// A step of a comparison with the portfolio, with the trader before and after it.
pub ghost struct Comparison {
    pub before: Trader,
    pub check: PortfolioCheck,
    pub reply: Reply,
    pub after: Trader,
    pub res: (PortfolioCheck, Request),
}

impl Comparison {
    /// Whether this is a step of a comparison.
    #[verifier::opaque]
    pub open spec fn is_step(self) -> bool {
        &&& self.check.wf()
        &&& self.res.0.wf()
        &&& compares(self.before, self.check, self.reply, self.after, self.res)
    }

    /// Whether the shares that are told are those of a portfolio, which has a number of
    /// shares for each token of which it can be told.
    pub open spec fn is_told(self, portfolio: spec_fn(Seq<char>) -> Option<u64>) -> bool {
        self.check matches PortfolioCheck::Entry { entries, at } ==> self.reply.shares()
            == portfolio(listing(entries@)[at as int].1.token_id@)
    }
}

/// Whether steps make up a comparison with a portfolio, from its start to its end.
pub open spec fn is_whole_comparison(
    steps: Seq<Comparison>,
    portfolio: spec_fn(Seq<char>) -> Option<u64>,
) -> bool {
    &&& steps.len() > 0
    &&& steps[0].check is Start
    &&& steps.last().res.0 is Finished
    &&& forall|i: int|
        0 <= i < steps.len() ==> (#[trigger] steps[i]).is_step() && steps[i].is_told(portfolio)
    &&& forall|i: int|
        0 < i < steps.len() ==> (#[trigger] steps[i]).before == steps[i - 1].after && steps[i].check
            == steps[i - 1].res.0
}

/// Whether a trade agrees with a portfolio: it is sold, or nothing can be told of its
/// token, or there are shares, and about as many as it knows of.
pub open spec fn agrees(trade: PendingTrade, portfolio: spec_fn(Seq<char>) -> Option<u64>) -> bool {
    trade.sold || match portfolio(trade.token_id@) {
        None => true,
        Some(shares) => shares > 0 && shares <= trade.units + BALANCE_TOLERANCE && trade.units
            <= shares + BALANCE_TOLERANCE,
    }
}

/// After a comparison every trade that is left agrees with the portfolio, and a second
/// comparison with the same portfolio changes nothing.
pub proof fn law_a_second_comparison_changes_nothing(
    first: Seq<Comparison>,
    second: Seq<Comparison>,
    portfolio: spec_fn(Seq<char>) -> Option<u64>,
)
    requires
        is_whole_comparison(first, portfolio),
        is_whole_comparison(second, portfolio),
        second[0].before == first.last().after,
    ensures
        forall|key: Seq<char>| #[trigger]
            first.last().after.pending@.contains_key(key) ==> agrees(
                first.last().after.pending@[key],
                portfolio,
            ),
        second.last().after.pending@ == first.last().after.pending@,
        second.last().after.same_but_pending(first.last().after),
{
    lemma_compared(first, portfolio, first.len() as int);
    lemma_unchanged(second, portfolio, second.len() as int);
}

/// Whether all trades agree with a portfolio.
spec fn all_agree(
    trades: Map<Seq<char>, PendingTrade>,
    portfolio: spec_fn(Seq<char>) -> Option<u64>,
) -> bool {
    forall|key: Seq<char>| #[trigger] trades.contains_key(key) ==> agrees(trades[key], portfolio)
}

/// Whether the entries of a list before a place have been compared, and the others are
/// still as they were.
spec fn compared_before(
    trades: Map<Seq<char>, PendingTrade>,
    list: Listing,
    at: int,
    portfolio: spec_fn(Seq<char>) -> Option<u64>,
) -> bool {
    &&& forall|key: Seq<char>| #[trigger] trades.contains_key(key) ==> has_key(list, key)
    &&& forall|i: int|
        0 <= i < at && i < list.len() && trades.contains_key((#[trigger] list[i]).0) ==> agrees(
            trades[list[i].0],
            portfolio,
        )
    &&& forall|i: int|
        at <= i < list.len() && trades.contains_key((#[trigger] list[i]).0) ==> trades[list[i].0]
            == list[i].1
}

/// Whether a comparison has done its work so far.
#[verifier::opaque]
spec fn on_its_way(
    trader: Trader,
    check: PortfolioCheck,
    portfolio: spec_fn(Seq<char>) -> Option<u64>,
) -> bool {
    match check {
        PortfolioCheck::Start => true,
        PortfolioCheck::Entry { entries, at } => compared_before(
            trader.pending@,
            listing(entries@),
            at as int,
            portfolio,
        ),
        PortfolioCheck::Finished => all_agree(trader.pending@, portfolio),
    }
}

/// The entries that are passed over are sold.
proof fn lemma_first_unsold(list: Listing, from: int)
    requires
        0 <= from <= list.len(),
    ensures
        from <= first_unsold(list, from) <= list.len(),
        first_unsold(list, from) < list.len() ==> !list[first_unsold(list, from)].1.sold,
        forall|i: int| from <= i < first_unsold(list, from) ==> (#[trigger] list[i]).1.sold,
    decreases list.len() - from,
{
    if from < list.len() && list[from].1.sold {
        lemma_first_unsold(list, from + 1);
    }
}

/// Going on keeps what was done.
proof fn lemma_goes_on(
    trader: Trader,
    check: PortfolioCheck,
    request: Request,
    list: Listing,
    from: int,
    portfolio: spec_fn(Seq<char>) -> Option<u64>,
)
    requires
        0 <= from <= list.len(),
        compares_on(check, request, list, from),
        compared_before(trader.pending@, list, from, portfolio),
    ensures
        on_its_way(trader, check, portfolio),
{
    reveal(on_its_way);
    lemma_first_unsold(list, from);
    let next = first_unsold(list, from);
    let trades = trader.pending@;
    assert(compared_before(trades, list, next, portfolio));
    if next >= list.len() {
        assert forall|key: Seq<char>| #[trigger] trades.contains_key(key) implies agrees(
            trades[key],
            portfolio,
        ) by {
            assert(has_key(list, key));
            let i = choose|i: int| 0 <= i < list.len() && (#[trigger] list[i]).0 == key;
            assert(trades.contains_key(list[i].0));
        }
    }
}

/// A step of a comparison.
proof fn lemma_comparison_step(
    step: Comparison,
    portfolio: spec_fn(Seq<char>) -> Option<u64>,
)
    requires
        step.is_step(),
        step.is_told(portfolio),
        on_its_way(step.before, step.check, portfolio),
    ensures
        on_its_way(step.after, step.res.0, portfolio),
{
    reveal(Comparison::is_step);
    reveal(on_its_way);
    match step.check {
        PortfolioCheck::Start => {
            let list = step.before.pending.list();
            let trades = step.before.pending@;
            law_trades_are_their_entries(step.before.pending);
            if step.res.0 is Entry {
                law_mapping_holds_the_entries(list);
                assert(compared_before(trades, list, 0, portfolio));
                lemma_goes_on(step.after, step.res.0, step.res.1, list, 0, portfolio);
            } else {
                lemma_first_unsold(list, 0);
                assert forall|key: Seq<char>| #[trigger] trades.contains_key(key) implies agrees(
                    trades[key],
                    portfolio,
                ) by {
                    assert(has_key(list, key));
                    assert(list[place_of(list, key)].1.sold);
                }
            }
        },
        PortfolioCheck::Entry { entries, at } => {
            let list = listing(entries@);
            let key = list[at as int].0;
            let trades = step.after.pending@;
            assert forall|i: int| 0 <= i < list.len() && i != at implies (
            #[trigger] list[i]).0 != key by {
                if i < at {
                    assert(list[i].0 != list[at as int].0);
                } else {
                    assert(list[at as int].0 != list[i].0);
                }
            }
            assert(compared_before(trades, list, at + 1, portfolio));
            lemma_goes_on(step.after, step.res.0, step.res.1, list, at + 1, portfolio);
        },
        PortfolioCheck::Finished => {},
    }
}

/// What a comparison has done after so many steps.
proof fn lemma_compared(
    steps: Seq<Comparison>,
    portfolio: spec_fn(Seq<char>) -> Option<u64>,
    count: int,
)
    requires
        is_whole_comparison(steps, portfolio),
        1 <= count <= steps.len(),
    ensures
        on_its_way(steps[count - 1].after, steps[count - 1].res.0, portfolio),
        count == steps.len() ==> all_agree(steps.last().after.pending@, portfolio),
    decreases count,
{
    let step = steps[count - 1];
    assert(step.is_step() && step.is_told(portfolio));
    if count > 1 {
        lemma_compared(steps, portfolio, count - 1);
        assert(step.before == steps[count - 2].after && step.check == steps[count - 2].res.0);
    } else {
        assert(on_its_way(step.before, step.check, portfolio)) by {
            reveal(on_its_way);
        }
    }
    lemma_comparison_step(step, portfolio);
    assert(count == steps.len() ==> all_agree(steps.last().after.pending@, portfolio)) by {
        reveal(on_its_way);
    }
}

/// Whether a list holds trades as they are.
#[verifier::opaque]
spec fn up_to_date(trader: Trader, check: PortfolioCheck) -> bool {
    check matches PortfolioCheck::Entry { entries, at } ==> forall|i: int|
        0 <= i < entries@.len() ==> trader.pending@.contains_key(
            (#[trigger] listing(entries@)[i]).0,
        ) && trader.pending@[listing(entries@)[i].0] == listing(entries@)[i].1
}

/// A step of a comparison of trades that agree with the portfolio.
proof fn lemma_unchanged_step(step: Comparison, portfolio: spec_fn(Seq<char>) -> Option<u64>)
    requires
        step.is_step(),
        step.is_told(portfolio),
        all_agree(step.before.pending@, portfolio),
        up_to_date(step.before, step.check),
        step.check matches PortfolioCheck::Entry { entries, at } ==> !listing(
            entries@,
        )[at as int].1.sold,
    ensures
        step.after.pending@ == step.before.pending@,
        step.after.same_but_pending(step.before),
        up_to_date(step.after, step.res.0),
        step.res.0 matches PortfolioCheck::Entry { entries, at } ==> !listing(
            entries@,
        )[at as int].1.sold,
{
    reveal(Comparison::is_step);
    reveal(up_to_date);
    match step.check {
        PortfolioCheck::Start => {
            let list = step.before.pending.list();
            law_trades_are_their_entries(step.before.pending);
            lemma_first_unsold(list, 0);
            if step.res.0 is Entry {
                law_mapping_holds_the_entries(list);
                assert(listing(step.res.0->entries@) == list);
                assert(step.res.0->entries@.len() == list.len());
            }
        },
        PortfolioCheck::Entry { entries, at } => {
            let list = listing(entries@);
            lemma_first_unsold(list, at + 1);
            assert(step.before.pending@.contains_key(list[at as int].0));
            assert(agrees(list[at as int].1, portfolio));
            if step.res.0 is Entry {
                assert(step.res.0->entries@.len() == list.len());
            }
        },
        PortfolioCheck::Finished => {},
    }
}

/// What a comparison of trades that agree with the portfolio has done after so many steps.
proof fn lemma_unchanged(
    steps: Seq<Comparison>,
    portfolio: spec_fn(Seq<char>) -> Option<u64>,
    count: int,
)
    requires
        is_whole_comparison(steps, portfolio),
        all_agree(steps[0].before.pending@, portfolio),
        1 <= count <= steps.len(),
    ensures
        steps[count - 1].after.pending@ == steps[0].before.pending@,
        steps[count - 1].after.same_but_pending(steps[0].before),
        up_to_date(steps[count - 1].after, steps[count - 1].res.0),
        steps[count - 1].res.0 matches PortfolioCheck::Entry { entries, at } ==> !listing(
            entries@,
        )[at as int].1.sold,
    decreases count,
{
    let step = steps[count - 1];
    assert(step.is_step() && step.is_told(portfolio));
    if count > 1 {
        lemma_unchanged(steps, portfolio, count - 1);
        assert(step.before == steps[count - 2].after && step.check == steps[count - 2].res.0);
    } else {
        assert(up_to_date(step.before, step.check)) by {
            reveal(up_to_date);
        }
    }
    lemma_unchanged_step(step, portfolio);
}

/// Counting the shares of a trade: without any it is forgotten; where they differ from what it
/// knows of by more than a thousandth of a share it knows of them from then on; and otherwise,
/// or where nothing was told, nothing changes. No other trade changes.
pub proof fn law_a_trade_is_corrected_by_its_shares(step: Comparison)
    requires
        step.is_step(),
        step.check is Entry,
    ensures
        ({
            let (key, trade) = listing(step.check->entries@)[step.check->at as int];
            let before = step.before.pending@;
            match step.reply {
                Reply::Balance(Some(shares)) => {
                    let differs = shares > trade.units + 1000 || trade.units > shares + 1000;
                    &&& shares == 0 ==> step.after.pending@ == before.remove(key)
                    &&& shares > 0 && differs && before.contains_key(key) ==> step.after.pending@
                        == before.insert(
                        key,
                        PendingTrade {
                            units: shares,
                            confirmed_balance: Some(shares),
                            ..before[key]
                        },
                    )
                    &&& shares > 0 && (!differs || !before.contains_key(key))
                        ==> step.after.pending@ == before
                },
                _ => step.after.pending@ == before,
            }
        }),
        step.after.total_profit == step.before.total_profit,
        step.after.trades_executed == step.before.trades_executed,
{
    reveal(Comparison::is_step);
}

/// Whether a step ends with the question what is held of the token of a trade.
pub open spec fn asks_of(step: Comparison, key: Seq<char>) -> bool {
    &&& step.res.0 matches PortfolioCheck::Entry { entries, at }
    &&& listing(entries@)[at as int].0 == key
    &&& step.res.1 == (Request::Holding { token_id: listing(entries@)[at as int].1.token_id })
}

/// Whether the unsold trade at a place of a list is still to be asked about.
spec fn still_to_ask(check: PortfolioCheck, list: Listing, p: int) -> bool {
    check matches PortfolioCheck::Entry { entries, at } && listing(entries@) == list && at < p
}

/// A comparison asks about every trade that is unsold when it begins.
pub proof fn law_every_unsold_trade_is_compared(
    steps: Seq<Comparison>,
    portfolio: spec_fn(Seq<char>) -> Option<u64>,
    key: Seq<char>,
)
    requires
        is_whole_comparison(steps, portfolio),
        steps[0].before.pending@.contains_key(key),
        !steps[0].before.pending@[key].sold,
    ensures
        exists|i: int| 0 <= i < steps.len() && asks_of(#[trigger] steps[i], key),
{
    let list = steps[0].before.pending.list();
    law_trades_are_their_entries(steps[0].before.pending);
    assert(has_key(list, key));
    let p = place_of(list, key);
    assert(list[p].0 == key && !list[p].1.sold);
    lemma_asked_or_to_ask(steps, portfolio, list, p, key, steps.len() as int);
}

/// Of the first steps, one asks about the trade, or that is still to come.
proof fn lemma_asked_or_to_ask(
    steps: Seq<Comparison>,
    portfolio: spec_fn(Seq<char>) -> Option<u64>,
    list: Listing,
    p: int,
    key: Seq<char>,
    count: int,
)
    requires
        is_whole_comparison(steps, portfolio),
        list == steps[0].before.pending.list(),
        0 <= p < list.len(),
        list[p].0 == key,
        !list[p].1.sold,
        1 <= count <= steps.len(),
    ensures
        (exists|i: int| 0 <= i < count && asks_of(#[trigger] steps[i], key)) || still_to_ask(
            steps[count - 1].res.0,
            list,
            p,
        ),
    decreases count,
{
    reveal(Comparison::is_step);
    let step = steps[count - 1];
    assert(step.is_step());
    if count == 1 {
        lemma_first_unsold(list, 0);
        if step.res.0 is Entry && step.res.0->at == p {
            assert(asks_of(step, key));
        }
    } else {
        lemma_asked_or_to_ask(steps, portfolio, list, p, key, count - 1);
        if exists|i: int| 0 <= i < count - 1 && asks_of(#[trigger] steps[i], key) {
            let i = choose|i: int| 0 <= i < count - 1 && asks_of(#[trigger] steps[i], key);
            assert(asks_of(steps[i], key));
        } else {
            assert(step.check == steps[count - 2].res.0);
            let at = step.check->at as int;
            lemma_first_unsold(list, at + 1);
            if step.res.0 is Entry && step.res.0->at == p {
                assert(asks_of(step, key));
            }
        }
    }
}

/// The trades that count as pending in a summary are the unsold ones: none exactly where all
/// are sold, and one more for each unsold trade.
pub proof fn law_unsold_trades_are_counted(list: Listing, key: Seq<char>, trade: PendingTrade)
    ensures
        unsold(list) <= list.len(),
        unsold(list.push((key, trade))) == unsold(list) + if trade.sold {
            0nat
        } else {
            1nat
        },
        unsold(list) == 0 <==> forall|i: int| 0 <= i < list.len() ==> (#[trigger] list[i]).1.sold,
    decreases list.len(),
{
    assert(list.push((key, trade)).drop_last() =~= list);
    if list.len() > 0 {
        let rest = list.drop_last();
        law_unsold_trades_are_counted(rest, key, trade);
        assert forall|i: int| 0 <= i < list.len() - 1 implies #[trigger] list[i] == rest[i] by {}
        if forall|i: int| 0 <= i < list.len() ==> (#[trigger] list[i]).1.sold {
            assert forall|i: int| 0 <= i < rest.len() implies (#[trigger] rest[i]).1.sold by {
                assert(list[i].1.sold);
            }
            assert(list[list.len() - 1].1.sold);
        }
        if unsold(list) == 0 {
            assert forall|i: int| 0 <= i < list.len() implies (#[trigger] list[i]).1.sold by {
                if i < list.len() - 1 {
                    assert(rest[i].1.sold);
                }
            }
        }
    }
}

/// The tokens of a summary are those of the positions and those of all trades, and none is
/// added that is already there.
pub proof fn law_a_summary_knows_every_token(tokens: Seq<Seq<char>>, list: Listing)
    ensures
        tokens.len() <= with_tokens(tokens, list).len() <= tokens.len() + list.len(),
        with_tokens(tokens, list).take(tokens.len() as int) == tokens,
        forall|i: int|
            0 <= i < list.len() ==> with_tokens(tokens, list).contains(
                (#[trigger] list[i]).1.token_id@,
            ),
        tokens.no_duplicates() ==> with_tokens(tokens, list).no_duplicates(),
    decreases list.len(),
{
    if list.len() == 0 {
        assert(tokens.take(tokens.len() as int) =~= tokens);
    } else {
        let before = with_tokens(tokens, list.drop_last());
        let all = with_tokens(tokens, list);
        law_a_summary_knows_every_token(tokens, list.drop_last());
        assert(all.take(tokens.len() as int) =~= before.take(tokens.len() as int));
        assert forall|i: int| 0 <= i < list.len() implies all.contains(
            (#[trigger] list[i]).1.token_id@,
        ) by {
            let token = list[i].1.token_id@;
            if i < list.len() - 1 {
                assert(list.drop_last()[i] == list[i]);
                assert(before.contains(token));
                let k = choose|k: int| 0 <= k < before.len() && before[k] == token;
                assert(all[k] == token);
            } else if !before.contains(token) {
                assert(all[before.len() as int] == token);
            }
        }
    }
}

} // verus!

//! The trades that the bot watches, each under a key of its own.

use vstd::prelude::*;
use vstd::string::*;

use crate::models::{PendingTrade, TokenType};
use crate::text::same_text;

verus! {

/// Entries in the order in which they are walked: a key and its trade.
pub type Listing = Seq<(Seq<char>, PendingTrade)>;

/// The keys and trades of a list of entries.
pub open spec fn listing(entries: Seq<(String, PendingTrade)>) -> Listing {
    Seq::new(entries.len(), |i: int| (entries[i].0@, entries[i].1))
}

/// Whether no key occurs twice.
pub open spec fn distinct(list: Listing) -> bool {
    forall|i: int, j: int|
        #![trigger list[i], list[j]]
        0 <= i < j < list.len() ==> list[i].0 != list[j].0
}

/// Whether `key` occurs.
pub open spec fn has_key(list: Listing, key: Seq<char>) -> bool {
    exists|i: int| 0 <= i < list.len() && (#[trigger] list[i]).0 == key
}

/// Where `key` occurs.
pub open spec fn place_of(list: Listing, key: Seq<char>) -> int {
    choose|i: int| 0 <= i < list.len() && (#[trigger] list[i]).0 == key
}

/// The trade under each key.
pub open spec fn mapping(list: Listing) -> Map<Seq<char>, PendingTrade> {
    Map::new(|key: Seq<char>| has_key(list, key), |key: Seq<char>| list[place_of(list, key)].1)
}

/// A class of trades.
#[derive(Clone, Copy, Debug)]
pub enum Class {
    /// The open positions in one side of a market in a period: neither sold nor given
    /// up.
    Open { period: u64, side: TokenType },
    /// The trades of earlier periods whose redemption was given up.
    AbandonedBefore { period: u64 },
    /// The trades of a period.
    OfPeriod { period: u64 },
}

impl Class {
    /// Whether a trade is in this class.
    pub open spec fn holds(self, trade: PendingTrade) -> bool {
        match self {
            Class::Open { period, side } => trade.market_timestamp == period && trade.token_type
                == side && !trade.sold && !trade.redemption_abandoned,
            Class::AbandonedBefore { period } => trade.market_timestamp < period
                && trade.redemption_abandoned,
            Class::OfPeriod { period } => trade.market_timestamp == period,
        }
    }

    /// Whether a trade is in this class.
    pub fn contains(self, trade: &PendingTrade) -> (res: bool)
        ensures
            res == self.holds(*trade),
    {
        match self {
            Class::Open { period, side } => trade.market_timestamp == period && trade.token_type
                == side && !trade.sold && !trade.redemption_abandoned,
            Class::AbandonedBefore { period } => trade.market_timestamp < period
                && trade.redemption_abandoned,
            Class::OfPeriod { period } => trade.market_timestamp == period,
        }
    }
}

/// The trades that are not in a class.
pub open spec fn without(
    trades: Map<Seq<char>, PendingTrade>,
    class: Class,
) -> Map<Seq<char>, PendingTrade> {
    Map::new(
        |key: Seq<char>| trades.contains_key(key) && !class.holds(trades[key]),
        |key: Seq<char>| trades[key],
    )
}

/// A trade, marked as sold where it is in a class.
pub open spec fn sold_in(trade: PendingTrade, class: Class) -> PendingTrade {
    if class.holds(trade) {
        PendingTrade { sold: true, ..trade }
    } else {
        trade
    }
}

/// The trades, those of a class marked as sold.
pub open spec fn with_sold(
    trades: Map<Seq<char>, PendingTrade>,
    class: Class,
) -> Map<Seq<char>, PendingTrade> {
    Map::new(
        |key: Seq<char>| trades.contains_key(key),
        |key: Seq<char>| sold_in(trades[key], class),
    )
}

/// The trades after the one under `key`, if there is one, has become `trade`.
pub open spec fn replaced(
    trades: Map<Seq<char>, PendingTrade>,
    key: Seq<char>,
    trade: PendingTrade,
) -> Map<Seq<char>, PendingTrade> {
    if trades.contains_key(key) {
        trades.insert(key, trade)
    } else {
        trades
    }
}

/// What can happen to a trade.
#[derive(Clone, Copy, Debug)]
pub enum Change {
    /// Its simulated buy was filled.
    Confirmed,
    /// Its buy was filled: so many shares are held now.
    Filled { shares: u64 },
    /// A limit order to sell it was placed, or is not to be placed.
    Offered,
    /// It was sold.
    Sold,
    /// It was sold, and no shares are left.
    SoldOut,
    /// So many attempts to sell it failed.
    Attempted { attempts: u32 },
    /// The shares that are held were counted.
    Counted { shares: u64 },
}

impl Change {
    /// The trade after the change.
    pub open spec fn applied(self, trade: PendingTrade) -> PendingTrade {
        match self {
            Change::Confirmed => PendingTrade {
                buy_order_confirmed: true,
                confirmed_balance: Some(trade.units),
                ..trade
            },
            Change::Filled { shares } => PendingTrade {
                buy_order_confirmed: true,
                confirmed_balance: Some(shares),
                units: shares,
                ..trade
            },
            Change::Offered => PendingTrade { limit_sell_orders_placed: true, ..trade },
            Change::Sold => PendingTrade { sold: true, ..trade },
            Change::SoldOut => PendingTrade { sold: true, confirmed_balance: Some(0), ..trade },
            Change::Attempted { attempts } => PendingTrade { sell_attempts: attempts, ..trade },
            Change::Counted { shares } => PendingTrade {
                units: shares,
                confirmed_balance: Some(shares),
                ..trade
            },
        }
    }

    /// The trade after the change.
    pub fn apply(self, trade: &PendingTrade) -> (res: PendingTrade)
        ensures
            res == self.applied(*trade),
    {
        let mut t = trade.clone();
        match self {
            Change::Confirmed => {
                t.buy_order_confirmed = true;
                t.confirmed_balance = Some(t.units);
            },
            Change::Filled { shares } => {
                t.buy_order_confirmed = true;
                t.confirmed_balance = Some(shares);
                t.units = shares;
            },
            Change::Offered => {
                t.limit_sell_orders_placed = true;
            },
            Change::Sold => {
                t.sold = true;
            },
            Change::SoldOut => {
                t.sold = true;
                t.confirmed_balance = Some(0);
            },
            Change::Attempted { attempts } => {
                t.sell_attempts = attempts;
            },
            Change::Counted { shares } => {
                t.units = shares;
                t.confirmed_balance = Some(shares);
            },
        }
        t
    }
}

/// The trades after a change to the one under `key`, if there is one.
pub open spec fn revised(
    trades: Map<Seq<char>, PendingTrade>,
    key: Seq<char>,
    change: Change,
) -> Map<Seq<char>, PendingTrade> {
    if trades.contains_key(key) {
        trades.insert(key, change.applied(trades[key]))
    } else {
        trades
    }
}

/// Pending trades by key.
pub struct Trades {
    entries: Vec<(String, PendingTrade)>,
}

impl View for Trades {
    type V = Map<Seq<char>, PendingTrade>;

    closed spec fn view(&self) -> Map<Seq<char>, PendingTrade> {
        mapping(self.list())
    }
}

proof fn lemma_mapping(list: Listing, i: int)
    requires
        distinct(list),
        0 <= i < list.len(),
    ensures
        mapping(list).contains_key(list[i].0),
        mapping(list)[list[i].0] == list[i].1,
{
    let j = choose|j: int| 0 <= j < list.len() && (#[trigger] list[j]).0 == list[i].0;
    assert(0 <= j < list.len() && list[j].0 == list[i].0);
}

proof fn lemma_mapping_update(list: Listing, at: int, trade: PendingTrade)
    requires
        distinct(list),
        0 <= at < list.len(),
    ensures
        distinct(list.update(at, (list[at].0, trade))),
        mapping(list.update(at, (list[at].0, trade))) == mapping(list).insert(list[at].0, trade),
{
    let next = list.update(at, (list[at].0, trade));
    assert forall|i: int| 0 <= i < list.len() implies next[i].0 == list[i].0 by {}
    assert(distinct(next));
    assert forall|key: Seq<char>| has_key(next, key) == has_key(list, key) by {
        if has_key(list, key) {
            let i = choose|i: int| 0 <= i < list.len() && (#[trigger] list[i]).0 == key;
            assert(next[i].0 == key);
        }
        if has_key(next, key) {
            let i = choose|i: int| 0 <= i < next.len() && (#[trigger] next[i]).0 == key;
            assert(list[i].0 == key);
        }
    }
    lemma_mapping(list, at);
    assert forall|key: Seq<char>| has_key(list, key) implies mapping(next)[key] == mapping(
        list,
    ).insert(list[at].0, trade)[key] by {
        let i = choose|i: int| 0 <= i < list.len() && (#[trigger] list[i]).0 == key;
        assert(next[i].0 == key);
        lemma_mapping(list, i);
        lemma_mapping(next, i);
    }
    assert(mapping(next) =~= mapping(list).insert(list[at].0, trade));
}

proof fn lemma_mapping_push(list: Listing, key: Seq<char>, trade: PendingTrade)
    requires
        distinct(list),
        !has_key(list, key),
    ensures
        distinct(list.push((key, trade))),
        mapping(list.push((key, trade))) == mapping(list).insert(key, trade),
{
    let next = list.push((key, trade));
    assert(distinct(next)) by {
        assert forall|i: int, j: int|
            #![trigger next[i], next[j]]
            0 <= i < j < next.len() implies next[i].0 != next[j].0 by {
            assert(list[i] == next[i]);
            if j < list.len() {
                assert(list[j] == next[j]);
            }
        }
    }
    assert forall|k: Seq<char>| has_key(next, k) == (has_key(list, k) || k == key) by {
        if has_key(list, k) {
            let i = choose|i: int| 0 <= i < list.len() && (#[trigger] list[i]).0 == k;
            assert(next[i].0 == k);
        }
        assert(next[list.len() as int].0 == key);
        if has_key(next, k) {
            let i = choose|i: int| 0 <= i < next.len() && (#[trigger] next[i]).0 == k;
            if i < list.len() {
                assert(list[i].0 == k);
            }
        }
    }
    assert forall|k: Seq<char>| has_key(next, k) implies mapping(next)[k] == mapping(list).insert(
        key,
        trade,
    )[k] by {
        if k == key {
            lemma_mapping(next, list.len() as int);
        } else {
            let i = choose|i: int| 0 <= i < list.len() && (#[trigger] list[i]).0 == k;
            assert(next[i] == list[i]);
            lemma_mapping(list, i);
            lemma_mapping(next, i);
        }
    }
    assert(mapping(next) =~= mapping(list).insert(key, trade));
}

proof fn lemma_mapping_remove(list: Listing, at: int)
    requires
        distinct(list),
        0 <= at < list.len(),
    ensures
        distinct(list.remove(at)),
        mapping(list.remove(at)) == mapping(list).remove(list[at].0),
{
    let next = list.remove(at);
    assert forall|i: int| 0 <= i < next.len() implies #[trigger] next[i] == list[if i < at {
        i
    } else {
        i + 1
    }] by {}
    assert(distinct(next)) by {
        assert forall|i: int, j: int|
            #![trigger next[i], next[j]]
            0 <= i < j < next.len() implies next[i].0 != next[j].0 by {
            let a = if i < at {
                i
            } else {
                i + 1
            };
            let b = if j < at {
                j
            } else {
                j + 1
            };
            assert(list[a].0 != list[b].0);
        }
    }
    assert forall|k: Seq<char>| has_key(next, k) == (has_key(list, k) && k != list[at].0) by {
        if has_key(list, k) && k != list[at].0 {
            let i = choose|i: int| 0 <= i < list.len() && (#[trigger] list[i]).0 == k;
            let j = if i < at {
                i
            } else {
                i - 1
            };
            assert(next[j].0 == k);
        }
        if has_key(next, k) {
            let i = choose|i: int| 0 <= i < next.len() && (#[trigger] next[i]).0 == k;
            let j = if i < at {
                i
            } else {
                i + 1
            };
            assert(list[j].0 == k);
        }
    }
    assert forall|k: Seq<char>| has_key(next, k) implies mapping(next)[k] == mapping(list)[k] by {
        let i = choose|i: int| 0 <= i < next.len() && (#[trigger] next[i]).0 == k;
        lemma_mapping(next, i);
        lemma_mapping(
            list,
            if i < at {
                i
            } else {
                i + 1
            },
        );
    }
    assert(mapping(next) =~= mapping(list).remove(list[at].0));
}

/// What is under each key is told by the entries that are walked.
pub proof fn law_trades_are_their_entries(trades: Trades)
    ensures
        trades@ == mapping(trades.list()),
{
}

impl Trades {
    /// The entries in the order in which they are walked.
    pub closed spec fn list(self) -> Listing {
        listing(self.entries@)
    }

    #[verifier::type_invariant]
    spec fn distinct_keys(self) -> bool {
        distinct(listing(self.entries@))
    }

    /// No trades: nothing is under any key, and nothing is walked.
    pub fn new() -> (res: Trades)
        ensures
            res@ == Map::<Seq<char>, PendingTrade>::empty(),
            res.list() == Seq::<(Seq<char>, PendingTrade)>::empty(),
    {
        let res = Trades { entries: Vec::new() };
        assert(res@ =~= Map::<Seq<char>, PendingTrade>::empty());
        res
    }

    /// The position of a key.
    fn position(&self, key: &str) -> (res: Option<usize>)
        ensures
            match res {
                Some(i) => i < self.entries@.len() && self.entries@[i as int].0@ == key@,
                None => !has_key(self.list(), key@),
            },
            res is Some <==> self@.contains_key(key@),
    {
        let mut i: usize = 0;
        while i < self.entries.len()
            invariant
                i <= self.entries@.len(),
                forall|j: int| 0 <= j < i ==> (#[trigger] self.entries@[j]).0@ != key@,
            decreases self.entries@.len() - i,
        {
            if same_text(self.entries[i].0.as_str(), key) {
                assert(self.list()[i as int].0 == key@);
                return Some(i);
            }
            i = i + 1;
        }
        proof {
            if has_key(self.list(), key@) {
                let j = choose|j: int| 0 <= j < self.list().len() && (#[trigger] self.list()[j]).0 == key@;
                assert(self.entries@[j].0@ == key@);
            }
        }
        None
    }

    /// The trade under a key.
    pub fn get(&self, key: &str) -> (res: Option<&PendingTrade>)
        ensures
            match res {
                Some(t) => self@.contains_key(key@) && self@[key@] == *t,
                None => !self@.contains_key(key@),
            },
    {
        match self.position(key) {
            Some(i) => {
                proof {
                    use_type_invariant(self);
                    lemma_mapping(self.list(), i as int);
                }
                Some(&self.entries[i].1)
            },
            None => None,
        }
    }

    /// Puts a trade under a key, in place of the one that was there.
    pub fn insert(&mut self, key: String, trade: PendingTrade)
        ensures
            final(self)@ == old(self)@.insert(key@, trade),
    {
        proof {
            use_type_invariant(&*self);
        }
        let at = self.position(key.as_str());
        let ghost list = self.list();
        let mut entries: Vec<(String, PendingTrade)> = Vec::new();
        std::mem::swap(&mut entries, &mut self.entries);
        match at {
            Some(i) => {
                proof {
                    lemma_mapping_update(list, i as int, trade);
                }
                entries.set(i, (key, trade));
                assert(listing(entries@) =~= list.update(i as int, (key@, trade)));
            },
            None => {
                proof {
                    lemma_mapping_push(list, key@, trade);
                }
                entries.push((key, trade));
                assert(listing(entries@) =~= list.push((key@, trade)));
            },
        }
        self.entries = entries;
    }

    /// Gives the trade under a key, where there is one, a new state.
    pub fn replace(&mut self, key: &str, trade: PendingTrade)
        ensures
            final(self)@ == replaced(old(self)@, key@, trade),
    {
        if self.position(key).is_some() {
            self.insert(key.to_owned(), trade);
        }
    }

    /// Changes the trade under a key, where there is one.
    pub fn revise(&mut self, key: &str, change: Change)
        ensures
            final(self)@ == revised(old(self)@, key@, change),
    {
        let next = match self.get(key) {
            Some(trade) => Some(change.apply(trade)),
            None => None,
        };
        if let Some(trade) = next {
            self.replace(key, trade);
        }
    }

    /// Takes the trade under a key away.
    pub fn remove(&mut self, key: &str)
        ensures
            final(self)@ == old(self)@.remove(key@),
    {
        proof {
            use_type_invariant(&*self);
        }
        let at = self.position(key);
        let ghost list = self.list();
        let mut entries: Vec<(String, PendingTrade)> = Vec::new();
        std::mem::swap(&mut entries, &mut self.entries);
        match at {
            Some(i) => {
                proof {
                    lemma_mapping_remove(list, i as int);
                }
                entries.remove(i);
                assert(listing(entries@) =~= list.remove(i as int));
            },
            None => {
                assert(mapping(list).remove(key@) =~= mapping(list));
            },
        }
        self.entries = entries;
    }

    /// The entries as they are now, in the order in which they are walked.
    pub fn snapshot(&self) -> (res: Vec<(String, PendingTrade)>)
        ensures
            listing(res@) == self.list(),
            distinct(listing(res@)),
            mapping(listing(res@)) == self@,
    {
        proof {
            use_type_invariant(self);
        }
        let mut res: Vec<(String, PendingTrade)> = Vec::new();
        let mut i: usize = 0;
        while i < self.entries.len()
            invariant
                i <= self.entries@.len(),
                listing(res@) == self.list().take(i as int),
            decreases self.entries@.len() - i,
        {
            let ghost before = listing(res@);
            res.push((self.entries[i].0.clone(), self.entries[i].1.clone()));
            assert(listing(res@) =~= before.push(self.list()[i as int]));
            i = i + 1;
            assert(self.list().take(i as int) =~= before.push(self.list()[i - 1]));
        }
        assert(self.list().take(i as int) =~= self.list());
        res
    }

    /// Whether there are no trades.
    pub fn is_empty(&self) -> (res: bool)
        ensures
            res == (self.list().len() == 0),
            res == (self@ == Map::<Seq<char>, PendingTrade>::empty()),
    {
        proof {
            if self.list().len() > 0 {
                assert(has_key(self.list(), self.list()[0].0));
                assert(self@.contains_key(self.list()[0].0));
            } else {
                assert(self@ =~= Map::<Seq<char>, PendingTrade>::empty());
            }
        }
        self.entries.len() == 0
    }
}

proof fn lemma_mapping_next(list: Listing, i: int)
    requires
        distinct(list),
        0 <= i < list.len(),
    ensures
        distinct(list.take(i)),
        !has_key(list.take(i), list[i].0),
        mapping(list.take(i + 1)) == mapping(list.take(i)).insert(list[i].0, list[i].1),
{
    let before = list.take(i);
    assert(distinct(before)) by {
        assert forall|a: int, b: int|
            #![trigger before[a], before[b]]
            0 <= a < b < before.len() implies before[a].0 != before[b].0 by {
            assert(list[a].0 != list[b].0);
        }
    }
    if has_key(before, list[i].0) {
        let j = choose|j: int| 0 <= j < before.len() && (#[trigger] before[j]).0 == list[i].0;
        assert(list[j].0 != list[i].0);
    }
    assert(list.take(i + 1) =~= before.push(list[i]));
    lemma_mapping_push(before, list[i].0, list[i].1);
}

impl Trades {
    /// Whether some trade is in a class.
    pub fn any(&self, class: Class) -> (res: bool)
        ensures
            res == exists|key: Seq<char>|
                self@.contains_key(key) && class.holds(#[trigger] self@[key]),
    {
        proof {
            use_type_invariant(self);
        }
        let mut i: usize = 0;
        while i < self.entries.len()
            invariant
                i <= self.entries@.len(),
                distinct(self.list()),
                forall|j: int| 0 <= j < i ==> !class.holds((#[trigger] self.list()[j]).1),
            decreases self.entries@.len() - i,
        {
            if class.contains(&self.entries[i].1) {
                proof {
                    lemma_mapping(self.list(), i as int);
                    assert(class.holds(self@[self.list()[i as int].0]));
                }
                return true;
            }
            assert(!class.holds(self.list()[i as int].1));
            i = i + 1;
        }
        assert forall|key: Seq<char>| self@.contains_key(key) implies !class.holds(
            #[trigger] self@[key],
        ) by {
            let j = choose|j: int| 0 <= j < self.list().len() && (#[trigger] self.list()[j]).0 == key;
            lemma_mapping(self.list(), j);
        }
        false
    }

    /// Takes away the trades of a class.
    pub fn drop_all(&mut self, class: Class)
        ensures
            final(self)@ == without(old(self)@, class),
    {
        proof {
            use_type_invariant(&*self);
        }
        let ghost list = self.list();
        let mut next: Vec<(String, PendingTrade)> = Vec::new();
        assert(mapping(listing(next@)) =~= without(mapping(list.take(0)), class));
        let mut i: usize = 0;
        while i < self.entries.len()
            invariant
                i <= self.entries@.len(),
                list == self.list(),
                distinct(list),
                distinct(listing(next@)),
                mapping(listing(next@)) == without(mapping(list.take(i as int)), class),
            decreases self.entries@.len() - i,
        {
            let ghost before = mapping(list.take(i as int));
            let ghost was = listing(next@);
            let ghost key = list[i as int].0;
            let ghost trade = list[i as int].1;
            proof {
                lemma_mapping_next(list, i as int);
                assert(!mapping(was).contains_key(key));
            }
            if !class.contains(&self.entries[i].1) {
                next.push((self.entries[i].0.clone(), self.entries[i].1.clone()));
                assert(listing(next@) =~= was.push((key, trade)));
                proof {
                    lemma_mapping_push(was, key, trade);
                }
                assert(without(before.insert(key, trade), class) =~= without(before, class).insert(key, trade));
            } else {
                assert(without(before.insert(key, trade), class) =~= without(before, class));
            }
            i = i + 1;
        }
        assert(list.take(i as int) =~= list);
        self.entries = next;
    }

    /// Marks the trades of a class as sold.
    pub fn mark_sold(&mut self, class: Class)
        ensures
            final(self)@ == with_sold(old(self)@, class),
    {
        proof {
            use_type_invariant(&*self);
        }
        let ghost list = self.list();
        let mut next: Vec<(String, PendingTrade)> = Vec::new();
        assert(mapping(listing(next@)) =~= with_sold(mapping(list.take(0)), class));
        let mut i: usize = 0;
        while i < self.entries.len()
            invariant
                i <= self.entries@.len(),
                list == self.list(),
                distinct(list),
                distinct(listing(next@)),
                mapping(listing(next@)) == with_sold(mapping(list.take(i as int)), class),
            decreases self.entries@.len() - i,
        {
            let ghost before = mapping(list.take(i as int));
            let ghost was = listing(next@);
            let ghost key = list[i as int].0;
            let ghost trade = list[i as int].1;
            proof {
                lemma_mapping_next(list, i as int);
                assert(!mapping(was).contains_key(key));
            }
            let mut t = self.entries[i].1.clone();
            if class.contains(&t) {
                t.sold = true;
            }
            let ghost after = sold_in(trade, class);
            next.push((self.entries[i].0.clone(), t));
            assert(listing(next@) =~= was.push((key, after)));
            proof {
                lemma_mapping_push(was, key, after);
            }
            assert(with_sold(before.insert(key, trade), class) =~= with_sold(before, class).insert(
                key,
                after,
            ));
            i = i + 1;
        }
        assert(list.take(i as int) =~= list);
        self.entries = next;
    }
}

/// Every entry of a list of distinct keys is the trade that the map has under its
/// key, and the map has no other trades.
pub proof fn law_mapping_holds_the_entries(list: Listing)
    requires
        distinct(list),
    ensures
        forall|i: int|
            0 <= i < list.len() ==> mapping(list).contains_key((#[trigger] list[i]).0) && mapping(
                list,
            )[list[i].0] == list[i].1,
        forall|key: Seq<char>| #[trigger]
            mapping(list).contains_key(key) ==> exists|i: int|
                0 <= i < list.len() && (#[trigger] list[i]).0 == key,
{
    assert forall|i: int| 0 <= i < list.len() implies mapping(list).contains_key(
        (#[trigger] list[i]).0,
    ) && mapping(list)[list[i].0] == list[i].1 by {
        lemma_mapping(list, i);
    }
}

/// What a change does to a trade: it confirms a simulated buy with the shares that it was for,
/// a filled one with those that came, marks it as offered or as sold, takes note of failed
/// attempts or of the shares that were counted, and leaves all else as it is.
pub proof fn law_changes_touch_what_they_name(change: Change, trade: PendingTrade)
    ensures
        ({
            let after = change.applied(trade);
            &&& after.token_id == trade.token_id
            &&& after.condition_id == trade.condition_id
            &&& after.token_type == trade.token_type
            &&& after.investment_amount == trade.investment_amount
            &&& after.purchase_price == trade.purchase_price
            &&& after.sell_price == trade.sell_price
            &&& after.market_timestamp == trade.market_timestamp
            &&& after.no_sell == trade.no_sell
            &&& after.claim_on_closure == trade.claim_on_closure
            &&& after.redemption_attempts == trade.redemption_attempts
            &&& after.redemption_abandoned == trade.redemption_abandoned
            &&& after.sold == (trade.sold || change is Sold || change is SoldOut)
            &&& after.buy_order_confirmed == (trade.buy_order_confirmed || change is Confirmed
                || change is Filled)
            &&& after.limit_sell_orders_placed == (trade.limit_sell_orders_placed
                || change is Offered)
            &&& after.sell_attempts == match change {
                Change::Attempted { attempts } => attempts,
                _ => trade.sell_attempts,
            }
            &&& after.units == match change {
                Change::Filled { shares } => shares,
                Change::Counted { shares } => shares,
                _ => trade.units,
            }
            &&& after.confirmed_balance == match change {
                Change::Confirmed => Some(trade.units),
                Change::Filled { shares } => Some(shares),
                Change::Counted { shares } => Some(shares),
                Change::SoldOut => Some(0),
                _ => trade.confirmed_balance,
            }
        }),
{
}

/// Forgetting the trades of a class keeps exactly the others, unchanged; marking them as sold
/// keeps all, and changes nothing else. The trades of a period go by its timestamp, the
/// abandoned ones by an earlier timestamp.
pub proof fn law_classes_go_by_period(
    trades: Map<Seq<char>, PendingTrade>,
    key: Seq<char>,
    period: u64,
)
    ensures
        without(trades, (Class::OfPeriod { period })).contains_key(key) <==> trades.contains_key(
            key,
        ) && trades[key].market_timestamp != period,
        without(trades, (Class::AbandonedBefore { period })).contains_key(key)
            <==> trades.contains_key(key) && !(trades[key].redemption_abandoned
            && trades[key].market_timestamp < period),
        with_sold(trades, (Class::OfPeriod { period })).contains_key(key) <==> trades.contains_key(
            key,
        ),
        trades.contains_key(key) && trades[key].market_timestamp != period ==> without(
            trades,
            (Class::OfPeriod { period }),
        )[key] == trades[key] && with_sold(trades, (Class::OfPeriod { period }))[key]
            == trades[key],
        trades.contains_key(key) && trades[key].market_timestamp == period ==> with_sold(
            trades,
            (Class::OfPeriod { period }),
        )[key] == (PendingTrade { sold: true, ..trades[key] }),
        trades.contains_key(key) && !(trades[key].redemption_abandoned
            && trades[key].market_timestamp < period) ==> without(
            trades,
            (Class::AbandonedBefore { period }),
        )[key] == trades[key],
{
}

} // verus!

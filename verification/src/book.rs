//! Prices in an order book: the best ones, and those of the first levels.

use vstd::arithmetic::power::pow;
use vstd::prelude::*;

use crate::decimal::{law_decimals_are_ordered, Decimal, Relation};
use crate::models::{OrderBook, OrderBookEntry, TokenPrice};

verus! {

/// Whether no level has a lower price than the one at a place, and none before it the
/// same.
pub open spec fn lowest_at(levels: Seq<OrderBookEntry>, i: int) -> bool {
    &&& 0 <= i < levels.len()
    &&& forall|j: int|
        0 <= j < levels.len() ==> !((#[trigger] levels[j]).price.to(levels[i].price) is Below)
    &&& forall|j: int| 0 <= j < i ==> (#[trigger] levels[j]).price.to(levels[i].price) is Above
}

/// Whether no level has a higher price than the one at a place, and none before it the
/// same.
pub open spec fn highest_at(levels: Seq<OrderBookEntry>, i: int) -> bool {
    &&& 0 <= i < levels.len()
    &&& forall|j: int|
        0 <= j < levels.len() ==> !((#[trigger] levels[j]).price.to(levels[i].price) is Above)
    &&& forall|j: int| 0 <= j < i ==> (#[trigger] levels[j]).price.to(levels[i].price) is Below
}

/// The lowest price of a side of an order book.
pub open spec fn lowest(levels: Seq<OrderBookEntry>) -> Option<Decimal> {
    if levels.len() == 0 {
        None
    } else {
        Some(levels[choose|i: int| lowest_at(levels, i)].price)
    }
}

/// The highest price of a side of an order book.
pub open spec fn highest(levels: Seq<OrderBookEntry>) -> Option<Decimal> {
    if levels.len() == 0 {
        None
    } else {
        Some(levels[choose|i: int| highest_at(levels, i)].price)
    }
}

/// The best prices of an order book: the highest bid, and the lowest price asked.
pub open spec fn best_of(token_id: String, book: OrderBook) -> TokenPrice {
    TokenPrice { token_id, bid: highest(book.bids@), ask: lowest(book.asks@) }
}

/// There is but one such place, and so its price is the lowest.
proof fn lemma_lowest(levels: Seq<OrderBookEntry>, i: int)
    requires
        lowest_at(levels, i),
    ensures
        lowest(levels) == Some(levels[i].price),
{
    let k = choose|k: int| lowest_at(levels, k);
    law_decimals_are_ordered(levels[i].price, levels[k].price, levels[i].price);
    if k < i {
        assert(levels[k].price.to(levels[i].price) is Above);
        assert(!(levels[i].price.to(levels[k].price) is Below));
    } else if i < k {
        assert(levels[i].price.to(levels[k].price) is Above);
        assert(!(levels[k].price.to(levels[i].price) is Below));
    }
}

/// There is but one such place, and so its price is the highest.
proof fn lemma_highest(levels: Seq<OrderBookEntry>, i: int)
    requires
        highest_at(levels, i),
    ensures
        highest(levels) == Some(levels[i].price),
{
    let k = choose|k: int| highest_at(levels, k);
    law_decimals_are_ordered(levels[i].price, levels[k].price, levels[i].price);
    if k < i {
        assert(levels[k].price.to(levels[i].price) is Below);
        assert(!(levels[i].price.to(levels[k].price) is Above));
    } else if i < k {
        assert(levels[i].price.to(levels[k].price) is Below);
        assert(!(levels[k].price.to(levels[i].price) is Above));
    }
}

/// The lowest price of a side of an order book: that of one of its levels, and no level
/// has a lower one.
pub fn lowest_price(levels: &Vec<OrderBookEntry>) -> (res: Option<Decimal>)
    ensures
        res == lowest(levels@),
        match res {
            Some(price) => exists|i: int|
                #[trigger] lowest_at(levels@, i) && levels@[i].price == price,
            None => levels@.len() == 0,
        },
{
    if levels.len() == 0 {
        return None;
    }
    let mut best: usize = 0;
    let mut at: usize = 1;
    proof {
        law_decimals_are_ordered(levels@[0].price, levels@[0].price, levels@[0].price);
    }
    while at < levels.len()
        invariant
            best < at <= levels@.len(),
            lowest_at(levels@.take(at as int), best as int),
        decreases levels@.len() - at,
    {
        let ghost before = levels@.take(at as int);
        let ghost after = levels@.take(at + 1);
        let ghost was = best as int;
        let lower = levels[at].price.relation_to(&levels[best].price) == Relation::Below;
        if lower {
            best = at;
        }
        proof {
            let new = levels@[at as int].price;
            assert forall|j: int| 0 <= j < at implies #[trigger] after[j] == before[j] by {}
            assert(after[at as int].price == new);
            law_decimals_are_ordered(new, new, new);
            if lower {
                assert forall|j: int| 0 <= j < at implies (#[trigger] after[j]).price.to(
                    new,
                ) is Above by {
                    assert(!(before[j].price.to(before[was].price) is Below));
                    law_decimals_are_ordered(new, before[was].price, before[j].price);
                    law_decimals_are_ordered(before[was].price, before[j].price, new);
                    law_decimals_are_ordered(new, before[j].price, new);
                }
                assert forall|j: int| 0 <= j < after.len() implies !((#[trigger] after[j]).price.to(
                    new,
                ) is Below) by {
                    if j < at {
                        assert(after[j].price.to(new) is Above);
                    }
                }
            } else {
                assert forall|j: int| 0 <= j < after.len() implies !((#[trigger] after[j]).price.to(
                    after[was].price,
                ) is Below) by {
                    if j < at {
                        assert(!(before[j].price.to(before[was].price) is Below));
                    }
                }
                assert forall|j: int| 0 <= j < was implies (#[trigger] after[j]).price.to(
                    after[was].price,
                ) is Above by {
                    assert(before[j].price.to(before[was].price) is Above);
                }
            }
        }
        at = at + 1;
    }
    assert(levels@.take(at as int) =~= levels@);
    proof {
        lemma_lowest(levels@, best as int);
    }
    Some(levels[best].price)
}

/// The highest price of a side of an order book: that of one of its levels, and no level
/// has a higher one.
pub fn highest_price(levels: &Vec<OrderBookEntry>) -> (res: Option<Decimal>)
    ensures
        res == highest(levels@),
        match res {
            Some(price) => exists|i: int|
                #[trigger] highest_at(levels@, i) && levels@[i].price == price,
            None => levels@.len() == 0,
        },
{
    if levels.len() == 0 {
        return None;
    }
    let mut best: usize = 0;
    let mut at: usize = 1;
    proof {
        law_decimals_are_ordered(levels@[0].price, levels@[0].price, levels@[0].price);
    }
    while at < levels.len()
        invariant
            best < at <= levels@.len(),
            highest_at(levels@.take(at as int), best as int),
        decreases levels@.len() - at,
    {
        let ghost before = levels@.take(at as int);
        let ghost after = levels@.take(at + 1);
        let ghost was = best as int;
        let higher = levels[at].price.relation_to(&levels[best].price) == Relation::Above;
        if higher {
            best = at;
        }
        proof {
            let new = levels@[at as int].price;
            assert forall|j: int| 0 <= j < at implies #[trigger] after[j] == before[j] by {}
            assert(after[at as int].price == new);
            law_decimals_are_ordered(new, new, new);
            if higher {
                assert forall|j: int| 0 <= j < at implies (#[trigger] after[j]).price.to(
                    new,
                ) is Below by {
                    assert(!(before[j].price.to(before[was].price) is Above));
                    law_decimals_are_ordered(before[was].price, new, before[was].price);
                    law_decimals_are_ordered(before[j].price, before[was].price, new);
                }
                assert forall|j: int| 0 <= j < after.len() implies !((#[trigger] after[j]).price.to(
                    new,
                ) is Above) by {
                    if j < at {
                        assert(after[j].price.to(new) is Below);
                    }
                }
            } else {
                assert forall|j: int| 0 <= j < after.len() implies !((#[trigger] after[j]).price.to(
                    after[was].price,
                ) is Above) by {
                    if j < at {
                        assert(!(before[j].price.to(before[was].price) is Above));
                    }
                }
                assert forall|j: int| 0 <= j < was implies (#[trigger] after[j]).price.to(
                    after[was].price,
                ) is Below by {
                    assert(before[j].price.to(before[was].price) is Below);
                }
            }
        }
        at = at + 1;
    }
    assert(levels@.take(at as int) =~= levels@);
    proof {
        lemma_highest(levels@, best as int);
    }
    Some(levels[best].price)
}

/// The best prices of an order book.
pub fn best_prices(token_id: String, book: &OrderBook) -> (res: TokenPrice)
    ensures
        res == best_of(token_id, *book),
        match res.bid {
            Some(price) => exists|i: int|
                #[trigger] highest_at(book.bids@, i) && book.bids@[i].price == price,
            None => book.bids@.len() == 0,
        },
        match res.ask {
            Some(price) => exists|i: int|
                #[trigger] lowest_at(book.asks@, i) && book.asks@[i].price == price,
            None => book.asks@.len() == 0,
        },
{
    TokenPrice { token_id, bid: highest_price(&book.bids), ask: lowest_price(&book.asks) }
}

/// The prices of the first level of each side of an order book.
pub open spec fn first_of(token_id: String, book: OrderBook) -> TokenPrice {
    TokenPrice {
        token_id,
        bid: if book.bids@.len() > 0 {
            Some(book.bids@[0].price)
        } else {
            None
        },
        ask: if book.asks@.len() > 0 {
            Some(book.asks@[0].price)
        } else {
            None
        },
    }
}

/// The prices of the first level of each side of an order book.
pub fn first_prices(token_id: String, book: &OrderBook) -> (res: TokenPrice)
    ensures
        res == first_of(token_id, *book),
{
    TokenPrice {
        token_id,
        bid: if book.bids.len() > 0 {
            Some(book.bids[0].price)
        } else {
            None
        },
        ask: if book.asks.len() > 0 {
            Some(book.asks[0].price)
        } else {
            None
        },
    }
}

/// The first prices of a book are those of its first levels, whatever comes after them, and the
/// best ones are a bid that no bid is above and a price asked that none is below.
pub proof fn law_first_prices_are_of_the_first_levels(token_id: String, book: OrderBook, i: int)
    ensures
        first_of(token_id, book).token_id == token_id,
        match first_of(token_id, book).bid {
            Some(price) => book.bids@.len() > 0 && book.bids@[0].price == price,
            None => book.bids@.len() == 0,
        },
        match first_of(token_id, book).ask {
            Some(price) => book.asks@.len() > 0 && book.asks@[0].price == price,
            None => book.asks@.len() == 0,
        },
        best_of(token_id, book).token_id == token_id,
        lowest_at(book.asks@, i) ==> best_of(token_id, book).ask == Some(book.asks@[i].price),
        highest_at(book.bids@, i) ==> best_of(token_id, book).bid == Some(book.bids@[i].price),
        lowest_at(book.asks@, i) ==> forall|j: int|
            0 <= j < book.asks@.len() ==> book.asks@[i].price.mantissa() * pow(
                10,
                (#[trigger] book.asks@[j]).price.scale(),
            ) <= book.asks@[j].price.mantissa() * pow(10, book.asks@[i].price.scale()),
        highest_at(book.bids@, i) ==> forall|j: int|
            0 <= j < book.bids@.len() ==> book.bids@[i].price.mantissa() * pow(
                10,
                (#[trigger] book.bids@[j]).price.scale(),
            ) >= book.bids@[j].price.mantissa() * pow(10, book.bids@[i].price.scale()),
{
    if lowest_at(book.asks@, i) {
        lemma_lowest(book.asks@, i);
    }
    if highest_at(book.bids@, i) {
        lemma_highest(book.bids@, i);
    }
}

} // verus!

//! Finding the markets of all assets, one after the other.

use vstd::prelude::*;
use vstd::string::*;

use crate::closing::PERIOD_SECONDS;
use crate::discovery::{
    candidate_slugs, candidates, clash, clash_among, condition_or, disabled_eth_market,
    disabled_solana_market, disabled_xrp_market, discover_market, found_or, is_tradable,
    law_an_asset_is_looked_for_by_its_slugs,
    missing_solana_market, missing_xrp_market, not_found, not_found_text, period_at, Markets,
    Search, SearchStep,
};
use crate::models::{Asset, Market};
use crate::text::{decimal_text, texts};

verus! {

/// How the markets of all assets are looked for.
#[derive(Clone, Copy, Debug)]
pub struct HuntPlan {
    pub eth: bool,
    pub solana: bool,
    pub xrp: bool,
    /// Whether earlier periods are looked at for Solana and XRP too, and not only for ETH
    /// and BTC.
    pub looks_back_always: bool,
    /// Whether the markets of ETH and BTC are not to be found again for other assets.
    pub remembers: bool,
    /// Whether the hunt ends where no market of BTC is found.
    pub needs_btc: bool,
}

/// The markets that were found.
pub struct Found {
    pub eth: Option<Market>,
    pub btc: Option<Market>,
    pub solana: Option<Market>,
    pub xrp: Option<Market>,
}

/// What a hunt looks for.
pub enum Hunting {
    /// The market of an asset.
    Asset { asset: Asset, search: Search },
    /// Nothing more.
    Finished,
}

/// A hunt for the markets of all assets.
pub struct Hunt {
    pub now: u64,
    pub seen: Vec<String>,
    pub found: Found,
    pub state: Hunting,
}

impl HuntPlan {
    /// Whether earlier periods are looked at for an asset.
    pub open spec fn looks_back(self, asset: Asset) -> bool {
        self.looks_back_always || asset == Asset::Eth || asset == Asset::Btc
    }

    /// The first asset.
    pub open spec fn first(self) -> Asset {
        if self.eth {
            Asset::Eth
        } else {
            Asset::Btc
        }
    }

    /// The asset after another.
    pub open spec fn following(self, asset: Asset) -> Option<Asset> {
        match asset {
            Asset::Eth => Some(Asset::Btc),
            Asset::Btc => if self.solana {
                Some(Asset::Solana)
            } else if self.xrp {
                Some(Asset::Xrp)
            } else {
                None
            },
            Asset::Solana => if self.xrp {
                Some(Asset::Xrp)
            } else {
                None
            },
            Asset::Xrp => None,
        }
    }

    /// The conditions that are not to be found again, once the market of an asset has
    /// been found or given up.
    pub open spec fn seen_after(self, seen: Seq<Seq<char>>, asset: Asset, found: Option<Market>) -> Seq<
        Seq<char>,
    > {
        if self.remembers && asset == Asset::Eth {
            seen.push(condition_or(found, "dummy_eth_fallback"@))
        } else if self.remembers && asset == Asset::Btc {
            seen.push(condition_or(found, "dummy_btc_fallback"@))
        } else {
            seen
        }
    }

    /// The asset after another, given what was found of that.
    pub open spec fn next(self, asset: Asset, found: Option<Market>) -> Option<Asset> {
        if self.needs_btc && asset == Asset::Btc && found is None {
            None
        } else {
            self.following(asset)
        }
    }

    fn next_asset(self, asset: Asset, found: bool) -> (res: Option<Asset>)
        ensures
            res == if self.needs_btc && asset == Asset::Btc && !found {
                None
            } else {
                self.following(asset)
            },
    {
        match asset {
            Asset::Eth => Some(Asset::Btc),
            Asset::Btc => if self.needs_btc && !found {
                None
            } else if self.solana {
                Some(Asset::Solana)
            } else if self.xrp {
                Some(Asset::Xrp)
            } else {
                None
            },
            Asset::Solana => if self.xrp {
                Some(Asset::Xrp)
            } else {
                None
            },
            Asset::Xrp => None,
        }
    }
}

impl Found {
    /// The market of an asset.
    pub open spec fn of(self, asset: Asset) -> Option<Market> {
        match asset {
            Asset::Eth => self.eth,
            Asset::Btc => self.btc,
            Asset::Solana => self.solana,
            Asset::Xrp => self.xrp,
        }
    }

    /// With the market of an asset.
    pub open spec fn with(self, asset: Asset, market: Option<Market>) -> Found {
        match asset {
            Asset::Eth => Found { eth: market, ..self },
            Asset::Btc => Found { btc: market, ..self },
            Asset::Solana => Found { solana: market, ..self },
            Asset::Xrp => Found { xrp: market, ..self },
        }
    }

    /// Whether no market of ETH or of BTC was found for another asset too.
    pub open spec fn apart(self) -> bool {
        &&& differ(self.eth, self.btc)
        &&& differ(self.eth, self.solana)
        &&& differ(self.btc, self.solana)
        &&& differ(self.eth, self.xrp)
        &&& differ(self.btc, self.xrp)
    }

    fn put(self, asset: Asset, market: Option<Market>) -> (res: Found)
        ensures
            res == self.with(asset, market),
    {
        match asset {
            Asset::Eth => Found {
                eth: market,
                btc: self.btc,
                solana: self.solana,
                xrp: self.xrp,
            },
            Asset::Btc => Found {
                eth: self.eth,
                btc: market,
                solana: self.solana,
                xrp: self.xrp,
            },
            Asset::Solana => Found {
                eth: self.eth,
                btc: self.btc,
                solana: market,
                xrp: self.xrp,
            },
            Asset::Xrp => Found {
                eth: self.eth,
                btc: self.btc,
                solana: self.solana,
                xrp: market,
            },
        }
    }
}

/// Whether two markets, where there are two, are not the same.
pub open spec fn differ(a: Option<Market>, b: Option<Market>) -> bool {
    a is Some && b is Some ==> a->0.condition_id@ != b->0.condition_id@
}

/// How many assets come before one.
pub open spec fn place(asset: Asset) -> int {
    match asset {
        Asset::Eth => 0,
        Asset::Btc => 1,
        Asset::Solana => 2,
        Asset::Xrp => 3,
    }
}

impl Hunt {
    /// Whether there is a slug to look under, the time has periods before it, and nothing
    /// has been found yet that is still to come.
    pub open spec fn wf(self) -> bool {
        &&& self.now >= 3 * PERIOD_SECONDS
        &&& self.state matches Hunting::Asset { asset, search } ==> search.wf() && forall|a: Asset|
            place(a) >= place(asset) ==> #[trigger] self.found.of(a) is None
    }

    /// Whether what was found of ETH and of BTC is remembered.
    pub open spec fn has_remembered(self) -> bool {
        let seen = texts(self.seen@);
        self.state matches Hunting::Asset { asset, .. } ==> {
            &&& place(asset) > 0 && self.found.eth is Some ==> seen.contains(
                self.found.eth->0.condition_id@,
            )
            &&& place(asset) > 1 && self.found.btc is Some ==> seen.contains(
                self.found.btc->0.condition_id@,
            )
        }
    }

    /// Whether the hunt comes to an asset, or to its end.
    pub open spec fn comes_to(
        self,
        slug: Option<String>,
        plan: HuntPlan,
        now: u64,
        seen: Seq<Seq<char>>,
        found: Found,
        asset: Option<Asset>,
    ) -> bool {
        &&& self.now == now
        &&& texts(self.seen@) == seen
        &&& self.found == found
        &&& match asset {
            Some(a) => {
                &&& self.state matches Hunting::Asset { asset, search }
                &&& asset == a
                &&& texts(search.slugs@) == candidates(
                    a.prefixes(),
                    period_at(now as int),
                    plan.looks_back(a),
                )
                &&& search.at == 0
                &&& slug == Some(search.slugs@[0])
            },
            None => self.state is Finished && slug is None,
        }
    }

    /// Whether a step of the hunt leads here: the first market of an asset that can be
    /// traded is taken; where there is none, the hunt goes on with the next asset.
    pub open spec fn steps_to(self, plan: HuntPlan, reply: Option<Market>, res: (Hunt, Option<String>)) -> bool {
        let seen = texts(self.seen@);
        match self.state {
            Hunting::Finished => res.0 == self && res.1 is None,
            Hunting::Asset { asset, search } => match reply {
                Some(market) if is_tradable(market, seen) => res.0.comes_to(
                    res.1,
                    plan,
                    self.now,
                    plan.seen_after(seen, asset, Some(market)),
                    self.found.with(asset, Some(market)),
                    plan.following(asset),
                ),
                _ => if search.at + 1 < search.slugs@.len() {
                    &&& res.0.now == self.now && res.0.seen == self.seen && res.0.found
                        == self.found
                    &&& res.0.state matches Hunting::Asset { asset: a, search: s }
                    &&& a == asset && s.slugs == search.slugs && s.at == search.at + 1
                    &&& res.1 == Some(search.slugs@[search.at + 1])
                } else {
                    res.0.comes_to(
                        res.1,
                        plan,
                        self.now,
                        plan.seen_after(seen, asset, None),
                        self.found,
                        plan.next(asset, None),
                    )
                },
            },
        }
    }

    /// Begins a hunt. The conditions that were seen are not to be found again.
    pub fn new(plan: &HuntPlan, now: u64, seen: Vec<String>) -> (res: (Hunt, Option<String>))
        requires
            now >= 3 * PERIOD_SECONDS,
        ensures
            res.0.wf(),
            res.0.has_remembered(),
            res.0.found.apart(),
            res.0.comes_to(
                res.1,
                *plan,
                now,
                if plan.remembers && !plan.eth {
                    texts(seen@).push("dummy_eth_fallback"@)
                } else {
                    texts(seen@)
                },
                (Found { eth: None, btc: None, solana: None, xrp: None }),
                Some(plan.first()),
            ),
    {
        let found = Found { eth: None, btc: None, solana: None, xrp: None };
        let mut seen = seen;
        let first = if plan.eth {
            Asset::Eth
        } else {
            if plan.remembers {
                let ghost before = texts(seen@);
                seen.push("dummy_eth_fallback".to_owned());
                assert(texts(seen@) =~= before.push("dummy_eth_fallback"@));
            }
            Asset::Btc
        };
        Hunt::look_for(plan, now, seen, found, Some(first))
    }

    fn look_for(
        plan: &HuntPlan,
        now: u64,
        seen: Vec<String>,
        found: Found,
        asset: Option<Asset>,
    ) -> (res: (Hunt, Option<String>))
        requires
            now >= 3 * PERIOD_SECONDS,
            asset matches Some(asset) ==> forall|a: Asset|
                place(a) >= place(asset) ==> #[trigger] found.of(a) is None,
        ensures
            res.0.wf(),
            res.0.comes_to(res.1, *plan, now, texts(seen@), found, asset),
    {
        match asset {
            Some(asset) => {
                let back = match asset {
                    Asset::Eth | Asset::Btc => true,
                    Asset::Solana | Asset::Xrp => plan.looks_back_always,
                };
                let prefixes = asset.slug_prefixes();
                let slugs = candidate_slugs(&prefixes, now, back);
                proof {
                    lemma_candidates(asset, period_at(now as int), back);
                    assert(texts(slugs@).len() == slugs@.len());
                }
                let slug = slugs[0].clone();
                let state = Hunting::Asset { asset, search: Search { slugs, at: 0 } };
                (Hunt { now, seen, found, state }, Some(slug))
            },
            None => (Hunt { now, seen, found, state: Hunting::Finished }, None),
        }
    }

    /// One step of a hunt: takes what was found under the last slug, and gives the next
    /// one, if there is one.
    pub fn advance(self, plan: &HuntPlan, reply: Option<Market>) -> (res: (Hunt, Option<String>))
        requires
            self.wf(),
        ensures
            res.0.wf(),
            self.steps_to(*plan, reply, res),
    {
        let Hunt { now, seen, found, state } = self;
        match state {
            Hunting::Finished => (Hunt { now, seen, found, state: Hunting::Finished }, None),
            Hunting::Asset { asset, search } => match discover_market(search, reply, &seen) {
                SearchStep::Next(search) => {
                    let slug = search.slugs[search.at].clone();
                    let state = Hunting::Asset { asset, search };
                    (Hunt { now, seen, found, state }, Some(slug))
                },
                SearchStep::Found(market) => {
                    let seen = remember(plan, seen, asset, Some(&market));
                    let ghost before = found;
                    let found = found.put(asset, Some(market));
                    assert forall|a: Asset| place(a) > place(asset) implies #[trigger] found.of(
                        a,
                    ) is None by {
                        assert(before.of(a) is None);
                    }
                    Hunt::look_for(plan, now, seen, found, plan.next_asset(asset, true))
                },
                SearchStep::Exhausted => {
                    let seen = remember(plan, seen, asset, None);
                    Hunt::look_for(plan, now, seen, found, plan.next_asset(asset, false))
                },
            },
        }
    }
}

fn remember(plan: &HuntPlan, seen: Vec<String>, asset: Asset, found: Option<&Market>) -> (res: Vec<
    String,
>)
    ensures
        texts(res@) == plan.seen_after(
            texts(seen@),
            asset,
            match found {
                Some(market) => Some(*market),
                None => None,
            },
        ),
{
    let ghost before = texts(seen@);
    let mut seen = seen;
    if plan.remembers {
        match asset {
            Asset::Eth => {
                let id = match found {
                    Some(market) => market.condition_id.clone(),
                    None => "dummy_eth_fallback".to_owned(),
                };
                seen.push(id);
                assert(texts(seen@) =~= before.push(id@));
            },
            Asset::Btc => {
                let id = match found {
                    Some(market) => market.condition_id.clone(),
                    None => "dummy_btc_fallback".to_owned(),
                };
                seen.push(id);
                assert(texts(seen@) =~= before.push(id@));
            },
            _ => {},
        }
    }
    seen
}

proof fn lemma_candidates(asset: Asset, period: int, back: bool)
    ensures
        candidates(asset.prefixes(), period, back).len() > 0,
{
    reveal_with_fuel(candidates, 3);
}

/// The markets of a new period: those of BTC and, where it is traded, of ETH must have
/// been found; placeholders stand for the others.
pub fn markets_of_period(enable_eth: bool, found: Found) -> (res: Result<Markets, String>)
    ensures
        match res {
            Ok(markets) => {
                &&& found.btc == Some(markets.btc)
                &&& enable_eth ==> found.eth is Some
                &&& found_or(
                    markets.eth,
                    if enable_eth {
                        found.eth
                    } else {
                        None
                    },
                    "dummy_eth_fallback"@,
                    "eth-updown-15m-fallback"@,
                    "ETH Trading Disabled"@,
                )
                &&& found_or(
                    markets.solana,
                    found.solana,
                    "dummy_solana_fallback"@,
                    "solana-updown-15m-fallback"@,
                    "Solana Trading Disabled"@,
                )
                &&& found_or(
                    markets.xrp,
                    found.xrp,
                    "dummy_xrp_fallback"@,
                    "xrp-updown-15m-fallback"@,
                    "XRP Trading Disabled"@,
                )
            },
            Err(e) => if enable_eth && found.eth is None {
                e@ == "Failed to discover new ETH market: "@ + not_found(
                    "ETH"@,
                    Asset::Eth.prefixes(),
                    false,
                )
            } else {
                &&& found.btc is None
                &&& e@ == "Failed to discover new BTC market: "@ + not_found(
                    "BTC"@,
                    Asset::Btc.prefixes(),
                    false,
                )
            },
        },
{
    let eth = if enable_eth {
        match found.eth {
            Some(market) => market,
            None => {
                let mut text = "Failed to discover new ETH market: ".to_owned();
                let prefixes = Asset::Eth.slug_prefixes();
                text.append(not_found_text("ETH", &prefixes, false).as_str());
                return Err(text);
            },
        }
    } else {
        disabled_eth_market()
    };
    let btc = match found.btc {
        Some(market) => market,
        None => {
            let mut text = "Failed to discover new BTC market: ".to_owned();
            let prefixes = Asset::Btc.slug_prefixes();
            text.append(not_found_text("BTC", &prefixes, false).as_str());
            return Err(text);
        },
    };
    let solana = match found.solana {
        Some(market) => market,
        None => disabled_solana_market(),
    };
    let xrp = match found.xrp {
        Some(market) => market,
        None => disabled_xrp_market(),
    };
    Ok(Markets { eth, btc, solana, xrp })
}

/// The markets of a new period to watch: those of ETH and of BTC must have been found;
/// placeholders stand for the others.
pub fn watched_of_period(found: Found) -> (res: Option<Markets>)
    ensures
        res is Some <==> found.eth is Some && found.btc is Some,
        res matches Some(markets) ==> {
            &&& found.eth == Some(markets.eth)
            &&& found.btc == Some(markets.btc)
            &&& found_or(
                markets.solana,
                found.solana,
                "dummy_solana_fallback"@,
                "solana-updown-15m-fallback"@,
                "Solana Trading (market not found)"@,
            )
            &&& found_or(
                markets.xrp,
                found.xrp,
                "dummy_xrp_fallback"@,
                "xrp-updown-15m-fallback"@,
                "XRP Trading (market not found)"@,
            )
        },
{
    match (found.eth, found.btc) {
        (Some(eth), Some(btc)) => {
            let solana = match found.solana {
                Some(market) => market,
                None => missing_solana_market(),
            };
            let xrp = match found.xrp {
                Some(market) => market,
                None => missing_xrp_market(),
            };
            Some(Markets { eth, btc, solana, xrp })
        },
        _ => None,
    }
}

/// What a hunt takes is active, open and not among the conditions that were seen.
pub proof fn law_hunted_markets_can_be_traded(
    before: Hunt,
    plan: HuntPlan,
    reply: Option<Market>,
    after: (Hunt, Option<String>),
    asset: Asset,
)
    requires
        before.wf(),
        before.steps_to(plan, reply, after),
        before.found.of(asset) is None,
        after.0.found.of(asset) is Some,
    ensures
        reply == after.0.found.of(asset),
        is_tradable(after.0.found.of(asset)->0, texts(before.seen@)),
{
}

/// A hunt that remembers the markets of ETH and of BTC finds neither of them a second
/// time for another asset.
pub proof fn law_remembered_markets_are_not_found_again(
    before: Hunt,
    plan: HuntPlan,
    reply: Option<Market>,
    after: (Hunt, Option<String>),
)
    requires
        plan.remembers,
        before.wf(),
        before.has_remembered(),
        before.found.apart(),
        before.steps_to(plan, reply, after),
    ensures
        after.0.has_remembered(),
        after.0.found.apart(),
{
    let seen = texts(before.seen@);
    if let Hunting::Asset { asset, search } = before.state {
        assert(before.found.of(asset) is None);
        assert forall|a: Asset| place(a) >= place(asset) implies before.found.of(a) is None by {
        }
        assert(place(Asset::Eth) >= place(asset) ==> before.found.of(Asset::Eth) is None);
        assert(place(Asset::Btc) >= place(asset) ==> before.found.of(Asset::Btc) is None);
        assert(place(Asset::Solana) >= place(asset) ==> before.found.of(Asset::Solana) is None);
        assert(place(Asset::Xrp) >= place(asset) ==> before.found.of(Asset::Xrp) is None);
        if let Some(market) = reply {
            let id = market.condition_id@;
            let more = seen.push(id);
            assert(more[seen.len() as int] == id);
            assert forall|t: Seq<char>| seen.contains(t) implies more.contains(t) by {
                let i = choose|i: int| 0 <= i < seen.len() && seen[i] == t;
                assert(more[i] == t);
            }
        }
        let (d, b) = (seen.push("dummy_eth_fallback"@), seen.push("dummy_btc_fallback"@));
        assert forall|t: Seq<char>| seen.contains(t) implies d.contains(t) && b.contains(t) by {
            let i = choose|i: int| 0 <= i < seen.len() && seen[i] == t;
            assert(d[i] == t && b[i] == t);
        }
    }
}

/// Markets of which none of ETH or of BTC was found twice do not clash, unless those of
/// Solana and of XRP are the same.
pub proof fn law_hunted_markets_do_not_clash(found: Found)
    requires
        found.apart(),
        forall|a: Asset|
            #[trigger] found.of(a) is Some ==> found.of(a)->0.condition_id@
                != "dummy_eth_fallback"@ && found.of(a)->0.condition_id@ != "dummy_btc_fallback"@
                && found.of(a)->0.condition_id@ != "dummy_solana_fallback"@
                && found.of(a)->0.condition_id@ != "dummy_xrp_fallback"@,
    ensures
        ({
            let clashing = clash_among(
                condition_or(found.eth, "dummy_eth_fallback"@),
                condition_or(found.btc, "dummy_btc_fallback"@),
                condition_or(found.solana, "dummy_solana_fallback"@),
                condition_or(found.xrp, "dummy_xrp_fallback"@),
            );
            clashing is Some ==> found.solana is Some && clashing == Some(
                clash("Solana and XRP"@, found.solana->0.condition_id@),
            )
        }),
{
    assert(found.of(Asset::Eth) == found.eth);
    assert(found.of(Asset::Btc) == found.btc);
    assert(found.of(Asset::Solana) == found.solana);
    assert(found.of(Asset::Xrp) == found.xrp);
}

/// A hunt goes through ETH where that is traded, BTC always, and Solana and XRP where they are;
/// it ends early only where it needs a market of BTC and found none. Earlier periods are
/// looked at for ETH and BTC always, for the others where wanted.
pub proof fn law_a_hunt_goes_through_the_traded_assets(plan: HuntPlan, found: Option<Market>)
    ensures
        plan.first() is Eth <==> plan.eth,
        plan.first() is Eth || plan.first() is Btc,
        plan.next(Asset::Eth, found) == Some(Asset::Btc),
        plan.next(Asset::Btc, found) == if plan.needs_btc && found is None {
            None
        } else if plan.solana {
            Some(Asset::Solana)
        } else if plan.xrp {
            Some(Asset::Xrp)
        } else {
            None
        },
        plan.next(Asset::Solana, found) == if plan.xrp {
            Some(Asset::Xrp)
        } else {
            None
        },
        plan.next(Asset::Xrp, found) is None,
        plan.looks_back(Asset::Eth) && plan.looks_back(Asset::Btc),
        plan.looks_back(Asset::Solana) == plan.looks_back_always,
        plan.looks_back(Asset::Xrp) == plan.looks_back_always,
{
}

/// What a step of a hunt does: a market that is active, open and not yet seen is taken for the
/// asset that is looked for, and for no other; anything else leads to the next slug or, after
/// the last one, past the asset.
pub proof fn law_a_hunt_takes_the_first_market_that_can_be_traded(
    before: Hunt,
    plan: HuntPlan,
    reply: Option<Market>,
    after: (Hunt, Option<String>),
    asset: Asset,
    search: Search,
)
    requires
        before.wf(),
        before.state == (Hunting::Asset { asset, search }),
        before.steps_to(plan, reply, after),
    ensures
        ({
            let taken = reply is Some && reply->0.active && !reply->0.closed && !texts(
                before.seen@,
            ).contains(reply->0.condition_id@);
            let found = after.0.found;
            &&& taken ==> match asset {
                Asset::Eth => found == (Found { eth: reply, ..before.found }),
                Asset::Btc => found == (Found { btc: reply, ..before.found }),
                Asset::Solana => found == (Found { solana: reply, ..before.found }),
                Asset::Xrp => found == (Found { xrp: reply, ..before.found }),
            }
            &&& !taken ==> found == before.found
            &&& !taken && search.at + 1 < search.slugs@.len() ==> after.1 == Some(
                search.slugs@[search.at + 1],
            ) && (after.0.state matches Hunting::Asset { asset: a, search: s } && a == asset && s.at
                == search.at + 1 && s.slugs == search.slugs)
            &&& taken || search.at + 1 >= search.slugs@.len() ==> match plan.next(
                asset,
                if taken {
                    reply
                } else {
                    None
                },
            ) {
                Some(next) => after.0.state matches Hunting::Asset { asset: a, search: s } && a
                    == next && s.at == 0 && after.1 == Some(s.slugs@[0]),
                None => after.0.state is Finished && after.1 is None,
            }
            &&& taken && plan.remembers && (asset is Eth || asset is Btc) ==> texts(
                after.0.seen@,
            ) == texts(before.seen@).push(reply->0.condition_id@)
            &&& !plan.remembers ==> texts(after.0.seen@) == texts(before.seen@)
            &&& after.0.now == before.now
        }),
{
}

/// Where a hunt comes to an asset, it looks for it by the slugs of this period and, where
/// wanted, of earlier ones, under the asset's own names, beginning with this period.
pub proof fn law_a_hunt_begins_with_this_period(
    hunt: Hunt,
    slug: Option<String>,
    plan: HuntPlan,
    now: u64,
    seen: Seq<Seq<char>>,
    found: Found,
    asset: Asset,
)
    requires
        hunt.comes_to(slug, plan, now, seen, found, Some(asset)),
        now >= 2700,
    ensures
        hunt.now == now,
        hunt.found == found,
        texts(hunt.seen@) == seen,
        slug matches Some(text) && text@ == (match asset {
            Asset::Btc => "btc"@,
            Asset::Eth => "eth"@,
            Asset::Solana => "solana"@,
            Asset::Xrp => "xrp"@,
        }) + "-updown-15m-"@ + decimal_text(((now as int / 900) * 900) as nat),
        hunt.state matches Hunting::Asset { asset: a, search } && a == asset && search.at == 0
            && search.slugs@.len() == (if asset is Solana {
            2int
        } else {
            1
        }) * (if plan.looks_back_always || asset is Eth || asset is Btc {
            4int
        } else {
            1
        }),
{
    assert(now as int / 900 >= 3);
    let period = period_at(now as int);
    law_an_asset_is_looked_for_by_its_slugs(asset, period, plan.looks_back(asset));
    let slugs = hunt.state->search.slugs@;
    assert(texts(slugs).len() == slugs.len());
    assert(texts(slugs)[0] == slugs[0]@);
}

} // verus!

//! Finding the markets of a period.

use vstd::prelude::*;
use vstd::string::*;

use crate::api::PolymarketApi;
use crate::closing::PERIOD_SECONDS;
use crate::models::{Asset, Market};
use crate::text::{
    contains, decimal_text, is_among, join, joined, lowercase, occurs_in, same_text, texts,
    to_lowercase, to_uppercase, u64_text, uppercase,
};

verus! {

/// The period that a moment falls into, by its beginning.
pub open spec fn period_at(now: int) -> int {
    (now / PERIOD_SECONDS as int) * PERIOD_SECONDS
}

/// The period that a moment falls into.
pub fn period_of(now: u64) -> (res: u64)
    ensures
        res == period_at(now as int),
        res <= now,
{
    proof {
        law_periods(now);
    }
    (now / PERIOD_SECONDS) * PERIOD_SECONDS
}

/// A period begins at a multiple of fifteen minutes, no later than the moments that
/// fall into it and less than fifteen minutes before them; its own beginning falls into
/// it.
pub proof fn law_periods(now: u64)
    ensures
        period_at(now as int) % PERIOD_SECONDS as int == 0,
        period_at(now as int) <= now < period_at(now as int) + PERIOD_SECONDS,
        period_at(period_at(now as int)) == period_at(now as int),
{
}

/// What is done about the markets: new ones are looked for now, or after a pause.
#[derive(Clone, Copy, Debug, PartialEq, Eq, Structural)]
pub enum PeriodStep {
    Discover,
    Sleep { seconds: u64 },
}

/// What is done about the markets at a moment, given the period of the current ones:
/// where there are some and they are of another period, new ones are looked for; else
/// the bot sleeps until the next period.
pub fn next_period_step(now: u64, market_timestamp: u64) -> (res: PeriodStep)
    ensures
        res == if market_timestamp != period_at(now as int) && market_timestamp != 0 {
            PeriodStep::Discover
        } else {
            PeriodStep::Sleep {
                seconds: (period_at(now as int) + PERIOD_SECONDS - now) as u64,
            }
        },
        res matches PeriodStep::Sleep { seconds } ==> 1 <= seconds <= PERIOD_SECONDS,
        res is Discover <==> market_timestamp != 0 && !(market_timestamp % 900 == 0
            && market_timestamp <= now < market_timestamp + 900),
        res matches PeriodStep::Sleep { seconds } ==> 1 <= seconds <= 900 && (now + seconds) % 900
            == 0,
{
    let period: u64 = period_of(now);
    proof {
        law_periods(now);
    }
    if market_timestamp != period && market_timestamp != 0 {
        PeriodStep::Discover
    } else {
        PeriodStep::Sleep { seconds: PERIOD_SECONDS - (now - period) }
    }
}

/// The slug of a market.
pub open spec fn slug(prefix: Seq<char>, period: nat) -> Seq<char> {
    prefix + "-updown-15m-"@ + decimal_text(period)
}

/// The slug of a market.
pub fn slug_text(prefix: &str, period: u64) -> (res: String)
    ensures
        res@ == slug(prefix@, period as nat),
{
    let mut res = prefix.to_owned();
    res.append("-updown-15m-");
    res.append(u64_text(period).as_str());
    res
}

/// A market that stands for one that there is not.
pub open spec fn is_placeholder(
    market: Market,
    id: Seq<char>,
    slug: Seq<char>,
    question: Seq<char>,
) -> bool {
    &&& market.condition_id@ == id
    &&& market.slug@ == slug
    &&& market.question@ == question
    &&& !market.active
    &&& market.closed
    &&& market.market_id is None
    &&& market.resolution_source is None
    &&& market.end_date_iso is None
    &&& market.end_date_iso_alt is None
    &&& market.tokens is None
    &&& market.clob_token_ids is None
    &&& market.outcomes is None
}

fn placeholder(id: &str, slug: &str, question: &str) -> (res: Market)
    ensures
        is_placeholder(res, id@, slug@, question@),
{
    Market {
        condition_id: id.to_owned(),
        slug: slug.to_owned(),
        active: false,
        closed: true,
        market_id: None,
        question: question.to_owned(),
        resolution_source: None,
        end_date_iso: None,
        end_date_iso_alt: None,
        tokens: None,
        clob_token_ids: None,
        outcomes: None,
    }
}

/// The market that stands for ETH where it is not traded.
pub fn disabled_eth_market() -> (res: Market)
    ensures
        is_placeholder(
            res,
            "dummy_eth_fallback"@,
            "eth-updown-15m-fallback"@,
            "ETH Trading Disabled"@,
        ),
{
    placeholder("dummy_eth_fallback", "eth-updown-15m-fallback", "ETH Trading Disabled")
}

/// The market that stands for BTC where none was found.
pub fn disabled_btc_market() -> (res: Market)
    ensures
        is_placeholder(
            res,
            "dummy_btc_fallback"@,
            "btc-updown-15m-fallback"@,
            "BTC Trading Disabled"@,
        ),
{
    placeholder("dummy_btc_fallback", "btc-updown-15m-fallback", "BTC Trading Disabled")
}

/// The market that stands for Solana where it is not traded.
pub fn disabled_solana_market() -> (res: Market)
    ensures
        is_placeholder(
            res,
            "dummy_solana_fallback"@,
            "solana-updown-15m-fallback"@,
            "Solana Trading Disabled"@,
        ),
{
    placeholder("dummy_solana_fallback", "solana-updown-15m-fallback", "Solana Trading Disabled")
}

/// The market that stands for XRP where it is not traded.
pub fn disabled_xrp_market() -> (res: Market)
    ensures
        is_placeholder(
            res,
            "dummy_xrp_fallback"@,
            "xrp-updown-15m-fallback"@,
            "XRP Trading Disabled"@,
        ),
{
    placeholder("dummy_xrp_fallback", "xrp-updown-15m-fallback", "XRP Trading Disabled")
}

/// The market that stands for Solana where none is being watched.
pub fn missing_solana_market() -> (res: Market)
    ensures
        is_placeholder(
            res,
            "dummy_solana_fallback"@,
            "solana-updown-15m-fallback"@,
            "Solana Trading (market not found)"@,
        ),
{
    placeholder(
        "dummy_solana_fallback",
        "solana-updown-15m-fallback",
        "Solana Trading (market not found)",
    )
}

/// The market that stands for XRP where none is being watched.
pub fn missing_xrp_market() -> (res: Market)
    ensures
        is_placeholder(
            res,
            "dummy_xrp_fallback"@,
            "xrp-updown-15m-fallback"@,
            "XRP Trading (market not found)"@,
        ),
{
    placeholder("dummy_xrp_fallback", "xrp-updown-15m-fallback", "XRP Trading (market not found)")
}

/// The assets that are traded besides BTC, for the log.
pub fn enabled_markets_label(enable_eth: bool, enable_solana: bool, enable_xrp: bool) -> (res: String)
    ensures
        res@ == if !enable_eth && !enable_solana && !enable_xrp {
            "no additional"@
        } else {
            joined(labels(enable_eth, enable_solana, enable_xrp), ", "@)
        },
{
    let mut enabled: Vec<String> = Vec::new();
    if enable_eth {
        enabled.push("ETH".to_owned());
    }
    if enable_solana {
        enabled.push("Solana".to_owned());
    }
    if enable_xrp {
        enabled.push("XRP".to_owned());
    }
    assert(texts(enabled@) =~= labels(enable_eth, enable_solana, enable_xrp));
    if enabled.len() == 0 {
        "no additional".to_owned()
    } else {
        join(&enabled, ", ")
    }
}

/// The names of those of the three assets that are enabled.
pub open spec fn labels(eth: bool, solana: bool, xrp: bool) -> Seq<Seq<char>> {
    let a = if eth {
        seq!["ETH"@]
    } else {
        Seq::empty()
    };
    let b = if solana {
        a.push("Solana"@)
    } else {
        a
    };
    if xrp {
        b.push("XRP"@)
    } else {
        b
    }
}

/// The slugs under which a market of a period is looked for: with each prefix that of
/// the period and, where wanted, those of the three periods before it.
pub open spec fn candidates(prefixes: Seq<Seq<char>>, period: int, previous: bool) -> Seq<Seq<char>>
    decreases prefixes.len(),
{
    if prefixes.len() == 0 {
        Seq::empty()
    } else {
        let prefix = prefixes.last();
        let current = candidates(prefixes.drop_last(), period, previous).push(
            slug(prefix, period as nat),
        );
        if previous {
            current.push(slug(prefix, (period - PERIOD_SECONDS) as nat)).push(
                slug(prefix, (period - 2 * PERIOD_SECONDS) as nat),
            ).push(slug(prefix, (period - 3 * PERIOD_SECONDS) as nat))
        } else {
            current
        }
    }
}

/// The slugs under which the market of a moment is looked for.
pub fn candidate_slugs(prefixes: &Vec<String>, now: u64, include_previous: bool) -> (res: Vec<String>)
    requires
        include_previous ==> now >= 3 * PERIOD_SECONDS,
    ensures
        texts(res@) == candidates(texts(prefixes@), period_at(now as int), include_previous),
{
    let period: u64 = period_of(now);
    proof {
        if include_previous {
            assert(now / PERIOD_SECONDS >= 3);
        }
    }
    let mut res: Vec<String> = Vec::new();
    let ghost all = texts(prefixes@);
    let mut i: usize = 0;
    assert(texts(res@) =~= candidates(all.take(0), period as int, include_previous));
    while i < prefixes.len()
        invariant
            i <= prefixes@.len(),
            all == texts(prefixes@),
            include_previous ==> period >= 3 * PERIOD_SECONDS,
            texts(res@) == candidates(all.take(i as int), period as int, include_previous),
        decreases prefixes@.len() - i,
    {
        let ghost was = texts(res@);
        assert(all.take(i + 1).drop_last() =~= all.take(i as int));
        assert(all.take(i + 1).last() == prefixes@[i as int]@);
        let prefix = prefixes[i].as_str();
        res.push(slug_text(prefix, period));
        assert(texts(res@) =~= was.push(slug(prefix@, period as nat)));
        if include_previous {
            let ghost a = texts(res@);
            res.push(slug_text(prefix, period - PERIOD_SECONDS));
            assert(texts(res@) =~= a.push(slug(prefix@, (period - PERIOD_SECONDS) as nat)));
            let ghost b = texts(res@);
            res.push(slug_text(prefix, period - 2 * PERIOD_SECONDS));
            assert(texts(res@) =~= b.push(slug(prefix@, (period - 2 * PERIOD_SECONDS) as nat)));
            let ghost c = texts(res@);
            res.push(slug_text(prefix, period - 3 * PERIOD_SECONDS));
            assert(texts(res@) =~= c.push(slug(prefix@, (period - 3 * PERIOD_SECONDS) as nat)));
        }
        i = i + 1;
    }
    assert(all.take(i as int) =~= all);
    res
}

/// Whether a market can be traded: it has not been seen, is active and not closed.
pub open spec fn is_tradable(market: Market, seen: Seq<Seq<char>>) -> bool {
    !seen.contains(market.condition_id@) && market.active && !market.closed
}

/// A search for a market, by one slug after the other.
pub struct Search {
    pub slugs: Vec<String>,
    pub at: usize,
}

impl Search {
    /// Whether there is a slug to look under.
    pub open spec fn wf(self) -> bool {
        self.at < self.slugs@.len()
    }
}

/// How a search goes on.
pub enum SearchStep {
    /// Under the next slug.
    Next(Search),
    /// It has found a market.
    Found(Market),
    /// It has found none.
    Exhausted,
}

/// One step of the search for a market: takes what was found under the last slug. The
/// first market that can be traded is the one.
pub fn discover_market(search: Search, reply: Option<Market>, seen: &Vec<String>) -> (res: SearchStep)
    requires
        search.wf(),
    ensures
        match reply {
            Some(market) if is_tradable(market, texts(seen@)) => res == SearchStep::Found(market),
            _ => if search.at + 1 < search.slugs@.len() {
                &&& res matches SearchStep::Next(next)
                &&& next.slugs == search.slugs
                &&& next.at == search.at + 1
                &&& next.wf()
            } else {
                res is Exhausted
            },
        },
{
    if let Some(market) = reply {
        if !is_among(market.condition_id.as_str(), seen) && market.active && !market.closed {
            return SearchStep::Found(market);
        }
    }
    let Search { slugs, at } = search;
    let last: usize = slugs.len() - 1;
    if at < last {
        SearchStep::Next(Search { slugs, at: at + 1 })
    } else {
        SearchStep::Exhausted
    }
}

/// What is said where no market was found, with a hint where wanted.
pub open spec fn not_found(name: Seq<char>, prefixes: Seq<Seq<char>>, hint: bool) -> Seq<char> {
    "Could not find active "@ + name + " 15-minute up/down market (tried prefixes: "@ + joined(
        prefixes,
        ", "@,
    ) + ")."@ + if hint {
        " Set condition_id in config.json if needed."@
    } else {
        ""@
    }
}

/// What is said where no market was found, with a hint where wanted.
pub fn not_found_text(name: &str, prefixes: &Vec<String>, hint: bool) -> (res: String)
    ensures
        res@ == not_found(name@, texts(prefixes@), hint),
{
    let mut text = "Could not find active ".to_owned();
    text.append(name);
    text.append(" 15-minute up/down market (tried prefixes: ");
    text.append(join(prefixes, ", ").as_str());
    text.append(").");
    text.append(
        if hint {
            " Set condition_id in config.json if needed."
        } else {
            ""
        },
    );
    text
}

impl Asset {
    /// The asset's name.
    pub open spec fn name(self) -> Seq<char> {
        match self {
            Asset::Btc => "BTC"@,
            Asset::Eth => "ETH"@,
            Asset::Solana => "Solana"@,
            Asset::Xrp => "XRP"@,
        }
    }

    /// The asset's name.
    pub fn display_name(self) -> (res: &'static str)
        ensures
            res@ == self.name(),
    {
        match self {
            Asset::Btc => "BTC",
            Asset::Eth => "ETH",
            Asset::Solana => "Solana",
            Asset::Xrp => "XRP",
        }
    }

    /// What the slugs of the asset's markets begin with.
    pub open spec fn prefixes(self) -> Seq<Seq<char>> {
        match self {
            Asset::Btc => seq!["btc"@],
            Asset::Eth => seq!["eth"@],
            Asset::Solana => seq!["solana"@, "sol"@],
            Asset::Xrp => seq!["xrp"@],
        }
    }

    /// What the slugs of the asset's markets begin with.
    pub fn slug_prefixes(self) -> (res: Vec<String>)
        ensures
            texts(res@) == self.prefixes(),
    {
        let mut res: Vec<String> = Vec::new();
        match self {
            Asset::Btc => {
                res.push("btc".to_owned());
            },
            Asset::Eth => {
                res.push("eth".to_owned());
            },
            Asset::Solana => {
                res.push("solana".to_owned());
                res.push("sol".to_owned());
            },
            Asset::Xrp => {
                res.push("xrp".to_owned());
            },
        }
        assert(texts(res@) =~= self.prefixes());
        res
    }
}

/// What is said of two markets that are the same.
pub open spec fn clash(names: Seq<char>, id: Seq<char>) -> Seq<char> {
    names + " markets have the same condition ID: "@ + id + ". This is incorrect."@
}

/// The first clash among the conditions of four markets. Placeholders do not clash,
/// except that of BTC.
pub open spec fn clash_among(
    eth: Seq<char>,
    btc: Seq<char>,
    solana: Seq<char>,
    xrp: Seq<char>,
) -> Option<Seq<char>> {
    let has_eth = eth != "dummy_eth_fallback"@;
    let has_solana = solana != "dummy_solana_fallback"@;
    let has_xrp = xrp != "dummy_xrp_fallback"@;
    if eth == btc && has_eth {
        Some(clash("ETH and BTC"@, eth))
    } else if has_solana && eth == solana && has_eth {
        Some(clash("ETH and Solana"@, eth))
    } else if has_solana && btc == solana {
        Some(clash("BTC and Solana"@, btc))
    } else if has_xrp && eth == xrp && has_eth {
        Some(clash("ETH and XRP"@, eth))
    } else if has_xrp && btc == xrp {
        Some(clash("BTC and XRP"@, btc))
    } else if has_xrp && solana == xrp && has_solana {
        Some(clash("Solana and XRP"@, solana))
    } else {
        None
    }
}

fn clash_text(names: &str, id: &str) -> (res: String)
    ensures
        res@ == clash(names@, id@),
{
    let mut text = names.to_owned();
    text.append(" markets have the same condition ID: ");
    text.append(id);
    text.append(". This is incorrect.");
    text
}

fn find_clash(eth: &str, btc: &str, solana: &str, xrp: &str) -> (res: Option<String>)
    ensures
        match res {
            Some(text) => clash_among(eth@, btc@, solana@, xrp@) == Some(text@),
            None => clash_among(eth@, btc@, solana@, xrp@) is None,
        },
{
    let has_eth = !same_text(eth, "dummy_eth_fallback");
    let has_solana = !same_text(solana, "dummy_solana_fallback");
    let has_xrp = !same_text(xrp, "dummy_xrp_fallback");
    if same_text(eth, btc) && has_eth {
        Some(clash_text("ETH and BTC", eth))
    } else if has_solana && same_text(eth, solana) && has_eth {
        Some(clash_text("ETH and Solana", eth))
    } else if has_solana && same_text(btc, solana) {
        Some(clash_text("BTC and Solana", btc))
    } else if has_xrp && same_text(eth, xrp) && has_eth {
        Some(clash_text("ETH and XRP", eth))
    } else if has_xrp && same_text(btc, xrp) {
        Some(clash_text("BTC and XRP", btc))
    } else if has_xrp && same_text(solana, xrp) && has_solana {
        Some(clash_text("Solana and XRP", solana))
    } else {
        None
    }
}

/// The markets of a period, one for each asset.
pub struct Markets {
    pub eth: Market,
    pub btc: Market,
    pub solana: Market,
    pub xrp: Market,
}

/// Whether a market is the one that was found or, where none was, a placeholder.
pub open spec fn found_or(
    market: Market,
    found: Option<Market>,
    id: Seq<char>,
    slug: Seq<char>,
    question: Seq<char>,
) -> bool {
    match found {
        Some(m) => market == m,
        None => is_placeholder(market, id, slug, question),
    }
}

impl Markets {
    /// Whether these are the markets that were found, with placeholders for assets that
    /// are not traded.
    pub open spec fn are(
        self,
        eth: Option<Market>,
        btc: Option<Market>,
        solana: Option<Market>,
        xrp: Option<Market>,
    ) -> bool {
        &&& found_or(
            self.eth,
            eth,
            "dummy_eth_fallback"@,
            "eth-updown-15m-fallback"@,
            "ETH Trading Disabled"@,
        )
        &&& found_or(
            self.btc,
            btc,
            "dummy_btc_fallback"@,
            "btc-updown-15m-fallback"@,
            "BTC Trading Disabled"@,
        )
        &&& found_or(
            self.solana,
            solana,
            "dummy_solana_fallback"@,
            "solana-updown-15m-fallback"@,
            "Solana Trading Disabled"@,
        )
        &&& found_or(
            self.xrp,
            xrp,
            "dummy_xrp_fallback"@,
            "xrp-updown-15m-fallback"@,
            "XRP Trading Disabled"@,
        )
    }
}

/// The condition of a market that was found, or of a placeholder.
pub open spec fn condition_or(found: Option<Market>, id: Seq<char>) -> Seq<char> {
    match found {
        Some(m) => m.condition_id@,
        None => id,
    }
}

/// The markets to trade: those that were found, with placeholders for the others. No
/// two of them may be the same.
pub fn get_or_discover_markets(
    eth: Option<Market>,
    btc: Option<Market>,
    solana: Option<Market>,
    xrp: Option<Market>,
) -> (res: Result<Markets, String>)
    ensures
        ({
            let found = clash_among(
                condition_or(eth, "dummy_eth_fallback"@),
                condition_or(btc, "dummy_btc_fallback"@),
                condition_or(solana, "dummy_solana_fallback"@),
                condition_or(xrp, "dummy_xrp_fallback"@),
            );
            match res {
                Ok(markets) => found is None && markets.are(eth, btc, solana, xrp),
                Err(e) => found == Some(e@),
            }
        }),
{
    let eth = match eth {
        Some(m) => m,
        None => disabled_eth_market(),
    };
    let btc = match btc {
        Some(m) => m,
        None => disabled_btc_market(),
    };
    let solana = match solana {
        Some(m) => m,
        None => disabled_solana_market(),
    };
    let xrp = match xrp {
        Some(m) => m,
        None => disabled_xrp_market(),
    };
    match find_clash(
        eth.condition_id.as_str(),
        btc.condition_id.as_str(),
        solana.condition_id.as_str(),
        xrp.condition_id.as_str(),
    ) {
        Some(text) => Err(text),
        None => Ok(Markets { eth, btc, solana, xrp }),
    }
}

/// The markets to watch: BTC's must have been found, placeholders stand for the others.
pub fn markets_to_watch(
    eth: Option<Market>,
    btc: Option<Market>,
    solana: Option<Market>,
    xrp: Option<Market>,
) -> (res: Result<Markets, String>)
    ensures
        match res {
            Ok(markets) => {
                &&& btc == Some(markets.btc)
                &&& found_or(
                    markets.eth,
                    eth,
                    "dummy_eth_fallback"@,
                    "eth-updown-15m-fallback"@,
                    "ETH Trading Disabled"@,
                )
                &&& found_or(
                    markets.solana,
                    solana,
                    "dummy_solana_fallback"@,
                    "solana-updown-15m-fallback"@,
                    "Solana Trading (market not found)"@,
                )
                &&& found_or(
                    markets.xrp,
                    xrp,
                    "dummy_xrp_fallback"@,
                    "xrp-updown-15m-fallback"@,
                    "XRP Trading (market not found)"@,
                )
            },
            Err(e) => btc is None && e@ == "Failed to discover BTC market"@,
        },
{
    let btc = match btc {
        Some(m) => m,
        None => {
            return Err("Failed to discover BTC market".to_owned());
        },
    };
    let eth = match eth {
        Some(m) => m,
        None => disabled_eth_market(),
    };
    let solana = match solana {
        Some(m) => m,
        None => missing_solana_market(),
    };
    let xrp = match xrp {
        Some(m) => m,
        None => missing_xrp_market(),
    };
    Ok(Markets { eth, btc, solana, xrp })
}

/// Where the search for the current market of an asset has come to.
pub enum CurrentSearch {
    /// It has not begun.
    Start,
    /// The market of a period, so many periods back, is asked for.
    Slug { back: u64 },
    /// The active markets are asked for.
    Active,
    /// It is over: with the market's condition, if one was found.
    Finished { condition_id: Option<String> },
}

/// What the search asks for.
pub enum CurrentRequest {
    /// The market with a slug.
    Market { slug: String },
    /// So many active markets.
    ActiveMarkets { limit: u32 },
    /// Nothing more.
    Finished,
}

/// What came back.
pub enum CurrentReply {
    Nothing,
    Market(Option<Market>),
    Markets(Option<Vec<Market>>),
}

/// Whether a market is one of an asset's fifteen-minute markets, by its slug or by its
/// question.
pub open spec fn is_about(market: Market, lowered: Seq<char>, raised: Seq<char>) -> bool {
    tells_of(market.slug@, uppercase(market.question@), lowered, raised)
}

/// Whether a slug, or a question in upper case, is of an asset's fifteen-minute markets,
/// given the asset's name in lower and in upper case.
pub open spec fn tells_of(
    slug: Seq<char>,
    question: Seq<char>,
    lowered: Seq<char>,
    raised: Seq<char>,
) -> bool {
    occurs_in(slug, lowered + "-updown-15m"@) || occurs_in(question, raised + " 15"@)
}

/// Whether a slug, or a question in upper case, is of an asset's fifteen-minute markets,
/// given the asset's name in lower and in upper case.
pub fn concerns_asset(slug: &str, question: &str, lowered: &str, raised: &str) -> (res: bool)
    ensures
        res == tells_of(slug@, question@, lowered@, raised@),
{
    let mut part = lowered.to_owned();
    part.append("-updown-15m");
    let mut words = raised.to_owned();
    words.append(" 15");
    contains(slug, part.as_str()) || contains(question, words.as_str())
}

/// The first of the markets that is about an asset.
pub open spec fn first_about(markets: Seq<Market>, lowered: Seq<char>, raised: Seq<char>) -> Option<
    String,
>
    decreases markets.len(),
{
    if markets.len() == 0 {
        None
    } else if is_about(markets[0], lowered, raised) {
        Some(markets[0].condition_id)
    } else {
        first_about(markets.skip(1), lowered, raised)
    }
}

fn find_about(markets: &Vec<Market>, lowered: &str, raised: &str) -> (res: Option<String>)
    ensures
        res == first_about(markets@, lowered@, raised@),
{
    let mut i: usize = 0;
    assert(markets@.skip(0) =~= markets@);
    while i < markets.len()
        invariant
            i <= markets@.len(),
            first_about(markets@, lowered@, raised@) == first_about(
                markets@.skip(i as int),
                lowered@,
                raised@,
            ),
        decreases markets@.len() - i,
    {
        let market = &markets[i];
        assert(markets@.skip(i as int)[0] == *market);
        assert(markets@.skip(i as int).skip(1) =~= markets@.skip(i + 1));
        let asked = to_uppercase(market.question.as_str());
        if concerns_asset(market.slug.as_str(), asked.as_str(), lowered, raised) {
            return Some(market.condition_id.clone());
        }
        i = i + 1;
    }
    None
}

impl CurrentSearch {
    /// Whether at most two periods are looked back.
    pub open spec fn wf(self) -> bool {
        self matches CurrentSearch::Slug { back } ==> back <= 2
    }
}

/// Whether a step of the search for the current market of an asset leads here: the market
/// of this period is asked for, then those of the two before it, then the active markets,
/// the first of which that is about the asset is taken.
pub open spec fn current_step(
    asset: Seq<char>,
    now: u64,
    search: CurrentSearch,
    reply: CurrentReply,
    res: (CurrentSearch, CurrentRequest),
) -> bool {
    match search {
        CurrentSearch::Start => asks_slug(res, asset, now, 0),
        CurrentSearch::Slug { back } => match reply {
            CurrentReply::Market(Some(market)) => found_current(res, Some(market.condition_id)),
            _ => if back < 2 {
                asks_slug(res, asset, now, back + 1)
            } else {
                res.0 is Active && res.1 == (CurrentRequest::ActiveMarkets { limit: 50 })
            },
        },
        CurrentSearch::Active => match reply {
            CurrentReply::Markets(Some(markets)) => found_current(
                res,
                first_about(markets@, lowercase(asset), uppercase(asset)),
            ),
            _ => found_current(res, None),
        },
        CurrentSearch::Finished { condition_id } => found_current(res, condition_id),
    }
}

impl PolymarketApi {
    /// One step of the search for the current market of an asset: the market of this period
    /// or of one of the two before it, else an active market about the asset.
    pub fn discover_current_market(
        &self,
        asset: &str,
        now: u64,
        search: CurrentSearch,
        reply: CurrentReply,
    ) -> (res: (CurrentSearch, CurrentRequest))
        requires
            now >= 2 * PERIOD_SECONDS,
            search.wf(),
        ensures
            res.0.wf(),
            current_step(asset@, now, search, reply, res),
    {
        match search {
            CurrentSearch::Start => ask_slug(asset, now, 0),
            CurrentSearch::Slug { back } => {
                if let CurrentReply::Market(Some(market)) = reply {
                    return (
                        CurrentSearch::Finished { condition_id: Some(market.condition_id) },
                        CurrentRequest::Finished,
                    );
                }
                if back < 2 {
                    ask_slug(asset, now, back + 1)
                } else {
                    (CurrentSearch::Active, CurrentRequest::ActiveMarkets { limit: 50 })
                }
            },
            CurrentSearch::Active => {
                let condition_id = match reply {
                    CurrentReply::Markets(Some(markets)) => find_about(
                        &markets,
                        to_lowercase(asset).as_str(),
                        to_uppercase(asset).as_str(),
                    ),
                    _ => None,
                };
                (CurrentSearch::Finished { condition_id }, CurrentRequest::Finished)
            },
            CurrentSearch::Finished { condition_id } => (
                CurrentSearch::Finished { condition_id },
                CurrentRequest::Finished,
            ),
        }
    }
}

/// Whether a search is over, with this condition.
pub open spec fn found_current(
    res: (CurrentSearch, CurrentRequest),
    condition_id: Option<String>,
) -> bool {
    res.0 == (CurrentSearch::Finished { condition_id }) && res.1 is Finished
}

/// Whether a search asks for the market of a period, so many periods back.
pub open spec fn asks_slug(
    res: (CurrentSearch, CurrentRequest),
    asset: Seq<char>,
    now: u64,
    back: int,
) -> bool {
    &&& res.0 matches CurrentSearch::Slug { back: b }
    &&& b == back
    &&& res.1 matches CurrentRequest::Market { slug: s }
    &&& s@ == slug(lowercase(asset), (period_at(now as int) - back * PERIOD_SECONDS) as nat)
}

fn ask_slug(asset: &str, now: u64, back: u64) -> (res: (CurrentSearch, CurrentRequest))
    requires
        now >= 2 * PERIOD_SECONDS,
        back <= 2,
    ensures
        asks_slug(res, asset@, now, back as int),
        res.0 == (CurrentSearch::Slug { back }),
{
    let lowered = to_lowercase(asset);
    assert(now / PERIOD_SECONDS >= 2);
    let period: u64 = period_of(now) - back * PERIOD_SECONDS;
    (
        CurrentSearch::Slug { back },
        CurrentRequest::Market { slug: slug_text(lowered.as_str(), period) },
    )
}

/// A moment falls into the period of fifteen minutes that begins last before it, at a multiple
/// of fifteen minutes.
pub proof fn law_a_period_is_a_quarter_of_an_hour(now: u64)
    ensures
        period_at(now as int) % 900 == 0,
        period_at(now as int) <= now < period_at(now as int) + 900,
{
}

/// The slug of a market is its prefix, the words for a quarter of an hour, and the beginning of
/// its period.
pub proof fn law_a_slug_tells_prefix_and_period(prefix: Seq<char>, period: nat)
    ensures
        slug(prefix, period) == prefix + "-updown-15m-"@ + decimal_text(period),
{
}

/// The market of an asset is looked for under the slug of the period and, where wanted, under
/// those of the three before it; that of Solana under its long name first, then under its
/// short one.
pub proof fn law_an_asset_is_looked_for_by_its_slugs(asset: Asset, period: int, previous: bool)
    requires
        period >= 2700,
    ensures
        ({
            let a = |prefix: Seq<char>|
                if previous {
                    seq![
                        slug(prefix, period as nat),
                        slug(prefix, (period - 900) as nat),
                        slug(prefix, (period - 1800) as nat),
                        slug(prefix, (period - 2700) as nat),
                    ]
                } else {
                    seq![slug(prefix, period as nat)]
                };
            candidates(asset.prefixes(), period, previous) == match asset {
                Asset::Btc => a("btc"@),
                Asset::Eth => a("eth"@),
                Asset::Solana => a("solana"@) + a("sol"@),
                Asset::Xrp => a("xrp"@),
            }
        }),
{
    reveal_with_fuel(candidates, 3);
    let list = asset.prefixes();
    if asset is Solana {
        assert(list.drop_last() =~= seq!["solana"@]);
        assert(list.drop_last().drop_last() =~= Seq::<Seq<char>>::empty());
    } else {
        assert(list.drop_last() =~= Seq::<Seq<char>>::empty());
    }
}

/// A market can be traded exactly where it is active, not closed and not yet seen; a
/// placeholder never can, and has no tokens.
pub proof fn law_what_can_be_traded(
    market: Market,
    seen: Seq<Seq<char>>,
    id: Seq<char>,
    slug: Seq<char>,
    question: Seq<char>,
)
    ensures
        is_tradable(market, seen) <==> market.active && !market.closed && forall|i: int|
            0 <= i < seen.len() ==> #[trigger] seen[i] != market.condition_id@,
        is_placeholder(market, id, slug, question) ==> !is_tradable(market, seen)
            && market.tokens is None && market.clob_token_ids is None && market.condition_id@ == id,
{
    if seen.contains(market.condition_id@) {
        let i = choose|i: int| 0 <= i < seen.len() && seen[i] == market.condition_id@;
        assert(seen[i] == market.condition_id@);
    }
}

/// Markets clash exactly where two of them have the same condition, unless that is the one of a
/// placeholder for ETH, Solana or XRP.
pub proof fn law_markets_with_one_condition_clash(
    eth: Seq<char>,
    btc: Seq<char>,
    solana: Seq<char>,
    xrp: Seq<char>,
)
    ensures
        clash_among(eth, btc, solana, xrp) is Some <==> {
            ||| eth == btc && eth != "dummy_eth_fallback"@
            ||| eth == solana && eth != "dummy_eth_fallback"@ && solana != "dummy_solana_fallback"@
            ||| btc == solana && solana != "dummy_solana_fallback"@
            ||| eth == xrp && eth != "dummy_eth_fallback"@ && xrp != "dummy_xrp_fallback"@
            ||| btc == xrp && xrp != "dummy_xrp_fallback"@
            ||| solana == xrp && solana != "dummy_solana_fallback"@ && xrp != "dummy_xrp_fallback"@
        },
{
}

/// The market about an asset is the first whose slug has the asset's name in lower case and the
/// words for a quarter of an hour, or whose question has the name and the fifteen minutes in
/// upper case.
pub proof fn law_the_first_market_about_an_asset_is_taken(
    markets: Seq<Market>,
    lowered: Seq<char>,
    raised: Seq<char>,
)
    ensures
        match first_about(markets, lowered, raised) {
            Some(condition_id) => exists|k: int|
                0 <= k < markets.len() && (#[trigger] markets[k]).condition_id == condition_id && (
                occurs_in(markets[k].slug@, lowered + "-updown-15m"@) || occurs_in(
                    uppercase(markets[k].question@),
                    raised + " 15"@,
                )) && forall|j: int|
                    0 <= j < k ==> !occurs_in(
                        (#[trigger] markets[j]).slug@,
                        lowered + "-updown-15m"@,
                    ) && !occurs_in(uppercase(markets[j].question@), raised + " 15"@),
            None => forall|j: int|
                0 <= j < markets.len() ==> !occurs_in(
                    (#[trigger] markets[j]).slug@,
                    lowered + "-updown-15m"@,
                ) && !occurs_in(uppercase(markets[j].question@), raised + " 15"@),
        },
    decreases markets.len(),
{
    if markets.len() > 0 {
        let rest = markets.skip(1);
        if is_about(markets[0], lowered, raised) {
            assert(markets[0].condition_id == first_about(markets, lowered, raised)->0);
        } else {
            law_the_first_market_about_an_asset_is_taken(rest, lowered, raised);
            assert forall|j: int| 1 <= j < markets.len() implies markets[j] == rest[j - 1] by {}
            if let Some(condition_id) = first_about(rest, lowered, raised) {
                let k = choose|k: int|
                    0 <= k < rest.len() && (#[trigger] rest[k]).condition_id == condition_id
                        && is_about(rest[k], lowered, raised) && forall|j: int|
                        0 <= j < k ==> !is_about(#[trigger] rest[j], lowered, raised);
                assert(markets[k + 1].condition_id == condition_id);
            }
        }
    }
}

/// The current market of an asset is asked for by the slugs of this period and of the two
/// before it, one after the other; the first that there is is taken, and else fifty active
/// markets are asked for.
pub proof fn law_the_current_market_is_looked_for_in_three_periods(
    asset: Seq<char>,
    now: u64,
    search: CurrentSearch,
    reply: CurrentReply,
    res: (CurrentSearch, CurrentRequest),
)
    requires
        current_step(asset, now, search, reply, res),
        search.wf(),
    ensures
        ({
            let period = (now as int / 900) * 900;
            let found = reply matches CurrentReply::Market(Some(_));
            &&& search is Start ==> (res.1 matches CurrentRequest::Market { slug: s } && s@
                == lowercase(asset) + "-updown-15m-"@ + decimal_text(period as nat) && res.0 == (
            CurrentSearch::Slug { back: 0 }))
            &&& search is Slug && found ==> res.1 is Finished && res.0 == (
            CurrentSearch::Finished {
                condition_id: Some(reply->Market_0->0.condition_id),
            })
            &&& search is Slug && !found && search->back < 2 ==> (
            res.1 matches CurrentRequest::Market { slug: s } && s@ == lowercase(asset)
                + "-updown-15m-"@ + decimal_text((period - (search->back + 1) * 900) as nat) && (
            res.0 matches CurrentSearch::Slug { back } && back == search->back + 1))
            &&& search is Slug && !found && search->back == 2 ==> res.0 is Active && res.1 == (
            CurrentRequest::ActiveMarkets { limit: 50 })
            &&& search is Active ==> res.1 is Finished && res.0 is Finished
            &&& search is Active && !(reply matches CurrentReply::Markets(Some(_))) ==> res.0 == (
            CurrentSearch::Finished { condition_id: None })
        }),
{
}

/// The label names exactly the assets that are traded besides BTC, in their order.
pub proof fn law_the_label_names_what_is_traded(eth: bool, solana: bool, xrp: bool)
    ensures
        labels(eth, solana, xrp).contains("ETH"@) || !eth,
        labels(eth, solana, xrp).contains("Solana"@) || !solana,
        labels(eth, solana, xrp).contains("XRP"@) || !xrp,
        labels(eth, solana, xrp).len() == (if eth {
            1int
        } else {
            0
        }) + (if solana {
            1int
        } else {
            0
        }) + (if xrp {
            1int
        } else {
            0
        }),
        eth ==> labels(eth, solana, xrp)[0] == "ETH"@,
        xrp ==> labels(eth, solana, xrp).last() == "XRP"@,
{
    let all = labels(eth, solana, xrp);
    if eth {
        assert(all[0] == "ETH"@);
    }
    if solana {
        assert(all[if eth {
            1int
        } else {
            0
        }] == "Solana"@);
    }
    if xrp {
        assert(all[all.len() - 1] == "XRP"@);
    }
}

/// What is said where no market was found names the asset and the prefixes that were tried, and
/// hints at the configuration where wanted.
pub proof fn law_a_market_that_was_not_found_is_named(name: Seq<char>, prefixes: Seq<Seq<char>>)
    ensures
        not_found(name, prefixes, true) == "Could not find active "@ + name
            + " 15-minute up/down market (tried prefixes: "@ + joined(prefixes, ", "@) + ")."@
            + " Set condition_id in config.json if needed."@,
        not_found(name, prefixes, false) == "Could not find active "@ + name
            + " 15-minute up/down market (tried prefixes: "@ + joined(prefixes, ", "@) + ")."@
            + ""@,
{
}

/// A market that stands for one that there is not can not be traded: it is closed and not active,
/// and nothing is told of its tokens or its end.
pub proof fn law_placeholders_are_closed(
    market: Market,
    id: Seq<char>,
    slug: Seq<char>,
    question: Seq<char>,
)
    requires
        is_placeholder(market, id, slug, question),
    ensures
        market.condition_id@ == id,
        market.slug@ == slug,
        market.question@ == question,
        !market.active,
        market.closed,
        market.tokens is None && market.clob_token_ids is None && market.outcomes is None,
        market.end_date_iso is None && market.end_date_iso_alt is None,
        market.market_id is None && market.resolution_source is None,
{
}

} // verus!

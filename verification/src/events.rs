//! The trading events that the history file records, and their texts.

use vstd::prelude::*;
use vstd::string::*;

use crate::decimal::Decimal;
use crate::models::TokenType;
use crate::money::{
    fixed6, fixed6_text, gain, nearest, nearest_millionths, price6, price6_text, profit, profit_of,
    quoted_profit, quoted_value, value, value6, value6_text, value_of, worth, ONE,
};
use crate::text::{
    at_most, contains, debug_text, decimal_text, leading, leading_text, lines, lines_of, occurs_in,
    quoted, shortened, texts, trim, trimmed, u64_text,
};

verus! {

/// How often the sale of a position at its target price is tried in a row.
pub const MAX_SELL_ATTEMPTS: u32 = 20;

/// How often the redemption of a position is tried.
pub const MAX_REDEMPTION_ATTEMPTS: u32 = 20;

/// Why a limit order was placed.
#[derive(Clone, Copy, Debug, PartialEq, Eq, Structural)]
pub enum Purpose {
    /// To sell what a limit buy has bought.
    SellFilledBuy,
    /// To sell at the profit target.
    TakeProfit,
    /// To sell the opposite token after a stop-loss.
    SellOpposite,
    /// To buy the opposite token after a stop-loss.
    BuyOpposite,
}

/// Something that happened to a trade. Prices and shares are in millionths; a quote is as
/// it was told.
pub enum Event {
    /// A market buy went through and its shares arrived.
    BuyConfirmed {
        token_type: TokenType,
        period: u64,
        token_id: String,
        price: i128,
        units: u64,
        order_id: Option<String>,
    },
    /// A market buy went through, but its shares were not seen in time.
    BuyUnconfirmed {
        token_type: TokenType,
        period: u64,
        token_id: String,
        price: i128,
        units: u64,
        order_id: Option<String>,
    },
    /// A market buy failed.
    BuyFailed {
        token_type: TokenType,
        period: u64,
        token_id: String,
        price: i128,
        units: u64,
        details: String,
    },
    /// A limit buy was placed.
    LimitBuy {
        token_type: TokenType,
        period: u64,
        token_id: String,
        price: i128,
        units: u64,
        order_id: Option<String>,
        sell_price: i128,
    },
    /// A limit order that follows a fill or a stop-loss was placed.
    OrderPlaced {
        purpose: Purpose,
        token_type: TokenType,
        period: u64,
        token_id: String,
        price: i128,
        size: u64,
        order_id: Option<String>,
    },
    /// A limit sell was filled.
    SellFilled {
        opposite: bool,
        token_type: TokenType,
        period: u64,
        token_id: String,
        purchase_price: i128,
        sell_price: i128,
        shares: u64,
    },
    /// The opposite token was sold at its stop-loss.
    OppositeStopLoss {
        token_type: TokenType,
        period: u64,
        token_id: String,
        purchase_price: i128,
        quote: Decimal,
        shares: u64,
    },
    /// A market sell went through.
    Sold {
        stop_loss: bool,
        token_type: TokenType,
        period: u64,
        quote: Decimal,
        units: u64,
        purchase_price: i128,
        order_id: Option<String>,
    },
    /// A market sell was given up because the price fell below the target.
    SellStopped {
        token_type: TokenType,
        period: u64,
        quote: Decimal,
        units: u64,
        purchase_price: i128,
        attempt: u32,
        details: String,
    },
    /// A market was found closed.
    MarketEnded { token_type: TokenType, period: u64, condition_id: String },
    /// What a position is worth after its market closed.
    MarketResult {
        token_type: TokenType,
        period: u64,
        won: bool,
        units: u64,
        purchase_price: i128,
    },
    /// Nothing was left to redeem.
    AlreadyRedeemed { token_type: TokenType, period: u64 },
    /// A position was redeemed.
    Redeemed { token_type: TokenType, period: u64, attempt: u32 },
    /// A redemption failed for the last time.
    RedemptionAbandoned { token_type: TokenType, period: u64, attempts: u32, message: String },
    /// A redemption failed and will be tried again.
    RedemptionRetry { token_type: TokenType, period: u64, attempt: u32 },
}

/// A text with one more labelled field.
pub open spec fn with(text: Seq<char>, label: Seq<char>, value: Seq<char>) -> Seq<char> {
    text + " | "@ + label + ": "@ + value
}

/// The beginning of an event: its title, its market and its period.
pub open spec fn heading(title: Seq<char>, side: TokenType, period: nat) -> Seq<char> {
    with(with(title, "Market"@, side.name()), "Period"@, decimal_text(period))
}

/// Millionths of a dollar, or of a share at a dollar.
pub open spec fn dollars(n: int) -> Seq<char> {
    "$"@ + price6(n)
}

/// Millionths of a millionth of a dollar.
pub open spec fn dollar_value(v: int) -> Seq<char> {
    "$"@ + value6(v)
}

/// The beginning of a token's identifier.
pub open spec fn short_id(id: Seq<char>) -> Seq<char> {
    leading(id, 16)
}

/// An order's identifier, where it has one.
pub open spec fn order_text(id: Option<String>) -> Seq<char> {
    match id {
        Some(id) => quoted(id@),
        None => "N/A"@,
    }
}

/// The first line that is not blank and speaks neither of troubleshooting nor, where
/// `strict`, of order details; `otherwise` where there is none.
pub open spec fn first_telling_line(
    list: Seq<Seq<char>>,
    strict: bool,
    otherwise: Seq<char>,
) -> Seq<char>
    decreases list.len(),
{
    if list.len() == 0 {
        otherwise
    } else if trimmed(list[0]).len() != 0 && !occurs_in(list[0], "Troubleshooting"@) && !(strict
        && occurs_in(list[0], "Order details"@)) {
        list[0]
    } else {
        first_telling_line(list.skip(1), strict, otherwise)
    }
}

/// Why a buy failed, in few words.
pub open spec fn buy_failure(details: Seq<char>) -> Seq<char> {
    if occurs_in(details, "order couldn't be fully filled"@) || occurs_in(details, "FOK orders"@) {
        "order couldn't be fully filled (FOK)"@
    } else if occurs_in(details, "not enough balance"@) {
        "not enough balance / allowance"@
    } else if occurs_in(details, "Insufficient"@) {
        "Insufficient balance or allowance"@
    } else {
        first_telling_line(lines(details), true, "Order failed"@)
    }
}

/// Why a sale failed, in few words.
pub open spec fn sell_failure(details: Seq<char>) -> Seq<char> {
    if occurs_in(details, "not enough balance"@) || occurs_in(details, "allowance"@) {
        "not enough balance / allowance"@
    } else if occurs_in(details, "No opposing orders"@) || occurs_in(details, "no orders found"@) {
        "no liquidity / no buyers"@
    } else if occurs_in(details, "couldn't be fully filled"@) {
        "insufficient liquidity"@
    } else {
        first_telling_line(lines(details), false, "Sell failed"@)
    }
}

impl Purpose {
    /// The title of the order's event.
    pub open spec fn title(self) -> Seq<char> {
        match self {
            Purpose::SellFilledBuy => "LIMIT SELL ORDER"@,
            Purpose::TakeProfit => "LIMIT SELL ORDER (PROFIT)"@,
            Purpose::SellOpposite => "LIMIT SELL ORDER (OPPOSITE AFTER STOP-LOSS)"@,
            Purpose::BuyOpposite => "LIMIT BUY ORDER (OPPOSITE AFTER STOP-LOSS)"@,
        }
    }

    fn title_text(self) -> (res: &'static str)
        ensures
            res@ == self.title(),
    {
        match self {
            Purpose::SellFilledBuy => "LIMIT SELL ORDER",
            Purpose::TakeProfit => "LIMIT SELL ORDER (PROFIT)",
            Purpose::SellOpposite => "LIMIT SELL ORDER (OPPOSITE AFTER STOP-LOSS)",
            Purpose::BuyOpposite => "LIMIT BUY ORDER (OPPOSITE AFTER STOP-LOSS)",
        }
    }
}

/// The worth of a share after its market closed.
pub open spec fn resolved_price(won: bool) -> i128 {
    if won {
        ONE as i128
    } else {
        0
    }
}

impl Event {
    /// The identifier of the event's order, where it has one.
    pub open spec fn order(self) -> Option<String> {
        match self {
            Event::BuyConfirmed { order_id, .. } => order_id,
            Event::BuyUnconfirmed { order_id, .. } => order_id,
            Event::LimitBuy { order_id, .. } => order_id,
            Event::OrderPlaced { order_id, .. } => order_id,
            Event::Sold { order_id, .. } => order_id,
            _ => None,
        }
    }

    /// The event's text.
    pub open spec fn line(self) -> Seq<char> {
        self.line_with(order_text(self.order()))
    }

    /// The event's text, given that of its order's identifier.
    pub open spec fn line_with(self, order: Seq<char>) -> Seq<char> {
        match self {
            Event::BuyConfirmed { token_type, period, token_id, price, units, .. } => with(
                with(
                    bought("BUY ORDER"@, token_type, period, token_id, price, units),
                    "Order ID"@,
                    order,
                ),
                "Status"@,
                "CONFIRMED"@,
            ),
            Event::BuyUnconfirmed { token_type, period, token_id, price, units, .. } => with(
                with(
                    with(
                        bought("BUY ORDER"@, token_type, period, token_id, price, units),
                        "Order ID"@,
                        order,
                    ),
                    "Status"@,
                    "SUCCESS"@,
                ),
                "Note"@,
                "Balance check timeout/failed"@,
            ),
            Event::BuyFailed { token_type, period, token_id, price, units, details } => with(
                with(
                    bought("BUY ORDER"@, token_type, period, token_id, price, units),
                    "Status"@,
                    "FAILED"@,
                ),
                "Error"@,
                buy_failure(details@),
            ),
            Event::LimitBuy { token_type, period, token_id, price, units, sell_price, .. } => with(
                ordered("LIMIT BUY ORDER"@, token_type, period, token_id, price, units, order),
                "Target Sell"@,
                dollars(sell_price as int) + " (profit only, stop-loss disabled)"@,
            ),
            Event::OrderPlaced { purpose, token_type, period, token_id, price, size, .. } => ordered(
                purpose.title(),
                token_type,
                period,
                token_id,
                price,
                size,
                order,
            ),
            Event::SellFilled {
                opposite,
                token_type,
                period,
                token_id,
                purchase_price,
                sell_price,
                shares,
            } => with(
                with(
                    resold(
                        if opposite {
                            "OPPOSITE TOKEN LIMIT SELL ORDER FILLED"@
                        } else {
                            "LIMIT SELL ORDER FILLED"@
                        },
                        token_type,
                        period,
                        token_id,
                        purchase_price,
                        sell_price,
                        shares,
                    ),
                    "Revenue"@,
                    dollar_value(value_of(shares as int, sell_price as int)),
                ),
                "Status"@,
                "FILLED"@,
            ),
            Event::OppositeStopLoss {
                token_type,
                period,
                token_id,
                purchase_price,
                quote,
                shares,
            } => with(
                resold(
                    "OPPOSITE TOKEN STOP-LOSS SELL"@,
                    token_type,
                    period,
                    token_id,
                    purchase_price,
                    nearest(quote) as i128,
                    shares,
                ),
                "Status"@,
                "FILLED"@,
            ),
            Event::Sold { stop_loss, token_type, period, quote, units, purchase_price, .. } => {
                let made = gain(units as int, quote, purchase_price as int);
                with(
                    with(
                        with(
                            sold(
                                if stop_loss {
                                    "SELL ORDER (STOP-LOSS)"@
                                } else {
                                    "SELL ORDER (PROFIT)"@
                                },
                                token_type,
                                period,
                                quote,
                                units,
                            ),
                            if made >= 0 {
                                "Profit"@
                            } else {
                                "Loss"@
                            },
                            dollar_value(made),
                        ),
                        "Order ID"@,
                        order,
                    ),
                    "Status"@,
                    "SUCCESS"@,
                )
            },
            Event::SellStopped { token_type, period, quote, units, purchase_price, attempt, details } => with(
                with(
                    with(
                        with(
                            with(
                                sold("SELL ORDER (PROFIT)"@, token_type, period, quote, units),
                                "Profit"@,
                                dollar_value(gain(units as int, quote, purchase_price as int)),
                            ),
                            "Status"@,
                            "FAILED"@,
                        ),
                        "Attempt"@,
                        decimal_text(attempt as nat) + "/20"@,
                    ),
                    "Error"@,
                    sell_failure(details@),
                ),
                "Stopped"@,
                "Price recovered"@,
            ),
            Event::MarketEnded { token_type, period, condition_id } => with(
                heading("MARKET ENDED"@, token_type, period as nat),
                "Condition"@,
                condition_id@,
            ),
            Event::MarketResult { token_type, period, won, units, purchase_price } => with(
                with(
                    with(
                        with(
                            with(
                                heading("MARKET RESULT"@, token_type, period as nat),
                                "Outcome"@,
                                if won {
                                    "WON"@
                                } else {
                                    "LOST"@
                                },
                            ),
                            "Token Value"@,
                            dollars(resolved_price(won) as int),
                        ),
                        "Cost"@,
                        dollar_value(value_of(units as int, purchase_price as int)),
                    ),
                    "Value"@,
                    dollar_value(value_of(units as int, resolved_price(won) as int)),
                ),
                "Profit"@,
                dollar_value(
                    profit_of(units as int, resolved_price(won) as int, purchase_price as int),
                ),
            ),
            Event::AlreadyRedeemed { token_type, period } => with(
                heading("REDEMPTION STATUS"@, token_type, period as nat),
                "Status"@,
                "ALREADY_REDEEMED"@,
            ),
            Event::Redeemed { token_type, period, attempt } => with(
                with(
                    heading("REDEMPTION SUCCESS"@, token_type, period as nat),
                    "Attempt"@,
                    decimal_text(attempt as nat),
                ),
                "Status"@,
                "SUCCESS"@,
            ),
            Event::RedemptionAbandoned { token_type, period, attempts, message } => with(
                with(
                    with(
                        heading("REDEMPTION FAILED"@, token_type, period as nat),
                        "Attempts"@,
                        decimal_text(attempts as nat),
                    ),
                    "Status"@,
                    "ABANDONED"@,
                ),
                "Error"@,
                at_most(message@, 100),
            ),
            Event::RedemptionRetry { token_type, period, attempt } => with(
                with(
                    heading("REDEMPTION RETRY"@, token_type, period as nat),
                    "Attempt"@,
                    decimal_text(attempt as nat) + "/20"@,
                ),
                "Status"@,
                "RETRYING"@,
            ),
        }
    }
}

/// The fields that the events of a market buy share.
pub open spec fn bought(
    title: Seq<char>,
    side: TokenType,
    period: u64,
    token_id: String,
    price: i128,
    units: u64,
) -> Seq<char> {
    with(
        with(
            with(
                with(heading(title, side, period as nat), "Token"@, short_id(token_id@)),
                "Price"@,
                dollars(price as int),
            ),
            "Units"@,
            fixed6(units as nat),
        ),
        "Cost"@,
        dollar_value(value_of(units as int, price as int)),
    )
}

/// The fields that the events of a limit order share.
pub open spec fn ordered(
    title: Seq<char>,
    side: TokenType,
    period: u64,
    token_id: String,
    price: i128,
    size: u64,
    order: Seq<char>,
) -> Seq<char> {
    with(
        with(
            with(
                with(heading(title, side, period as nat), "Token"@, short_id(token_id@)),
                "Limit Price"@,
                dollars(price as int),
            ),
            "Size"@,
            fixed6(size as nat),
        ),
        "Order ID"@,
        order,
    )
}

/// The fields that the events of a filled sale share.
pub open spec fn resold(
    title: Seq<char>,
    side: TokenType,
    period: u64,
    token_id: String,
    purchase_price: i128,
    sell_price: i128,
    shares: u64,
) -> Seq<char> {
    with(
        with(
            with(
                with(heading(title, side, period as nat), "Token"@, short_id(token_id@)),
                "Purchase Price"@,
                dollars(purchase_price as int),
            ),
            "Sell Price"@,
            dollars(sell_price as int),
        ),
        "Shares Sold"@,
        fixed6(shares as nat),
    )
}

/// The fields that the events of a market sell share.
pub open spec fn sold(
    title: Seq<char>,
    side: TokenType,
    period: u64,
    price: Decimal,
    units: u64,
) -> Seq<char> {
    with(
        with(
            with(heading(title, side, period as nat), "Price"@, dollars(nearest(price) as int)),
            "Units"@,
            fixed6(units as nat),
        ),
        "Revenue"@,
        dollar_value(worth(units as int, price)),
    )
}

fn with_text(text: String, label: &str, value: &str) -> (res: String)
    ensures
        res@ == with(text@, label@, value@),
{
    let mut res = text;
    res.append(" | ");
    res.append(label);
    res.append(": ");
    res.append(value);
    res
}

fn heading_text(title: &str, side: TokenType, period: u64) -> (res: String)
    ensures
        res@ == heading(title@, side, period as nat),
{
    let res = with_text(title.to_owned(), "Market", side.display_name());
    with_text(res, "Period", u64_text(period).as_str())
}

fn dollars_text(n: i128) -> (res: String)
    ensures
        res@ == dollars(n as int),
{
    let mut res = "$".to_owned();
    res.append(price6_text(n).as_str());
    res
}

fn dollar_value_text(v: i128) -> (res: String)
    ensures
        res@ == dollar_value(v as int),
{
    let mut res = "$".to_owned();
    res.append(value6_text(v).as_str());
    res
}

fn order_id_text(id: &Option<String>) -> (res: String)
    ensures
        res@ == order_text(*id),
{
    match id {
        Some(id) => debug_text(id.as_str()),
        None => "N/A".to_owned(),
    }
}

fn telling_line(text: &str, strict: bool, otherwise: &str) -> (res: String)
    ensures
        res@ == first_telling_line(lines(text@), strict, otherwise@),
{
    let list = lines_of(text);
    let mut i: usize = 0;
    let ghost all = texts(list@);
    assert(all.skip(0) =~= all);
    while i < list.len()
        invariant
            i <= list@.len(),
            all == texts(list@),
            all == lines(text@),
            first_telling_line(all, strict, otherwise@) == first_telling_line(
                all.skip(i as int),
                strict,
                otherwise@,
            ),
        decreases list@.len() - i,
    {
        let line = list[i].as_str();
        assert(all.skip(i as int)[0] == line@);
        assert(all.skip(i as int).skip(1) =~= all.skip(i + 1));
        if trim(line).unicode_len() != 0 && !contains(line, "Troubleshooting") && !(strict
            && contains(line, "Order details")) {
            return list[i].clone();
        }
        i = i + 1;
    }
    otherwise.to_owned()
}

/// Why a buy failed, in few words.
pub fn buy_failure_text(details: &str) -> (res: String)
    ensures
        res@ == buy_failure(details@),
{
    if contains(details, "order couldn't be fully filled") || contains(details, "FOK orders") {
        "order couldn't be fully filled (FOK)".to_owned()
    } else if contains(details, "not enough balance") {
        "not enough balance / allowance".to_owned()
    } else if contains(details, "Insufficient") {
        "Insufficient balance or allowance".to_owned()
    } else {
        telling_line(details, true, "Order failed")
    }
}

/// Why a sale failed, in few words.
pub fn sell_failure_text(details: &str) -> (res: String)
    ensures
        res@ == sell_failure(details@),
{
    if contains(details, "not enough balance") || contains(details, "allowance") {
        "not enough balance / allowance".to_owned()
    } else if contains(details, "No opposing orders") || contains(details, "no orders found") {
        "no liquidity / no buyers".to_owned()
    } else if contains(details, "couldn't be fully filled") {
        "insufficient liquidity".to_owned()
    } else {
        telling_line(details, false, "Sell failed")
    }
}

/// What kept a market sell from going through.
#[derive(Clone, Copy, Debug, PartialEq, Eq, Structural)]
pub enum Diagnosis {
    /// The exchange may not move the tokens.
    Allowance,
    /// There are too few tokens.
    Balance,
    /// The order could not be filled as a whole.
    Fill,
    /// Nobody bids.
    NoOrders,
    /// Something else.
    Unknown,
}

/// What kept a market sell from going through, by what was said of its failure. A word
/// of an allowance weighs more than one of a balance, and both weigh more than the rest.
pub open spec fn diagnosis(details: Seq<char>) -> Diagnosis {
    if occurs_in(details, "allowance"@) {
        Diagnosis::Allowance
    } else if occurs_in(details, "balance"@) {
        Diagnosis::Balance
    } else if occurs_in(details, "couldn't be fully filled"@) || occurs_in(details, "FOK"@) {
        Diagnosis::Fill
    } else if occurs_in(details, "No opposing orders"@) || occurs_in(details, "no orders found"@) {
        Diagnosis::NoOrders
    } else {
        Diagnosis::Unknown
    }
}

/// What kept a market sell from going through, by what was said of its failure.
pub fn diagnose_sell(details: &str) -> (res: Diagnosis)
    ensures
        res == diagnosis(details@),
{
    if contains(details, "allowance") {
        Diagnosis::Allowance
    } else if contains(details, "balance") {
        Diagnosis::Balance
    } else if contains(details, "couldn't be fully filled") || contains(details, "FOK") {
        Diagnosis::Fill
    } else if contains(details, "No opposing orders") || contains(details, "no orders found") {
        Diagnosis::NoOrders
    } else {
        Diagnosis::Unknown
    }
}

impl Diagnosis {
    /// The kind of the error and its root cause, as a log shows them.
    pub open spec fn words(self) -> (Seq<char>, Seq<char>) {
        match self {
            Diagnosis::Allowance => (
                "ALLOWANCE ERROR"@,
                "Exchange contract is not approved to spend your tokens"@,
            ),
            Diagnosis::Balance => (
                "BALANCE ERROR"@,
                "You don't have enough tokens in your portfolio"@,
            ),
            Diagnosis::Fill => ("FILL ERROR"@, "Order couldn't be fully filled (FOK/FAK order)"@),
            Diagnosis::NoOrders => ("NO ORDERS ERROR"@, "No opposing orders in the order book"@),
            Diagnosis::Unknown => ("UNKNOWN"@, "Unknown error - see full error message above"@),
        }
    }

    /// The kind of the error and its root cause, as a log shows them.
    pub fn explain(self) -> (res: (&'static str, &'static str))
        ensures
            (res.0@, res.1@) == self.words(),
    {
        match self {
            Diagnosis::Allowance => (
                "ALLOWANCE ERROR",
                "Exchange contract is not approved to spend your tokens",
            ),
            Diagnosis::Balance => (
                "BALANCE ERROR",
                "You don't have enough tokens in your portfolio",
            ),
            Diagnosis::Fill => ("FILL ERROR", "Order couldn't be fully filled (FOK/FAK order)"),
            Diagnosis::NoOrders => ("NO ORDERS ERROR", "No opposing orders in the order book"),
            Diagnosis::Unknown => ("UNKNOWN", "Unknown error - see full error message above"),
        }
    }
}

fn bought_text(
    side: TokenType,
    period: u64,
    token_id: &String,
    price: i128,
    units: u64,
) -> (res: String)
    ensures
        res@ == bought("BUY ORDER"@, side, period, *token_id, price, units),
{
    let res = heading_text("BUY ORDER", side, period);
    let res = with_text(res, "Token", leading_text(token_id.as_str(), 16).as_str());
    let res = with_text(res, "Price", dollars_text(price).as_str());
    let res = with_text(res, "Units", fixed6_text(units).as_str());
    with_text(res, "Cost", dollar_value_text(value(units, price)).as_str())
}

fn ordered_text(
    title: &str,
    side: TokenType,
    period: u64,
    token_id: &String,
    price: i128,
    size: u64,
    order: &str,
) -> (res: String)
    ensures
        res@ == ordered(title@, side, period, *token_id, price, size, order@),
{
    let res = heading_text(title, side, period);
    let res = with_text(res, "Token", leading_text(token_id.as_str(), 16).as_str());
    let res = with_text(res, "Limit Price", dollars_text(price).as_str());
    let res = with_text(res, "Size", fixed6_text(size).as_str());
    with_text(res, "Order ID", order)
}

fn resold_text(
    title: &str,
    side: TokenType,
    period: u64,
    token_id: &String,
    purchase_price: i128,
    sell_price: i128,
    shares: u64,
) -> (res: String)
    ensures
        res@ == resold(title@, side, period, *token_id, purchase_price, sell_price, shares),
{
    let res = heading_text(title, side, period);
    let res = with_text(res, "Token", leading_text(token_id.as_str(), 16).as_str());
    let res = with_text(res, "Purchase Price", dollars_text(purchase_price).as_str());
    let res = with_text(res, "Sell Price", dollars_text(sell_price).as_str());
    with_text(res, "Shares Sold", fixed6_text(shares).as_str())
}

fn sold_text(title: &str, side: TokenType, period: u64, price: &Decimal, units: u64) -> (res:
    String)
    ensures
        res@ == sold(title@, side, period, *price, units),
{
    let res = heading_text(title, side, period);
    let res = with_text(res, "Price", dollars_text(nearest_millionths(price) as i128).as_str());
    let res = with_text(res, "Units", fixed6_text(units).as_str());
    with_text(res, "Revenue", dollar_value_text(quoted_value(units, price)).as_str())
}

impl Event {
    /// The event's text.
    pub fn text(&self) -> (res: String)
        ensures
            res@ == self.line(),
    {
        let order = match self {
            Event::BuyConfirmed { order_id, .. } => order_id_text(order_id),
            Event::BuyUnconfirmed { order_id, .. } => order_id_text(order_id),
            Event::LimitBuy { order_id, .. } => order_id_text(order_id),
            Event::OrderPlaced { order_id, .. } => order_id_text(order_id),
            Event::Sold { order_id, .. } => order_id_text(order_id),
            _ => order_id_text(&None),
        };
        self.text_with(order.as_str())
    }

    /// The event's text, given that of its order's identifier.
    pub fn text_with(&self, order: &str) -> (res: String)
        ensures
            res@ == self.line_with(order@),
    {
        match self {
            Event::BuyConfirmed { token_type, period, token_id, price, units, .. } => {
                let res = bought_text(*token_type, *period, token_id, *price, *units);
                let res = with_text(res, "Order ID", order);
                with_text(res, "Status", "CONFIRMED")
            },
            Event::BuyUnconfirmed { token_type, period, token_id, price, units, .. } => {
                let res = bought_text(*token_type, *period, token_id, *price, *units);
                let res = with_text(res, "Order ID", order);
                let res = with_text(res, "Status", "SUCCESS");
                with_text(res, "Note", "Balance check timeout/failed")
            },
            Event::BuyFailed { token_type, period, token_id, price, units, details } => {
                let res = bought_text(*token_type, *period, token_id, *price, *units);
                let res = with_text(res, "Status", "FAILED");
                with_text(res, "Error", buy_failure_text(details.as_str()).as_str())
            },
            Event::LimitBuy { token_type, period, token_id, price, units, sell_price, .. } => {
                let res = ordered_text(
                    "LIMIT BUY ORDER",
                    *token_type,
                    *period,
                    token_id,
                    *price,
                    *units,
                    order,
                );
                let mut target = dollars_text(*sell_price);
                target.append(" (profit only, stop-loss disabled)");
                with_text(res, "Target Sell", target.as_str())
            },
            Event::OrderPlaced { purpose, token_type, period, token_id, price, size, .. } => ordered_text(
                purpose.title_text(),
                *token_type,
                *period,
                token_id,
                *price,
                *size,
                order,
            ),
            Event::SellFilled {
                opposite,
                token_type,
                period,
                token_id,
                purchase_price,
                sell_price,
                shares,
            } => {
                let title = if *opposite {
                    "OPPOSITE TOKEN LIMIT SELL ORDER FILLED"
                } else {
                    "LIMIT SELL ORDER FILLED"
                };
                let res = resold_text(
                    title,
                    *token_type,
                    *period,
                    token_id,
                    *purchase_price,
                    *sell_price,
                    *shares,
                );
                let revenue = dollar_value_text(value(*shares, *sell_price));
                let res = with_text(res, "Revenue", revenue.as_str());
                with_text(res, "Status", "FILLED")
            },
            Event::OppositeStopLoss {
                token_type,
                period,
                token_id,
                purchase_price,
                quote,
                shares,
            } => {
                let res = resold_text(
                    "OPPOSITE TOKEN STOP-LOSS SELL",
                    *token_type,
                    *period,
                    token_id,
                    *purchase_price,
                    nearest_millionths(quote) as i128,
                    *shares,
                );
                with_text(res, "Status", "FILLED")
            },
            Event::Sold { stop_loss, token_type, period, quote, units, purchase_price, .. } => {
                let title = if *stop_loss {
                    "SELL ORDER (STOP-LOSS)"
                } else {
                    "SELL ORDER (PROFIT)"
                };
                let res = sold_text(title, *token_type, *period, quote, *units);
                let made: i128 = quoted_profit(*units, quote, *purchase_price);
                let label = if made >= 0 {
                    "Profit"
                } else {
                    "Loss"
                };
                let res = with_text(res, label, dollar_value_text(made).as_str());
                let res = with_text(res, "Order ID", order);
                with_text(res, "Status", "SUCCESS")
            },
            Event::SellStopped { token_type, period, quote, units, purchase_price, attempt, details } => {
                let res = sold_text("SELL ORDER (PROFIT)", *token_type, *period, quote, *units);
                let made: i128 = quoted_profit(*units, quote, *purchase_price);
                let res = with_text(res, "Profit", dollar_value_text(made).as_str());
                let res = with_text(res, "Status", "FAILED");
                let mut count = u64_text(*attempt as u64);
                count.append("/20");
                let res = with_text(res, "Attempt", count.as_str());
                let res = with_text(res, "Error", sell_failure_text(details.as_str()).as_str());
                with_text(res, "Stopped", "Price recovered")
            },
            Event::MarketEnded { token_type, period, condition_id } => {
                let res = heading_text("MARKET ENDED", *token_type, *period);
                with_text(res, "Condition", condition_id.as_str())
            },
            Event::MarketResult { token_type, period, won, units, purchase_price } => {
                let (outcome, price): (&str, i128) = if *won {
                    ("WON", ONE as i128)
                } else {
                    ("LOST", 0)
                };
                let res = heading_text("MARKET RESULT", *token_type, *period);
                let res = with_text(res, "Outcome", outcome);
                let res = with_text(res, "Token Value", dollars_text(price).as_str());
                let cost = dollar_value_text(value(*units, *purchase_price));
                let res = with_text(res, "Cost", cost.as_str());
                let res = with_text(res, "Value", dollar_value_text(value(*units, price)).as_str());
                let made: i128 = profit(*units, price, *purchase_price);
                with_text(res, "Profit", dollar_value_text(made).as_str())
            },
            Event::AlreadyRedeemed { token_type, period } => {
                let res = heading_text("REDEMPTION STATUS", *token_type, *period);
                with_text(res, "Status", "ALREADY_REDEEMED")
            },
            Event::Redeemed { token_type, period, attempt } => {
                let res = heading_text("REDEMPTION SUCCESS", *token_type, *period);
                let res = with_text(res, "Attempt", u64_text(*attempt as u64).as_str());
                with_text(res, "Status", "SUCCESS")
            },
            Event::RedemptionAbandoned { token_type, period, attempts, message } => {
                let res = heading_text("REDEMPTION FAILED", *token_type, *period);
                let res = with_text(res, "Attempts", u64_text(*attempts as u64).as_str());
                let res = with_text(res, "Status", "ABANDONED");
                with_text(res, "Error", shortened(message.as_str(), 100).as_str())
            },
            Event::RedemptionRetry { token_type, period, attempt } => {
                let res = heading_text("REDEMPTION RETRY", *token_type, *period);
                let mut count = u64_text(*attempt as u64);
                count.append("/20");
                let res = with_text(res, "Attempt", count.as_str());
                with_text(res, "Status", "RETRYING")
            },
        }
    }
}

/// Why a buy failed: an order that could not be filled as a whole, before a balance that did not
/// suffice, before any other insufficiency; and else the first line that tells something.
pub proof fn law_why_a_buy_failed(details: Seq<char>)
    ensures
        occurs_in(details, "order couldn't be fully filled"@) || occurs_in(details, "FOK orders"@)
            ==> buy_failure(details) == "order couldn't be fully filled (FOK)"@,
        !occurs_in(details, "order couldn't be fully filled"@) && !occurs_in(
            details,
            "FOK orders"@,
        ) && occurs_in(details, "not enough balance"@) ==> buy_failure(details)
            == "not enough balance / allowance"@,
        !occurs_in(details, "order couldn't be fully filled"@) && !occurs_in(
            details,
            "FOK orders"@,
        ) && !occurs_in(details, "not enough balance"@) && occurs_in(details, "Insufficient"@)
            ==> buy_failure(details) == "Insufficient balance or allowance"@,
{
}

/// Why a sale failed: for want of a balance or of an allowance, before want of buyers, before an
/// order that could not be filled as a whole.
pub proof fn law_why_a_sale_failed(details: Seq<char>)
    ensures
        occurs_in(details, "not enough balance"@) || occurs_in(details, "allowance"@)
            ==> sell_failure(details) == "not enough balance / allowance"@,
        !occurs_in(details, "not enough balance"@) && !occurs_in(details, "allowance"@) && (
        occurs_in(details, "No opposing orders"@) || occurs_in(details, "no orders found"@))
            ==> sell_failure(details) == "no liquidity / no buyers"@,
        !occurs_in(details, "not enough balance"@) && !occurs_in(details, "allowance"@)
            && !occurs_in(details, "No opposing orders"@) && !occurs_in(
            details,
            "no orders found"@,
        ) && occurs_in(details, "couldn't be fully filled"@) ==> sell_failure(details)
            == "insufficient liquidity"@,
        diagnosis(details) is Allowance <==> occurs_in(details, "allowance"@),
        diagnosis(details) is Balance <==> !occurs_in(details, "allowance"@) && occurs_in(
            details,
            "balance"@,
        ),
        diagnosis(details) is Fill <==> !occurs_in(details, "allowance"@) && !occurs_in(
            details,
            "balance"@,
        ) && (occurs_in(details, "couldn't be fully filled"@) || occurs_in(details, "FOK"@)),
        diagnosis(details) is NoOrders ==> occurs_in(details, "No opposing orders"@) || occurs_in(
            details,
            "no orders found"@,
        ),
        diagnosis(details) is Unknown ==> !occurs_in(details, "allowance"@) && !occurs_in(
            details,
            "balance"@,
        ) && !occurs_in(details, "couldn't be fully filled"@) && !occurs_in(details, "FOK"@)
            && !occurs_in(details, "No opposing orders"@) && !occurs_in(
            details,
            "no orders found"@,
        ),
{
}

/// The line that tells something is the first one that is not blank and speaks neither of
/// troubleshooting nor, where that is left out, of order details.
pub proof fn law_the_first_telling_line_is_shown(
    list: Seq<Seq<char>>,
    strict: bool,
    otherwise: Seq<char>,
    k: int,
)
    requires
        0 <= k < list.len(),
        trimmed(list[k]).len() > 0 && !occurs_in(list[k], "Troubleshooting"@) && !(strict
            && occurs_in(list[k], "Order details"@)),
        forall|j: int|
            0 <= j < k ==> trimmed(#[trigger] list[j]).len() == 0 || occurs_in(
                list[j],
                "Troubleshooting"@,
            ) || (strict && occurs_in(list[j], "Order details"@)),
    ensures
        first_telling_line(list, strict, otherwise) == list[k],
    decreases k,
{
    if k > 0 {
        let rest = list.skip(1);
        assert(trimmed(list[0]).len() == 0 || occurs_in(list[0], "Troubleshooting"@) || (strict
            && occurs_in(list[0], "Order details"@)));
        assert forall|j: int| 0 <= j < k - 1 implies trimmed(#[trigger] rest[j]).len() == 0
            || occurs_in(rest[j], "Troubleshooting"@) || (strict && occurs_in(
            rest[j],
            "Order details"@,
        )) by {
            assert(rest[j] == list[j + 1]);
        }
        law_the_first_telling_line_is_shown(rest, strict, otherwise, k - 1);
    }
}

/// A share that has won is worth a dollar, one that has lost nothing.
pub proof fn law_a_resolved_share_is_worth_a_dollar_or_nothing(won: bool)
    ensures
        resolved_price(won) == if won {
            1_000_000int
        } else {
            0
        },
{
}

/// The text of a sale tells a profit where something was made or nothing was lost, and a loss
/// else; that of a market's result tells whether the position won, what a share is worth, and
/// what that makes.
pub proof fn law_results_are_told_as_they_are(
    stop_loss: bool,
    token_type: TokenType,
    period: u64,
    quote: Decimal,
    units: u64,
    purchase_price: i128,
    order_id: Option<String>,
    order: Seq<char>,
    won: bool,
)
    ensures
        ({
            let made = gain(units as int, quote, purchase_price as int);
            let title = if stop_loss {
                "SELL ORDER (STOP-LOSS)"@
            } else {
                "SELL ORDER (PROFIT)"@
            };
            (Event::Sold {
                stop_loss,
                token_type,
                period,
                quote,
                units,
                purchase_price,
                order_id,
            }).line_with(order) == sold(title, token_type, period, quote, units) + " | "@ + (if made
                >= 0 {
                "Profit"@
            } else {
                "Loss"@
            }) + ": "@ + ("$"@ + value6(made)) + " | "@ + "Order ID"@ + ": "@ + order + " | "@
                + "Status"@ + ": "@ + "SUCCESS"@
        }),
        ({
            let price = if won {
                1_000_000int
            } else {
                0
            };
            let line = (Event::MarketResult { token_type, period, won, units, purchase_price }).line_with(
                order,
            );
            line == heading("MARKET RESULT"@, token_type, period as nat) + " | "@ + "Outcome"@
                + ": "@ + (if won {
                "WON"@
            } else {
                "LOST"@
            }) + " | "@ + "Token Value"@ + ": "@ + ("$"@ + price6(price)) + " | "@ + "Cost"@ + ": "@
                + ("$"@ + value6(value_of(units as int, purchase_price as int))) + " | "@ + "Value"@
                + ": "@ + ("$"@ + value6(value_of(units as int, price))) + " | "@ + "Profit"@
                + ": "@ + ("$"@ + value6(profit_of(units as int, price, purchase_price as int)))
        }),
        order_text(None) == "N/A"@,
{
}

} // verus!

//! What the bot asks of the outside world, and what it is told.
//!
//! The bot's procedures never talk to the exchange themselves. Each is a sequence
//! of steps: a step takes the reply to the last request and gives the next one.

use vstd::prelude::*;
use vstd::string::*;

use crate::decimal::Decimal;
use crate::models::{
    MarketDetails, OrderBook, OrderRequest, OrderResponse, OrderTexts, RedeemResponse, TokenPrice,
    TokenType,
};
use crate::money::{
    fixed2, fixed2_text, plain, plain_price, plain_price_text, plain_text, price2, price2_text,
};

verus! {

/// The side of an order.
#[derive(Clone, Copy, Debug, PartialEq, Eq, Structural)]
pub enum Side {
    Buy,
    Sell,
}

impl Side {
    /// The side's name at the exchange.
    pub open spec fn name(self) -> Seq<char> {
        match self {
            Side::Buy => "BUY"@,
            Side::Sell => "SELL"@,
        }
    }

    /// The side's name at the exchange.
    pub fn text(self) -> (res: &'static str)
        ensures
            res@ == self.name(),
    {
        match self {
            Side::Buy => "BUY",
            Side::Sell => "SELL",
        }
    }
}

/// How a market order is to be filled.
#[derive(Clone, Copy, Debug, PartialEq, Eq, Structural)]
pub enum Fill {
    /// Fill or kill: whole or not at all.
    FillOrKill,
    /// Fill and kill: as much as there is.
    FillAndKill,
}

impl Fill {
    /// The order type's name at the exchange.
    pub open spec fn name(self) -> Seq<char> {
        match self {
            Fill::FillOrKill => "FOK"@,
            Fill::FillAndKill => "FAK"@,
        }
    }

    /// The order type's name at the exchange.
    pub fn text(self) -> (res: &'static str)
        ensures
            res@ == self.name(),
    {
        match self {
            Fill::FillOrKill => "FOK",
            Fill::FillAndKill => "FAK",
        }
    }
}

/// A limit order, in millionths of a share and of a dollar.
pub struct LimitOrder {
    pub token_id: String,
    pub side: Side,
    pub size: u64,
    pub price: i128,
    /// Whether size and price are rounded to hundredths.
    pub rounded: bool,
}

impl LimitOrder {
    /// The texts that the exchange is sent.
    pub open spec fn texts(self) -> OrderTexts {
        OrderTexts {
            token_id: self.token_id@,
            side: self.side.name(),
            size: if self.rounded {
                fixed2(self.size as nat)
            } else {
                plain(self.size as nat, 6)
            },
            price: if self.rounded {
                price2(self.price as int)
            } else {
                plain_price(self.price as int)
            },
            order_type: "LIMIT"@,
        }
    }

    /// The order as the exchange is sent it.
    pub fn request(&self) -> (res: OrderRequest)
        ensures
            res@ == self.texts(),
    {
        OrderRequest {
            token_id: self.token_id.clone(),
            side: self.side.text().to_owned(),
            size: if self.rounded {
                fixed2_text(self.size)
            } else {
                plain_text(self.size)
            },
            price: if self.rounded {
                price2_text(self.price)
            } else {
                plain_price_text(self.price)
            },
            order_type: "LIMIT".to_owned(),
        }
    }
}

/// Why a request failed: the message, and the message with its causes.
pub struct Failure {
    pub message: String,
    pub details: String,
}

/// A simulated position.
pub struct Position {
    pub token_id: String,
    pub token_type: TokenType,
    pub condition_id: String,
    pub period_timestamp: u64,
}

/// What a step asks for.
pub enum Request {
    /// The number of shares held of a token.
    Balance { token_id: String },
    /// The number of shares held of a token, asked together with its allowance.
    Holding { token_id: String },
    /// What a share of a token sells for.
    Price { token_id: String },
    /// The best prices of a token.
    BestPrice { token_id: String },
    /// The order book of a token.
    Book { token_id: String },
    /// What the exchange says of a market.
    Market { condition_id: String },
    /// A limit order.
    Limit(LimitOrder),
    /// A market order: for an amount of dollars to buy, of shares to sell.
    AtMarket { token_id: String, amount: u64, side: Side, fill: Fill },
    /// That the exchange look up the allowance of a token again.
    RefreshAllowance { token_id: String },
    /// That the tokens of a resolved market be redeemed.
    Redeem { condition_id: String, token_id: String, token_type: TokenType },
    /// A pause.
    Wait { milliseconds: u64 },
    /// That the detector be told that a trading cycle is over.
    CycleCompleted { token_type: TokenType },
    /// The tokens of the simulated orders that are open.
    OpenOrders,
    /// A simulated limit order to buy.
    Simulate { token_id: String, token_type: TokenType, condition_id: String, price: u64, units: u64, period: u64 },
    /// That the simulated orders be filled at these prices.
    FillOrders { prices: Vec<TokenPrice> },
    /// Whether there is a simulated position in a token.
    Position { token_id: String },
    /// The simulated positions.
    Positions,
    /// That the simulated positions in a market be resolved.
    Resolve { condition_id: String, token_type: TokenType, period: u64, up: bool },
    /// Nothing more: the procedure is over.
    Finished,
}

/// What came back. An answer of another kind than the request asks for stands for
/// a failed request.
pub enum Reply {
    Nothing,
    Balance(Option<u64>),
    Price(Option<Decimal>),
    BestPrice(Option<Option<TokenPrice>>),
    Book(Option<OrderBook>),
    Market(Option<MarketDetails>),
    Order(Result<OrderResponse, Failure>),
    Refreshed(bool),
    /// What became of a redemption: it took place only where the answer says that it was
    /// a success. One that was sent but not confirmed in time is none.
    Redeemed(Result<RedeemResponse, Failure>),
    Tokens(Vec<String>),
    Position(bool),
    Positions(Vec<Position>),
}

impl Reply {
    /// The number of shares that was told, unless the request failed.
    pub open spec fn shares(self) -> Option<u64> {
        match self {
            Reply::Balance(b) => b,
            _ => None,
        }
    }

    /// The price that was told, unless the request failed.
    pub open spec fn quote(self) -> Option<Decimal> {
        match self {
            Reply::Price(p) => p,
            _ => None,
        }
    }

    /// Whether a sale may find a buyer: somebody bids, or nobody could say.
    pub open spec fn liquid(self) -> bool {
        match self {
            Reply::BestPrice(Some(Some(p))) => p.bid is Some,
            Reply::BestPrice(Some(None)) => false,
            _ => true,
        }
    }

    /// Whether an order was taken.
    pub open spec fn order_taken(self) -> bool {
        self matches Reply::Order(Ok(_))
    }

    /// Whether a redemption was confirmed.
    pub open spec fn redeemed(self) -> bool {
        self matches Reply::Redeemed(Ok(response)) && response.success
    }

    /// Why a redemption was not confirmed, as far as it was told.
    pub open spec fn redemption_refusal(self) -> Option<Seq<char>> {
        match self {
            Reply::Redeemed(Ok(response)) if !response.success => match response.message {
                Some(message) => Some(message@),
                None => Some("Redemption not confirmed"@),
            },
            Reply::Redeemed(Err(failure)) => Some(failure.message@),
            _ => None,
        }
    }

    /// Whether a position was reported.
    pub open spec fn held(self) -> bool {
        self matches Reply::Position(true)
    }

    pub(crate) fn is_redeemed(&self) -> (res: bool)
        ensures
            res == self.redeemed(),
    {
        match self {
            Reply::Redeemed(Ok(response)) => response.success,
            _ => false,
        }
    }

    pub(crate) fn into_redemption_refusal(self) -> (res: Option<String>)
        ensures
            match res {
                Some(message) => self.redemption_refusal() == Some(message@),
                None => self.redemption_refusal() is None,
            },
    {
        match self {
            Reply::Redeemed(Ok(response)) => if response.success {
                None
            } else {
                match response.message {
                    Some(message) => Some(message),
                    None => Some("Redemption not confirmed".to_owned()),
                }
            },
            Reply::Redeemed(Err(failure)) => Some(failure.message),
            _ => None,
        }
    }

    pub(crate) fn balance(&self) -> (res: Option<u64>)
        ensures
            res == self.shares(),
    {
        match self {
            Reply::Balance(b) => *b,
            _ => None,
        }
    }

    pub(crate) fn price(&self) -> (res: Option<Decimal>)
        ensures
            res == self.quote(),
    {
        match self {
            Reply::Price(p) => *p,
            _ => None,
        }
    }

    pub(crate) fn has_liquidity(&self) -> (res: bool)
        ensures
            res == self.liquid(),
    {
        match self {
            Reply::BestPrice(Some(Some(p))) => p.bid.is_some(),
            Reply::BestPrice(Some(None)) => false,
            _ => true,
        }
    }

    /// Whether an allowance was looked up again.
    pub open spec fn refreshed(self) -> bool {
        self matches Reply::Refreshed(true)
    }

    pub(crate) fn is_refreshed(&self) -> (res: bool)
        ensures
            res == self.refreshed(),
    {
        match self {
            Reply::Refreshed(b) => *b,
            _ => false,
        }
    }

    pub(crate) fn is_held(&self) -> (res: bool)
        ensures
            res == self.held(),
    {
        match self {
            Reply::Position(b) => *b,
            _ => false,
        }
    }
}

/// Buying and selling, and the two ways of filling an order, go by their names at the
/// exchange.
pub proof fn law_names_at_the_exchange(side: Side, fill: Fill, order: LimitOrder)
    ensures
        side.name() == if side is Buy {
            "BUY"@
        } else {
            "SELL"@
        },
        fill.name() == if fill is FillOrKill {
            "FOK"@
        } else {
            "FAK"@
        },
        order.texts().token_id == order.token_id@,
        order.texts().side == if order.side is Buy {
            "BUY"@
        } else {
            "SELL"@
        },
        order.texts().order_type == "LIMIT"@,
        order.rounded ==> order.texts().size == fixed2(order.size as nat) && order.texts().price
            == price2(order.price as int),
        !order.rounded ==> order.texts().size == plain(order.size as nat, 6) && order.texts().price
            == plain_price(order.price as int),
{
}

/// What a reply tells: shares, a price, a taken order or a position where it says so itself,
/// and nothing where it answers something else. A sale may find a buyer unless the best
/// prices were told and no bid is among them. A redemption took place where its answer says
/// that it was a success, and is refused where it says that it was none.
pub proof fn law_replies_tell_what_they_say(reply: Reply)
    ensures
        reply.shares() == match reply {
            Reply::Balance(Some(shares)) => Some(shares),
            _ => None,
        },
        reply.quote() == match reply {
            Reply::Price(Some(price)) => Some(price),
            _ => None,
        },
        !reply.liquid() <==> reply is BestPrice && reply->BestPrice_0 is Some && (
        reply->BestPrice_0->0 is None || reply->BestPrice_0->0->0.bid is None),
        reply.order_taken() <==> reply is Order && reply->Order_0 is Ok,
        reply.redeemed() <==> reply is Redeemed && reply->Redeemed_0 is Ok
            && reply->Redeemed_0->Ok_0.success,
        reply.redemption_refusal() is Some <==> reply is Redeemed && !reply.redeemed(),
        reply matches Reply::Redeemed(Err(failure)) ==> reply.redemption_refusal() == Some(
            failure.message@,
        ),
        reply matches Reply::Redeemed(Ok(response)) ==> !response.success ==> reply.redemption_refusal()
            == Some(
            match response.message {
                Some(message) => message@,
                None => "Redemption not confirmed"@,
            },
        ),
        reply.held() <==> reply == Reply::Position(true),
        reply.refreshed() <==> reply == Reply::Refreshed(true),
{
}

} // verus!

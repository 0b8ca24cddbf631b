//! The bot's data: tokens, markets, orders and trades.

use vstd::prelude::*;
use vstd::string::*;

use crate::decimal::Decimal;

verus! {

/// An asset whose price the markets are about.
#[derive(Clone, Copy, Debug, PartialEq, Eq, Structural)]
pub enum Asset {
    Btc,
    Eth,
    Solana,
    Xrp,
}

/// One side of a market on an asset.
#[derive(Clone, Copy, Debug, PartialEq, Eq, Structural)]
pub enum TokenType {
    BtcUp,
    BtcDown,
    EthUp,
    EthDown,
    SolanaUp,
    SolanaDown,
    XrpUp,
    XrpDown,
}

impl TokenType {
    /// The asset that the market is about.
    pub open spec fn asset(self) -> Asset {
        match self {
            TokenType::BtcUp | TokenType::BtcDown => Asset::Btc,
            TokenType::EthUp | TokenType::EthDown => Asset::Eth,
            TokenType::SolanaUp | TokenType::SolanaDown => Asset::Solana,
            TokenType::XrpUp | TokenType::XrpDown => Asset::Xrp,
        }
    }

    /// Whether this side wins when the price goes up.
    pub open spec fn up(self) -> bool {
        match self {
            TokenType::BtcUp | TokenType::EthUp | TokenType::SolanaUp | TokenType::XrpUp => true,
            _ => false,
        }
    }

    /// The name that log lines and events show.
    pub open spec fn name(self) -> Seq<char> {
        match self {
            TokenType::BtcUp => "BTC Up"@,
            TokenType::BtcDown => "BTC Down"@,
            TokenType::EthUp => "ETH Up"@,
            TokenType::EthDown => "ETH Down"@,
            TokenType::SolanaUp => "Solana Up"@,
            TokenType::SolanaDown => "Solana Down"@,
            TokenType::XrpUp => "XRP Up"@,
            TokenType::XrpDown => "XRP Down"@,
        }
    }

    /// The other side of the same market.
    pub open spec fn other_side(self) -> TokenType {
        match self {
            TokenType::BtcUp => TokenType::BtcDown,
            TokenType::BtcDown => TokenType::BtcUp,
            TokenType::EthUp => TokenType::EthDown,
            TokenType::EthDown => TokenType::EthUp,
            TokenType::SolanaUp => TokenType::SolanaDown,
            TokenType::SolanaDown => TokenType::SolanaUp,
            TokenType::XrpUp => TokenType::XrpDown,
            TokenType::XrpDown => TokenType::XrpUp,
        }
    }

    /// Whether this side wins when the price goes up.
    pub fn is_up(self) -> (res: bool)
        ensures
            res == self.up(),
    {
        match self {
            TokenType::BtcUp | TokenType::EthUp | TokenType::SolanaUp | TokenType::XrpUp => true,
            _ => false,
        }
    }

    /// The other side of the same market.
    pub fn opposite(self) -> (res: TokenType)
        ensures
            res == self.other_side(),
    {
        match self {
            TokenType::BtcUp => TokenType::BtcDown,
            TokenType::BtcDown => TokenType::BtcUp,
            TokenType::EthUp => TokenType::EthDown,
            TokenType::EthDown => TokenType::EthUp,
            TokenType::SolanaUp => TokenType::SolanaDown,
            TokenType::SolanaDown => TokenType::SolanaUp,
            TokenType::XrpUp => TokenType::XrpDown,
            TokenType::XrpDown => TokenType::XrpUp,
        }
    }

    /// The name that log lines and events show.
    pub fn display_name(self) -> (res: &'static str)
        ensures
            res@ == self.name(),
    {
        match self {
            TokenType::BtcUp => "BTC Up",
            TokenType::BtcDown => "BTC Down",
            TokenType::EthUp => "ETH Up",
            TokenType::EthDown => "ETH Down",
            TokenType::SolanaUp => "Solana Up",
            TokenType::SolanaDown => "Solana Down",
            TokenType::XrpUp => "XRP Up",
            TokenType::XrpDown => "XRP Down",
        }
    }

    /// The outcome name under which the side is redeemed.
    pub open spec fn outcome_name(self) -> Seq<char> {
        if self.up() {
            "Up"@
        } else {
            "Down"@
        }
    }

    /// The outcome name under which the side is redeemed.
    pub fn outcome(self) -> (res: &'static str)
        ensures
            res@ == self.outcome_name(),
    {
        if self.is_up() {
            "Up"
        } else {
            "Down"
        }
    }
}

/// The opposite of the opposite is the side itself, and the two sides of a market
/// are about the same asset and never win together.
pub proof fn law_opposite(side: TokenType)
    ensures
        side.other_side().other_side() == side,
        side.other_side() != side,
        side.other_side().asset() == side.asset(),
        side.other_side().up() == !side.up(),
{
}

/// Two sides with the same asset and the same direction are the same side.
pub proof fn law_side_is_asset_and_direction(a: TokenType, b: TokenType)
    requires
        a.asset() == b.asset(),
        a.up() == b.up(),
    ensures
        a == b,
{
}

/// An outcome token of a market.
pub struct Token {
    pub token_id: String,
    pub outcome: String,
    pub winner: bool,
}

/// What the exchange says of a market.
pub struct MarketDetails {
    pub condition_id: String,
    pub question: String,
    pub active: bool,
    pub closed: bool,
    pub tokens: Vec<Token>,
}

/// A market as the catalogue lists it.
pub struct Market {
    pub condition_id: String,
    pub slug: String,
    pub active: bool,
    pub closed: bool,
    pub market_id: Option<String>,
    pub question: String,
    pub resolution_source: Option<String>,
    pub end_date_iso: Option<String>,
    pub end_date_iso_alt: Option<String>,
    pub tokens: Option<Vec<Token>>,
    pub clob_token_ids: Option<String>,
    pub outcomes: Option<String>,
}

/// One level of an order book.
#[derive(Clone, Copy, Debug)]
pub struct OrderBookEntry {
    pub price: Decimal,
    pub size: Decimal,
}

/// The two sides of an order book, each in any order.
pub struct OrderBook {
    pub bids: Vec<OrderBookEntry>,
    pub asks: Vec<OrderBookEntry>,
}

/// The best prices of a token.
pub struct TokenPrice {
    pub token_id: String,
    pub bid: Option<Decimal>,
    pub ask: Option<Decimal>,
}

/// A limit order.
pub struct OrderRequest {
    pub token_id: String,
    pub side: String,
    pub size: String,
    pub price: String,
    pub order_type: String,
}

/// The texts of a limit order.
pub ghost struct OrderTexts {
    pub token_id: Seq<char>,
    pub side: Seq<char>,
    pub size: Seq<char>,
    pub price: Seq<char>,
    pub order_type: Seq<char>,
}

impl View for OrderRequest {
    type V = OrderTexts;

    open spec fn view(&self) -> OrderTexts {
        OrderTexts {
            token_id: self.token_id@,
            side: self.side@,
            size: self.size@,
            price: self.price@,
            order_type: self.order_type@,
        }
    }
}

/// The exchange's answer to an order.
pub struct OrderResponse {
    pub order_id: Option<String>,
    pub status: String,
    pub message: Option<String>,
}

/// The relayer's answer to a redemption.
pub struct RedeemResponse {
    pub success: bool,
    pub message: Option<String>,
    pub transaction_hash: Option<String>,
    pub amount_redeemed: Option<String>,
}

/// A token that the strategy wants to buy.
pub struct BuyOpportunity {
    pub condition_id: String,
    pub token_id: String,
    pub token_type: TokenType,
    pub bid_price: u64,
    pub period_timestamp: u64,
    pub time_remaining_seconds: u64,
    pub time_elapsed_seconds: u64,
    pub use_market_order: bool,
}

/// A position, or an order that may become one.
///
/// Prices and shares are in millionths, the invested amount in millionths of a
/// millionth of a dollar.
#[derive(Debug)]
pub struct PendingTrade {
    pub token_id: String,
    pub condition_id: String,
    pub token_type: TokenType,
    pub investment_amount: i128,
    pub units: u64,
    pub purchase_price: i128,
    pub sell_price: i128,
    pub market_timestamp: u64,
    pub sold: bool,
    pub confirmed_balance: Option<u64>,
    pub buy_order_confirmed: bool,
    pub limit_sell_orders_placed: bool,
    pub no_sell: bool,
    pub claim_on_closure: bool,
    pub sell_attempts: u32,
    pub redemption_attempts: u32,
    pub redemption_abandoned: bool,
}

impl Clone for PendingTrade {
    fn clone(&self) -> (res: Self)
        ensures
            res == *self,
    {
        PendingTrade {
            token_id: self.token_id.clone(),
            condition_id: self.condition_id.clone(),
            token_type: self.token_type,
            investment_amount: self.investment_amount,
            units: self.units,
            purchase_price: self.purchase_price,
            sell_price: self.sell_price,
            market_timestamp: self.market_timestamp,
            sold: self.sold,
            confirmed_balance: self.confirmed_balance,
            buy_order_confirmed: self.buy_order_confirmed,
            limit_sell_orders_placed: self.limit_sell_orders_placed,
            no_sell: self.no_sell,
            claim_on_closure: self.claim_on_closure,
            sell_attempts: self.sell_attempts,
            redemption_attempts: self.redemption_attempts,
            redemption_abandoned: self.redemption_abandoned,
        }
    }
}

/// Each side is of the asset and in the direction that its name says, and the opposite one is
/// the other direction of the same asset.
pub proof fn law_sides_are_as_they_are_named()
    ensures
        forall|side: TokenType|
            match side {
                TokenType::BtcUp => #[trigger] side.asset() is Btc && side.up() && side.name()
                    == "BTC Up"@ && side.other_side() is BtcDown && side.outcome_name() == "Up"@,
                TokenType::BtcDown => side.asset() is Btc && !side.up() && side.name()
                    == "BTC Down"@ && side.other_side() is BtcUp && side.outcome_name() == "Down"@,
                TokenType::EthUp => side.asset() is Eth && side.up() && side.name() == "ETH Up"@
                    && side.other_side() is EthDown && side.outcome_name() == "Up"@,
                TokenType::EthDown => side.asset() is Eth && !side.up() && side.name()
                    == "ETH Down"@ && side.other_side() is EthUp && side.outcome_name() == "Down"@,
                TokenType::SolanaUp => side.asset() is Solana && side.up() && side.name()
                    == "Solana Up"@ && side.other_side() is SolanaDown && side.outcome_name()
                    == "Up"@,
                TokenType::SolanaDown => side.asset() is Solana && !side.up() && side.name()
                    == "Solana Down"@ && side.other_side() is SolanaUp && side.outcome_name()
                    == "Down"@,
                TokenType::XrpUp => side.asset() is Xrp && side.up() && side.name() == "XRP Up"@
                    && side.other_side() is XrpDown && side.outcome_name() == "Up"@,
                TokenType::XrpDown => side.asset() is Xrp && !side.up() && side.name()
                    == "XRP Down"@ && side.other_side() is XrpUp && side.outcome_name() == "Down"@,
            },
{
}

} // verus!

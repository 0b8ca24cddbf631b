//! The decision core of a bot that trades fifteen-minute up-or-down markets on Polymarket.
//!
//! Everything here works on plain values and does no I/O. A procedure that has to talk to
//! the exchange, to the relayer or to the chain is written as a step function: it takes
//! where it has come to and the reply to its last request, and gives where it goes on and
//! the next request. Whoever runs it performs the request and hands back the reply.
//!
//! - Money is counted in millionths: of a dollar for a price, of a share for a size. The
//!   product of the two, a value or a profit, is counted in units of 10⁻¹² dollars.
//! - [`trader`] holds the positions; [`buying`], [`checks`], [`closing`] and [`portfolio`]
//!   are what is done with them, and [`check_laws`] what holds of it; [`start`] says what
//!   is bought when a market starts.
//! - [`api`], [`orders`], [`approvals`], [`relayer`] and [`scan`] are the procedures of the
//!   exchange's interface, and [`book`] reads its order books; [`discovery`] and [`hunt`] find the markets of a period.
//! - [`chain`], [`signing`], [`json`], [`decimal`] and parts of [`text`] stand on other
//!   crates: each says of them what it relies on.

pub mod api;
pub mod approvals;
pub mod book;
pub mod buying;
pub mod buying_laws;
pub mod chain;
pub mod check_laws;
pub mod checks;
pub mod closing;
pub mod closing_laws;
pub mod decimal;
pub mod discovery;
pub mod events;
pub mod exchange;
pub mod hedge_laws;
pub mod hunt;
pub mod json;
pub mod keys;
pub mod logger;
pub mod models;
pub mod money;
pub mod orders;
pub mod portfolio;
pub mod relayer;
pub mod sale_laws;
pub mod scan;
pub mod signing;
pub mod start;
pub mod text;
pub mod trader;
pub mod trades;

pub use api::PolymarketApi;
pub use logger::log_trading_event;
pub use models::TokenPrice;

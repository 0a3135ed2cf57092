//! Values a wallet's holdings in dollars.
//!
//! The library decides and computes on plain values. Network requests, files
//! and floating-point arithmetic belong to the program around it, which goes
//! through these steps:
//!
//! 1. The catalog. `builder::CatalogBuilder` says which request is due: none
//!    where the cache holds a catalog, else the coin listing and then the
//!    pages of the price listing. Within it, `coins::get_coins` keeps the
//!    coins that live on Ethereum, `pager::PricePager` walks the pages, and
//!    `catalog::get_tokens` joins the two.
//! 2. The decimal precisions. `decimals::pending_queries` names the contracts
//!    that have to be asked, and `decimals::get_decimals` puts their answers
//!    together with what the cache knows.
//! 3. The balances. `report::get_eth_balance` takes the native balance.
//!    `fetch::BalanceRun` names the contracts to ask, hands out the calls so
//!    that the number under way stays within the bound of
//!    `window::FetchWindow`, and takes in the answers in any order.
//! 4. The report. `fetch::BalanceRun::finish` pairs every balance with its
//!    precision and price. The program values each holding, and
//!    `report::token_lines` picks the holdings that are shown.

pub mod address;
pub mod amount;
pub mod balances;
pub mod builder;
pub mod catalog;
pub mod coins;
pub mod decimals;
pub mod fetch;
pub mod pager;
pub mod positions;
pub mod price;
pub mod report;
pub mod targets;
pub mod token;
pub mod window;

pub use crate::catalog::get_tokens;
pub use crate::token::Token;

//! Detection of sandwich trades in the swap log of a decentralized exchange.
//!
//! The crate holds the scanning engine: normalization of swap events,
//! the bracket-matching detector, the adaptive chunk planner, the ledger of
//! scanned block ranges and the rules by which a query is answered.

pub mod bundle;
pub mod ledger;
pub mod metadata;
pub mod models;
pub mod query;
pub mod records;
pub mod routes;
pub mod sandwich;
pub mod scanner;
pub mod state;
pub mod swap;
pub mod templates;
pub mod text;
pub mod uint256;

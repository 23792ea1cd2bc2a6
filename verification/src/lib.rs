//! Replays an ordered log of payment transactions against per-client account
//! ledgers: deposits, withdrawals, and the dispute / resolve / chargeback
//! lifecycle, over exact fixed-point decimal amounts.

pub mod amount;
pub mod client;
pub mod error;
pub mod laws;
pub mod output;
pub mod processor;
pub mod registry;
pub mod transaction;

pub use amount::Amount;
pub use client::Client;
pub use client::ClientView;
pub use error::Error;
pub use processor::process_transactions;
pub use registry::Registry;
pub use transaction::Transaction;
pub use transaction::TransactionType;

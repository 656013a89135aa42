//! A local Bitcoin wallet engine.
//!
//! The engine keeps a reorg-aware index of block checkpoints, derives the
//! wallet's scripts with a lookahead window, tracks the transactions that
//! touch those scripts, answers balance, history and unspent-output queries,
//! and selects coins for new transactions. Every function is verified; the
//! calls into other crates are gathered in [`backend`].
//!
//! - [`chain`]: the checkpoints of the connected blocks.
//! - [`keychain`]: the scripts of the two keychains and what is revealed.
//! - [`graph`]: the known transactions and their positions.
//! - [`ledger`] and [`conservation`]: what the transactions mean for the
//!   wallet, and that no value is lost in the count.
//! - [`listing`]: the order of listings.
//! - [`builder`]: coin selection, fee and change.
//! - [`header`]: the record a wallet is made from.
//! - [`scan`], [`wallet`] and [`spend`]: the wallet's operations.
//! - [`replay`]: the operations as a store keeps them, and how a wallet is
//!   brought back from them.
//! - [`journal`]: what a store keeps of each call, and what becomes of the
//!   wallet when the store could not keep it.
//! - [`payment`]: what a wallet holds after its first payment and after
//!   that payment has been spent.

pub mod types;
pub mod backend;
pub mod chain;
pub mod keychain;
pub mod graph;
pub mod ledger;
pub mod conservation;
pub mod listing;
pub mod builder;
pub mod errors;
pub mod header;
pub mod scan;
pub mod wallet;
pub mod spend;
pub mod replay;
pub mod journal;
pub mod payment;

pub use crate::errors::{ApplyBlockError, CreateNewError, CreateTxError, LoadError};
pub use crate::header::WalletHeader;
pub use crate::types::{AddressInfo, ApplyResult, Balance, BlockId, MempoolTx, Recipient, TxInfo, UtxoInfo};
pub use crate::wallet::Wallet;

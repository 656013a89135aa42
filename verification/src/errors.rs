//! The errors of the wallet's operations.

use vstd::prelude::*;
use bdk_wallet::bitcoin;
use crate::builder::BuildError;
use crate::chain::CannotConnectError;

verus! {

/// A header record ends before the bytes it announces.
#[derive(Clone, Copy, Debug, PartialEq, Eq, Structural)]
pub struct ReadHeaderError {
    /// The number of bytes the record must have.
    pub expected: u64,
    /// The number of bytes it has.
    pub available: u64,
}

/// Why a wallet could not be set up from its header.
#[derive(Clone, Debug)]
pub enum InitError {
    /// The entropy gives no keys.
    Descriptor,
    /// The header's network has another genesis block than the caller expects.
    Genesis { loaded: Vec<u8>, expected: Vec<u8> },
}

/// Why no new wallet could be created.
#[derive(Debug)]
pub enum CreateNewError {
    /// The network's name is not known.
    ParseNetwork(bitcoin::network::ParseNetworkError),
    /// The wallet could not be set up.
    Wallet(InitError),
}

/// Why a wallet could not be loaded.
#[derive(Debug)]
pub enum LoadError {
    /// The header record is truncated.
    ReadHeader(ReadHeaderError),
    /// The header record does not decode.
    ParseHeader(Box<bincode::ErrorKind>),
    /// The header carries another version tag.
    HeaderVersion,
    /// The wallet could not be set up.
    Wallet(InitError),
}

/// Why a block was not applied.
#[derive(Debug)]
pub enum ApplyBlockError {
    /// The bytes are no block.
    DecodeBlock(bitcoin::consensus::encode::Error),
    /// The block does not connect to the wallet's chain.
    CannotConnect(CannotConnectError),
}

/// Why a transaction that was put together did not get signed.
#[derive(Debug)]
pub enum SignFailure {
    /// The inputs and outputs make no transaction.
    Template,
    /// No signer can be made from the wallet's entropy.
    NoSigner,
    /// The signer failed.
    Signer(bdk_wallet::signer::SignerError),
    /// Signatures are missing: the transaction is not finalized.
    Unfinalized,
    /// The signed transaction cannot be taken out.
    Extract,
    /// The signed transaction is not the one that was put together.
    Mismatch,
}

/// Why no transaction was created.
#[derive(Debug)]
pub enum CreateTxError {
    /// A recipient's address does not parse, or is of another network.
    InvalidAddress(bitcoin::address::ParseError),
    /// No transaction could be put together.
    CreateTx(BuildError),
    /// The transaction did not get signed.
    SignTx(SignFailure),
}

} // verus!

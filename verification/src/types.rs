//! Plain data exchanged with callers.

use vstd::prelude::*;

verus! {

/// The Bitcoin network a wallet lives on.
#[derive(Clone, Copy, Debug, PartialEq, Eq, Structural)]
pub enum Network {
    Mainnet,
    Testnet,
    Testnet4,
    Signet,
    Regtest,
}

/// A derivation branch: `External` for receiving, `Internal` for change.
#[derive(Clone, Copy, Debug, PartialEq, Eq, Structural)]
pub enum KeychainKind {
    External,
    Internal,
}

impl KeychainKind {
    /// The other keychain.
    pub open spec fn other(self) -> KeychainKind {
        match self {
            KeychainKind::External => KeychainKind::Internal,
            KeychainKind::Internal => KeychainKind::External,
        }
    }
}

/// An address handed to the caller, with its derivation index.
#[derive(Clone, Debug)]
pub struct AddressInfo {
    pub index: u32,
    pub address: String,
}

/// Wallet funds by category, in satoshis.
#[derive(Clone, Copy, Debug, PartialEq, Eq, Structural)]
pub struct Balance {
    pub immature: u64,
    pub trusted_pending: u64,
    pub untrusted_pending: u64,
    pub confirmed: u64,
}

/// A payment to make: the destination address and the amount in satoshis.
#[derive(Clone, Debug)]
pub struct Recipient {
    pub address: String,
    pub amount: u64,
}

/// A block named by height and hash.
#[derive(Clone, Debug)]
pub struct BlockId {
    pub height: u32,
    pub hash: Vec<u8>,
}

/// One entry of the transaction history.
#[derive(Clone, Debug)]
pub struct TxInfo {
    pub txid: Vec<u8>,
    pub tx: Vec<u8>,
    /// Sum of the inputs that spend outputs owned by the wallet.
    pub spent: u64,
    /// Sum of the outputs that pay to scripts owned by the wallet.
    pub received: u64,
    /// Depth of the transaction in the chain; 0 while unconfirmed.
    pub confirmations: u32,
}

/// One unspent output owned by the wallet.
#[derive(Clone, Debug)]
pub struct UtxoInfo {
    pub txid: Vec<u8>,
    pub vout: u32,
    pub amount: u64,
    pub script_pubkey: Vec<u8>,
    pub is_change: bool,
    pub derivation_index: u32,
    pub confirmations: u32,
}

/// A serialized mempool transaction and the time it was first observed.
#[derive(Clone, Debug)]
pub struct MempoolTx {
    pub tx: Vec<u8>,
    pub added_unix: u64,
}

/// The transactions that an operation made newly relevant to the wallet.
#[derive(Clone, Debug)]
pub struct ApplyResult {
    pub relevant_txids: Vec<Vec<u8>>,
}

/// A reference to one output of a transaction.
#[derive(Clone, Debug)]
pub struct OutPoint {
    pub txid: Vec<u8>,
    pub vout: u32,
}

/// One output of a transaction: an amount locked by a script.
#[derive(Clone, Debug)]
pub struct TxOut {
    pub value: u64,
    pub script: Vec<u8>,
}

/// A decoded transaction, reduced to what the wallet reads.
#[derive(Clone, Debug)]
pub struct Tx {
    pub txid: Vec<u8>,
    pub raw: Vec<u8>,
    pub inputs: Vec<OutPoint>,
    pub outputs: Vec<TxOut>,
    pub coinbase: bool,
}

/// What a reference to an output holds: the transaction id and the output's position.
pub struct OutPointView {
    pub txid: Seq<u8>,
    pub vout: u32,
}

impl View for OutPoint {
    type V = OutPointView;

    open spec fn view(&self) -> OutPointView {
        OutPointView { txid: self.txid@, vout: self.vout }
    }
}

/// What an output holds: its amount and the bytes of its script.
pub struct TxOutView {
    pub value: u64,
    pub script: Seq<u8>,
}

impl View for TxOut {
    type V = TxOutView;

    open spec fn view(&self) -> TxOutView {
        TxOutView { value: self.value, script: self.script@ }
    }
}

/// What a decoded transaction holds.
pub struct TxView {
    pub txid: Seq<u8>,
    pub raw: Seq<u8>,
    pub inputs: Seq<OutPointView>,
    pub outputs: Seq<TxOutView>,
    pub coinbase: bool,
}

impl View for Tx {
    type V = TxView;

    open spec fn view(&self) -> TxView {
        TxView {
            txid: self.txid@,
            raw: self.raw@,
            inputs: self.inputs@.map_values(|o: OutPoint| o@),
            outputs: self.outputs@.map_values(|o: TxOut| o@),
            coinbase: self.coinbase,
        }
    }
}

/// A decoded block: its hash, the parent hash it names, and its transactions,
/// each still serialized.
#[derive(Clone, Debug)]
pub struct RawBlock {
    pub hash: [u8; 32],
    pub prev_hash: [u8; 32],
    pub txs: Vec<Vec<u8>>,
}

/// What a decoded block holds.
pub struct RawBlockView {
    pub hash: Seq<u8>,
    pub prev_hash: Seq<u8>,
    pub txs: Seq<Seq<u8>>,
}

impl View for RawBlock {
    type V = RawBlockView;

    open spec fn view(&self) -> RawBlockView {
        RawBlockView {
            hash: self.hash@,
            prev_hash: self.prev_hash@,
            txs: ids_view(self.txs@),
        }
    }
}

/// The byte strings of a list.
pub open spec fn ids_view(ids: Seq<Vec<u8>>) -> Seq<Seq<u8>> {
    ids.map_values(|id: Vec<u8>| id@)
}

/// The words of a list of strings.
pub open spec fn words_view(words: Seq<String>) -> Seq<Seq<char>> {
    words.map_values(|w: String| w@)
}

/// Where a transaction stands relative to the chain.
#[derive(Clone, Debug)]
pub enum ChainPosition {
    Confirmed { anchor_height: u32, anchor_hash: [u8; 32] },
    Unconfirmed { first_seen_unix: u64 },
}

/// Compares two byte strings.
pub fn bytes_eq(a: &Vec<u8>, b: &Vec<u8>) -> (r: bool)
    ensures
        r == (a@ == b@),
{
    if a.len() != b.len() {
        return false;
    }
    let mut i: usize = 0;
    while i < a.len()
        invariant
            a.len() == b.len(),
            i <= a.len(),
            forall|j: int| 0 <= j < i ==> a@[j] == b@[j],
        decreases a.len() - i,
    {
        if a[i] != b[i] {
            return false;
        }
        i = i + 1;
    }
    assert(a@ =~= b@);
    true
}

/// Compares two block hashes.
pub fn hash_eq(a: &[u8; 32], b: &[u8; 32]) -> (r: bool)
    ensures
        r == (a@ == b@),
{
    let mut i: usize = 0;
    while i < 32
        invariant
            i <= 32,
            forall|j: int| 0 <= j < i ==> a@[j] == b@[j],
        decreases 32 - i,
    {
        if a[i] != b[i] {
            return false;
        }
        i = i + 1;
    }
    assert(a@ =~= b@);
    true
}

/// The bytes of a block hash.
pub fn hash_bytes(a: &[u8; 32]) -> (r: Vec<u8>)
    ensures
        r@ == a@,
{
    let mut out: Vec<u8> = Vec::new();
    let mut i: usize = 0;
    while i < 32
        invariant
            i <= 32,
            out@ == a@.take(i as int),
        decreases 32 - i,
    {
        out.push(a[i]);
        i = i + 1;
    }
    out
}

/// Whether a byte string is this block hash.
pub fn is_hash(bytes: &Vec<u8>, hash: &[u8; 32]) -> (r: bool)
    ensures
        r == (bytes@ == hash@),
{
    if bytes.len() != 32 {
        return false;
    }
    let mut i: usize = 0;
    while i < 32
        invariant
            i <= 32,
            bytes@.len() == 32,
            forall|j: int| 0 <= j < i ==> bytes@[j] == hash@[j],
        decreases 32 - i,
    {
        if bytes[i] != hash[i] {
            return false;
        }
        i = i + 1;
    }
    assert(bytes@ =~= hash@);
    true
}

/// Copies a byte string.
pub fn bytes_clone(a: &Vec<u8>) -> (r: Vec<u8>)
    ensures
        r@ == a@,
{
    a.clone()
}

} // verus!

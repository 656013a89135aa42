//! The wallet: the chain index, the keychains and the transaction graph
//! behind one set of operations.

use vstd::prelude::*;
use crate::backend::{block_decoding, decode_block, decode_tx, derived_address, genesis_hash_of, is_address_of, mnemonic_of, network_genesis_hash, network_named, parse_network, seed_usable, tx_decoding, MAX_INDEX};
use crate::chain::{can_connect, chain_holds, missing_height, CannotConnectError, ChainIndex, Checkpoint};
use crate::errors::{ApplyBlockError, CreateNewError, InitError, LoadError};
use crate::graph::{decoded, graph_ok, revert, TransactionGraph, TxRecord};
use crate::header::{magic, read_header, HeaderOutcome, WalletHeader};
use crate::keychain::{KeychainIndex, KeychainView};
use crate::ledger::{capped, category_sum, depth, describes_tx, describes_utxo, utxo_set, Category};
use crate::listing::{listed, sort_by_confirmations};
use crate::scan::{anchors_valid, lemma_absorb_keeps_seed, lemma_confirm_anchored, lemma_observe_anchored, lemma_push_anchored, lemma_revert_anchored, scan_tx, see_block, see_mempool, see_unconfirmed, Ledger};
use crate::types::{bytes_clone, hash_bytes, ids_view, is_hash, words_view, AddressInfo, ApplyResult, Balance, BlockId, ChainPosition, KeychainKind, MempoolTx, Network, RawBlockView, Tx, TxInfo, UtxoInfo};

verus! {

/// The width of the lookahead window: the number of scripts behind the
/// revealed ones that are matched against payments.
pub const LOOKAHEAD: u32 = 101;

/// The changes that the latest operation made, for the store to record.
#[derive(Clone, Debug)]
pub struct StagedDelta {
    /// The transactions that became known.
    pub txids: Vec<Vec<u8>>,
    /// The block that was connected.
    pub connected: Option<BlockId>,
    /// The height above which blocks were disconnected.
    pub disconnected_above: Option<u32>,
    /// The first unrevealed index of the external keychain.
    pub next_external: u32,
    /// The first unrevealed index of the internal keychain.
    pub next_internal: u32,
}

/// Whether a delta records these changes.
pub open spec fn delta_is(d: StagedDelta, txids: Seq<Seq<u8>>, connected: Option<(u32, Seq<u8>)>, disconnected_above: Option<u32>, keys: KeychainView) -> bool {
    &&& ids_view(d.txids@) == txids
    &&& match connected {
        Some((height, hash)) => d.connected matches Some(b) && b.height == height && b.hash@ == hash,
        None => d.connected is None,
    }
    &&& d.disconnected_above == disconnected_above
    &&& d.next_external == keys.next_external
    &&& d.next_internal == keys.next_internal
}

/// Whether every one of the serialized transactions decodes.
pub open spec fn all_decode(raws: Seq<Seq<u8>>) -> bool {
    forall|i: int| 0 <= i < raws.len() ==> tx_decoding(#[trigger] raws[i]) is Some
}

/// Whether `txs` are the transactions that `raws` decode to.
pub open spec fn decodes(txs: Seq<Tx>, raws: Seq<Seq<u8>>) -> bool {
    &&& txs.len() == raws.len()
    &&& forall|i: int| 0 <= i < txs.len() ==> Some((#[trigger] txs[i])@) == tx_decoding(raws[i])
}

/// Whether `seen` are the mempool entries `txs`, decoded.
pub open spec fn decodes_mempool(seen: Seq<(Tx, u64)>, txs: Seq<MempoolTx>) -> bool {
    &&& seen.len() == txs.len()
    &&& forall|i: int|
        0 <= i < seen.len() ==> Some((#[trigger] seen[i]).0@) == tx_decoding(txs[i].tx@) && seen[i].1
            == txs[i].added_unix
}

/// Whether creating a wallet on a network gave what some draw of sixteen
/// bytes makes of it: a wallet exactly if the bytes give keys, and then a
/// wallet with those bytes as its entropy.
pub open spec fn drawn(r: Result<Wallet, CreateNewError>, network: Network) -> bool {
    exists|e: Seq<u8>|
        #![trigger seed_usable(network, e)]
        e.len() == 16 && (r is Ok <==> seed_usable(network, e)) && (r matches Ok(w) ==> w.header_view().entropy@
            == e)
}

/// Whether each of the transactions is what its bytes decode to.
pub open spec fn all_txs_decoded(txs: Seq<Tx>) -> bool {
    forall|i: int| 0 <= i < txs.len() ==> decoded(#[trigger] txs[i])
}

/// Whether each of the transactions seen is what its bytes decode to.
pub open spec fn all_seen_decoded(seen: Seq<(Tx, u64)>) -> bool {
    forall|i: int| 0 <= i < seen.len() ==> decoded((#[trigger] seen[i]).0)
}

/// Whether every mempool entry decodes.
pub open spec fn mempool_decodes(txs: Seq<MempoolTx>) -> bool {
    forall|i: int| 0 <= i < txs.len() ==> tx_decoding((#[trigger] txs[i]).tx@) is Some
}

/// Whether nothing of what callers see differs between two wallets.
pub open spec fn unchanged(before: Wallet, after: Wallet) -> bool {
    &&& after.chain_view() == before.chain_view()
    &&& after.graph_view() == before.graph_view()
    &&& after.keys_view() == before.keys_view()
    &&& after.staged_view() == before.staged_view()
    &&& after.header_view() == before.header_view()
}

/// Whether `after` is `before` with the block `(height, hash)` on top of its
/// chain and the block's transactions looked at, and `res` names the
/// transactions that became known.
pub open spec fn block_applied(before: Wallet, after: Wallet, res: ApplyResult, height: u32, hash: [u8; 32], parent: [u8; 32], txs: Seq<Tx>) -> bool {
    let s = see_block(
        Ledger { graph: before.graph_view(), keys: before.keys_view(), fresh: Seq::empty() },
        txs,
        txs.len() as int,
        height,
        hash,
    );
    &&& after.chain_view() == before.chain_view().push(Checkpoint { height: height, hash: hash, parent: parent })
    &&& after.graph_view() == s.graph
    &&& after.keys_view() == s.keys
    &&& after.header_view() == before.header_view()
    &&& ids_view(res.relevant_txids@) == s.fresh
    &&& delta_is(after.staged_view(), s.fresh, Some((height, hash@)), None, s.keys)
}

/// Whether `after` is `before` with the unconfirmed transactions looked at,
/// and `res` names the transactions that became known.
pub open spec fn mempool_applied(before: Wallet, after: Wallet, res: ApplyResult, txs: Seq<(Tx, u64)>) -> bool {
    let s = see_mempool(
        Ledger { graph: before.graph_view(), keys: before.keys_view(), fresh: Seq::empty() },
        txs,
        txs.len() as int,
    );
    &&& after.chain_view() == before.chain_view()
    &&& after.graph_view() == s.graph
    &&& after.keys_view() == s.keys
    &&& after.header_view() == before.header_view()
    &&& ids_view(res.relevant_txids@) == s.fresh
    &&& delta_is(after.staged_view(), s.fresh, None, None, s.keys)
}

/// Whether two wallets have the same chain, transactions, keychains and
/// header: all but the note of what the latest call changed.
pub open spec fn same_books(a: Wallet, b: Wallet) -> bool {
    &&& a.chain_view() == b.chain_view()
    &&& a.graph_view() == b.graph_view()
    &&& a.keys_view() == b.keys_view()
    &&& a.header_view() == b.header_view()
}

/// Whether `after` has the books of `before` once one unconfirmed
/// transaction, seen at a time, has been looked at.
pub open spec fn sighted(before: Wallet, after: Wallet, tx: Tx, seen: u64) -> bool {
    let s = see_unconfirmed(
        Ledger { graph: before.graph_view(), keys: before.keys_view(), fresh: Seq::empty() },
        tx,
        seen,
    );
    &&& after.chain_view() == before.chain_view()
    &&& after.graph_view() == s.graph
    &&& after.keys_view() == s.keys
    &&& after.header_view() == before.header_view()
}

/// Whether `after` has the books of `before` once the unconfirmed
/// transactions have been looked at one by one: there is a wallet for each
/// step, the first is `before`, each next one is the one before it with the
/// next transaction looked at, and the last has the books of `after`.
pub open spec fn one_by_one(before: Wallet, after: Wallet, seen: Seq<(Tx, u64)>) -> bool {
    exists|states: Seq<Wallet>|
        #![trigger states.len()]
        states.len() == seen.len() + 1 && states[0] == before && same_books(states[seen.len() as int], after)
            && forall|i: int|
            0 <= i < seen.len() ==> sighted(#[trigger] states[i], states[i + 1], seen[i].0, seen[i].1)
}

/// Whether `after` is `before` with the decoded block `b` applied at
/// `height`: there are transactions that the block's serialized transactions
/// decode to, each what its own bytes decode to, and the wallet is as after
/// `block_applied` with them.
pub open spec fn raw_block_applied(before: Wallet, after: Wallet, res: ApplyResult, height: u32, b: RawBlockView) -> bool {
    exists|hash: [u8; 32], parent: [u8; 32], txs: Seq<Tx>|
        hash@ == b.hash && parent@ == b.prev_hash && decodes(txs, b.txs) && all_txs_decoded(txs)
            && #[trigger] block_applied(
            before,
            after,
            res,
            height,
            hash,
            parent,
            txs,
        )
}

/// Whether `after` is `before` with a mempool batch applied: there are
/// transactions that the entries decode to, each what its own bytes decode
/// to, and the wallet is as after `mempool_applied` with them, which is as
/// after looking at them one by one.
pub open spec fn raw_mempool_applied(before: Wallet, after: Wallet, res: ApplyResult, txs: Seq<MempoolTx>) -> bool {
    exists|seen: Seq<(Tx, u64)>|
        decodes_mempool(seen, txs) && all_seen_decoded(seen) && one_by_one(before, after, seen)
            && #[trigger] mempool_applied(before, after, res, seen)
}

/// Decodes the transactions of a block.
fn decode_all(raws: &Vec<Vec<u8>>) -> (r: Result<Vec<Tx>, bdk_wallet::bitcoin::consensus::encode::Error>)
    ensures
        r is Ok <==> all_decode(ids_view(raws@)),
        r matches Ok(txs) ==> decodes(txs@, ids_view(raws@)) && all_txs_decoded(txs@),
{
    let mut out: Vec<Tx> = Vec::new();
    let mut i: usize = 0;
    while i < raws.len()
        invariant
            i <= raws@.len(),
            out@.len() == i,
            forall|j: int| 0 <= j < i ==> Some((#[trigger] out@[j])@) == tx_decoding(ids_view(raws@)[j]),
            forall|j: int| 0 <= j < i ==> decoded(#[trigger] out@[j]),
            forall|j: int| 0 <= j < i ==> tx_decoding(#[trigger] ids_view(raws@)[j]) is Some,
        decreases raws@.len() - i,
    {
        match decode_tx(raws[i].as_slice()) {
            Ok(tx) => {
                out.push(tx);
            },
            Err(e) => {
                assert(tx_decoding(ids_view(raws@)[i as int]) is None);
                return Err(e);
            },
        }
        i = i + 1;
    }
    Ok(out)
}

/// Whether every entry of a mempool batch decodes.
fn mempool_decodable(txs: &Vec<MempoolTx>) -> (r: bool)
    ensures
        r == mempool_decodes(txs@),
{
    let mut i: usize = 0;
    while i < txs.len()
        invariant
            i <= txs@.len(),
            forall|j: int| 0 <= j < i ==> tx_decoding((#[trigger] txs@[j]).tx@) is Some,
        decreases txs@.len() - i,
    {
        if decode_tx(txs[i].tx.as_slice()).is_err() {
            return false;
        }
        i = i + 1;
    }
    true
}

/// Decodes the entries of a mempool batch, if every one decodes.
fn decode_mempool(txs: &Vec<MempoolTx>) -> (r: Option<Vec<(Tx, u64)>>)
    ensures
        r is Some <==> mempool_decodes(txs@),
        r matches Some(seen) ==> decodes_mempool(seen@, txs@) && all_seen_decoded(seen@),
{
    let mut out: Vec<(Tx, u64)> = Vec::new();
    let mut i: usize = 0;
    while i < txs.len()
        invariant
            i <= txs@.len(),
            out@.len() == i,
            forall|j: int|
                0 <= j < i ==> Some((#[trigger] out@[j]).0@) == tx_decoding(txs@[j].tx@) && out@[j].1
                    == txs@[j].added_unix,
            forall|j: int| 0 <= j < i ==> decoded((#[trigger] out@[j]).0),
            forall|j: int| 0 <= j < i ==> tx_decoding((#[trigger] txs@[j]).tx@) is Some,
        decreases txs@.len() - i,
    {
        match decode_tx(txs[i].tx.as_slice()) {
            Ok(tx) => {
                out.push((tx, txs[i].added_unix));
            },
            Err(_) => {
                return None;
            },
        }
        i = i + 1;
    }
    Some(out)
}

/// Determinism across loads: two wallets with the same network and entropy
/// in their headers hold the same script at every index of every keychain,
/// whatever either has revealed or seen.
pub proof fn lemma_same_header_same_scripts(a: Wallet, b: Wallet, keychain: KeychainKind, index: u32)
    requires
        a.wf(),
        b.wf(),
        a.header_view().network == b.header_view().network,
        a.header_view().entropy@ == b.header_view().entropy@,
    ensures
        a.keys_view().script(keychain, index) == b.keys_view().script(keychain, index),
{
}

/// The same address at the same index, whatever happens in between: two
/// wallets with the same network and entropy in their headers give the same
/// address at every index, and every operation keeps the header.
pub proof fn lemma_same_header_same_address(a: Wallet, b: Wallet, index: u32)
    requires
        a.wf(),
        b.wf(),
        a.header_view().network == b.header_view().network,
        a.header_view().entropy@ == b.header_view().entropy@,
    ensures
        derived_address(a.keys_view().network, a.keys_view().entropy, KeychainKind::External, index)
            == derived_address(b.keys_view().network, b.keys_view().entropy, KeychainKind::External, index),
{
    a.lemma_wf();
    b.lemma_wf();
}

/// Monotonic confirmation over mempool batches: a transaction that is
/// confirmed keeps its position whatever batch of mempool transactions the
/// wallet applies, itself among them.
pub proof fn lemma_batch_keeps_confirmed(before: Wallet, after: Wallet, res: ApplyResult, txs: Seq<MempoolTx>, txid: Seq<u8>)
    requires
        before.wf(),
        raw_mempool_applied(before, after, res, txs),
        crate::graph::position_of(before.graph_view(), txid) matches Some(p) && p is Confirmed,
    ensures
        crate::graph::position_of(after.graph_view(), txid) == crate::graph::position_of(before.graph_view(), txid),
{
    before.lemma_wf();
    let seen = choose|seen: Seq<(Tx, u64)>|
        decodes_mempool(seen, txs) && all_seen_decoded(seen) && one_by_one(before, after, seen)
            && #[trigger] mempool_applied(before, after, res, seen);
    crate::scan::lemma_mempool_keeps_confirmed(
        Ledger { graph: before.graph_view(), keys: before.keys_view(), fresh: Seq::empty() },
        seen,
        seen.len() as int,
        txid,
    );
}

/// Monotonic confirmation over blocks: a transaction that is confirmed
/// keeps its position whatever block the wallet applies; only a disconnect
/// takes a confirmation back.
pub proof fn lemma_applied_block_keeps_confirmed(before: Wallet, after: Wallet, res: ApplyResult, height: u32, b: RawBlockView, txid: Seq<u8>)
    requires
        before.wf(),
        raw_block_applied(before, after, res, height, b),
        crate::graph::position_of(before.graph_view(), txid) matches Some(p) && p is Confirmed,
    ensures
        crate::graph::position_of(after.graph_view(), txid) == crate::graph::position_of(before.graph_view(), txid),
{
    before.lemma_wf();
    let (hash, parent, txs) = choose|hash: [u8; 32], parent: [u8; 32], txs: Seq<Tx>|
        hash@ == b.hash && parent@ == b.prev_hash && decodes(txs, b.txs) && all_txs_decoded(txs)
            && #[trigger] block_applied(before, after, res, height, hash, parent, txs);
    crate::scan::lemma_block_keeps_confirmed(
        Ledger { graph: before.graph_view(), keys: before.keys_view(), fresh: Seq::empty() },
        txs,
        txs.len() as int,
        height,
        hash,
        txid,
    );
}

/// A mempool sighting of confirmed transactions changes nothing: where
/// every transaction of a batch is known and confirmed, the wallet after the
/// batch has the chain, the records and the keychains it had, and no
/// transaction is named as new.
pub proof fn lemma_sighting_of_confirmed(before: Wallet, after: Wallet, res: ApplyResult, seen: Seq<(Tx, u64)>)
    requires
        mempool_applied(before, after, res, seen),
        forall|i: int|
            0 <= i < seen.len() ==> (crate::graph::position_of(before.graph_view(), (#[trigger] seen[i]).0.txid@)
                matches Some(p) && p is Confirmed),
    ensures
        after.chain_view() == before.chain_view(),
        after.graph_view() == before.graph_view(),
        after.keys_view() == before.keys_view(),
        after.header_view() == before.header_view(),
        res.relevant_txids@.len() == 0,
{
    crate::scan::lemma_mempool_of_confirmed(
        Ledger { graph: before.graph_view(), keys: before.keys_view(), fresh: Seq::empty() },
        seen,
        seen.len() as int,
    );
    assert(ids_view(res.relevant_txids@).len() == 0);
}

/// Copies a list of ids.
pub fn clone_ids(ids: &Vec<Vec<u8>>) -> (r: Vec<Vec<u8>>)
    ensures
        ids_view(r@) == ids_view(ids@),
{
    let mut out: Vec<Vec<u8>> = Vec::new();
    let mut i: usize = 0;
    while i < ids.len()
        invariant
            i <= ids@.len(),
            out@.len() == i,
            forall|j: int| 0 <= j < i ==> out@[j]@ == ids@[j]@,
        decreases ids@.len() - i,
    {
        out.push(bytes_clone(&ids[i]));
        i = i + 1;
    }
    out
}

/// A wallet: its header, the chain it has connected, its keychains and the
/// transactions it knows.
#[derive(Clone, Debug)]
pub struct Wallet {
    pub(crate) header: WalletHeader,
    pub(crate) chain: ChainIndex,
    pub(crate) keys: KeychainIndex,
    pub(crate) graph: TransactionGraph,
    pub(crate) staged: StagedDelta,
}

impl Wallet {
    /// The checkpoints of the wallet's chain, genesis first.
    pub closed spec fn chain_view(&self) -> Seq<Checkpoint> {
        self.chain@
    }

    /// The records of the transactions the wallet knows.
    pub closed spec fn graph_view(&self) -> Seq<TxRecord> {
        self.graph@
    }

    /// The state of the wallet's keychains.
    pub closed spec fn keys_view(&self) -> KeychainView {
        self.keys@
    }

    /// The changes that the latest operation made.
    pub closed spec fn staged_view(&self) -> StagedDelta {
        self.staged
    }

    /// The wallet's header.
    pub closed spec fn header_view(&self) -> WalletHeader {
        self.header
    }

    /// The height of the tip of the wallet's chain.
    pub open spec fn tip(&self) -> u32 {
        self.chain_view().last().height
    }

    /// The invariant of the wallet: each part is well formed, the chain
    /// starts at genesis, the keychains are those of the header, and every
    /// confirmation names a block of the chain.
    pub closed spec fn wf(&self) -> bool {
        &&& self.chain.wf()
        &&& self.chain@.len() >= 1
        &&& self.keys.wf()
        &&& self.graph.wf()
        &&& self.keys@.network == self.header.network
        &&& self.keys@.entropy == self.header.entropy@
        &&& self.header.version@ == magic()
        &&& anchors_valid(self.graph@, self.chain@)
    }

    /// What the invariant says of the parts that callers see.
    pub proof fn lemma_wf(&self)
        requires
            self.wf(),
        ensures
            crate::chain::linked(self.chain_view()),
            self.chain_view().len() >= 1,
            self.chain_view()[0].height == 0,
            crate::graph::distinct_ids(self.graph_view()),
            graph_ok(self.graph_view()),
            anchors_valid(self.graph_view(), self.chain_view()),
            self.keys_view().in_range(),
            self.keys_view().network == self.header_view().network,
            self.keys_view().entropy == self.header_view().entropy@,
            seed_usable(self.header_view().network, self.header_view().entropy@),
            self.header_view().version@ == magic(),
    {
        self.keys.lemma_wf();
    }

    /// Every confirmed transaction of the wallet lies in a block of its
    /// chain, at or below the tip: it has at least one confirmation.
    pub proof fn lemma_confirmed_in_chain(&self, i: int)
        requires
            self.wf(),
            0 <= i < self.graph_view().len(),
            self.graph_view()[i].position is Confirmed,
        ensures
            depth(self.graph_view()[i].position, self.tip()) >= 1,
    {
        let c = self.chain_view();
        match self.graph_view()[i].position {
            ChainPosition::Confirmed { anchor_height, anchor_hash } => {
                let k = choose|k: int|
                    0 <= k < c.len() && (#[trigger] c[k]).height == anchor_height && c[k].hash@ == anchor_hash@;
                if k < c.len() - 1 {
                    assert(c[k].height < c[c.len() - 1].height);
                }
            },
            ChainPosition::Unconfirmed { .. } => {},
        }
    }

    /// Conservation: in every wallet the values of the unspent outputs add
    /// up to everything the listed transactions received less everything
    /// they spent.
    pub proof fn lemma_conservation(&self)
        requires
            self.wf(),
        ensures
            crate::ledger::total(self.graph_view(), utxo_set(self.graph_view(), self.keys_view()))
                == crate::ledger::received_total(
                self.graph_view(),
                self.keys_view(),
                self.graph_view().len() as int,
            ) - crate::conservation::spent_total(
                self.graph_view(),
                self.keys_view(),
                self.graph_view().len() as int,
            ),
    {
        crate::conservation::lemma_unspent_is_received_less_spent(self.graph_view(), self.keys_view());
    }

    /// What the invariant says of the wallet's parts.
    pub(crate) proof fn lemma_parts(&self)
        requires
            self.wf(),
        ensures
            self.chain.wf(),
            self.keys.wf(),
            self.graph.wf(),
            self.chain@ == self.chain_view(),
            self.graph@ == self.graph_view(),
            self.keys@ == self.keys_view(),
            self.header == self.header_view(),
            self.staged == self.staged_view(),
            self.keys@.network == self.header.network,
            self.keys@.entropy == self.header.entropy@,
    {
    }

    /// A wallet with nothing in it, made from a header: its chain holds the
    /// genesis block of the header's network, and nothing is revealed.
    /// Fails where the header's entropy gives no keys.
    pub fn from_header(header: WalletHeader, lookahead: u32) -> (r: Result<Self, InitError>)
        requires
            header.version@ == magic(),
        ensures
            r is Ok <==> header.usable(),
            r matches Err(e) ==> e is Descriptor,
            r matches Ok(w) ==> w.wf() && w.header_view() == header && w.graph_view() == Seq::<TxRecord>::empty()
                && w.chain_view().len() == 1 && w.chain_view()[0].height == 0 && w.chain_view()[0].hash@
                == genesis_hash_of(header.network) && w.keys_view() == (KeychainView {
                network: header.network,
                entropy: header.entropy@,
                lookahead: lookahead,
                next_external: 0,
                next_internal: 0,
            }) && delta_is(w.staged_view(), Seq::empty(), None, None, w.keys_view()),
    {
        match KeychainIndex::new(header.network, header.entropy, lookahead) {
            None => Err(InitError::Descriptor),
            Some(keys) => {
                let chain = ChainIndex::from_genesis(network_genesis_hash(header.network));
                let graph = TransactionGraph::new();
                let staged = StagedDelta {
                    txids: Vec::new(),
                    connected: None,
                    disconnected_above: None,
                    next_external: 0,
                    next_internal: 0,
                };
                assert(ids_view(staged.txids@) =~= Seq::<Seq<u8>>::empty());
                Ok(Wallet { header, chain, keys, graph, staged })
            },
        }
    }

    /// A new wallet on the network with this name, from fresh random entropy.
    pub fn create_new(network: &str) -> (r: Result<Self, CreateNewError>)
        ensures
            network_named(network@) is None ==> r matches Err(CreateNewError::ParseNetwork(_)),
            network_named(network@) matches Some(n) ==> drawn(r, n),
            network_named(network@) matches Some(n) ==> match r {
                Ok(w) => w.wf() && w.header_view().network == n && w.header_view().usable() && w.graph_view()
                    == Seq::<TxRecord>::empty() && w.chain_view().len() == 1 && w.chain_view()[0].height == 0
                    && w.chain_view()[0].hash@ == genesis_hash_of(n) && w.keys_view() == (KeychainView {
                    network: n,
                    entropy: w.header_view().entropy@,
                    lookahead: LOOKAHEAD,
                    next_external: 0,
                    next_internal: 0,
                }) && delta_is(w.staged_view(), Seq::empty(), None, None, w.keys_view()),
                Err(e) => e matches CreateNewError::Wallet(i) && i is Descriptor,
            },
    {
        match parse_network(network) {
            Err(e) => Err(CreateNewError::ParseNetwork(e)),
            Ok(n) => {
                let header = WalletHeader::new(n);
                match Wallet::from_header(header, LOOKAHEAD) {
                    Ok(w) => Ok(w),
                    Err(e) => Err(CreateNewError::Wallet(e)),
                }
            },
        }
    }

    /// The wallet of a stored header, with nothing in it yet. The header
    /// must be of this version, and its network must start at the genesis
    /// block that the caller expects.
    pub fn load(header_bytes: &[u8], genesis_hash: &Vec<u8>) -> (r: Result<Self, LoadError>)
        ensures
            match read_header(header_bytes@) {
                HeaderOutcome::Truncated { expected, available } => r matches Err(LoadError::ReadHeader(e))
                    && e.expected == expected && e.available == available,
                HeaderOutcome::Malformed => r matches Err(LoadError::ParseHeader(_)),
                HeaderOutcome::WrongVersion => r matches Err(LoadError::HeaderVersion),
                HeaderOutcome::Header { entropy, network } => if genesis_hash_of(network) != genesis_hash@ {
                    r matches Err(LoadError::Wallet(InitError::Genesis { loaded, expected })) && loaded@
                        == genesis_hash_of(network) && expected@ == genesis_hash@
                } else if !seed_usable(network, entropy) {
                    r matches Err(LoadError::Wallet(InitError::Descriptor))
                } else {
                    r matches Ok(w) && w.wf() && w.header_view().network == network && w.header_view().entropy@
                        == entropy && w.graph_view() == Seq::<TxRecord>::empty() && w.chain_view().len() == 1
                        && w.chain_view()[0].height == 0 && w.chain_view()[0].hash@ == genesis_hash@
                        && w.keys_view() == (KeychainView {
                        network: network,
                        entropy: entropy,
                        lookahead: LOOKAHEAD,
                        next_external: 0,
                        next_internal: 0,
                    }) && delta_is(w.staged_view(), Seq::empty(), None, None, w.keys_view())
                },
            },
    {
        match WalletHeader::decode(header_bytes) {
            Err(e) => Err(e),
            Ok(header) => {
                let loaded = network_genesis_hash(header.network);
                if !is_hash(genesis_hash, &loaded) {
                    return Err(
                        LoadError::Wallet(
                            InitError::Genesis { loaded: hash_bytes(&loaded), expected: bytes_clone(genesis_hash) },
                        ),
                    );
                }
                match Wallet::from_header(header, LOOKAHEAD) {
                    Ok(w) => Ok(w),
                    Err(e) => Err(LoadError::Wallet(e)),
                }
            },
        }
    }

    /// The wallet's header.
    pub fn header(&self) -> (r: &WalletHeader)
        ensures
            *r == self.header_view(),
    {
        &self.header
    }

    /// The changes that the latest operation made.
    pub fn staged(&self) -> (r: &StagedDelta)
        ensures
            *r == self.staged_view(),
    {
        &self.staged
    }

    /// The address at the lowest unused index of the external keychain.
    /// Nothing changes: asked again, the wallet gives the same address.
    pub fn last_unused_address(&self) -> (r: AddressInfo)
        requires
            self.wf(),
        ensures
            r.index == self.keys_view().lowest_unused(KeychainKind::External),
            r.address@ == derived_address(
                self.keys_view().network,
                self.keys_view().entropy,
                KeychainKind::External,
                r.index,
            ),
            is_address_of(
                r.address@,
                self.keys_view().network,
                self.keys_view().script(KeychainKind::External, r.index),
            ),
    {
        let index: u32 = self.keys.lowest_unused(KeychainKind::External);
        self.keys.peek(KeychainKind::External, index)
    }

    /// The first index of the internal keychain that is not yet revealed.
    pub fn next_change(&self) -> (r: u32)
        ensures
            r == self.keys_view().next_internal,
    {
        self.keys.next_unrevealed(KeychainKind::Internal)
    }

    /// Hands out the address at the lowest unused index of the external
    /// keychain, and marks the index used.
    pub fn fresh_address(&mut self) -> (r: AddressInfo)
        requires
            old(self).wf(),
        ensures
            final(self).wf(),
            r.index == old(self).keys_view().lowest_unused(KeychainKind::External),
            r.address@ == derived_address(
                old(self).keys_view().network,
                old(self).keys_view().entropy,
                KeychainKind::External,
                r.index,
            ),
            is_address_of(
                r.address@,
                old(self).keys_view().network,
                old(self).keys_view().script(KeychainKind::External, r.index),
            ),
            final(self).keys_view() == old(self).keys_view().reveal_to(KeychainKind::External, r.index),
            final(self).keys_view().owns(old(self).keys_view().script(KeychainKind::External, r.index)),
            final(self).chain_view() == old(self).chain_view(),
            final(self).graph_view() == old(self).graph_view(),
            final(self).header_view() == old(self).header_view(),
            delta_is(final(self).staged_view(), Seq::empty(), None, None, final(self).keys_view()),
    {
        let index: u32 = self.keys.reveal_next(KeychainKind::External);
        self.stage(Vec::new(), None, None);
        assert(ids_view(self.staged.txids@) =~= Seq::<Seq<u8>>::empty());
        proof {
            crate::keychain::lemma_window_owned(self.keys@, KeychainKind::External, index);
        }
        self.keys.peek(KeychainKind::External, index)
    }

    /// Uses up the lowest unused index of the internal keychain, for the
    /// change of a transaction, and gives the index.
    pub fn reveal_change(&mut self) -> (r: u32)
        requires
            old(self).wf(),
        ensures
            final(self).wf(),
            r == old(self).keys_view().lowest_unused(KeychainKind::Internal),
            final(self).keys_view() == old(self).keys_view().reveal_to(KeychainKind::Internal, r),
            final(self).chain_view() == old(self).chain_view(),
            final(self).graph_view() == old(self).graph_view(),
            final(self).header_view() == old(self).header_view(),
            delta_is(final(self).staged_view(), Seq::empty(), None, None, final(self).keys_view()),
    {
        let index: u32 = self.keys.reveal_next(KeychainKind::Internal);
        self.stage(Vec::new(), None, None);
        assert(ids_view(self.staged.txids@) =~= Seq::<Seq<u8>>::empty());
        index
    }

    /// The address at an index of the external keychain. Nothing changes.
    pub fn peek_address(&self, index: u32) -> (r: AddressInfo)
        requires
            self.wf(),
            index <= MAX_INDEX,
        ensures
            r.index == index,
            r.address@ == derived_address(
                self.keys_view().network,
                self.keys_view().entropy,
                KeychainKind::External,
                index,
            ),
            is_address_of(
                r.address@,
                self.keys_view().network,
                self.keys_view().script(KeychainKind::External, index),
            ),
    {
        self.keys.peek(KeychainKind::External, index)
    }

    /// The script at an index of a keychain. Nothing changes.
    pub fn derive(&self, keychain: KeychainKind, index: u32) -> (r: Vec<u8>)
        requires
            self.wf(),
            index <= MAX_INDEX,
        ensures
            r@ == self.keys_view().script(keychain, index),
    {
        self.keys.derive(keychain, index)
    }

    /// Records the changes of an operation.
    pub(crate) fn stage(&mut self, txids: Vec<Vec<u8>>, connected: Option<BlockId>, disconnected_above: Option<u32>)
        requires
            old(self).wf(),
        ensures
            final(self).wf(),
            final(self).chain == old(self).chain,
            final(self).keys == old(self).keys,
            final(self).graph == old(self).graph,
            final(self).header == old(self).header,
            final(self).staged.txids == txids,
            final(self).staged.connected == connected,
            final(self).staged.disconnected_above == disconnected_above,
            final(self).staged.next_external == old(self).keys@.next_external,
            final(self).staged.next_internal == old(self).keys@.next_internal,
    {
        self.staged = StagedDelta {
            txids: txids,
            connected: connected,
            disconnected_above: disconnected_above,
            next_external: self.keys.next_unrevealed(KeychainKind::External),
            next_internal: self.keys.next_unrevealed(KeychainKind::Internal),
        };
    }

    /// The hash of the genesis block of the wallet's chain.
    pub fn genesis_hash(&self) -> (r: Vec<u8>)
        requires
            self.wf(),
        ensures
            r@ == self.chain_view()[0].hash@,
    {
        self.chain.genesis_hash()
    }

    /// Up to `count` blocks of the wallet's chain, the tip first.
    pub fn recent_blocks(&self, count: u32) -> (r: Vec<BlockId>)
        ensures
            r@.len() == (if count <= self.chain_view().len() {
                count as int
            } else {
                self.chain_view().len() as int
            }),
            forall|k: int|
                0 <= k < r@.len() ==> (#[trigger] r@[k]).height == self.chain_view()[self.chain_view().len() - 1
                    - k].height && r@[k].hash@ == self.chain_view()[self.chain_view().len() - 1 - k].hash@,
    {
        self.chain.recent(count)
    }

    /// The recovery phrase of the wallet.
    pub fn mnemonic_words(&self) -> (r: Vec<String>)
        ensures
            words_view(r@) == mnemonic_of(self.header_view().entropy@),
            r@.len() == 12,
    {
        self.header.mnemonic_words()
    }

    /// The height of the tip of the wallet's chain.
    pub fn tip_height(&self) -> (r: u32)
        requires
            self.wf(),
        ensures
            r == self.tip(),
    {
        match self.chain.tip_height() {
            Some(h) => h,
            None => 0,
        }
    }

    /// The wallet's funds by category, each sum capped at the largest `u64`.
    pub fn balance(&self) -> (r: Balance)
        requires
            self.wf(),
        ensures
            r.immature == capped(category_sum(self.graph_view(), self.keys_view(), self.tip(), Category::Immature)),
            r.trusted_pending == capped(
                category_sum(self.graph_view(), self.keys_view(), self.tip(), Category::TrustedPending),
            ),
            r.untrusted_pending == capped(
                category_sum(self.graph_view(), self.keys_view(), self.tip(), Category::UntrustedPending),
            ),
            r.confirmed == capped(
                category_sum(self.graph_view(), self.keys_view(), self.tip(), Category::Confirmed),
            ),
    {
        self.graph.balance(&self.keys, self.tip_height())
    }

    /// The transactions the wallet knows, the deepest in the chain first, and
    /// among equally deep ones the one that was known first.
    pub fn transactions(&self) -> (r: Vec<TxInfo>)
        requires
            self.wf(),
        ensures
            exists|all: Seq<TxInfo>, perm: Seq<int>|
                all.len() == self.graph_view().len() && (forall|i: int|
                    0 <= i < all.len() ==> describes_tx(
                        #[trigger] all[i],
                        self.graph_view(),
                        self.keys_view(),
                        self.tip(),
                        self.graph_view()[i],
                    )) && listed(all, r@, perm),
    {
        let all = self.graph.list_history(&self.keys, self.tip_height());
        let r = sort_by_confirmations(all);
        r
    }

    /// The wallet's unspent outputs, the deepest in the chain first, and
    /// among equally deep ones in the order of their transactions.
    pub fn utxos(&self) -> (r: Vec<UtxoInfo>)
        requires
            self.wf(),
        ensures
            exists|all: Seq<UtxoInfo>, perm: Seq<int>|
                all.len() == utxo_set(self.graph_view(), self.keys_view()).len() && (forall|k: int|
                    0 <= k < all.len() ==> describes_utxo(
                        #[trigger] all[k],
                        self.graph_view(),
                        self.keys_view(),
                        self.tip(),
                        utxo_set(self.graph_view(), self.keys_view())[k],
                    )) && listed(all, r@, perm),
    {
        let all = self.graph.list_unspent(&self.keys, self.tip_height());
        let r = sort_by_confirmations(all);
        r
    }
    /// Puts a decoded block on top of the chain and looks at its
    /// transactions in order: each one that touches the wallet is recorded
    /// as confirmed in the block. A block that does not connect changes nothing.
    pub fn apply_decoded_block(&mut self, height: u32, hash: [u8; 32], prev_hash: [u8; 32], txs: Vec<Tx>) -> (r: Result<ApplyResult, CannotConnectError>)
        requires
            old(self).wf(),
            all_txs_decoded(txs@),
        ensures
            final(self).wf(),
            r is Ok <==> can_connect(old(self).chain_view(), height, prev_hash@),
            r matches Err(e) ==> e.try_include_height == missing_height(height) && unchanged(*old(self), *final(self)),
            r matches Ok(res) ==> block_applied(*old(self), *final(self), res, height, hash, prev_hash, txs@),
    {
        match self.chain.connect_block(height, hash, prev_hash) {
            Err(e) => {
                return Err(e);
            },
            Ok(()) => {},
        }
        let ghost start = Ledger { graph: old(self).graph@, keys: old(self).keys@, fresh: Seq::empty() };
        let ghost all = txs@;
        proof {
            lemma_push_anchored(
                old(self).graph@,
                old(self).chain@,
                Checkpoint { height: height, hash: hash, parent: prev_hash },
            );
        }
        let mut fresh: Vec<Vec<u8>> = Vec::new();
        assert(ids_view(fresh@) =~= start.fresh);
        let n: usize = txs.len();
        let mut rest: Vec<Tx> = txs;
        let mut i: usize = 0;
        while i < n
            invariant
                n == all.len(),
                i <= n,
                rest@ == all.skip(i as int),
                all_txs_decoded(all),
                self.chain.wf(),
                self.chain@ == old(self).chain@.push(Checkpoint { height: height, hash: hash, parent: prev_hash }),
                chain_holds(self.chain@, height, hash@),
                self.keys.wf(),
                self.graph.wf(),
                self.header == old(self).header,
                self.staged == old(self).staged,
                anchors_valid(self.graph@, self.chain@),
                self.keys@.network == self.header.network,
                self.keys@.entropy == self.header.entropy@,
                self.graph@ == see_block(start, all, i as int, height, hash).graph,
                self.keys@ == see_block(start, all, i as int, height, hash).keys,
                ids_view(fresh@) == see_block(start, all, i as int, height, hash).fresh,
            decreases n - i,
        {
            let tx = rest.remove(0);
            assert(tx == all[i as int]);
            assert(rest@ =~= all.skip(i + 1));
            proof {
                lemma_absorb_keeps_seed(self.keys@, tx.outputs@, tx.outputs@.len() as int);
            }
            let known: bool = self.graph.find(&tx.txid).is_some();
            let touches: bool = if known {
                true
            } else {
                scan_tx(&self.graph, &mut self.keys, &tx)
            };
            if touches {
                let id = bytes_clone(&tx.txid);
                proof {
                    lemma_confirm_anchored(self.graph@, self.chain@, tx, height, hash);
                }
                let ghost ids = fresh@;
                let is_new: bool = self.graph.insert_confirmed(&self.chain, tx, height, hash);
                if is_new {
                    fresh.push(id);
                    assert(ids_view(fresh@) =~= ids_view(ids).push(id@));
                }
            }
            i = i + 1;
        }
        let relevant_txids = clone_ids(&fresh);
        self.stage(fresh, Some(BlockId { height: height, hash: hash_bytes(&hash) }), None);
        Ok(ApplyResult { relevant_txids: relevant_txids })
    }

    /// Decodes a block and applies it at `height`.
    ///
    /// A block on top of a chain that holds nothing but genesis is taken
    /// whatever parent it names; any other block must be the direct successor
    /// of the tip and name it as parent. On every error the wallet is as before.
    pub fn apply_block(&mut self, height: u32, block_bytes: &[u8]) -> (r: Result<ApplyResult, ApplyBlockError>)
        requires
            old(self).wf(),
        ensures
            final(self).wf(),
            r is Err ==> unchanged(*old(self), *final(self)),
            match block_decoding(block_bytes@) {
                None => r matches Err(ApplyBlockError::DecodeBlock(_)),
                Some(b) => all_decode(b.txs) && if !can_connect(old(self).chain_view(), height, b.prev_hash) {
                    r matches Err(ApplyBlockError::CannotConnect(e)) && e.try_include_height == missing_height(
                        height,
                    )
                } else {
                    r matches Ok(res) && raw_block_applied(*old(self), *final(self), res, height, b)
                },
            },
    {
        let block = match decode_block(block_bytes) {
            Ok(b) => b,
            Err(e) => {
                return Err(ApplyBlockError::DecodeBlock(e));
            },
        };
        let txs = match decode_all(&block.txs) {
            Ok(t) => t,
            Err(e) => {
                return Err(ApplyBlockError::DecodeBlock(e));
            },
        };
        let ghost decoded = txs@;
        match self.apply_decoded_block(height, block.hash, block.prev_hash, txs) {
            Ok(res) => {
                assert(block.hash@ == block@.hash && block.prev_hash@ == block@.prev_hash && decodes(
                    decoded,
                    block@.txs,
                ) && block_applied(*old(self), *self, res, height, block.hash, block.prev_hash, decoded));
                assert(raw_block_applied(*old(self), *self, res, height, block@));
                Ok(res)
            },
            Err(e) => Err(ApplyBlockError::CannotConnect(e)),
        }
    }

    /// Looks at unconfirmed transactions in order: each one that touches the
    /// wallet is recorded as seen at its time, unless it is confirmed already.
    pub fn apply_unconfirmed(&mut self, txs: Vec<(Tx, u64)>) -> (r: ApplyResult)
        requires
            old(self).wf(),
            all_seen_decoded(txs@),
        ensures
            final(self).wf(),
            mempool_applied(*old(self), *final(self), r, txs@),
            one_by_one(*old(self), *final(self), txs@),
    {
        let ghost start = Ledger { graph: old(self).graph@, keys: old(self).keys@, fresh: Seq::empty() };
        let ghost all = txs@;
        let ghost mut states: Seq<Wallet> = seq![*self];
        let mut fresh: Vec<Vec<u8>> = Vec::new();
        assert(ids_view(fresh@) =~= start.fresh);
        let n: usize = txs.len();
        let mut rest: Vec<(Tx, u64)> = txs;
        let mut i: usize = 0;
        while i < n
            invariant
                n == all.len(),
                i <= n,
                rest@ == all.skip(i as int),
                all_seen_decoded(all),
                self.chain == old(self).chain,
                self.chain.wf(),
                self.chain@.len() >= 1,
                self.keys.wf(),
                self.graph.wf(),
                self.header == old(self).header,
                self.staged == old(self).staged,
                anchors_valid(self.graph@, self.chain@),
                self.keys@.network == self.header.network,
                self.keys@.entropy == self.header.entropy@,
                self.graph@ == see_mempool(start, all, i as int).graph,
                self.keys@ == see_mempool(start, all, i as int).keys,
                ids_view(fresh@) == see_mempool(start, all, i as int).fresh,
                states.len() == i + 1,
                states[0] == *old(self),
                states[i as int] == *self,
                forall|j: int|
                    0 <= j < i ==> sighted(#[trigger] states[j], states[j + 1], all[j].0, all[j].1),
            decreases n - i,
        {
            let (tx, seen) = rest.remove(0);
            assert((tx, seen) == all[i as int]);
            assert(rest@ =~= all.skip(i + 1));
            proof {
                lemma_absorb_keeps_seed(self.keys@, tx.outputs@, tx.outputs@.len() as int);
            }
            let known: bool = self.graph.find(&tx.txid).is_some();
            let touches: bool = if known {
                true
            } else {
                scan_tx(&self.graph, &mut self.keys, &tx)
            };
            if touches {
                let id = bytes_clone(&tx.txid);
                proof {
                    lemma_observe_anchored(self.graph@, self.chain@, tx, seen);
                }
                let ghost ids = fresh@;
                let is_new: bool = self.graph.insert_unconfirmed(tx, seen);
                if is_new {
                    fresh.push(id);
                    assert(ids_view(fresh@) =~= ids_view(ids).push(id@));
                }
            }
            proof {
                let grown = states.push(*self);
                assert(sighted(states[i as int], *self, all[i as int].0, all[i as int].1));
                assert forall|j: int| 0 <= j < i + 1 implies sighted(
                    #[trigger] grown[j],
                    grown[j + 1],
                    all[j].0,
                    all[j].1,
                ) by {
                    if j < i {
                        assert(grown[j] == states[j] && grown[j + 1] == states[j + 1]);
                    }
                }
                states = grown;
            }
            i = i + 1;
        }
        let relevant_txids = clone_ids(&fresh);
        self.stage(fresh, None, None);
        assert(same_books(states[n as int], *self));
        assert(one_by_one(*old(self), *self, all));
        ApplyResult { relevant_txids: relevant_txids }
    }

    /// Decodes a batch of mempool transactions and looks at them in order.
    /// Every entry must decode.
    pub fn apply_mempool(&mut self, txs: Vec<MempoolTx>) -> (r: ApplyResult)
        requires
            old(self).wf(),
            mempool_decodes(txs@),
        ensures
            final(self).wf(),
            raw_mempool_applied(*old(self), *final(self), r, txs@),
    {
        match decode_mempool(&txs) {
            Some(seen) => {
                let res = self.apply_unconfirmed(seen);
                res
            },
            None => vstd::pervasive::unreached(),
        }
    }

    /// Decodes a batch of mempool transactions and looks at them in order,
    /// or changes nothing and gives `None` where an entry does not decode.
    pub fn try_apply_mempool(&mut self, txs: Vec<MempoolTx>) -> (r: Option<ApplyResult>)
        requires
            old(self).wf(),
        ensures
            final(self).wf(),
            r is Some <==> mempool_decodes(txs@),
            r is None ==> unchanged(*old(self), *final(self)),
            r matches Some(res) ==> raw_mempool_applied(*old(self), *final(self), res, txs@),
    {
        if mempool_decodable(&txs) {
            Some(self.apply_mempool(txs))
        } else {
            None
        }
    }

    /// Drops the blocks above `height` from the chain, and takes back the
    /// confirmations in them: each such transaction is unconfirmed again, at
    /// the time it was last seen unconfirmed, or at `now`. Returns the number
    /// of blocks dropped.
    pub fn disconnect_from(&mut self, height: u32, now: u64) -> (r: usize)
        requires
            old(self).wf(),
        ensures
            final(self).wf(),
            final(self).chain_view() == old(self).chain_view().take(final(self).chain_view().len() as int),
            final(self).chain_view().len() + r == old(self).chain_view().len(),
            forall|i: int| 0 <= i < final(self).chain_view().len() ==> old(self).chain_view()[i].height <= height,
            forall|i: int|
                final(self).chain_view().len() <= i < old(self).chain_view().len() ==> old(
                    self,
                ).chain_view()[i].height > height,
            final(self).graph_view() == old(self).graph_view().map_values(|r: TxRecord| revert(r, height, now)),
            final(self).keys_view() == old(self).keys_view(),
            final(self).header_view() == old(self).header_view(),
            delta_is(final(self).staged_view(), Seq::empty(), None, Some(height), final(self).keys_view()),
    {
        let dropped: usize = self.chain.disconnect_from(height);
        proof {
            lemma_revert_anchored(old(self).graph@, old(self).chain@, self.chain@.len() as int, height, now);
        }
        self.graph.disconnect_block(height, now);
        self.stage(Vec::new(), None, Some(height));
        assert(ids_view(self.staged.txids@) =~= Seq::<Seq<u8>>::empty());
        dropped
    }
}

impl ApplyResult {
    /// The transactions that the wallet's latest operation made known.
    pub fn new(wallet: &Wallet) -> (r: Self)
        ensures
            ids_view(r.relevant_txids@) == ids_view(wallet.staged_view().txids@),
    {
        ApplyResult { relevant_txids: clone_ids(&wallet.staged().txids) }
    }
}

} // verus!

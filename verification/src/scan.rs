//! Looking at transactions: which ones touch the wallet, and what the
//! wallet's records and keychains are after a block or a mempool batch.

use vstd::prelude::*;
use crate::chain::{chain_holds, Checkpoint};
use crate::graph::{confirm, decoded, graph_ok, has_tx, lemma_confirm_keeps_every_confirmed, lemma_enter_from, lemma_observe_keeps_every_confirmed, observe, position_of, revert, wins, TransactionGraph, TxRecord};
use crate::keychain::{KeychainIndex, KeychainView};
use crate::ledger::prevout;
use crate::types::{ChainPosition, OutPoint, Tx, TxOut};

verus! {

/// The keychains after the first `n` outputs have been looked at, one after the other.
pub open spec fn absorb_outputs(kv: KeychainView, outs: Seq<TxOut>, n: int) -> KeychainView
    decreases n,
{
    if n <= 0 {
        kv
    } else {
        absorb_outputs(kv, outs, n - 1).absorb(outs[n - 1].script@)
    }
}

/// Whether one of the first `n` outputs pays to a script of the wallet, as
/// the keychains stand when its turn comes.
pub open spec fn pays_wallet(kv: KeychainView, outs: Seq<TxOut>, n: int) -> bool
    decreases n,
{
    if n <= 0 {
        false
    } else {
        pays_wallet(kv, outs, n - 1) || absorb_outputs(kv, outs, n - 1).owns(outs[n - 1].script@)
    }
}

/// Whether the output that a reference points to is known and the wallet's.
pub open spec fn spends_owned(g: Seq<TxRecord>, kv: KeychainView, op: OutPoint) -> bool {
    match prevout(g, op@) {
        Some(o) => kv.owns(o.script@),
        None => false,
    }
}

/// Whether one of the first `n` inputs spends an output of the wallet.
pub open spec fn spends_wallet(g: Seq<TxRecord>, kv: KeychainView, inputs: Seq<OutPoint>, n: int) -> bool
    decreases n,
{
    if n <= 0 {
        false
    } else {
        spends_wallet(g, kv, inputs, n - 1) || spends_owned(g, kv, inputs[n - 1])
    }
}

/// The keychains after all outputs of a transaction have been looked at.
pub open spec fn absorb_tx(kv: KeychainView, tx: Tx) -> KeychainView {
    absorb_outputs(kv, tx.outputs@, tx.outputs@.len() as int)
}

/// Whether a transaction touches the wallet: an output pays to one of its
/// scripts, or an input spends one of its outputs.
pub open spec fn relevant(g: Seq<TxRecord>, kv: KeychainView, tx: Tx) -> bool {
    pays_wallet(kv, tx.outputs@, tx.outputs@.len() as int) || spends_wallet(
        g,
        absorb_tx(kv, tx),
        tx.inputs@,
        tx.inputs@.len() as int,
    )
}

/// The part of the wallet that transactions change: the records, the
/// keychains, and the ids of the transactions that became known.
pub struct Ledger {
    pub graph: Seq<TxRecord>,
    pub keys: KeychainView,
    pub fresh: Seq<Seq<u8>>,
}

/// The ids of the transactions that became known, with that of `tx` behind
/// them if it comes in as new at the position.
pub open spec fn note_fresh(s: Ledger, tx: Tx, position: ChainPosition) -> Seq<Seq<u8>> {
    if !has_tx(s.graph, tx.txid@) && wins(s.graph, tx, position) {
        s.fresh.push(tx.txid@)
    } else {
        s.fresh
    }
}

/// The ledger after a transaction of the block `(height, hash)` has been
/// looked at. A known transaction is confirmed, and nothing else changes.
/// Of an unknown one the outputs are matched against the keychains, and it
/// is recorded as confirmed if it touches the wallet.
pub open spec fn see_confirmed(s: Ledger, tx: Tx, height: u32, hash: [u8; 32]) -> Ledger {
    if has_tx(s.graph, tx.txid@) {
        Ledger { graph: confirm(s.graph, tx, height, hash), ..s }
    } else if relevant(s.graph, s.keys, tx) {
        Ledger {
            graph: confirm(s.graph, tx, height, hash),
            keys: absorb_tx(s.keys, tx),
            fresh: note_fresh(s, tx, ChainPosition::Confirmed { anchor_height: height, anchor_hash: hash }),
        }
    } else {
        Ledger { keys: absorb_tx(s.keys, tx), ..s }
    }
}

/// The ledger after the first `n` transactions of a block have been looked at in order.
pub open spec fn see_block(s: Ledger, txs: Seq<Tx>, n: int, height: u32, hash: [u8; 32]) -> Ledger
    decreases n,
{
    if n <= 0 {
        s
    } else {
        see_confirmed(see_block(s, txs, n - 1, height, hash), txs[n - 1], height, hash)
    }
}

/// The ledger after an unconfirmed transaction, seen at `seen`, has been
/// looked at. Of a known transaction the sighting is recorded, and nothing
/// else changes. Of an unknown one the outputs are matched against the
/// keychains, and it is recorded if it touches the wallet.
pub open spec fn see_unconfirmed(s: Ledger, tx: Tx, seen: u64) -> Ledger {
    if has_tx(s.graph, tx.txid@) {
        Ledger { graph: observe(s.graph, tx, seen), ..s }
    } else if relevant(s.graph, s.keys, tx) {
        Ledger {
            graph: observe(s.graph, tx, seen),
            keys: absorb_tx(s.keys, tx),
            fresh: note_fresh(s, tx, ChainPosition::Unconfirmed { first_seen_unix: seen }),
        }
    } else {
        Ledger { keys: absorb_tx(s.keys, tx), ..s }
    }
}

/// The ledger after the first `n` unconfirmed transactions have been looked at in order.
pub open spec fn see_mempool(s: Ledger, txs: Seq<(Tx, u64)>, n: int) -> Ledger
    decreases n,
{
    if n <= 0 {
        s
    } else {
        see_unconfirmed(see_mempool(s, txs, n - 1), txs[n - 1].0, txs[n - 1].1)
    }
}

/// Looking at outputs reveals indices and changes nothing else of the keychains.
pub proof fn lemma_absorb_keeps_seed(kv: KeychainView, outs: Seq<TxOut>, n: int)
    ensures
        absorb_outputs(kv, outs, n).network == kv.network,
        absorb_outputs(kv, outs, n).entropy == kv.entropy,
        absorb_outputs(kv, outs, n).lookahead == kv.lookahead,
    decreases n,
{
    if n > 0 {
        lemma_absorb_keeps_seed(kv, outs, n - 1);
    }
}

/// Every confirmation names a block that the chain holds.
pub open spec fn anchors_valid(g: Seq<TxRecord>, c: Seq<Checkpoint>) -> bool {
    forall|i: int|
        0 <= i < g.len() ==> match (#[trigger] g[i]).position {
            ChainPosition::Confirmed { anchor_height, anchor_hash } => chain_holds(c, anchor_height, anchor_hash@),
            ChainPosition::Unconfirmed { .. } => true,
        }
}

/// Confirming a transaction in a block of the chain keeps every confirmation anchored.
pub proof fn lemma_confirm_anchored(g: Seq<TxRecord>, c: Seq<Checkpoint>, tx: Tx, height: u32, hash: [u8; 32])
    requires
        anchors_valid(g, c),
        chain_holds(c, height, hash@),
    ensures
        anchors_valid(confirm(g, tx, height, hash), c),
{
    let h = confirm(g, tx, height, hash);
    let position = ChainPosition::Confirmed { anchor_height: height, anchor_hash: hash };
    assert forall|i: int| 0 <= i < h.len() implies match (#[trigger] h[i]).position {
        ChainPosition::Confirmed { anchor_height, anchor_hash } => chain_holds(c, anchor_height, anchor_hash@),
        ChainPosition::Unconfirmed { .. } => true,
    } by {
        if has_tx(g, tx.txid@) {
            assert(h[i].position == g[i].position || h[i].position == position);
        } else {
            lemma_enter_from(g, tx, position, None, i);
        }
    }
}

/// Seeing a transaction unconfirmed keeps every confirmation anchored.
pub proof fn lemma_observe_anchored(g: Seq<TxRecord>, c: Seq<Checkpoint>, tx: Tx, seen: u64)
    requires
        anchors_valid(g, c),
    ensures
        anchors_valid(observe(g, tx, seen), c),
{
    let h = observe(g, tx, seen);
    assert forall|i: int| 0 <= i < h.len() implies match (#[trigger] h[i]).position {
        ChainPosition::Confirmed { anchor_height, anchor_hash } => chain_holds(c, anchor_height, anchor_hash@),
        ChainPosition::Unconfirmed { .. } => true,
    } by {
        if has_tx(g, tx.txid@) {
            assert(h[i].position == g[i].position || h[i].position is Unconfirmed);
        } else {
            lemma_enter_from(g, tx, ChainPosition::Unconfirmed { first_seen_unix: seen }, Some(seen), i);
        }
    }
}

/// A longer chain holds every block that the shorter one held.
pub proof fn lemma_push_anchored(g: Seq<TxRecord>, c: Seq<Checkpoint>, cp: Checkpoint)
    requires
        anchors_valid(g, c),
    ensures
        anchors_valid(g, c.push(cp)),
        chain_holds(c.push(cp), cp.height, cp.hash@),
{
    let d = c.push(cp);
    assert(d[c.len() as int] == cp);
    assert forall|i: int| 0 <= i < g.len() implies match (#[trigger] g[i]).position {
        ChainPosition::Confirmed { anchor_height, anchor_hash } => chain_holds(d, anchor_height, anchor_hash@),
        ChainPosition::Unconfirmed { .. } => true,
    } by {
        match g[i].position {
            ChainPosition::Confirmed { anchor_height, anchor_hash } => {
                let k = choose|k: int|
                    0 <= k < c.len() && (#[trigger] c[k]).height == anchor_height && c[k].hash@ == anchor_hash@;
                assert(d[k] == c[k]);
            },
            ChainPosition::Unconfirmed { .. } => {},
        }
    }
}

/// After blocks above `height` leave the chain and their confirmations are
/// taken back, every confirmation that is left is anchored.
pub proof fn lemma_revert_anchored(g: Seq<TxRecord>, c: Seq<Checkpoint>, kept: int, height: u32, now: u64)
    requires
        anchors_valid(g, c),
        0 <= kept <= c.len(),
        forall|i: int| kept <= i < c.len() ==> c[i].height > height,
    ensures
        anchors_valid(g.map_values(|r: TxRecord| revert(r, height, now)), c.take(kept)),
{
    let h = g.map_values(|r: TxRecord| revert(r, height, now));
    let d = c.take(kept);
    assert forall|i: int| 0 <= i < h.len() implies match (#[trigger] h[i]).position {
        ChainPosition::Confirmed { anchor_height, anchor_hash } => chain_holds(d, anchor_height, anchor_hash@),
        ChainPosition::Unconfirmed { .. } => true,
    } by {
        match h[i].position {
            ChainPosition::Confirmed { anchor_height, anchor_hash } => {
                let k = choose|k: int|
                    0 <= k < c.len() && (#[trigger] c[k]).height == anchor_height && c[k].hash@ == anchor_hash@;
                assert(d[k] == c[k]);
            },
            ChainPosition::Unconfirmed { .. } => {},
        }
    }
}

/// Monotonic confirmation: a transaction that is confirmed keeps its
/// position whatever unconfirmed transactions the wallet is shown, itself
/// among them.
pub proof fn lemma_mempool_keeps_confirmed(s: Ledger, txs: Seq<(Tx, u64)>, n: int, txid: Seq<u8>)
    requires
        graph_ok(s.graph),
        forall|i: int| 0 <= i < txs.len() ==> decoded((#[trigger] txs[i]).0),
        0 <= n <= txs.len(),
        position_of(s.graph, txid) matches Some(p) && p is Confirmed,
    ensures
        graph_ok(see_mempool(s, txs, n).graph),
        position_of(see_mempool(s, txs, n).graph, txid) == position_of(s.graph, txid),
    decreases n,
{
    if n > 0 {
        lemma_mempool_keeps_confirmed(s, txs, n - 1, txid);
        let before = see_mempool(s, txs, n - 1);
        lemma_observe_keeps_every_confirmed(before.graph, txs[n - 1].0, txs[n - 1].1, txid);
    }
}

/// Seeing confirmed transactions again is no news: where every transaction
/// of a batch is known and confirmed, the records and the keychains after
/// the batch are those before it, and no transaction becomes known.
pub proof fn lemma_mempool_of_confirmed(s: Ledger, txs: Seq<(Tx, u64)>, n: int)
    requires
        0 <= n <= txs.len(),
        forall|i: int|
            0 <= i < txs.len() ==> (position_of(s.graph, (#[trigger] txs[i]).0.txid@) matches Some(p) && p is Confirmed),
    ensures
        see_mempool(s, txs, n) == s,
    decreases n,
{
    if n > 0 {
        lemma_mempool_of_confirmed(s, txs, n - 1);
        assert(position_of(s.graph, txs[n - 1].0.txid@) is Some);
    }
}

/// A transaction that is confirmed keeps its position whatever blocks the
/// wallet applies: only a disconnect takes a confirmation back.
pub proof fn lemma_block_keeps_confirmed(s: Ledger, txs: Seq<Tx>, n: int, height: u32, hash: [u8; 32], txid: Seq<u8>)
    requires
        graph_ok(s.graph),
        forall|i: int| 0 <= i < txs.len() ==> decoded(#[trigger] txs[i]),
        0 <= n <= txs.len(),
        position_of(s.graph, txid) matches Some(p) && p is Confirmed,
    ensures
        graph_ok(see_block(s, txs, n, height, hash).graph),
        position_of(see_block(s, txs, n, height, hash).graph, txid) == position_of(s.graph, txid),
    decreases n,
{
    if n > 0 {
        lemma_block_keeps_confirmed(s, txs, n - 1, height, hash, txid);
        let before = see_block(s, txs, n - 1, height, hash);
        lemma_confirm_keeps_every_confirmed(before.graph, txs[n - 1], height, hash, txid);
    }
}

/// Matches the outputs of a transaction against the keychains, which absorb
/// the matches, and tells whether the transaction touches the wallet.
pub fn scan_tx(graph: &TransactionGraph, keys: &mut KeychainIndex, tx: &Tx) -> (r: bool)
    requires
        graph.wf(),
        old(keys).wf(),
    ensures
        final(keys).wf(),
        final(keys)@ == absorb_tx(old(keys)@, *tx),
        r == relevant(graph@, old(keys)@, *tx),
{
    let ghost start = keys@;
    let mut pays: bool = false;
    let mut v: usize = 0;
    while v < tx.outputs.len()
        invariant
            keys.wf(),
            v <= tx.outputs@.len(),
            keys@ == absorb_outputs(start, tx.outputs@, v as int),
            pays == pays_wallet(start, tx.outputs@, v as int),
        decreases tx.outputs@.len() - v,
    {
        if keys.match_script(&tx.outputs[v].script).is_some() {
            pays = true;
        }
        v = v + 1;
    }
    let mut spends: bool = false;
    let mut k: usize = 0;
    while k < tx.inputs.len()
        invariant
            graph.wf(),
            keys.wf(),
            k <= tx.inputs@.len(),
            spends == spends_wallet(graph@, keys@, tx.inputs@, k as int),
        decreases tx.inputs@.len() - k,
    {
        match graph.prevout(&tx.inputs[k]) {
            Some(o) => {
                if keys.lookup(&o.script).is_some() {
                    spends = true;
                }
            },
            None => {},
        }
        k = k + 1;
    }
    pays || spends
}

} // verus!

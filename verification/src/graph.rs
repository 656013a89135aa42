//! The transactions the wallet knows, with where each stands in the chain.

use vstd::prelude::*;
use crate::backend::{decode_tx, tx_decoding};
use crate::chain::{chain_holds, ChainIndex};
use crate::types::{bytes_eq, ChainPosition, OutPoint, Tx};

verus! {

/// A transaction the wallet knows, where it stands relative to the chain,
/// and when it was last seen unconfirmed, if it ever was.
#[derive(Clone, Debug)]
pub struct TxRecord {
    pub tx: Tx,
    pub position: ChainPosition,
    pub first_seen: Option<u64>,
}

/// Whether a transaction with this id is among the records.
pub open spec fn has_tx(g: Seq<TxRecord>, txid: Seq<u8>) -> bool {
    exists|i: int| 0 <= i < g.len() && (#[trigger] g[i]).tx.txid@ == txid
}

/// The place of the transaction with this id among the records.
pub open spec fn tx_index(g: Seq<TxRecord>, txid: Seq<u8>) -> int {
    choose|i: int| 0 <= i < g.len() && (#[trigger] g[i]).tx.txid@ == txid
}

/// No two records hold the same transaction id.
pub open spec fn distinct_ids(g: Seq<TxRecord>) -> bool {
    forall|i: int, j: int| 0 <= i < j < g.len() ==> (#[trigger] g[i]).tx.txid@ != (#[trigger] g[j]).tx.txid@
}

/// No output is spent twice: no two inputs of the records refer to the same output.
pub open spec fn no_double_spend(g: Seq<TxRecord>) -> bool {
    forall|j: int, k: int, j2: int, k2: int|
        0 <= j < g.len() && 0 <= k < g[j].tx.inputs@.len() && 0 <= j2 < g.len() && 0 <= k2
            < g[j2].tx.inputs@.len() && (j != j2 || k != k2) ==> (#[trigger] g[j].tx.inputs@[k])@
            != (#[trigger] g[j2].tx.inputs@[k2])@
}

/// No record spends an output of its own transaction.
pub open spec fn no_self_spend(g: Seq<TxRecord>) -> bool {
    forall|j: int, k: int|
        0 <= j < g.len() && 0 <= k < g[j].tx.inputs@.len() ==> (#[trigger] g[j].tx.inputs@[k]).txid@
            != g[j].tx.txid@
}

/// Every output of every record can be named by a 32-bit position.
pub open spec fn outputs_indexable(g: Seq<TxRecord>) -> bool {
    forall|i: int| 0 <= i < g.len() ==> (#[trigger] g[i]).tx.outputs@.len() <= u32::MAX + 1
}

/// Whether a transaction is what its bytes decode to, under an id of 32 bytes.
pub open spec fn decoded(tx: Tx) -> bool {
    tx_decoding(tx.raw@) == Some(tx@) && tx.txid@.len() == 32
}

/// Every record holds a transaction that is what its bytes decode to.
pub open spec fn all_decoded(g: Seq<TxRecord>) -> bool {
    forall|i: int| 0 <= i < g.len() ==> decoded((#[trigger] g[i]).tx)
}

/// What holds of the records of every graph: no id twice, no output spent
/// twice or by its own transaction, every output within reach of a
/// reference, and every transaction what its bytes decode to.
pub open spec fn graph_ok(g: Seq<TxRecord>) -> bool {
    &&& distinct_ids(g)
    &&& no_double_spend(g)
    &&& no_self_spend(g)
    &&& outputs_indexable(g)
    &&& all_decoded(g)
}

/// Whether two transactions conflict: an input of one spends the same output
/// as an input of the other.
pub open spec fn shares_input(a: Tx, b: Tx) -> bool {
    exists|k: int, l: int|
        0 <= k < a.inputs@.len() && 0 <= l < b.inputs@.len() && (#[trigger] a.inputs@[k])@ == (
        #[trigger] b.inputs@[l])@
}

/// Whether a transaction can stand among the records at all: it spends no
/// output twice and none of its own, and its outputs are within reach of a
/// reference.
pub open spec fn sound(tx: Tx) -> bool {
    &&& forall|k: int, l: int|
        0 <= k < l < tx.inputs@.len() ==> (#[trigger] tx.inputs@[k])@ != (#[trigger] tx.inputs@[l])@
    &&& forall|k: int| 0 <= k < tx.inputs@.len() ==> (#[trigger] tx.inputs@[k]).txid@ != tx.txid@
    &&& tx.outputs@.len() <= u32::MAX + 1
}

/// Whether a transaction that comes at position `new` takes the place of a
/// conflicting one at position `old`: a confirmed one yields to nothing, an
/// unconfirmed one yields to a confirmed one and to one seen no earlier.
pub open spec fn beats(new: ChainPosition, old: ChainPosition) -> bool {
    match old {
        ChainPosition::Confirmed { .. } => false,
        ChainPosition::Unconfirmed { first_seen_unix } => match new {
            ChainPosition::Confirmed { .. } => true,
            ChainPosition::Unconfirmed { first_seen_unix: seen } => seen >= first_seen_unix,
        },
    }
}

/// Whether a new transaction enters the records: it is sound and takes the
/// place of every record it conflicts with.
pub open spec fn wins(g: Seq<TxRecord>, tx: Tx, position: ChainPosition) -> bool {
    &&& sound(tx)
    &&& forall|j: int| 0 <= j < g.len() && shares_input((#[trigger] g[j]).tx, tx) ==> beats(position, g[j].position)
}

/// Those of the first `n` records that do not conflict with a transaction, in their order.
pub open spec fn kept(g: Seq<TxRecord>, tx: Tx, n: int) -> Seq<TxRecord>
    decreases n,
{
    if n <= 0 {
        Seq::empty()
    } else if shares_input(g[n - 1].tx, tx) {
        kept(g, tx, n - 1)
    } else {
        kept(g, tx, n - 1).push(g[n - 1])
    }
}

/// The place among the first `n` records of the record that `kept` holds at place `a`.
pub open spec fn origin(g: Seq<TxRecord>, tx: Tx, n: int, a: int) -> int
    decreases n,
{
    if n <= 0 {
        0
    } else if !shares_input(g[n - 1].tx, tx) && a == kept(g, tx, n - 1).len() {
        n - 1
    } else {
        origin(g, tx, n - 1, a)
    }
}

/// The records after a new transaction has come at a position: where it
/// wins, the records it conflicts with leave and it is added at the end;
/// where it does not, nothing changes.
pub open spec fn enter(g: Seq<TxRecord>, tx: Tx, position: ChainPosition, first_seen: Option<u64>) -> Seq<TxRecord> {
    if wins(g, tx, position) {
        kept(g, tx, g.len() as int).push(TxRecord { tx: tx, position: position, first_seen: first_seen })
    } else {
        g
    }
}

/// What `kept` holds at a place: a record that does not conflict, from the
/// place that `origin` names.
pub proof fn lemma_kept_at(g: Seq<TxRecord>, tx: Tx, n: int, a: int)
    requires
        0 <= n <= g.len(),
        0 <= a < kept(g, tx, n).len(),
    ensures
        kept(g, tx, n).len() <= n,
        0 <= origin(g, tx, n, a) < n,
        kept(g, tx, n)[a] == g[origin(g, tx, n, a)],
        !shares_input(g[origin(g, tx, n, a)].tx, tx),
    decreases n,
{
    if n > 0 {
        if a < kept(g, tx, n - 1).len() {
            lemma_kept_at(g, tx, n - 1, a);
        } else if kept(g, tx, n - 1).len() > 0 {
            lemma_kept_at(g, tx, n - 1, 0);
        }
    }
}

/// `kept` holds its records in the order of the records.
pub proof fn lemma_kept_order(g: Seq<TxRecord>, tx: Tx, n: int, a: int, b: int)
    requires
        0 <= n <= g.len(),
        0 <= a < b < kept(g, tx, n).len(),
    ensures
        origin(g, tx, n, a) < origin(g, tx, n, b),
    decreases n,
{
    if n > 0 {
        if b < kept(g, tx, n - 1).len() {
            lemma_kept_order(g, tx, n - 1, a, b);
        } else {
            lemma_kept_at(g, tx, n - 1, a);
        }
    }
}

/// `kept` holds every record that does not conflict.
pub proof fn lemma_kept_has(g: Seq<TxRecord>, tx: Tx, n: int, j: int)
    requires
        0 <= j < n <= g.len(),
        !shares_input(g[j].tx, tx),
    ensures
        kept(g, tx, j).len() < kept(g, tx, n).len(),
        kept(g, tx, n)[kept(g, tx, j).len() as int] == g[j],
    decreases n,
{
    if j < n - 1 {
        lemma_kept_has(g, tx, n - 1, j);
    }
}

/// A new transaction that comes leaves the records in order: what holds of
/// every graph holds after it.
pub proof fn lemma_enter_ok(g: Seq<TxRecord>, tx: Tx, position: ChainPosition, first_seen: Option<u64>)
    requires
        graph_ok(g),
        decoded(tx),
        !has_tx(g, tx.txid@),
    ensures
        graph_ok(enter(g, tx, position, first_seen)),
{
    if wins(g, tx, position) {
        let n = g.len() as int;
        let d = kept(g, tx, n);
        let rec = TxRecord { tx: tx, position: position, first_seen: first_seen };
        let h = d.push(rec);
        assert forall|i: int, j: int| 0 <= i < j < h.len() implies (#[trigger] h[i]).tx.txid@ != (
        #[trigger] h[j]).tx.txid@ by {
            lemma_kept_at(g, tx, n, i);
            if j < d.len() {
                lemma_kept_at(g, tx, n, j);
                lemma_kept_order(g, tx, n, i, j);
            }
        }
        assert forall|j: int, k: int, j2: int, k2: int|
            0 <= j < h.len() && 0 <= k < h[j].tx.inputs@.len() && 0 <= j2 < h.len() && 0 <= k2
                < h[j2].tx.inputs@.len() && (j != j2 || k != k2) implies (#[trigger] h[j].tx.inputs@[k])@ != (
        #[trigger] h[j2].tx.inputs@[k2])@ by {
            if j < d.len() && j2 < d.len() {
                lemma_kept_at(g, tx, n, j);
                lemma_kept_at(g, tx, n, j2);
                let o = origin(g, tx, n, j);
                let o2 = origin(g, tx, n, j2);
                if j < j2 {
                    lemma_kept_order(g, tx, n, j, j2);
                }
                if j2 < j {
                    lemma_kept_order(g, tx, n, j2, j);
                }
                assert(g[o].tx.inputs@[k]@ != g[o2].tx.inputs@[k2]@);
            } else if j < d.len() {
                lemma_kept_at(g, tx, n, j);
            } else if j2 < d.len() {
                lemma_kept_at(g, tx, n, j2);
            } else {
                if k < k2 {
                    assert(tx.inputs@[k]@ != tx.inputs@[k2]@);
                } else {
                    assert(tx.inputs@[k2]@ != tx.inputs@[k]@);
                }
            }
        }
        assert forall|j: int, k: int| 0 <= j < h.len() && 0 <= k < h[j].tx.inputs@.len() implies (
        #[trigger] h[j].tx.inputs@[k]).txid@ != h[j].tx.txid@ by {
            if j < d.len() {
                lemma_kept_at(g, tx, n, j);
                assert(g[origin(g, tx, n, j)].tx.inputs@[k].txid@ != g[origin(g, tx, n, j)].tx.txid@);
            }
        }
        assert forall|i: int| 0 <= i < h.len() implies (#[trigger] h[i]).tx.outputs@.len() <= u32::MAX + 1
            && decoded(h[i].tx) by {
            if i < d.len() {
                lemma_kept_at(g, tx, n, i);
            }
        }
    }
}

/// A record that a new transaction does not take the place of stays: it is
/// among the records afterwards, as it was.
pub proof fn lemma_enter_keeps(g: Seq<TxRecord>, tx: Tx, position: ChainPosition, first_seen: Option<u64>, i: int)
    requires
        graph_ok(g),
        decoded(tx),
        !has_tx(g, tx.txid@),
        0 <= i < g.len(),
        (shares_input(g[i].tx, tx) ==> !beats(position, g[i].position)),
    ensures
        has_tx(enter(g, tx, position, first_seen), g[i].tx.txid@),
        enter(g, tx, position, first_seen)[tx_index(enter(g, tx, position, first_seen), g[i].tx.txid@)] == g[i],
{
    let h = enter(g, tx, position, first_seen);
    lemma_enter_ok(g, tx, position, first_seen);
    if wins(g, tx, position) {
        let n = g.len() as int;
        lemma_kept_has(g, tx, n, i);
        let a = kept(g, tx, i).len() as int;
        assert(h[a] == g[i]);
        lemma_tx_index(h, g[i].tx.txid@, a);
    } else {
        lemma_tx_index(h, g[i].tx.txid@, i);
    }
}

/// Every record after a new transaction has come is the new one or was a record before.
pub proof fn lemma_enter_from(g: Seq<TxRecord>, tx: Tx, position: ChainPosition, first_seen: Option<u64>, a: int)
    requires
        0 <= a < enter(g, tx, position, first_seen).len(),
    ensures
        enter(g, tx, position, first_seen)[a] == (TxRecord { tx: tx, position: position, first_seen: first_seen })
            || exists|j: int| 0 <= j < g.len() && enter(g, tx, position, first_seen)[a] == #[trigger] g[j],
{
    if wins(g, tx, position) {
        let n = g.len() as int;
        if a < kept(g, tx, n).len() {
            lemma_kept_at(g, tx, n, a);
        }
    }
}

/// The later of two times.
pub open spec fn later(a: u64, b: u64) -> u64 {
    if a >= b {
        a
    } else {
        b
    }
}

/// The records after a transaction has been seen in the block `(height, hash)`:
/// a confirmed transaction stays where it is; an unconfirmed one is confirmed
/// in the block; an unknown one comes as a new transaction, confirmed.
pub open spec fn confirm(g: Seq<TxRecord>, tx: Tx, height: u32, hash: [u8; 32]) -> Seq<TxRecord> {
    let position = ChainPosition::Confirmed { anchor_height: height, anchor_hash: hash };
    if has_tx(g, tx.txid@) {
        let i = tx_index(g, tx.txid@);
        match g[i].position {
            ChainPosition::Confirmed { .. } => g,
            ChainPosition::Unconfirmed { .. } => g.update(i, TxRecord { position: position, ..g[i] }),
        }
    } else {
        enter(g, tx, position, None)
    }
}

/// The records after a transaction has been seen unconfirmed at time `seen`:
/// a confirmed transaction stays as it is; an unconfirmed one keeps the later
/// of the two times; an unknown one comes as a new transaction, unconfirmed.
pub open spec fn observe(g: Seq<TxRecord>, tx: Tx, seen: u64) -> Seq<TxRecord> {
    if has_tx(g, tx.txid@) {
        let i = tx_index(g, tx.txid@);
        match g[i].position {
            ChainPosition::Confirmed { .. } => g,
            ChainPosition::Unconfirmed { first_seen_unix } => {
                let t = later(first_seen_unix, seen);
                g.update(
                    i,
                    TxRecord {
                        position: ChainPosition::Unconfirmed { first_seen_unix: t },
                        first_seen: Some(t),
                        ..g[i]
                    },
                )
            },
        }
    } else {
        enter(g, tx, ChainPosition::Unconfirmed { first_seen_unix: seen }, Some(seen))
    }
}

/// A record after every block above `height` has been disconnected at time
/// `now`: a confirmation above `height` falls back to unconfirmed, at the
/// time the transaction was last seen unconfirmed, or at `now`.
pub open spec fn revert(r: TxRecord, height: u32, now: u64) -> TxRecord {
    match r.position {
        ChainPosition::Confirmed { anchor_height, .. } => if anchor_height > height {
            let t = match r.first_seen {
                Some(t) => t,
                None => now,
            };
            TxRecord {
                position: ChainPosition::Unconfirmed { first_seen_unix: t },
                first_seen: Some(t),
                ..r
            }
        } else {
            r
        },
        ChainPosition::Unconfirmed { .. } => r,
    }
}

/// The position of the transaction with this id, if it is known.
pub open spec fn position_of(g: Seq<TxRecord>, txid: Seq<u8>) -> Option<ChainPosition> {
    if has_tx(g, txid) {
        Some(g[tx_index(g, txid)].position)
    } else {
        None
    }
}

/// Among distinct ids, a record that carries the id is the one `tx_index` names.
pub proof fn lemma_tx_index(g: Seq<TxRecord>, txid: Seq<u8>, i: int)
    requires
        distinct_ids(g),
        0 <= i < g.len(),
        g[i].tx.txid@ == txid,
    ensures
        has_tx(g, txid),
        tx_index(g, txid) == i,
{
}

/// Monotonic confirmation: a transaction that is confirmed stays exactly
/// where it is when it is seen unconfirmed again, and so does every other
/// record.
pub proof fn lemma_observe_keeps_confirmed(g: Seq<TxRecord>, tx: Tx, seen: u64)
    requires
        distinct_ids(g),
        position_of(g, tx.txid@) matches Some(p) && p is Confirmed,
    ensures
        observe(g, tx, seen) == g,
{
}

/// Records that differ in position and time only are in order together.
pub proof fn lemma_same_txs_ok(g: Seq<TxRecord>, h: Seq<TxRecord>)
    requires
        graph_ok(g),
        h.len() == g.len(),
        forall|i: int| 0 <= i < g.len() ==> (#[trigger] h[i]).tx == g[i].tx,
    ensures
        graph_ok(h),
{
    assert forall|i: int, j: int| 0 <= i < j < h.len() implies (#[trigger] h[i]).tx.txid@ != (#[trigger] h[j]).tx.txid@ by {
        assert(h[i].tx == g[i].tx && h[j].tx == g[j].tx);
    }
    assert forall|j: int, k: int, j2: int, k2: int|
        0 <= j < h.len() && 0 <= k < h[j].tx.inputs@.len() && 0 <= j2 < h.len() && 0 <= k2
            < h[j2].tx.inputs@.len() && (j != j2 || k != k2) implies (#[trigger] h[j].tx.inputs@[k])@ != (
    #[trigger] h[j2].tx.inputs@[k2])@ by {
        assert(h[j].tx == g[j].tx && h[j2].tx == g[j2].tx);
        assert(g[j].tx.inputs@[k]@ != g[j2].tx.inputs@[k2]@);
    }
    assert forall|j: int, k: int| 0 <= j < h.len() && 0 <= k < h[j].tx.inputs@.len() implies (
    #[trigger] h[j].tx.inputs@[k]).txid@ != h[j].tx.txid@ by {
        assert(h[j].tx == g[j].tx);
        assert(g[j].tx.inputs@[k].txid@ != g[j].tx.txid@);
    }
    assert forall|i: int| 0 <= i < h.len() implies (#[trigger] h[i]).tx.outputs@.len() <= u32::MAX + 1 && decoded(
        h[i].tx,
    ) by {
        assert(h[i].tx == g[i].tx);
    }
}

/// Seeing a transaction unconfirmed leaves the records in order.
pub proof fn lemma_observe_ok(g: Seq<TxRecord>, tx: Tx, seen: u64)
    requires
        graph_ok(g),
        decoded(tx),
    ensures
        graph_ok(observe(g, tx, seen)),
{
    let h = observe(g, tx, seen);
    if has_tx(g, tx.txid@) {
        let k = tx_index(g, tx.txid@);
        assert(0 <= k < g.len() && g[k].tx.txid@ == tx.txid@);
        lemma_same_txs_ok(g, h);
    } else {
        lemma_enter_ok(g, tx, ChainPosition::Unconfirmed { first_seen_unix: seen }, Some(seen));
    }
}

/// Seeing a transaction in a block leaves the records in order.
pub proof fn lemma_confirm_ok(g: Seq<TxRecord>, tx: Tx, height: u32, hash: [u8; 32])
    requires
        graph_ok(g),
        decoded(tx),
    ensures
        graph_ok(confirm(g, tx, height, hash)),
{
    let h = confirm(g, tx, height, hash);
    if has_tx(g, tx.txid@) {
        let k = tx_index(g, tx.txid@);
        assert(0 <= k < g.len() && g[k].tx.txid@ == tx.txid@);
        lemma_same_txs_ok(g, h);
    } else {
        lemma_enter_ok(g, tx, ChainPosition::Confirmed { anchor_height: height, anchor_hash: hash }, None);
    }
}

/// Taking confirmations back leaves the records in order.
pub proof fn lemma_revert_ok(g: Seq<TxRecord>, height: u32, now: u64)
    requires
        graph_ok(g),
    ensures
        graph_ok(g.map_values(|r: TxRecord| revert(r, height, now))),
{
    lemma_same_txs_ok(g, g.map_values(|r: TxRecord| revert(r, height, now)));
}

/// Seeing a transaction unconfirmed never changes the position of a
/// confirmed transaction, whichever transaction was seen: a confirmed
/// transaction yields to nothing.
pub proof fn lemma_observe_keeps_every_confirmed(g: Seq<TxRecord>, tx: Tx, seen: u64, txid: Seq<u8>)
    requires
        graph_ok(g),
        decoded(tx),
        position_of(g, txid) matches Some(p) && p is Confirmed,
    ensures
        position_of(observe(g, tx, seen), txid) == position_of(g, txid),
        graph_ok(observe(g, tx, seen)),
{
    let h = observe(g, tx, seen);
    let i = tx_index(g, txid);
    assert(0 <= i < g.len() && g[i].tx.txid@ == txid);
    lemma_observe_ok(g, tx, seen);
    if has_tx(g, tx.txid@) {
        let k = tx_index(g, tx.txid@);
        assert(0 <= k < g.len() && g[k].tx.txid@ == tx.txid@);
        if k != i {
            assert(h[i] == g[i]);
            lemma_tx_index(h, txid, i);
        }
    } else {
        lemma_enter_keeps(g, tx, ChainPosition::Unconfirmed { first_seen_unix: seen }, Some(seen), i);
    }
}

/// Seeing a transaction in a block never changes the position of a
/// confirmed transaction, whichever transaction was seen.
pub proof fn lemma_confirm_keeps_every_confirmed(g: Seq<TxRecord>, tx: Tx, height: u32, hash: [u8; 32], txid: Seq<u8>)
    requires
        graph_ok(g),
        decoded(tx),
        position_of(g, txid) matches Some(p) && p is Confirmed,
    ensures
        position_of(confirm(g, tx, height, hash), txid) == position_of(g, txid),
        graph_ok(confirm(g, tx, height, hash)),
{
    let h = confirm(g, tx, height, hash);
    let i = tx_index(g, txid);
    assert(0 <= i < g.len() && g[i].tx.txid@ == txid);
    lemma_confirm_ok(g, tx, height, hash);
    if has_tx(g, tx.txid@) {
        let k = tx_index(g, tx.txid@);
        assert(0 <= k < g.len() && g[k].tx.txid@ == tx.txid@);
        if k != i {
            assert(h[i] == g[i]);
            lemma_tx_index(h, txid, i);
        }
    } else {
        lemma_enter_keeps(g, tx, ChainPosition::Confirmed { anchor_height: height, anchor_hash: hash }, None, i);
    }
}

/// The transactions the wallet knows, in the order in which it learnt of them.
#[derive(Clone, Debug)]
pub struct TransactionGraph {
    records: Vec<TxRecord>,
}

impl View for TransactionGraph {
    type V = Seq<TxRecord>;

    closed spec fn view(&self) -> Seq<TxRecord> {
        self.records@
    }
}

impl TransactionGraph {
    /// The invariant of the graph: what holds of the records of every graph.
    pub open spec fn wf(&self) -> bool {
        graph_ok(self@)
    }

    /// A graph without transactions.
    pub fn new() -> (r: Self)
        ensures
            r@ == Seq::<TxRecord>::empty(),
            r.wf(),
    {
        TransactionGraph { records: Vec::new() }
    }

    /// The number of transactions.
    pub fn len(&self) -> (r: usize)
        ensures
            r == self@.len(),
    {
        self.records.len()
    }

    /// The record at a place.
    pub fn record(&self, i: usize) -> (r: &TxRecord)
        requires
            i < self@.len(),
        ensures
            *r == self@[i as int],
    {
        &self.records[i]
    }

    /// The place of the transaction with this id, if it is known.
    pub fn find(&self, txid: &Vec<u8>) -> (r: Option<usize>)
        requires
            self.wf(),
        ensures
            r is Some <==> has_tx(self@, txid@),
            r matches Some(i) ==> i == tx_index(self@, txid@) && i < self@.len() && self@[i as int].tx.txid@
                == txid@,
    {
        let mut i: usize = 0;
        while i < self.records.len()
            invariant
                self.wf(),
                i <= self.records@.len(),
                forall|j: int| 0 <= j < i ==> (#[trigger] self.records@[j]).tx.txid@ != txid@,
            decreases self.records@.len() - i,
        {
            if bytes_eq(&self.records[i].tx.txid, txid) {
                proof {
                    lemma_tx_index(self@, txid@, i as int);
                }
                return Some(i);
            }
            i = i + 1;
        }
        None
    }

    /// Whether a new transaction at a position takes the place of every
    /// record it conflicts with, and is sound.
    pub fn wins_over(&self, tx: &Tx, position: &ChainPosition) -> (r: bool)
        ensures
            r == wins(self@, *tx, *position),
    {
        if !is_sound(tx) {
            return false;
        }
        let mut j: usize = 0;
        while j < self.records.len()
            invariant
                j <= self.records@.len(),
                forall|i: int|
                    0 <= i < j && shares_input((#[trigger] self.records@[i]).tx, *tx) ==> beats(
                        *position,
                        self.records@[i].position,
                    ),
            decreases self.records@.len() - j,
        {
            if conflicts(&self.records[j].tx, tx) && !yields(position, &self.records[j].position) {
                return false;
            }
            j = j + 1;
        }
        true
    }

    /// Lets a new transaction in, if it wins: the records it conflicts with
    /// leave, and it is added at the end. Returns whether it came in.
    pub fn enter(&mut self, tx: Tx, position: ChainPosition, first_seen: Option<u64>) -> (r: bool)
        requires
            old(self).wf(),
            decoded(tx),
            !has_tx(old(self)@, tx.txid@),
        ensures
            final(self).wf(),
            final(self)@ == enter(old(self)@, tx, position, first_seen),
            r == wins(old(self)@, tx, position),
    {
        proof {
            lemma_enter_ok(self@, tx, position, first_seen);
        }
        if !self.wins_over(&tx, &position) {
            return false;
        }
        let ghost g = self.records@;
        let mut i: usize = 0;
        let ghost mut p: int = 0;
        while i < self.records.len()
            invariant
                0 <= p <= g.len(),
                i == kept(g, tx, p).len(),
                self.records@ == kept(g, tx, p) + g.skip(p),
            ensures
                self.records@ == kept(g, tx, g.len() as int),
            decreases g.len() - p,
        {
            let ghost before = self.records@;
            assert(before[i as int] == g[p]);
            if conflicts(&self.records[i].tx, &tx) {
                self.records.remove(i);
                proof {
                    assert(self.records@ =~= kept(g, tx, p + 1) + g.skip(p + 1));
                    p = p + 1;
                }
            } else {
                proof {
                    assert(self.records@ =~= kept(g, tx, p + 1) + g.skip(p + 1));
                    p = p + 1;
                }
                i = i + 1;
            }
        }
        self.records.push(TxRecord { tx: tx, position: position, first_seen: first_seen });
        true
    }

    /// Records that the transaction is confirmed in the block `(height, block_hash)`,
    /// which the chain must hold. A transaction that is confirmed already keeps
    /// its place. An unknown transaction comes in if it is sound and no
    /// confirmed record spends an output that it spends; the unconfirmed
    /// records that do so leave. Returns whether the transaction came in as new.
    pub fn insert_confirmed(&mut self, chain: &ChainIndex, tx: Tx, height: u32, block_hash: [u8; 32]) -> (r: bool)
        requires
            old(self).wf(),
            decoded(tx),
            chain_holds(chain@, height, block_hash@),
        ensures
            final(self).wf(),
            final(self)@ == confirm(old(self)@, tx, height, block_hash),
            r == (!has_tx(old(self)@, tx.txid@) && wins(
                old(self)@,
                tx,
                ChainPosition::Confirmed { anchor_height: height, anchor_hash: block_hash },
            )),
    {
        proof {
            lemma_confirm_ok(self@, tx, height, block_hash);
        }
        match self.find(&tx.txid) {
            Some(i) => {
                let confirmed: bool = match &self.records[i].position {
                    ChainPosition::Confirmed { .. } => true,
                    ChainPosition::Unconfirmed { .. } => false,
                };
                if !confirmed {
                    self.records[i].position =
                    ChainPosition::Confirmed { anchor_height: height, anchor_hash: block_hash };
                }
                false
            },
            None => self.enter(tx, ChainPosition::Confirmed { anchor_height: height, anchor_hash: block_hash }, None),
        }
    }

    /// Records that the transaction was seen unconfirmed at time `seen`. A
    /// known transaction keeps the later time. An unknown transaction comes
    /// in if it is sound and every record that spends an output that it
    /// spends is unconfirmed and was seen no later; those records leave.
    /// Returns whether the transaction came in as new.
    pub fn insert_unconfirmed(&mut self, tx: Tx, seen: u64) -> (r: bool)
        requires
            old(self).wf(),
            decoded(tx),
        ensures
            final(self).wf(),
            final(self)@ == observe(old(self)@, tx, seen),
            r == (!has_tx(old(self)@, tx.txid@) && wins(
                old(self)@,
                tx,
                ChainPosition::Unconfirmed { first_seen_unix: seen },
            )),
    {
        proof {
            lemma_observe_ok(self@, tx, seen);
        }
        match self.find(&tx.txid) {
            Some(i) => {
                let known: Option<u64> = match &self.records[i].position {
                    ChainPosition::Confirmed { .. } => None,
                    ChainPosition::Unconfirmed { first_seen_unix } => Some(*first_seen_unix),
                };
                match known {
                    Some(before) => {
                        let t: u64 = if before >= seen {
                            before
                        } else {
                            seen
                        };
                        self.records[i].position = ChainPosition::Unconfirmed { first_seen_unix: t };
                        self.records[i].first_seen = Some(t);
                    },
                    None => {},
                }
                false
            },
            None => self.enter(tx, ChainPosition::Unconfirmed { first_seen_unix: seen }, Some(seen)),
        }
    }

    /// Takes back every confirmation in a block above `height`.
    pub fn disconnect_block(&mut self, height: u32, now: u64)
        requires
            old(self).wf(),
        ensures
            final(self).wf(),
            final(self)@ == old(self)@.map_values(|r: TxRecord| revert(r, height, now)),
    {
        let n: usize = self.records.len();
        let mut i: usize = 0;
        while i < n
            invariant
                n == self.records@.len(),
                n == old(self)@.len(),
                i <= n,
                forall|j: int| 0 <= j < i ==> self.records@[j] == revert(old(self)@[j], height, now),
                forall|j: int| i <= j < n ==> self.records@[j] == old(self)@[j],
            decreases n - i,
        {
            let fallen: bool = match &self.records[i].position {
                ChainPosition::Confirmed { anchor_height, .. } => *anchor_height > height,
                ChainPosition::Unconfirmed { .. } => false,
            };
            if fallen {
                let t: u64 = match self.records[i].first_seen {
                    Some(t) => t,
                    None => now,
                };
                self.records[i].position = ChainPosition::Unconfirmed { first_seen_unix: t };
                self.records[i].first_seen = Some(t);
            }
            i = i + 1;
        }
        proof {
            let h = old(self)@.map_values(|r: TxRecord| revert(r, height, now));
            assert(self.records@ =~= h);
            lemma_revert_ok(old(self)@, height, now);
        }
    }
}

/// Whether two references name the same output.
fn same_point(a: &OutPoint, b: &OutPoint) -> (r: bool)
    ensures
        r == (a@ == b@),
{
    a.vout == b.vout && bytes_eq(&a.txid, &b.txid)
}

/// Whether two transactions conflict.
pub fn conflicts(a: &Tx, b: &Tx) -> (r: bool)
    ensures
        r == shares_input(*a, *b),
{
    let mut k: usize = 0;
    while k < a.inputs.len()
        invariant
            k <= a.inputs@.len(),
            forall|i: int, l: int|
                0 <= i < k && 0 <= l < b.inputs@.len() ==> (#[trigger] a.inputs@[i])@ != (#[trigger] b.inputs@[l])@,
        decreases a.inputs@.len() - k,
    {
        let mut l: usize = 0;
        while l < b.inputs.len()
            invariant
                k < a.inputs@.len(),
                l <= b.inputs@.len(),
                forall|j: int| 0 <= j < l ==> a.inputs@[k as int]@ != (#[trigger] b.inputs@[j])@,
            decreases b.inputs@.len() - l,
        {
            if same_point(&a.inputs[k], &b.inputs[l]) {
                assert(a.inputs@[k as int]@ == b.inputs@[l as int]@);
                return true;
            }
            l = l + 1;
        }
        k = k + 1;
    }
    false
}

/// Whether a transaction can stand among the records at all.
pub fn is_sound(tx: &Tx) -> (r: bool)
    ensures
        r == sound(*tx),
{
    if tx.outputs.len() as u64 > u32::MAX as u64 + 1 {
        return false;
    }
    let mut l: usize = 0;
    while l < tx.inputs.len()
        invariant
            l <= tx.inputs@.len(),
            forall|a: int, b: int| 0 <= a < b < l ==> (#[trigger] tx.inputs@[a])@ != (#[trigger] tx.inputs@[b])@,
            forall|a: int| 0 <= a < l ==> (#[trigger] tx.inputs@[a]).txid@ != tx.txid@,
        decreases tx.inputs@.len() - l,
    {
        if bytes_eq(&tx.inputs[l].txid, &tx.txid) {
            return false;
        }
        let mut k: usize = 0;
        while k < l
            invariant
                k <= l < tx.inputs@.len(),
                forall|a: int| 0 <= a < k ==> (#[trigger] tx.inputs@[a])@ != tx.inputs@[l as int]@,
            decreases l - k,
        {
            if same_point(&tx.inputs[k], &tx.inputs[l]) {
                assert(tx.inputs@[k as int]@ == tx.inputs@[l as int]@);
                return false;
            }
            k = k + 1;
        }
        l = l + 1;
    }
    true
}

/// Whether a record at position `old` yields its place to a transaction that comes at `new`.
pub fn yields(new: &ChainPosition, old: &ChainPosition) -> (r: bool)
    ensures
        r == beats(*new, *old),
{
    match old {
        ChainPosition::Confirmed { .. } => false,
        ChainPosition::Unconfirmed { first_seen_unix } => match new {
            ChainPosition::Confirmed { .. } => true,
            ChainPosition::Unconfirmed { first_seen_unix: seen } => *seen >= *first_seen_unix,
        },
    }
}

/// Decodes a serialized transaction.
pub fn decode_transaction(bytes: &[u8]) -> (r: Option<Tx>)
    ensures
        r is Some <==> tx_decoding(bytes@) is Some,
        r matches Some(tx) ==> decoded(tx) && tx.raw@ == bytes@,
{
    match decode_tx(bytes) {
        Ok(tx) => Some(tx),
        Err(_) => None,
    }
}

} // verus!

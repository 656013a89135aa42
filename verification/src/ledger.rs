//! What the known transactions mean for the wallet: amounts sent and
//! received, unspent outputs, and the balance.

use vstd::prelude::*;
use crate::graph::{has_tx, outputs_indexable, tx_index, TransactionGraph, TxRecord};
use crate::keychain::{KeychainIndex, KeychainView};
use crate::types::{bytes_clone, bytes_eq, Balance, ChainPosition, KeychainKind, OutPoint, OutPointView, Tx, TxInfo, TxOut, UtxoInfo};

verus! {

/// Confirmations a coinbase output needs before it counts as spendable.
pub const COINBASE_MATURITY: u32 = 100;

/// An amount as it is reported: exact up to the largest `u64`, and that value beyond.
pub open spec fn capped(x: int) -> u64 {
    if x > u64::MAX {
        u64::MAX
    } else {
        x as u64
    }
}

/// The depth of a position below a tip at height `tip`: nothing while
/// unconfirmed or above the tip, else one more than the distance to the tip.
pub open spec fn depth(position: ChainPosition, tip: u32) -> u32 {
    match position {
        ChainPosition::Confirmed { anchor_height, .. } => if anchor_height > tip {
            0
        } else if tip + 1 - anchor_height > u32::MAX {
            u32::MAX
        } else {
            (tip + 1 - anchor_height) as u32
        },
        ChainPosition::Unconfirmed { .. } => 0,
    }
}

/// What an output brings the wallet: its value if the wallet owns its script.
pub open spec fn owned_value(o: TxOut, kv: KeychainView) -> int {
    if kv.owns(o.script@) {
        o.value as int
    } else {
        0
    }
}

/// The sum of what the first `n` outputs bring the wallet.
pub open spec fn received_upto(outputs: Seq<TxOut>, n: int, kv: KeychainView) -> int
    decreases n,
{
    if n <= 0 {
        0
    } else {
        received_upto(outputs, n - 1, kv) + owned_value(outputs[n - 1], kv)
    }
}

/// The sum of the outputs of a transaction that pay to the wallet.
pub open spec fn received(tx: Tx, kv: KeychainView) -> int {
    received_upto(tx.outputs@, tx.outputs@.len() as int, kv)
}

/// The output that a reference points to, if its transaction is known and has it.
pub open spec fn prevout(g: Seq<TxRecord>, op: OutPointView) -> Option<TxOut> {
    if has_tx(g, op.txid) && op.vout < g[tx_index(g, op.txid)].tx.outputs@.len() {
        Some(g[tx_index(g, op.txid)].tx.outputs@[op.vout as int])
    } else {
        None
    }
}

/// What spending a reference takes from the wallet: the value of the output
/// it points to, if that output is known and the wallet's.
pub open spec fn spent_value(g: Seq<TxRecord>, kv: KeychainView, op: OutPointView) -> int {
    match prevout(g, op) {
        Some(o) => owned_value(o, kv),
        None => 0,
    }
}

/// The sum of what the first `n` inputs take from the wallet.
pub open spec fn spent_upto(g: Seq<TxRecord>, kv: KeychainView, inputs: Seq<OutPoint>, n: int) -> int
    decreases n,
{
    if n <= 0 {
        0
    } else {
        spent_upto(g, kv, inputs, n - 1) + spent_value(g, kv, inputs[n - 1]@)
    }
}

/// The sum of the inputs of a transaction that spend outputs of the wallet.
pub open spec fn spent(g: Seq<TxRecord>, kv: KeychainView, tx: Tx) -> int {
    spent_upto(g, kv, tx.inputs@, tx.inputs@.len() as int)
}

/// Whether every input of the transaction spends an output of the wallet,
/// so that only the wallet can have signed it.
pub open spec fn self_funded(g: Seq<TxRecord>, kv: KeychainView, tx: Tx) -> bool {
    &&& tx.inputs@.len() > 0
    &&& forall|k: int|
        0 <= k < tx.inputs@.len() ==> (prevout(g, (#[trigger] tx.inputs@[k])@) matches Some(o) && kv.owns(
            o.script@,
        ))
}

/// Whether a known transaction, other than the one that made it, spends the output.
pub open spec fn is_spent(g: Seq<TxRecord>, op: OutPointView) -> bool {
    exists|j: int, k: int|
        0 <= j < g.len() && 0 <= k < g[j].tx.inputs@.len() && (#[trigger] g[j].tx.inputs@[k])@ == op
            && g[j].tx.txid@ != op.txid
}

/// Whether output `v` of record `i` is an unspent output of the wallet.
pub open spec fn is_utxo(g: Seq<TxRecord>, kv: KeychainView, i: int, v: int) -> bool {
    &&& v <= u32::MAX
    &&& kv.owns(g[i].tx.outputs@[v].script@)
    &&& !is_spent(g, OutPointView { txid: g[i].tx.txid@, vout: v as u32 })
}

/// The unspent outputs of the wallet among the first `n` outputs of record `i`.
pub open spec fn tx_utxos(g: Seq<TxRecord>, kv: KeychainView, i: int, n: int) -> Seq<(int, int)>
    decreases n,
{
    if n <= 0 {
        Seq::empty()
    } else if is_utxo(g, kv, i, n - 1) {
        tx_utxos(g, kv, i, n - 1).push((i, n - 1))
    } else {
        tx_utxos(g, kv, i, n - 1)
    }
}

/// The unspent outputs of the wallet in the first `m` records, as pairs of
/// record and output position, in the order of the records.
pub open spec fn utxos_upto(g: Seq<TxRecord>, kv: KeychainView, m: int) -> Seq<(int, int)>
    decreases m,
{
    if m <= 0 {
        Seq::empty()
    } else {
        utxos_upto(g, kv, m - 1) + tx_utxos(g, kv, m - 1, g[m - 1].tx.outputs@.len() as int)
    }
}

/// All unspent outputs of the wallet.
pub open spec fn utxo_set(g: Seq<TxRecord>, kv: KeychainView) -> Seq<(int, int)> {
    utxos_upto(g, kv, g.len() as int)
}

/// The value of the output that a pair names.
pub open spec fn value_at(g: Seq<TxRecord>, p: (int, int)) -> int {
    g[p.0].tx.outputs@[p.1].value as int
}

/// The categories of the balance.
pub enum Category {
    Immature,
    TrustedPending,
    UntrustedPending,
    Confirmed,
}

/// The category that an unspent output of record `i` falls under: confirmed
/// coinbase outputs are immature below the maturity depth; unconfirmed
/// outputs are trusted when they are change or come from a transaction that
/// only the wallet can have signed.
pub open spec fn category(g: Seq<TxRecord>, kv: KeychainView, tip: u32, p: (int, int)) -> Category {
    let r = g[p.0];
    match r.position {
        ChainPosition::Confirmed { .. } => if r.tx.coinbase && depth(r.position, tip) < COINBASE_MATURITY {
            Category::Immature
        } else {
            Category::Confirmed
        },
        ChainPosition::Unconfirmed { .. } => if (kv.owner(r.tx.outputs@[p.1].script@) matches Some(o) && o.0
            == KeychainKind::Internal) || self_funded(g, kv, r.tx) {
            Category::TrustedPending
        } else {
            Category::UntrustedPending
        },
    }
}

/// Whether an unspent output can be spent now: all can but immature coinbase outputs.
pub open spec fn spendable(g: Seq<TxRecord>, kv: KeychainView, tip: u32, p: (int, int)) -> bool {
    !(category(g, kv, tip, p) is Immature)
}

/// Those of the first `n` pairs that can be spent now, in their order.
pub open spec fn spendable_upto(g: Seq<TxRecord>, kv: KeychainView, tip: u32, list: Seq<(int, int)>, n: int) -> Seq<(int, int)>
    decreases n,
{
    if n <= 0 {
        Seq::empty()
    } else if spendable(g, kv, tip, list[n - 1]) {
        spendable_upto(g, kv, tip, list, n - 1).push(list[n - 1])
    } else {
        spendable_upto(g, kv, tip, list, n - 1)
    }
}

/// The unspent outputs of the wallet that can be spent now, in the order of the records.
pub open spec fn spendable_set(g: Seq<TxRecord>, kv: KeychainView, tip: u32) -> Seq<(int, int)> {
    spendable_upto(g, kv, tip, utxo_set(g, kv), utxo_set(g, kv).len() as int)
}

/// The sum of the values of the first `n` pairs that fall under a category.
pub open spec fn category_total(g: Seq<TxRecord>, kv: KeychainView, tip: u32, list: Seq<(int, int)>, n: int, c: Category) -> int
    decreases n,
{
    if n <= 0 {
        0
    } else {
        category_total(g, kv, tip, list, n - 1, c) + (if category(g, kv, tip, list[n - 1]) == c {
            value_at(g, list[n - 1])
        } else {
            0
        })
    }
}

/// The sum of the values of a list of outputs.
pub open spec fn total(g: Seq<TxRecord>, list: Seq<(int, int)>) -> int
    decreases list.len(),
{
    if list.len() == 0 {
        0
    } else {
        total(g, list.drop_last()) + value_at(g, list.last())
    }
}

/// The sum of everything the known transactions pay to the wallet, over the first `m` records.
pub open spec fn received_total(g: Seq<TxRecord>, kv: KeychainView, m: int) -> int
    decreases m,
{
    if m <= 0 {
        0
    } else {
        received_total(g, kv, m - 1) + received(g[m - 1].tx, kv)
    }
}

/// What output `v` of record `i` counts as consumed: its value, if it is the
/// wallet's and a known transaction spends it.
pub open spec fn consumed_value(g: Seq<TxRecord>, kv: KeychainView, i: int, v: int) -> int {
    if kv.owns(g[i].tx.outputs@[v].script@) && is_spent(
        g,
        OutPointView { txid: g[i].tx.txid@, vout: v as u32 },
    ) {
        g[i].tx.outputs@[v].value as int
    } else {
        0
    }
}

/// The consumed value among the first `n` outputs of record `i`.
pub open spec fn tx_consumed(g: Seq<TxRecord>, kv: KeychainView, i: int, n: int) -> int
    decreases n,
{
    if n <= 0 {
        0
    } else {
        tx_consumed(g, kv, i, n - 1) + consumed_value(g, kv, i, n - 1)
    }
}

/// The value of the wallet's outputs that known transactions have consumed,
/// over the first `m` records.
pub open spec fn consumed_total(g: Seq<TxRecord>, kv: KeychainView, m: int) -> int
    decreases m,
{
    if m <= 0 {
        0
    } else {
        consumed_total(g, kv, m - 1) + tx_consumed(g, kv, m - 1, g[m - 1].tx.outputs@.len() as int)
    }
}

/// Whether the place `a` comes before the place `b`: in an earlier record,
/// or in the same record at an earlier output.
pub open spec fn ref_before(a: (int, int), b: (int, int)) -> bool {
    a.0 < b.0 || (a.0 == b.0 && a.1 < b.1)
}

/// Whether each place of a list comes before the next.
pub open spec fn refs_increase(s: Seq<(int, int)>) -> bool {
    forall|a: int, b: int| 0 <= a < b < s.len() ==> ref_before(#[trigger] s[a], #[trigger] s[b])
}

/// The reference to the output at a place.
pub open spec fn outpoint_at(g: Seq<TxRecord>, p: (int, int)) -> OutPointView {
    OutPointView { txid: g[p.0].tx.txid@, vout: p.1 as u32 }
}

/// The unspent outputs of one record are listed in the order of its outputs.
pub proof fn lemma_tx_utxos(g: Seq<TxRecord>, kv: KeychainView, i: int, n: int)
    ensures
        refs_increase(tx_utxos(g, kv, i, n)),
        forall|a: int|
            0 <= a < tx_utxos(g, kv, i, n).len() ==> (#[trigger] tx_utxos(g, kv, i, n)[a]).0 == i && 0
                <= tx_utxos(g, kv, i, n)[a].1 < n && is_utxo(g, kv, i, tx_utxos(g, kv, i, n)[a].1),
    decreases n,
{
    if n > 0 {
        lemma_tx_utxos(g, kv, i, n - 1);
    }
}

/// The unspent outputs are listed in the order of the records and their
/// outputs, and each is an unspent output of a record.
pub proof fn lemma_utxos_upto(g: Seq<TxRecord>, kv: KeychainView, m: int)
    requires
        m <= g.len(),
    ensures
        refs_increase(utxos_upto(g, kv, m)),
        forall|a: int|
            0 <= a < utxos_upto(g, kv, m).len() ==> 0 <= (#[trigger] utxos_upto(g, kv, m)[a]).0 < m
                && valid_ref(g, kv, utxos_upto(g, kv, m)[a]),
    decreases m,
{
    if m > 0 {
        lemma_utxos_upto(g, kv, m - 1);
        lemma_tx_utxos(g, kv, m - 1, g[m - 1].tx.outputs@.len() as int);
    }
}

/// An output of record `i` is among the unspent outputs of that record
/// exactly if it is an unspent output of the wallet.
pub proof fn lemma_tx_utxos_holds(g: Seq<TxRecord>, kv: KeychainView, i: int, n: int, v: int)
    requires
        0 <= v < n,
    ensures
        tx_utxos(g, kv, i, n).contains((i, v)) <==> is_utxo(g, kv, i, v),
    decreases n,
{
    let s = tx_utxos(g, kv, i, n);
    let prev = tx_utxos(g, kv, i, n - 1);
    if v < n - 1 {
        lemma_tx_utxos_holds(g, kv, i, n - 1, v);
        if prev.contains((i, v)) {
            let a = choose|a: int| 0 <= a < prev.len() && prev[a] == (i, v);
            assert(s[a] == (i, v));
        }
    } else {
        if is_utxo(g, kv, i, v) {
            assert(s[s.len() - 1] == (i, v));
        }
        if s.contains((i, v)) {
            lemma_tx_utxos(g, kv, i, n - 1);
        }
    }
}

/// The unspent outputs: an output of a known transaction is listed as
/// unspent exactly if the wallet owns its script and no other known
/// transaction spends it.
pub proof fn lemma_utxo_iff(g: Seq<TxRecord>, kv: KeychainView, m: int, i: int, v: int)
    requires
        0 <= i < m <= g.len(),
        0 <= v < g[i].tx.outputs@.len(),
    ensures
        utxos_upto(g, kv, m).contains((i, v)) <==> is_utxo(g, kv, i, v),
    decreases m,
{
    let s = utxos_upto(g, kv, m);
    let prev = utxos_upto(g, kv, m - 1);
    let last = tx_utxos(g, kv, m - 1, g[m - 1].tx.outputs@.len() as int);
    lemma_utxos_upto(g, kv, m - 1);
    lemma_tx_utxos(g, kv, m - 1, g[m - 1].tx.outputs@.len() as int);
    if i < m - 1 {
        lemma_utxo_iff(g, kv, m - 1, i, v);
        if prev.contains((i, v)) {
            let a = choose|a: int| 0 <= a < prev.len() && prev[a] == (i, v);
            assert(s[a] == (i, v));
        }
    } else {
        lemma_tx_utxos_holds(g, kv, i, g[i].tx.outputs@.len() as int, v);
        if last.contains((i, v)) {
            let a = choose|a: int| 0 <= a < last.len() && last[a] == (i, v);
            assert(s[prev.len() + a] == (i, v));
        }
    }
}

/// What can be spent is listed in the order of the list it is taken from.
pub proof fn lemma_spendable_upto(g: Seq<TxRecord>, kv: KeychainView, tip: u32, list: Seq<(int, int)>, n: int)
    requires
        refs_increase(list),
        0 <= n <= list.len(),
    ensures
        refs_increase(spendable_upto(g, kv, tip, list, n)),
        forall|a: int|
            0 <= a < spendable_upto(g, kv, tip, list, n).len() ==> exists|j: int|
                0 <= j < n && #[trigger] spendable_upto(g, kv, tip, list, n)[a] == #[trigger] list[j],
    decreases n,
{
    if n > 0 {
        lemma_spendable_upto(g, kv, tip, list, n - 1);
        let prev = spendable_upto(g, kv, tip, list, n - 1);
        let s = spendable_upto(g, kv, tip, list, n);
        assert forall|a: int| 0 <= a < s.len() implies exists|j: int|
            0 <= j < n && #[trigger] s[a] == #[trigger] list[j] by {
            if a < prev.len() {
                let j = choose|j: int| 0 <= j < n - 1 && prev[a] == list[j];
                assert(s[a] == list[j]);
            } else {
                assert(s[a] == list[n - 1]);
            }
        }
        assert forall|a: int, b: int| 0 <= a < b < s.len() implies ref_before(#[trigger] s[a], #[trigger] s[b]) by {
            if b == prev.len() {
                let j = choose|j: int| 0 <= j < n - 1 && prev[a] == list[j];
                assert(ref_before(list[j], list[n - 1]));
            }
        }
    }
}

/// No output is listed twice: among records with distinct ids, the outputs
/// that can be spent are referred to by pairwise different references.
pub proof fn lemma_spendable_distinct(g: Seq<TxRecord>, kv: KeychainView, tip: u32)
    requires
        crate::graph::distinct_ids(g),
    ensures
        forall|a: int, b: int|
            0 <= a < b < spendable_set(g, kv, tip).len() ==> outpoint_at(
                g,
                #[trigger] spendable_set(g, kv, tip)[a],
            ) != outpoint_at(g, #[trigger] spendable_set(g, kv, tip)[b]),
        forall|a: int|
            0 <= a < spendable_set(g, kv, tip).len() ==> valid_ref(g, kv, #[trigger] spendable_set(g, kv, tip)[a]),
{
    let list = utxo_set(g, kv);
    let s = spendable_set(g, kv, tip);
    lemma_utxos_upto(g, kv, g.len() as int);
    lemma_spendable_upto(g, kv, tip, list, list.len() as int);
    assert forall|a: int| 0 <= a < s.len() implies valid_ref(g, kv, #[trigger] s[a]) by {
        let j = choose|j: int| 0 <= j < list.len() && s[a] == list[j];
        assert(valid_ref(g, kv, list[j]));
    }
    assert forall|a: int, b: int| 0 <= a < b < s.len() implies outpoint_at(g, #[trigger] s[a]) != outpoint_at(
        g,
        #[trigger] s[b],
    ) by {
        assert(ref_before(s[a], s[b]));
        assert(valid_ref(g, kv, s[a]));
        assert(valid_ref(g, kv, s[b]));
        if s[a].0 != s[b].0 {
            assert(g[s[a].0].tx.txid@ != g[s[b].0].tx.txid@);
        }
    }
}

/// The total of two lists joined is the sum of their totals.
pub proof fn lemma_total_concat(g: Seq<TxRecord>, a: Seq<(int, int)>, b: Seq<(int, int)>)
    ensures
        total(g, a + b) == total(g, a) + total(g, b),
    decreases b.len(),
{
    if b.len() > 0 {
        assert((a + b).drop_last() =~= a + b.drop_last());
        lemma_total_concat(g, a, b.drop_last());
    }
}

/// Within one transaction, what is unspent and what is consumed add up to what was received.
pub proof fn lemma_tx_conservation(g: Seq<TxRecord>, kv: KeychainView, i: int, n: int)
    requires
        0 <= i < g.len(),
        0 <= n <= g[i].tx.outputs@.len(),
        n <= u32::MAX + 1,
    ensures
        total(g, tx_utxos(g, kv, i, n)) + tx_consumed(g, kv, i, n) == received_upto(g[i].tx.outputs@, n, kv),
    decreases n,
{
    if n > 0 {
        lemma_tx_conservation(g, kv, i, n - 1);
        let rest = tx_utxos(g, kv, i, n - 1);
        if is_utxo(g, kv, i, n - 1) {
            assert(rest.push((i, n - 1)).drop_last() =~= rest);
        }
    }
}

/// Conservation over the first `m` records.
pub proof fn lemma_conservation_upto(g: Seq<TxRecord>, kv: KeychainView, m: int)
    requires
        outputs_indexable(g),
        0 <= m <= g.len(),
    ensures
        total(g, utxos_upto(g, kv, m)) == received_total(g, kv, m) - consumed_total(g, kv, m),
    decreases m,
{
    if m > 0 {
        lemma_conservation_upto(g, kv, m - 1);
        let n = g[m - 1].tx.outputs@.len() as int;
        lemma_tx_conservation(g, kv, m - 1, n);
        lemma_total_concat(g, utxos_upto(g, kv, m - 1), tx_utxos(g, kv, m - 1, n));
    }
}

/// Conservation: the values of the wallet's unspent outputs add up to
/// everything the known transactions pay to the wallet, less the value of
/// those of its outputs that known transactions have consumed.
pub proof fn lemma_utxo_conservation(g: Seq<TxRecord>, kv: KeychainView)
    requires
        outputs_indexable(g),
    ensures
        total(g, utxo_set(g, kv)) == received_total(g, kv, g.len() as int) - consumed_total(
            g,
            kv,
            g.len() as int,
        ),
{
    lemma_conservation_upto(g, kv, g.len() as int);
}

/// Adds an amount to a capped sum.
pub(crate) fn add_capped(acc: u64, v: u64, Ghost(sum): Ghost<int>) -> (r: u64)
    requires
        sum >= 0,
        acc == capped(sum),
    ensures
        r == capped(sum + v),
{
    acc.saturating_add(v)
}

/// The depth of a position below the tip.
pub fn confirmations(position: &ChainPosition, tip: u32) -> (r: u32)
    ensures
        r == depth(*position, tip),
{
    match position {
        ChainPosition::Confirmed { anchor_height, .. } => {
            if *anchor_height > tip {
                0
            } else {
                let d: u64 = tip as u64 + 1 - *anchor_height as u64;
                if d > u32::MAX as u64 {
                    u32::MAX
                } else {
                    d as u32
                }
            }
        },
        ChainPosition::Unconfirmed { .. } => 0,
    }
}

/// The pairs of a list of places, as numbers.
pub open spec fn refs_view(refs: Seq<(usize, usize)>) -> Seq<(int, int)> {
    refs.map_values(|p: (usize, usize)| (p.0 as int, p.1 as int))
}

/// Whether a pair names an unspent output of the wallet.
pub open spec fn valid_ref(g: Seq<TxRecord>, kv: KeychainView, p: (int, int)) -> bool {
    &&& 0 <= p.0 < g.len()
    &&& 0 <= p.1 < g[p.0].tx.outputs@.len()
    &&& is_utxo(g, kv, p.0, p.1)
}

/// Whether an entry of the listing describes the unspent output that a pair names.
pub open spec fn describes_utxo(u: UtxoInfo, g: Seq<TxRecord>, kv: KeychainView, tip: u32, p: (int, int)) -> bool {
    let r = g[p.0];
    let o = r.tx.outputs@[p.1];
    &&& u.txid@ == r.tx.txid@
    &&& u.vout == p.1
    &&& u.amount == o.value
    &&& u.script_pubkey@ == o.script@
    &&& kv.owner(o.script@) matches Some(own) && u.is_change == (own.0 == KeychainKind::Internal)
        && u.derivation_index == own.1
    &&& u.confirmations == depth(r.position, tip)
}

/// Whether an entry of the history describes a record.
pub open spec fn describes_tx(t: TxInfo, g: Seq<TxRecord>, kv: KeychainView, tip: u32, r: TxRecord) -> bool {
    &&& t.txid@ == r.tx.txid@
    &&& t.tx@ == r.tx.raw@
    &&& t.spent == capped(spent(g, kv, r.tx))
    &&& t.received == capped(received(r.tx, kv))
    &&& t.confirmations == depth(r.position, tip)
}

/// The sums are never negative.
pub proof fn lemma_received_nonneg(outputs: Seq<TxOut>, n: int, kv: KeychainView)
    ensures
        received_upto(outputs, n, kv) >= 0,
    decreases n,
{
    if n > 0 {
        lemma_received_nonneg(outputs, n - 1, kv);
    }
}

/// The sums are never negative.
pub proof fn lemma_spent_nonneg(g: Seq<TxRecord>, kv: KeychainView, inputs: Seq<OutPoint>, n: int)
    ensures
        spent_upto(g, kv, inputs, n) >= 0,
    decreases n,
{
    if n > 0 {
        lemma_spent_nonneg(g, kv, inputs, n - 1);
    }
}

/// The sums are never negative.
pub proof fn lemma_category_nonneg(g: Seq<TxRecord>, kv: KeychainView, tip: u32, list: Seq<(int, int)>, n: int, c: Category)
    ensures
        category_total(g, kv, tip, list, n, c) >= 0,
    decreases n,
{
    if n > 0 {
        lemma_category_nonneg(g, kv, tip, list, n - 1, c);
    }
}

impl TransactionGraph {
    /// The output that a reference points to, if its transaction is known and has it.
    pub fn prevout(&self, op: &OutPoint) -> (r: Option<&TxOut>)
        requires
            self.wf(),
        ensures
            r is Some <==> prevout(self@, op@) is Some,
            r matches Some(o) ==> Some(*o) == prevout(self@, op@),
    {
        match self.find(&op.txid) {
            Some(i) => {
                let rec = self.record(i);
                if (op.vout as usize) < rec.tx.outputs.len() {
                    Some(&rec.tx.outputs[op.vout as usize])
                } else {
                    None
                }
            },
            None => None,
        }
    }

    /// The number of confirmations of the transaction with this id, seen
    /// from a tip at `current_height`; nothing for an unknown transaction.
    pub fn confirmations(&self, txid: &Vec<u8>, current_height: u32) -> (r: u32)
        requires
            self.wf(),
        ensures
            r == (match crate::graph::position_of(self@, txid@) {
                Some(p) => depth(p, current_height),
                None => 0,
            }),
    {
        match self.find(txid) {
            Some(i) => confirmations(&self.record(i).position, current_height),
            None => 0,
        }
    }

    /// What a transaction takes from the wallet and what it brings: the sum of
    /// its inputs that spend outputs of the wallet, and the sum of its outputs
    /// that pay to the wallet's scripts.
    pub fn sent_and_received(&self, keys: &KeychainIndex, tx: &Tx) -> (r: (u64, u64))
        requires
            self.wf(),
            keys.wf(),
        ensures
            r.0 == capped(spent(self@, keys@, *tx)),
            r.1 == capped(received(*tx, keys@)),
    {
        let mut got: u64 = 0;
        let mut v: usize = 0;
        while v < tx.outputs.len()
            invariant
                keys.wf(),
                v <= tx.outputs@.len(),
                got == capped(received_upto(tx.outputs@, v as int, keys@)),
            decreases tx.outputs@.len() - v,
        {
            proof {
                lemma_received_nonneg(tx.outputs@, v as int, keys@);
            }
            if keys.lookup(&tx.outputs[v].script).is_some() {
                got = add_capped(got, tx.outputs[v].value, Ghost(received_upto(tx.outputs@, v as int, keys@)));
            }
            v = v + 1;
        }
        let mut gone: u64 = 0;
        let mut k: usize = 0;
        while k < tx.inputs.len()
            invariant
                self.wf(),
                keys.wf(),
                k <= tx.inputs@.len(),
                gone == capped(spent_upto(self@, keys@, tx.inputs@, k as int)),
            decreases tx.inputs@.len() - k,
        {
            proof {
                lemma_spent_nonneg(self@, keys@, tx.inputs@, k as int);
            }
            match self.prevout(&tx.inputs[k]) {
                Some(o) => {
                    if keys.lookup(&o.script).is_some() {
                        gone = add_capped(gone, o.value, Ghost(spent_upto(self@, keys@, tx.inputs@, k as int)));
                    }
                },
                None => {},
            }
            k = k + 1;
        }
        (gone, got)
    }

    /// Whether every input of the transaction spends an output of the wallet.
    pub fn is_self_funded(&self, keys: &KeychainIndex, tx: &Tx) -> (r: bool)
        requires
            self.wf(),
            keys.wf(),
        ensures
            r == self_funded(self@, keys@, *tx),
    {
        if tx.inputs.len() == 0 {
            return false;
        }
        let mut k: usize = 0;
        while k < tx.inputs.len()
            invariant
                self.wf(),
                keys.wf(),
                k <= tx.inputs@.len(),
                forall|j: int|
                    0 <= j < k ==> (prevout(self@, (#[trigger] tx.inputs@[j])@) matches Some(o) && keys@.owns(
                        o.script@,
                    )),
            decreases tx.inputs@.len() - k,
        {
            let owned: bool = match self.prevout(&tx.inputs[k]) {
                Some(o) => keys.lookup(&o.script).is_some(),
                None => false,
            };
            if !owned {
                return false;
            }
            k = k + 1;
        }
        true
    }

    /// Whether a known transaction, other than the one that made it, spends the output.
    pub fn output_spent(&self, txid: &Vec<u8>, vout: u32) -> (r: bool)
        ensures
            r == is_spent(self@, OutPointView { txid: txid@, vout: vout }),
    {
        let ghost op = OutPointView { txid: txid@, vout: vout };
        let mut j: usize = 0;
        while j < self.len()
            invariant
                j <= self@.len(),
                op == (OutPointView { txid: txid@, vout: vout }),
                forall|a: int, b: int|
                    0 <= a < j && 0 <= b < self@[a].tx.inputs@.len() ==> !((#[trigger] self@[a].tx.inputs@[b])@
                        == op && self@[a].tx.txid@ != op.txid),
            decreases self@.len() - j,
        {
            let rec = self.record(j);
            if !bytes_eq(&rec.tx.txid, txid) {
                let mut k: usize = 0;
                while k < rec.tx.inputs.len()
                    invariant
                        j < self@.len(),
                        *rec == self@[j as int],
                        rec.tx.txid@ != txid@,
                        op == (OutPointView { txid: txid@, vout: vout }),
                        k <= rec.tx.inputs@.len(),
                        forall|b: int| 0 <= b < k ==> (#[trigger] rec.tx.inputs@[b])@ != op,
                    decreases rec.tx.inputs@.len() - k,
                {
                    if rec.tx.inputs[k].vout == vout && bytes_eq(&rec.tx.inputs[k].txid, txid) {
                        return true;
                    }
                    k = k + 1;
                }
            }
            j = j + 1;
        }
        false
    }

    /// The places of the wallet's unspent outputs, in the order of the records.
    pub fn unspent_refs(&self, keys: &KeychainIndex) -> (r: Vec<(usize, usize)>)
        requires
            self.wf(),
            keys.wf(),
        ensures
            refs_view(r@) == utxo_set(self@, keys@),
            forall|k: int| 0 <= k < r@.len() ==> valid_ref(self@, keys@, #[trigger] refs_view(r@)[k]),
    {
        let mut out: Vec<(usize, usize)> = Vec::new();
        let mut i: usize = 0;
        while i < self.len()
            invariant
                self.wf(),
                keys.wf(),
                i <= self@.len(),
                refs_view(out@) == utxos_upto(self@, keys@, i as int),
                forall|k: int| 0 <= k < out@.len() ==> valid_ref(self@, keys@, #[trigger] refs_view(out@)[k]),
            decreases self@.len() - i,
        {
            let rec = self.record(i);
            let n: usize = rec.tx.outputs.len();
            let mut v: usize = 0;
            let ghost before = utxos_upto(self@, keys@, i as int);
            while v < n
                invariant
                    self.wf(),
                    keys.wf(),
                    i < self@.len(),
                    *rec == self@[i as int],
                    n == rec.tx.outputs@.len(),
                    v <= n,
                    before == utxos_upto(self@, keys@, i as int),
                    refs_view(out@) == before + tx_utxos(self@, keys@, i as int, v as int),
                    forall|k: int|
                        0 <= k < out@.len() ==> valid_ref(self@, keys@, #[trigger] refs_view(out@)[k]),
                decreases n - v,
            {
                let ghost prior = out@;
                let mut keep: bool = false;
                if v <= u32::MAX as usize {
                    if keys.lookup(&rec.tx.outputs[v].script).is_some() {
                        if !self.output_spent(&rec.tx.txid, v as u32) {
                            keep = true;
                        }
                    }
                }
                if keep {
                    out.push((i, v));
                    proof {
                        assert(refs_view(out@) =~= refs_view(prior).push((i as int, v as int)));
                    }
                }
                v = v + 1;
            }
            i = i + 1;
        }
        out
    }

    /// The listing entry of the unspent output at a place.
    pub fn utxo_info(&self, keys: &KeychainIndex, tip: u32, i: usize, v: usize) -> (r: UtxoInfo)
        requires
            self.wf(),
            keys.wf(),
            valid_ref(self@, keys@, (i as int, v as int)),
        ensures
            describes_utxo(r, self@, keys@, tip, (i as int, v as int)),
    {
        let rec = self.record(i);
        let o = &rec.tx.outputs[v];
        let own = keys.lookup(&o.script);
        let (is_change, derivation_index): (bool, u32) = match own {
            Some((keychain, index)) => (
                match keychain {
                    KeychainKind::Internal => true,
                    KeychainKind::External => false,
                },
                index,
            ),
            None => (false, 0),
        };
        UtxoInfo {
            txid: bytes_clone(&rec.tx.txid),
            vout: v as u32,
            amount: o.value,
            script_pubkey: bytes_clone(&o.script),
            is_change: is_change,
            derivation_index: derivation_index,
            confirmations: confirmations(&rec.position, tip),
        }
    }

    /// The wallet's unspent outputs that can be spent now, in the order of the records.
    pub fn list_spendable(&self, keys: &KeychainIndex, tip: u32) -> (r: Vec<UtxoInfo>)
        requires
            self.wf(),
            keys.wf(),
        ensures
            r@.len() == spendable_set(self@, keys@, tip).len(),
            forall|k: int|
                0 <= k < r@.len() ==> describes_utxo(
                    #[trigger] r@[k],
                    self@,
                    keys@,
                    tip,
                    spendable_set(self@, keys@, tip)[k],
                ),
    {
        let refs = self.unspent_refs(keys);
        let ghost list = utxo_set(self@, keys@);
        let mut out: Vec<UtxoInfo> = Vec::new();
        let mut k: usize = 0;
        while k < refs.len()
            invariant
                self.wf(),
                keys.wf(),
                k <= refs@.len(),
                list == utxo_set(self@, keys@),
                refs_view(refs@) == list,
                forall|j: int| 0 <= j < refs@.len() ==> valid_ref(self@, keys@, #[trigger] refs_view(refs@)[j]),
                out@.len() == spendable_upto(self@, keys@, tip, list, k as int).len(),
                forall|j: int|
                    0 <= j < out@.len() ==> describes_utxo(
                        #[trigger] out@[j],
                        self@,
                        keys@,
                        tip,
                        spendable_upto(self@, keys@, tip, list, k as int)[j],
                    ),
            decreases refs@.len() - k,
        {
            let (i, v) = refs[k];
            assert(valid_ref(self@, keys@, refs_view(refs@)[k as int]));
            let rec = self.record(i);
            let immature: bool = match &rec.position {
                ChainPosition::Confirmed { .. } => rec.tx.coinbase && confirmations(&rec.position, tip)
                    < COINBASE_MATURITY,
                ChainPosition::Unconfirmed { .. } => false,
            };
            if !immature {
                out.push(self.utxo_info(keys, tip, i, v));
            }
            k = k + 1;
        }
        out
    }

    /// The wallet's unspent outputs, in the order of the records.
    pub fn list_unspent(&self, keys: &KeychainIndex, tip: u32) -> (r: Vec<UtxoInfo>)
        requires
            self.wf(),
            keys.wf(),
        ensures
            r@.len() == utxo_set(self@, keys@).len(),
            forall|k: int|
                0 <= k < r@.len() ==> describes_utxo(#[trigger] r@[k], self@, keys@, tip, utxo_set(self@, keys@)[k]),
    {
        let refs = self.unspent_refs(keys);
        let mut out: Vec<UtxoInfo> = Vec::new();
        let mut k: usize = 0;
        while k < refs.len()
            invariant
                self.wf(),
                keys.wf(),
                k <= refs@.len(),
                out@.len() == k,
                refs_view(refs@) == utxo_set(self@, keys@),
                forall|j: int| 0 <= j < refs@.len() ==> valid_ref(self@, keys@, #[trigger] refs_view(refs@)[j]),
                forall|j: int|
                    0 <= j < k ==> describes_utxo(#[trigger] out@[j], self@, keys@, tip, utxo_set(self@, keys@)[j]),
            decreases refs@.len() - k,
        {
            let (i, v) = refs[k];
            assert(valid_ref(self@, keys@, refs_view(refs@)[k as int]));
            out.push(self.utxo_info(keys, tip, i, v));
            k = k + 1;
        }
        out
    }

    /// The known transactions, in the order of the records.
    pub fn list_history(&self, keys: &KeychainIndex, tip: u32) -> (r: Vec<TxInfo>)
        requires
            self.wf(),
            keys.wf(),
        ensures
            r@.len() == self@.len(),
            forall|i: int| 0 <= i < r@.len() ==> describes_tx(#[trigger] r@[i], self@, keys@, tip, self@[i]),
    {
        let mut out: Vec<TxInfo> = Vec::new();
        let mut i: usize = 0;
        while i < self.len()
            invariant
                self.wf(),
                keys.wf(),
                i <= self@.len(),
                out@.len() == i,
                forall|j: int| 0 <= j < i ==> describes_tx(#[trigger] out@[j], self@, keys@, tip, self@[j]),
            decreases self@.len() - i,
        {
            let rec = self.record(i);
            let (gone, got) = self.sent_and_received(keys, &rec.tx);
            out.push(
                TxInfo {
                    txid: bytes_clone(&rec.tx.txid),
                    tx: bytes_clone(&rec.tx.raw),
                    spent: gone,
                    received: got,
                    confirmations: confirmations(&rec.position, tip),
                },
            );
            i = i + 1;
        }
        out
    }

    /// The wallet's funds by category, each sum capped at the largest `u64`.
    pub fn balance(&self, keys: &KeychainIndex, tip: u32) -> (r: Balance)
        requires
            self.wf(),
            keys.wf(),
        ensures
            r.immature == capped(category_sum(self@, keys@, tip, Category::Immature)),
            r.trusted_pending == capped(category_sum(self@, keys@, tip, Category::TrustedPending)),
            r.untrusted_pending == capped(category_sum(self@, keys@, tip, Category::UntrustedPending)),
            r.confirmed == capped(category_sum(self@, keys@, tip, Category::Confirmed)),
    {
        let refs = self.unspent_refs(keys);
        let ghost list = utxo_set(self@, keys@);
        let mut immature: u64 = 0;
        let mut trusted: u64 = 0;
        let mut untrusted: u64 = 0;
        let mut confirmed: u64 = 0;
        let mut k: usize = 0;
        while k < refs.len()
            invariant
                self.wf(),
                keys.wf(),
                k <= refs@.len(),
                list == utxo_set(self@, keys@),
                refs_view(refs@) == list,
                forall|j: int| 0 <= j < refs@.len() ==> valid_ref(self@, keys@, #[trigger] refs_view(refs@)[j]),
                immature == capped(category_total(self@, keys@, tip, list, k as int, Category::Immature)),
                trusted == capped(category_total(self@, keys@, tip, list, k as int, Category::TrustedPending)),
                untrusted == capped(
                    category_total(self@, keys@, tip, list, k as int, Category::UntrustedPending),
                ),
                confirmed == capped(category_total(self@, keys@, tip, list, k as int, Category::Confirmed)),
            decreases refs@.len() - k,
        {
            let (i, v) = refs[k];
            assert(valid_ref(self@, keys@, refs_view(refs@)[k as int]));
            proof {
                lemma_category_nonneg(self@, keys@, tip, list, k as int, Category::Immature);
                lemma_category_nonneg(self@, keys@, tip, list, k as int, Category::TrustedPending);
                lemma_category_nonneg(self@, keys@, tip, list, k as int, Category::UntrustedPending);
                lemma_category_nonneg(self@, keys@, tip, list, k as int, Category::Confirmed);
            }
            let rec = self.record(i);
            let o = &rec.tx.outputs[v];
            match &rec.position {
                ChainPosition::Confirmed { .. } => {
                    if rec.tx.coinbase && confirmations(&rec.position, tip) < COINBASE_MATURITY {
                        immature = add_capped(immature, o.value, Ghost(category_total(self@, keys@, tip, list, k as int, Category::Immature)));
                    } else {
                        confirmed = add_capped(confirmed, o.value, Ghost(category_total(self@, keys@, tip, list, k as int, Category::Confirmed)));
                    }
                },
                ChainPosition::Unconfirmed { .. } => {
                    let change: bool = match keys.lookup(&o.script) {
                        Some((KeychainKind::Internal, _)) => true,
                        _ => false,
                    };
                    if change || self.is_self_funded(keys, &rec.tx) {
                        trusted = add_capped(trusted, o.value, Ghost(category_total(self@, keys@, tip, list, k as int, Category::TrustedPending)));
                    } else {
                        untrusted = add_capped(untrusted, o.value, Ghost(category_total(self@, keys@, tip, list, k as int, Category::UntrustedPending)));
                    }
                },
            }
            k = k + 1;
        }
        Balance { immature: immature, trusted_pending: trusted, untrusted_pending: untrusted, confirmed: confirmed }
    }
}

/// The sum of the values of the wallet's unspent outputs that fall under a category.
pub open spec fn category_sum(g: Seq<TxRecord>, kv: KeychainView, tip: u32, c: Category) -> int {
    category_total(g, kv, tip, utxo_set(g, kv), utxo_set(g, kv).len() as int, c)
}

} // verus!

//! A payment and its spend, from a wallet that knows no transaction: what
//! the wallet holds after the block that pays it, and after the payment has
//! been spent in the mempool.

use vstd::prelude::*;
use crate::graph::{has_tx, kept, shares_input, sound, tx_index, wins, TxRecord};
use crate::keychain::{lemma_reveal_keeps_owned, KeychainView};
use crate::ledger::{category, category_sum, describes_tx, describes_utxo, category_total, depth, is_spent, is_utxo, prevout, received, received_upto, spent, spent_upto, tx_utxos, utxo_set, utxos_upto, value_at, Category};
use crate::scan::{absorb_outputs, absorb_tx, pays_wallet, relevant, see_block, see_confirmed, see_mempool, see_unconfirmed, spends_owned, spends_wallet, Ledger};
use crate::listing::{comes_before, listed};
use crate::types::{ids_view, ApplyResult, ChainPosition, KeychainKind, OutPoint, OutPointView, Tx, TxInfo, TxOut, UtxoInfo};
use crate::wallet::{block_applied, mempool_applied, Wallet};

verus! {

/// The record of a transaction confirmed in the block `(height, hash)` and
/// never seen unconfirmed.
pub open spec fn confirmed_record(tx: Tx, height: u32, hash: [u8; 32]) -> TxRecord {
    TxRecord {
        tx: tx,
        position: ChainPosition::Confirmed { anchor_height: height, anchor_hash: hash },
        first_seen: None,
    }
}

/// Whether a transaction is a single payment to the wallet: it is no
/// coinbase, spends no output twice and none of its own, and has one output,
/// which pays to a script of the wallet.
pub open spec fn pays_once(kv: KeychainView, tx: Tx) -> bool {
    &&& sound(tx)
    &&& !tx.coinbase
    &&& tx.outputs@.len() == 1
    &&& kv.owns(tx.outputs@[0].script@)
}

/// The records that hold one single payment and nothing else: its output is
/// the one unspent output, and counts as confirmed with its whole value.
pub proof fn lemma_one_payment(kv: KeychainView, tx: Tx, height: u32, hash: [u8; 32], tip: u32)
    requires
        pays_once(kv, tx),
    ensures
        ({
            let g = seq![confirmed_record(tx, height, hash)];
            &&& utxo_set(g, kv) == seq![(0int, 0int)]
            &&& category_sum(g, kv, tip, Category::Confirmed) == tx.outputs@[0].value
            &&& category_sum(g, kv, tip, Category::Immature) == 0
            &&& category_sum(g, kv, tip, Category::TrustedPending) == 0
            &&& category_sum(g, kv, tip, Category::UntrustedPending) == 0
        }),
{
    let g = seq![confirmed_record(tx, height, hash)];
    assert(g.len() == 1 && g[0] == confirmed_record(tx, height, hash));
    assert(!is_spent(g, OutPointView { txid: tx.txid@, vout: 0 }));
    assert(is_utxo(g, kv, 0, 0));
    assert(tx_utxos(g, kv, 0, 0) == Seq::<(int, int)>::empty());
    assert(tx_utxos(g, kv, 0, 1) == Seq::<(int, int)>::empty().push((0int, 0int)));
    assert(utxos_upto(g, kv, 0) == Seq::<(int, int)>::empty());
    assert(utxos_upto(g, kv, 1) == utxos_upto(g, kv, 0) + tx_utxos(g, kv, 0, 1));
    assert(utxo_set(g, kv) =~= seq![(0int, 0int)]);
    let list = utxo_set(g, kv);
    assert(list[0] == (0int, 0int));
    assert(category(g, kv, tip, list[0]) == Category::Confirmed);
    assert(value_at(g, list[0]) == tx.outputs@[0].value);
    assert(category_total(g, kv, tip, list, 0, Category::Confirmed) == 0);
    assert(category_total(g, kv, tip, list, 0, Category::Immature) == 0);
    assert(category_total(g, kv, tip, list, 0, Category::TrustedPending) == 0);
    assert(category_total(g, kv, tip, list, 0, Category::UntrustedPending) == 0);
    assert(category_total(g, kv, tip, list, 1, Category::Confirmed) == tx.outputs@[0].value);
    assert(category_total(g, kv, tip, list, 1, Category::Immature) == 0);
    assert(category_total(g, kv, tip, list, 1, Category::TrustedPending) == 0);
    assert(category_total(g, kv, tip, list, 1, Category::UntrustedPending) == 0);
}

/// A block that holds one single payment, seen by a wallet that knows no
/// transaction: the payment is recorded as confirmed in the block and named
/// as new, and the keychains have taken in its script.
pub proof fn lemma_payment_seen(kv: KeychainView, tx: Tx, height: u32, hash: [u8; 32])
    requires
        pays_once(kv, tx),
    ensures
        see_block(
            Ledger { graph: Seq::empty(), keys: kv, fresh: Seq::empty() },
            seq![tx],
            1,
            height,
            hash,
        ) == (Ledger {
            graph: seq![confirmed_record(tx, height, hash)],
            keys: kv.absorb(tx.outputs@[0].script@),
            fresh: seq![tx.txid@],
        }),
{
    let s = Ledger { graph: Seq::<TxRecord>::empty(), keys: kv, fresh: Seq::<Seq<u8>>::empty() };
    let txs = seq![tx];
    let position = ChainPosition::Confirmed { anchor_height: height, anchor_hash: hash };
    assert(txs[0] == tx);
    assert(see_block(s, txs, 0, height, hash) == s);
    assert(see_block(s, txs, 1, height, hash) == see_confirmed(s, tx, height, hash));
    assert(!has_tx(s.graph, tx.txid@));
    assert(absorb_outputs(kv, tx.outputs@, 0) == kv);
    assert(!pays_wallet(kv, tx.outputs@, 0));
    assert(pays_wallet(kv, tx.outputs@, 1));
    assert(relevant(s.graph, kv, tx));
    assert(wins(s.graph, tx, position));
    assert(kept(s.graph, tx, 0) == Seq::<TxRecord>::empty());
    assert(absorb_tx(kv, tx) == kv.absorb(tx.outputs@[0].script@));
    let after = see_confirmed(s, tx, height, hash);
    assert(after.graph =~= seq![confirmed_record(tx, height, hash)]);
    assert(after.fresh =~= seq![tx.txid@]);
}

/// The first payment: where a wallet that knows no transaction applies a
/// block that holds one single payment to a script it owns, the wallet
/// holds that payment and nothing else, confirmed once; its output is the
/// one unspent output, the balance is its value, all of it confirmed, and
/// the payment is the one transaction named as new.
pub proof fn lemma_first_payment(before: Wallet, after: Wallet, res: ApplyResult, height: u32, hash: [u8; 32], parent: [u8; 32], tx: Tx)
    requires
        before.wf(),
        before.graph_view().len() == 0,
        pays_once(before.keys_view(), tx),
        block_applied(before, after, res, height, hash, parent, seq![tx]),
    ensures
        after.graph_view() == seq![confirmed_record(tx, height, hash)],
        after.tip() == height,
        depth(after.graph_view()[0].position, after.tip()) == 1,
        ids_view(res.relevant_txids@) == seq![tx.txid@],
        after.keys_view() == before.keys_view().absorb(tx.outputs@[0].script@),
        after.keys_view().owns(tx.outputs@[0].script@),
        utxo_set(after.graph_view(), after.keys_view()) == seq![(0int, 0int)],
        category_sum(after.graph_view(), after.keys_view(), after.tip(), Category::Confirmed)
            == tx.outputs@[0].value,
        category_sum(after.graph_view(), after.keys_view(), after.tip(), Category::Immature) == 0,
        category_sum(after.graph_view(), after.keys_view(), after.tip(), Category::TrustedPending) == 0,
        category_sum(after.graph_view(), after.keys_view(), after.tip(), Category::UntrustedPending) == 0,
{
    before.lemma_wf();
    let kv = before.keys_view();
    let script = tx.outputs@[0].script@;
    assert(before.graph_view() =~= Seq::<TxRecord>::empty());
    assert(seq![tx].len() == 1);
    lemma_payment_seen(kv, tx, height, hash);
    lemma_reveal_keeps_owned(kv, KeychainKind::External, 0, script);
    assert(kv.absorb(script).owns(script));
    lemma_one_payment(kv.absorb(script), tx, height, hash, after.tip());
    assert(after.chain_view().last().height == height);
}

/// The record of a transaction seen unconfirmed at a time.
pub open spec fn unconfirmed_record(tx: Tx, seen: u64) -> TxRecord {
    TxRecord { tx: tx, position: ChainPosition::Unconfirmed { first_seen_unix: seen }, first_seen: Some(seen) }
}

/// The reference to the one output of a single payment.
pub open spec fn payment_ref(payment: Tx) -> OutPointView {
    OutPointView { txid: payment.txid@, vout: 0 }
}

/// Whether `spend` spends a single payment away from the wallet: it is
/// another transaction, spends no output twice and none of its own, shares
/// no input with the payment, has an input that refers to the payment's
/// output, and pays to no script of the wallet.
pub open spec fn spends_away(kv: KeychainView, payment: Tx, spend: Tx) -> bool {
    &&& sound(spend)
    &&& spend.txid@ != payment.txid@
    &&& !shares_input(payment, spend)
    &&& exists|k: int| 0 <= k < spend.inputs@.len() && (#[trigger] spend.inputs@[k])@ == payment_ref(payment)
    &&& forall|v: int| 0 <= v < spend.outputs@.len() ==> !kv.owns((#[trigger] spend.outputs@[v]).script@)
}

/// Outputs that the wallet owns none of leave the keychains as they are
/// and bring the wallet nothing.
proof fn lemma_foreign_outputs(kv: KeychainView, outs: Seq<TxOut>, n: int)
    requires
        0 <= n <= outs.len(),
        forall|v: int| 0 <= v < outs.len() ==> !kv.owns((#[trigger] outs[v]).script@),
    ensures
        absorb_outputs(kv, outs, n) == kv,
        !pays_wallet(kv, outs, n),
        received_upto(outs, n, kv) == 0,
    decreases n,
{
    if n > 0 {
        lemma_foreign_outputs(kv, outs, n - 1);
        assert(!kv.owns(outs[n - 1].script@));
    }
}

/// An input that spends an output of the wallet makes the transaction one
/// that spends from the wallet.
proof fn lemma_spends_wallet_at(g: Seq<TxRecord>, kv: KeychainView, inputs: Seq<OutPoint>, n: int, k: int)
    requires
        0 <= k < n <= inputs.len(),
        spends_owned(g, kv, inputs[k]),
    ensures
        spends_wallet(g, kv, inputs, n),
    decreases n,
{
    if k < n - 1 {
        lemma_spends_wallet_at(g, kv, inputs, n - 1, k);
    }
}

/// A record none of whose outputs is an unspent output of the wallet adds
/// nothing to the unspent outputs.
proof fn lemma_no_utxos(g: Seq<TxRecord>, kv: KeychainView, i: int, n: int)
    requires
        forall|v: int| 0 <= v < n ==> !is_utxo(g, kv, i, v),
    ensures
        tx_utxos(g, kv, i, n) == Seq::<(int, int)>::empty(),
    decreases n,
{
    if n > 0 {
        lemma_no_utxos(g, kv, i, n - 1);
    }
}

/// The records of a single payment and of a transaction that spends it away.
pub open spec fn spent_records(payment: Tx, height: u32, hash: [u8; 32], spend: Tx, seen: u64) -> Seq<TxRecord> {
    seq![confirmed_record(payment, height, hash), unconfirmed_record(spend, seen)]
}

/// What the references of the two records point to: the payment's output
/// for the reference to it, an output of the spend for a reference into the
/// spend, and nothing else.
proof fn lemma_prevouts(payment: Tx, height: u32, hash: [u8; 32], spend: Tx, seen: u64, op: OutPointView)
    requires
        payment.outputs@.len() == 1,
        spend.txid@ != payment.txid@,
    ensures
        ({
            let g = spent_records(payment, height, hash, spend, seen);
            &&& op == payment_ref(payment) ==> prevout(g, op) == Some(payment.outputs@[0])
            &&& op.txid == payment.txid@ && op.vout != 0 ==> prevout(g, op) is None
            &&& op.txid == spend.txid@ && op.vout < spend.outputs@.len() ==> prevout(g, op) == Some(
                spend.outputs@[op.vout as int],
            )
            &&& op.txid == spend.txid@ && op.vout >= spend.outputs@.len() ==> prevout(g, op) is None
            &&& op.txid != spend.txid@ && op.txid != payment.txid@ ==> prevout(g, op) is None
        }),
{
    let g = spent_records(payment, height, hash, spend, seen);
    assert(g.len() == 2 && g[0].tx == payment && g[1].tx == spend);
    if op.txid == payment.txid@ {
        assert(has_tx(g, op.txid));
        assert(tx_index(g, op.txid) == 0);
    } else if op.txid == spend.txid@ {
        assert(has_tx(g, op.txid));
        assert(tx_index(g, op.txid) == 1);
    } else {
        assert(!has_tx(g, op.txid));
    }
}

/// The payment spends nothing of the wallet.
proof fn lemma_payment_spends_nothing(kv: KeychainView, payment: Tx, height: u32, hash: [u8; 32], spend: Tx, seen: u64, n: int)
    requires
        pays_once(kv, payment),
        spends_away(kv, payment, spend),
        0 <= n <= payment.inputs@.len(),
    ensures
        spent_upto(spent_records(payment, height, hash, spend, seen), kv, payment.inputs@, n) == 0,
    decreases n,
{
    if n > 0 {
        lemma_payment_spends_nothing(kv, payment, height, hash, spend, seen, n - 1);
        let op = payment.inputs@[n - 1]@;
        lemma_prevouts(payment, height, hash, spend, seen, op);
        assert(payment.inputs@[n - 1].txid@ != payment.txid@);
        if op.txid == spend.txid@ && op.vout < spend.outputs@.len() {
            assert(!kv.owns(spend.outputs@[op.vout as int].script@));
        }
    }
}

/// What the first `n` inputs of the spend take from the wallet: the value
/// of the payment, once the input that refers to it is among them.
proof fn lemma_spend_spends_payment(kv: KeychainView, payment: Tx, height: u32, hash: [u8; 32], spend: Tx, seen: u64, n: int)
    requires
        pays_once(kv, payment),
        spends_away(kv, payment, spend),
        0 <= n <= spend.inputs@.len(),
    ensures
        spent_upto(spent_records(payment, height, hash, spend, seen), kv, spend.inputs@, n) == (if exists|k: int|
            0 <= k < n && (#[trigger] spend.inputs@[k])@ == payment_ref(payment) {
            payment.outputs@[0].value as int
        } else {
            0
        }),
    decreases n,
{
    if n > 0 {
        lemma_spend_spends_payment(kv, payment, height, hash, spend, seen, n - 1);
        let op = spend.inputs@[n - 1]@;
        lemma_prevouts(payment, height, hash, spend, seen, op);
        assert(spend.inputs@[n - 1].txid@ != spend.txid@);
        let before = exists|k: int| 0 <= k < n - 1 && (#[trigger] spend.inputs@[k])@ == payment_ref(payment);
        let now = exists|k: int| 0 <= k < n && (#[trigger] spend.inputs@[k])@ == payment_ref(payment);
        if op == payment_ref(payment) {
            assert(now);
            if before {
                let k = choose|k: int| 0 <= k < n - 1 && (#[trigger] spend.inputs@[k])@ == payment_ref(payment);
                assert(spend.inputs@[k]@ != spend.inputs@[n - 1]@);
            }
        } else {
            if now {
                let k = choose|k: int| 0 <= k < n && (#[trigger] spend.inputs@[k])@ == payment_ref(payment);
                assert(k < n - 1);
                assert(before);
            }
        }
    }
}

/// A single payment and a transaction that spends it away: the wallet has
/// no unspent output, the payment received its value and spent nothing, and
/// the spend spent that value and received nothing.
pub proof fn lemma_payment_spent(kv: KeychainView, payment: Tx, height: u32, hash: [u8; 32], spend: Tx, seen: u64)
    requires
        pays_once(kv, payment),
        spends_away(kv, payment, spend),
    ensures
        ({
            let g = spent_records(payment, height, hash, spend, seen);
            &&& utxo_set(g, kv) == Seq::<(int, int)>::empty()
            &&& received(payment, kv) == payment.outputs@[0].value
            &&& spent(g, kv, payment) == 0
            &&& received(spend, kv) == 0
            &&& spent(g, kv, spend) == payment.outputs@[0].value
        }),
{
    let g = spent_records(payment, height, hash, spend, seen);
    assert(g.len() == 2 && g[0].tx == payment && g[1].tx == spend);
    let k = choose|k: int| 0 <= k < spend.inputs@.len() && (#[trigger] spend.inputs@[k])@ == payment_ref(payment);
    assert(g[1].tx.inputs@[k]@ == payment_ref(payment));
    assert(is_spent(g, payment_ref(payment)));
    assert(!is_utxo(g, kv, 0, 0));
    lemma_no_utxos(g, kv, 0, 1);
    assert forall|v: int| 0 <= v < spend.outputs@.len() implies !is_utxo(g, kv, 1, v) by {
        assert(!kv.owns(spend.outputs@[v].script@));
    }
    lemma_no_utxos(g, kv, 1, spend.outputs@.len() as int);
    assert(utxos_upto(g, kv, 0) == Seq::<(int, int)>::empty());
    assert(utxos_upto(g, kv, 1) =~= Seq::<(int, int)>::empty());
    assert(utxos_upto(g, kv, 2) =~= Seq::<(int, int)>::empty());
    assert(received_upto(payment.outputs@, 0, kv) == 0);
    assert(received_upto(payment.outputs@, 1, kv) == payment.outputs@[0].value);
    lemma_foreign_outputs(kv, spend.outputs@, spend.outputs@.len() as int);
    lemma_payment_spends_nothing(kv, payment, height, hash, spend, seen, payment.inputs@.len() as int);
    lemma_spend_spends_payment(kv, payment, height, hash, spend, seen, spend.inputs@.len() as int);
}

/// A mempool batch that holds one transaction that spends a single payment
/// away, seen by a wallet that holds that payment and nothing else: the
/// spend is recorded behind the payment, unconfirmed, and named as new; the
/// keychains stay as they are.
pub proof fn lemma_spend_seen(kv: KeychainView, payment: Tx, height: u32, hash: [u8; 32], spend: Tx, seen: u64)
    requires
        pays_once(kv, payment),
        spends_away(kv, payment, spend),
    ensures
        see_mempool(
            Ledger { graph: seq![confirmed_record(payment, height, hash)], keys: kv, fresh: Seq::empty() },
            seq![(spend, seen)],
            1,
        ) == (Ledger {
            graph: spent_records(payment, height, hash, spend, seen),
            keys: kv,
            fresh: seq![spend.txid@],
        }),
{
    let g = seq![confirmed_record(payment, height, hash)];
    let s = Ledger { graph: g, keys: kv, fresh: Seq::<Seq<u8>>::empty() };
    let txs = seq![(spend, seen)];
    let position = ChainPosition::Unconfirmed { first_seen_unix: seen };
    assert(txs[0] == (spend, seen));
    assert(g.len() == 1 && g[0].tx == payment);
    assert(see_mempool(s, txs, 0) == s);
    assert(see_mempool(s, txs, 1) == see_unconfirmed(s, spend, seen));
    assert(!has_tx(g, spend.txid@));
    lemma_foreign_outputs(kv, spend.outputs@, spend.outputs@.len() as int);
    assert(absorb_tx(kv, spend) == kv);
    let k = choose|k: int| 0 <= k < spend.inputs@.len() && (#[trigger] spend.inputs@[k])@ == payment_ref(payment);
    assert(has_tx(g, payment.txid@));
    assert(tx_index(g, payment.txid@) == 0);
    assert(prevout(g, spend.inputs@[k]@) == Some(payment.outputs@[0]));
    assert(spends_owned(g, kv, spend.inputs@[k]));
    lemma_spends_wallet_at(g, kv, spend.inputs@, spend.inputs@.len() as int, k);
    assert(relevant(g, kv, spend));
    assert(wins(g, spend, position));
    assert(kept(g, spend, 0) == Seq::<TxRecord>::empty());
    assert(kept(g, spend, 1) == kept(g, spend, 0).push(g[0]));
    let after = see_unconfirmed(s, spend, seen);
    assert(after.graph =~= spent_records(payment, height, hash, spend, seen));
    assert(after.fresh =~= seq![spend.txid@]);
}

/// The payment listed: the listing of the unspent outputs of a wallet that
/// holds one single payment and nothing else has one entry, which names the
/// payment's output with its value, its depth below the tip, and the
/// keychain and index that its script belongs to.
pub proof fn lemma_payment_listed(w: Wallet, payment: Tx, height: u32, hash: [u8; 32], all: Seq<UtxoInfo>, out: Seq<UtxoInfo>, perm: Seq<int>)
    requires
        w.graph_view() == seq![confirmed_record(payment, height, hash)],
        pays_once(w.keys_view(), payment),
        all.len() == utxo_set(w.graph_view(), w.keys_view()).len(),
        forall|k: int|
            0 <= k < all.len() ==> describes_utxo(
                #[trigger] all[k],
                w.graph_view(),
                w.keys_view(),
                w.tip(),
                utxo_set(w.graph_view(), w.keys_view())[k],
            ),
        listed(all, out, perm),
    ensures
        out.len() == 1,
        out[0].txid@ == payment.txid@,
        out[0].vout == 0,
        out[0].amount == payment.outputs@[0].value,
        out[0].script_pubkey@ == payment.outputs@[0].script@,
        out[0].confirmations == depth(ChainPosition::Confirmed { anchor_height: height, anchor_hash: hash }, w.tip()),
        w.keys_view().owner(payment.outputs@[0].script@) matches Some(own) && out[0].is_change == (own.0
            == KeychainKind::Internal) && out[0].derivation_index == own.1,
{
    let g = w.graph_view();
    lemma_one_payment(w.keys_view(), payment, height, hash, w.tip());
    assert(g[0] == confirmed_record(payment, height, hash));
    assert(utxo_set(g, w.keys_view())[0] == (0int, 0int));
    assert(perm[0] == 0);
    assert(out[0] == all[perm[0]]);
    assert(describes_utxo(all[0], g, w.keys_view(), w.tip(), (0int, 0int)));
}

/// The spend applied: where a wallet that holds one single payment and
/// nothing else applies a mempool batch of one transaction that spends the
/// payment away, the wallet holds the payment and behind it the spend,
/// unconfirmed; it has no unspent output and no funds in any category; and
/// the spend is the one transaction named as new.
pub proof fn lemma_spend_applied(mid: Wallet, last: Wallet, res: ApplyResult, payment: Tx, height: u32, hash: [u8; 32], spend: Tx, seen: u64)
    requires
        mid.graph_view() == seq![confirmed_record(payment, height, hash)],
        pays_once(mid.keys_view(), payment),
        spends_away(mid.keys_view(), payment, spend),
        mempool_applied(mid, last, res, seq![(spend, seen)]),
    ensures
        last.graph_view() == spent_records(payment, height, hash, spend, seen),
        last.keys_view() == mid.keys_view(),
        last.tip() == mid.tip(),
        ids_view(res.relevant_txids@) == seq![spend.txid@],
        utxo_set(last.graph_view(), last.keys_view()) == Seq::<(int, int)>::empty(),
        forall|c: Category| category_sum(last.graph_view(), last.keys_view(), last.tip(), c) == 0,
{
    let kv = mid.keys_view();
    assert(seq![(spend, seen)].len() == 1);
    lemma_spend_seen(kv, payment, height, hash, spend, seen);
    lemma_payment_spent(kv, payment, height, hash, spend, seen);
    assert forall|c: Category| category_sum(last.graph_view(), last.keys_view(), last.tip(), c) == 0 by {
        assert(category_total(
            last.graph_view(),
            last.keys_view(),
            last.tip(),
            utxo_set(last.graph_view(), last.keys_view()),
            0,
            c,
        ) == 0);
    }
}

/// The spend listed: the listing of the transactions of a wallet that holds
/// a single payment and a transaction that spends it away names the payment
/// first, at its depth below the tip, with its value received and nothing
/// spent, and the spend last, unconfirmed, with that value spent and nothing
/// received.
pub proof fn lemma_spend_listed(w: Wallet, payment: Tx, height: u32, hash: [u8; 32], spend: Tx, seen: u64, all: Seq<TxInfo>, out: Seq<TxInfo>, perm: Seq<int>)
    requires
        w.wf(),
        w.graph_view() == spent_records(payment, height, hash, spend, seen),
        pays_once(w.keys_view(), payment),
        spends_away(w.keys_view(), payment, spend),
        all.len() == w.graph_view().len(),
        forall|i: int|
            0 <= i < all.len() ==> describes_tx(
                #[trigger] all[i],
                w.graph_view(),
                w.keys_view(),
                w.tip(),
                w.graph_view()[i],
            ),
        listed(all, out, perm),
    ensures
        out.len() == 2,
        out[0].txid@ == payment.txid@,
        out[0].confirmations == depth(ChainPosition::Confirmed { anchor_height: height, anchor_hash: hash }, w.tip()),
        out[0].confirmations >= 1,
        out[0].received == payment.outputs@[0].value,
        out[0].spent == 0,
        out[1].txid@ == spend.txid@,
        out[1].confirmations == 0,
        out[1].received == 0,
        out[1].spent == payment.outputs@[0].value,
{
    let g = w.graph_view();
    let kv = w.keys_view();
    assert(g.len() == 2 && g[0] == confirmed_record(payment, height, hash) && g[1] == unconfirmed_record(
        spend,
        seen,
    ));
    lemma_payment_spent(kv, payment, height, hash, spend, seen);
    w.lemma_confirmed_in_chain(0);
    assert(describes_tx(all[0], g, kv, w.tip(), g[0]));
    assert(describes_tx(all[1], g, kv, w.tip(), g[1]));
    assert(all[0].confirmations >= 1 && all[1].confirmations == 0);
    assert(0 <= perm[0] < 2 && 0 <= perm[1] < 2 && perm[0] != perm[1]);
    if perm[0] == 1 {
        assert(perm[1] == 0);
        assert(comes_before(all, perm[0], perm[1]));
    }
    assert(perm[0] == 0 && perm[1] == 1);
    assert(out[0] == all[perm[0]] && out[1] == all[perm[1]]);
}

} // verus!

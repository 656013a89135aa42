//! Conservation of value: what the wallet's transactions report as spent is
//! what has left the wallet's outputs.

use vstd::prelude::*;
use crate::graph::{distinct_ids, graph_ok, no_double_spend, no_self_spend, outputs_indexable, tx_index, TxRecord};
use crate::keychain::KeychainView;
use crate::ledger::{consumed_total, lemma_utxo_conservation, prevout, received_total, spent, spent_upto, spent_value, total, tx_consumed, utxo_set};
use crate::types::OutPointView;

verus! {

/// The sum of what the first `m` records spend of the wallet's outputs.
pub open spec fn spent_total(g: Seq<TxRecord>, kv: KeychainView, m: int) -> int
    decreases m,
{
    if m <= 0 {
        0
    } else {
        spent_total(g, kv, m - 1) + spent(g, kv, g[m - 1].tx)
    }
}

/// Whether an input that comes before input `k` of record `m` spends the
/// output, in another transaction than the one that made it.
pub open spec fn spent_before(g: Seq<TxRecord>, op: OutPointView, m: int, k: int) -> bool {
    exists|j: int, i: int|
        0 <= j < g.len() && 0 <= i < g[j].tx.inputs@.len() && (j < m || (j == m && i < k)) && (
        #[trigger] g[j].tx.inputs@[i])@ == op && g[j].tx.txid@ != op.txid
}

/// What output `v` of record `i` counts as consumed before input `k` of record `m`.
pub open spec fn part(g: Seq<TxRecord>, kv: KeychainView, m: int, k: int, i: int, v: int) -> int {
    if kv.owns(g[i].tx.outputs@[v].script@) && spent_before(
        g,
        OutPointView { txid: g[i].tx.txid@, vout: v as u32 },
        m,
        k,
    ) {
        g[i].tx.outputs@[v].value as int
    } else {
        0
    }
}

/// The sum of the parts of the first `n` outputs of record `i`.
pub open spec fn row(g: Seq<TxRecord>, kv: KeychainView, m: int, k: int, i: int, n: int) -> int
    decreases n,
{
    if n <= 0 {
        0
    } else {
        row(g, kv, m, k, i, n - 1) + part(g, kv, m, k, i, n - 1)
    }
}

/// The sum of the parts of all outputs of the first `r` records.
pub open spec fn grid(g: Seq<TxRecord>, kv: KeychainView, m: int, k: int, r: int) -> int
    decreases r,
{
    if r <= 0 {
        0
    } else {
        grid(g, kv, m, k, r - 1) + row(g, kv, m, k, r - 1, g[r - 1].tx.outputs@.len() as int)
    }
}

/// Whether the parts before `(m, k)` and before `(m2, k2)` agree on every output but `(i0, v0)`.
pub open spec fn same_but(g: Seq<TxRecord>, kv: KeychainView, m: int, k: int, m2: int, k2: int, i0: int, v0: int) -> bool {
    forall|i: int, v: int|
        0 <= i < g.len() && 0 <= v < g[i].tx.outputs@.len() && !(i == i0 && v == v0) ==> #[trigger] part(
            g,
            kv,
            m,
            k,
            i,
            v,
        ) == part(g, kv, m2, k2, i, v)
}

/// Rows that hold no changed output have the same sum.
proof fn lemma_row_same(g: Seq<TxRecord>, kv: KeychainView, m: int, k: int, m2: int, k2: int, i0: int, v0: int, i: int, n: int)
    requires
        same_but(g, kv, m, k, m2, k2, i0, v0),
        0 <= i < g.len(),
        0 <= n <= g[i].tx.outputs@.len(),
        i != i0 || n <= v0 || v0 < 0,
    ensures
        row(g, kv, m, k, i, n) == row(g, kv, m2, k2, i, n),
    decreases n,
{
    if n > 0 {
        lemma_row_same(g, kv, m, k, m2, k2, i0, v0, i, n - 1);
    }
}

/// A row changes by what its one changed output changes.
proof fn lemma_row_bump(g: Seq<TxRecord>, kv: KeychainView, m: int, k: int, m2: int, k2: int, i0: int, v0: int, n: int)
    requires
        same_but(g, kv, m, k, m2, k2, i0, v0),
        0 <= i0 < g.len(),
        0 <= v0 < n <= g[i0].tx.outputs@.len(),
    ensures
        row(g, kv, m2, k2, i0, n) - row(g, kv, m, k, i0, n) == part(g, kv, m2, k2, i0, v0) - part(
            g,
            kv,
            m,
            k,
            i0,
            v0,
        ),
    decreases n,
{
    if n - 1 == v0 {
        lemma_row_same(g, kv, m, k, m2, k2, i0, v0, i0, n - 1);
    } else {
        lemma_row_bump(g, kv, m, k, m2, k2, i0, v0, n - 1);
    }
}

/// Records that hold no changed output have the same sum.
proof fn lemma_grid_same(g: Seq<TxRecord>, kv: KeychainView, m: int, k: int, m2: int, k2: int, i0: int, v0: int, r: int)
    requires
        same_but(g, kv, m, k, m2, k2, i0, v0),
        0 <= r <= g.len(),
        r <= i0 || i0 < 0 || v0 < 0 || v0 >= g[i0].tx.outputs@.len(),
    ensures
        grid(g, kv, m, k, r) == grid(g, kv, m2, k2, r),
    decreases r,
{
    if r > 0 {
        lemma_grid_same(g, kv, m, k, m2, k2, i0, v0, r - 1);
        lemma_row_same(g, kv, m, k, m2, k2, i0, v0, r - 1, g[r - 1].tx.outputs@.len() as int);
    }
}

/// The sum over the records changes by what the one changed output changes.
proof fn lemma_grid_bump(g: Seq<TxRecord>, kv: KeychainView, m: int, k: int, m2: int, k2: int, i0: int, v0: int, r: int)
    requires
        same_but(g, kv, m, k, m2, k2, i0, v0),
        0 <= i0 < r <= g.len(),
        0 <= v0 < g[i0].tx.outputs@.len(),
    ensures
        grid(g, kv, m2, k2, r) - grid(g, kv, m, k, r) == part(g, kv, m2, k2, i0, v0) - part(g, kv, m, k, i0, v0),
    decreases r,
{
    let n = g[r - 1].tx.outputs@.len() as int;
    if r - 1 == i0 {
        lemma_grid_same(g, kv, m, k, m2, k2, i0, v0, r - 1);
        lemma_row_bump(g, kv, m, k, m2, k2, i0, v0, n);
    } else {
        lemma_grid_bump(g, kv, m, k, m2, k2, i0, v0, r - 1);
        lemma_row_same(g, kv, m, k, m2, k2, i0, v0, r - 1, n);
    }
}

/// Before the first input nothing is consumed.
proof fn lemma_grid_start(g: Seq<TxRecord>, kv: KeychainView, r: int)
    requires
        0 <= r <= g.len(),
    ensures
        grid(g, kv, 0, 0, r) == 0,
    decreases r,
{
    if r > 0 {
        lemma_grid_start(g, kv, r - 1);
        lemma_row_start(g, kv, r - 1, g[r - 1].tx.outputs@.len() as int);
    }
}

/// Before the first input nothing of a record is consumed.
proof fn lemma_row_start(g: Seq<TxRecord>, kv: KeychainView, i: int, n: int)
    ensures
        row(g, kv, 0, 0, i, n) == 0,
    decreases n,
{
    if n > 0 {
        lemma_row_start(g, kv, i, n - 1);
    }
}

/// Behind the last input, what is consumed is what is spent.
proof fn lemma_grid_end(g: Seq<TxRecord>, kv: KeychainView, r: int)
    requires
        0 <= r <= g.len(),
    ensures
        grid(g, kv, g.len() as int, 0, r) == consumed_total(g, kv, r),
    decreases r,
{
    if r > 0 {
        lemma_grid_end(g, kv, r - 1);
        lemma_row_end(g, kv, r - 1, g[r - 1].tx.outputs@.len() as int);
    }
}

/// Behind the last input, what is consumed of a record is what is spent of it.
proof fn lemma_row_end(g: Seq<TxRecord>, kv: KeychainView, i: int, n: int)
    ensures
        row(g, kv, g.len() as int, 0, i, n) == tx_consumed(g, kv, i, n),
    decreases n,
{
    if n > 0 {
        lemma_row_end(g, kv, i, n - 1);
    }
}

/// One input more: what is consumed grows by what the input spends.
proof fn lemma_step(g: Seq<TxRecord>, kv: KeychainView, m: int, k: int)
    requires
        distinct_ids(g),
        outputs_indexable(g),
        no_double_spend(g),
        no_self_spend(g),
        0 <= m < g.len(),
        0 <= k < g[m].tx.inputs@.len(),
    ensures
        grid(g, kv, m, k + 1, g.len() as int) == grid(g, kv, m, k, g.len() as int) + spent_value(
            g,
            kv,
            g[m].tx.inputs@[k]@,
        ),
{
    let n = g.len() as int;
    let op = g[m].tx.inputs@[k]@;
    if prevout(g, op) is Some {
        // The input spends one known output. No earlier input spends it, and
        // no other output is touched.
        let i0 = tx_index(g, op.txid);
        let v0 = op.vout as int;
        lemma_grid_bump(g, kv, m, k, m, k + 1, i0, v0, n);
    } else {
        // The input spends nothing that is known: no output is touched.
        lemma_grid_same(g, kv, m, k, m, k + 1, -1, -1, n);
    }
}

/// All inputs of a record done: the next record starts where this one ended.
proof fn lemma_next_record(g: Seq<TxRecord>, kv: KeychainView, m: int)
    requires
        0 <= m < g.len(),
    ensures
        grid(g, kv, m + 1, 0, g.len() as int) == grid(
            g,
            kv,
            m,
            g[m].tx.inputs@.len() as int,
            g.len() as int,
        ),
{
    let len = g[m].tx.inputs@.len() as int;
    lemma_grid_same(g, kv, m, len, m + 1, 0, -1, -1, g.len() as int);
}

/// What the records before `m` and the first `k` inputs of record `m` spend
/// is what is consumed before input `k` of record `m`.
proof fn lemma_spent_is_consumed(g: Seq<TxRecord>, kv: KeychainView, m: int, k: int)
    requires
        distinct_ids(g),
        outputs_indexable(g),
        no_double_spend(g),
        no_self_spend(g),
        0 <= m <= g.len(),
        m < g.len() ==> 0 <= k <= g[m].tx.inputs@.len(),
        m == g.len() ==> k == 0,
    ensures
        grid(g, kv, m, k, g.len() as int) == spent_total(g, kv, m) + (if m < g.len() {
            spent_upto(g, kv, g[m].tx.inputs@, k)
        } else {
            0
        }),
    decreases m, k,
{
    if k > 0 {
        lemma_spent_is_consumed(g, kv, m, k - 1);
        lemma_step(g, kv, m, k - 1);
    } else if m > 0 {
        let len = g[m - 1].tx.inputs@.len() as int;
        lemma_spent_is_consumed(g, kv, m - 1, len);
        lemma_next_record(g, kv, m - 1);
    } else {
        lemma_grid_start(g, kv, g.len() as int);
    }
}

/// Conservation, by what transactions report: over the records of a graph,
/// the values of the wallet's unspent outputs add up to everything its
/// transactions received less everything they spent.
pub proof fn lemma_unspent_is_received_less_spent(g: Seq<TxRecord>, kv: KeychainView)
    requires
        graph_ok(g),
    ensures
        spent_total(g, kv, g.len() as int) == consumed_total(g, kv, g.len() as int),
        total(g, utxo_set(g, kv)) == received_total(g, kv, g.len() as int) - spent_total(g, kv, g.len() as int),
{
    lemma_spent_is_consumed(g, kv, g.len() as int, 0);
    lemma_grid_end(g, kv, g.len() as int);
    lemma_utxo_conservation(g, kv);
}

} // verus!

//! What a store keeps of each call that changes a wallet, and what becomes
//! of the wallet when the store could not keep it.

use vstd::prelude::*;
use crate::backend::{block_decoding, tx_decoding};
use crate::graph::decoded;
use crate::replay::{applies, replayed, revealed, stepped, Operation};
use crate::scan::{see_mempool, see_unconfirmed, Ledger};
use crate::types::{bytes_clone, ApplyResult, KeychainKind, MempoolTx, Tx};
use crate::wallet::{all_seen_decoded, decodes_mempool, mempool_applied, one_by_one, raw_block_applied, raw_mempool_applied, same_books, sighted, unchanged, Wallet};

verus! {

/// Whether `after` has the books that an operation makes of `before`. Of a
/// mempool transaction that is: there is a transaction that the stored
/// bytes decode to, and `after` has the books of `before` once it has been
/// looked at.
pub open spec fn books_stepped(before: Wallet, op: Operation, after: Wallet) -> bool {
    match op {
        Operation::Mempool { added_unix, bytes } => exists|tx: Tx|
            decoded(tx) && Some(tx@) == tx_decoding(bytes@) && #[trigger] sighted(before, after, tx, added_unix),
        _ => stepped(before, op, after),
    }
}

/// Whether applying the operations to `before`, one after the other, can
/// give a wallet with the books of `after`: there is a wallet for each
/// step, the first is `before`, each operation applies to its wallet and
/// makes the books of the next, and the last has the books of `after`.
pub open spec fn restores(before: Wallet, ops: Seq<Operation>, after: Wallet) -> bool {
    exists|states: Seq<Wallet>|
        #![trigger states.len()]
        states.len() == ops.len() + 1 && states[0] == before && same_books(states[ops.len() as int], after)
            && forall|i: int|
            0 <= i < ops.len() ==> applies(#[trigger] states[i], ops[i]) && books_stepped(
                states[i],
                ops[i],
                states[i + 1],
            )
}

/// Whether the operations are the record of a block applied at a height.
pub open spec fn is_block_record(ops: Seq<Operation>, height: u32, bytes: Seq<u8>) -> bool {
    ops.len() == 1 && (ops[0] matches Operation::Block { height: h, bytes: b } && h == height && b@ == bytes)
}

/// Whether the operations are the record of a mempool batch: one operation
/// for each entry, in the order of the batch.
pub open spec fn is_mempool_record(ops: Seq<Operation>, txs: Seq<MempoolTx>) -> bool {
    &&& ops.len() == txs.len()
    &&& forall|i: int|
        0 <= i < ops.len() ==> ((#[trigger] ops[i]) matches Operation::Mempool { added_unix: t, bytes: b } && t
            == txs[i].added_unix && b@ == txs[i].tx@)
}

/// The record of a transaction created: the change index, where the call
/// used one up.
pub open spec fn spend_record_of(before: Wallet, after: Wallet) -> Seq<Operation> {
    if after.keys_view().next_internal != before.keys_view().next_internal {
        seq![Operation::RevealInternal]
    } else {
        Seq::empty()
    }
}

/// The record of an address handed out.
pub fn reveal_record() -> (r: Vec<Operation>)
    ensures
        r@ == seq![Operation::RevealExternal],
{
    let mut ops: Vec<Operation> = Vec::new();
    ops.push(Operation::RevealExternal);
    assert(ops@ =~= seq![Operation::RevealExternal]);
    ops
}

/// The record of a block applied at a height.
pub fn block_record(height: u32, bytes: Vec<u8>) -> (r: Vec<Operation>)
    ensures
        is_block_record(r@, height, bytes@),
{
    let mut ops: Vec<Operation> = Vec::new();
    ops.push(Operation::Block { height: height, bytes: bytes });
    ops
}

/// The record of a mempool batch.
pub fn mempool_record(txs: &Vec<MempoolTx>) -> (r: Vec<Operation>)
    ensures
        is_mempool_record(r@, txs@),
{
    let mut ops: Vec<Operation> = Vec::new();
    let mut i: usize = 0;
    while i < txs.len()
        invariant
            i <= txs@.len(),
            ops@.len() == i,
            forall|j: int|
                0 <= j < i ==> ((#[trigger] ops@[j]) matches Operation::Mempool { added_unix: t, bytes: b } && t
                    == txs@[j].added_unix && b@ == txs@[j].tx@),
        decreases txs@.len() - i,
    {
        ops.push(Operation::Mempool { added_unix: txs[i].added_unix, bytes: bytes_clone(&txs[i].tx) });
        i = i + 1;
    }
    ops
}

/// The record of a transaction created, from the wallet before the call
/// and the wallet after it.
pub fn spend_record(before: &Wallet, after: &Wallet) -> (r: Vec<Operation>)
    ensures
        r@ == spend_record_of(*before, *after),
{
    let mut ops: Vec<Operation> = Vec::new();
    if after.next_change() != before.next_change() {
        ops.push(Operation::RevealInternal);
        assert(ops@ =~= seq![Operation::RevealInternal]);
    }
    ops
}

impl Wallet {
    /// Settles a call once its record has gone to the store: the wallet
    /// stays as the call left it where the record was written, and is put
    /// back as it was before the call where it was not. Gives whether the
    /// call stands.
    pub fn settle(&mut self, before: Wallet, written: bool) -> (r: bool)
        ensures
            r == written,
            written ==> *final(self) == *old(self),
            !written ==> *final(self) == before,
    {
        if !written {
            *self = before;
        }
        written
    }
}

/// An operation makes the books that it makes the wallet of.
pub proof fn lemma_stepped_books(before: Wallet, op: Operation, after: Wallet)
    requires
        stepped(before, op, after),
    ensures
        books_stepped(before, op, after),
{
    match op {
        Operation::Mempool { added_unix, bytes } => {
            let entry = seq![MempoolTx { tx: bytes, added_unix: added_unix }];
            let res = choose|res: ApplyResult| #[trigger] raw_mempool_applied(before, after, res, entry);
            let seen = choose|seen: Seq<(Tx, u64)>|
                decodes_mempool(seen, entry) && all_seen_decoded(seen) && one_by_one(before, after, seen)
                    && #[trigger] mempool_applied(before, after, res, seen);
            let tx = seen[0].0;
            assert(entry[0].tx@ == bytes@ && entry[0].added_unix == added_unix);
            let s = Ledger { graph: before.graph_view(), keys: before.keys_view(), fresh: Seq::<Seq<u8>>::empty() };
            assert(see_mempool(s, seen, 0) == s);
            assert(see_mempool(s, seen, 1) == see_unconfirmed(s, tx, added_unix));
            assert(sighted(before, after, tx, added_unix));
        },
        _ => {},
    }
}

/// One operation that applies restores the wallet that it made.
pub proof fn lemma_step_restores(before: Wallet, op: Operation, after: Wallet)
    requires
        applies(before, op),
        stepped(before, op, after),
    ensures
        restores(before, seq![op], after),
{
    let ops = seq![op];
    let states = seq![before, after];
    lemma_stepped_books(before, op, after);
    assert(states.len() == ops.len() + 1);
    assert(applies(states[0], ops[0]) && books_stepped(states[0], ops[0], states[1]));
    assert(same_books(states[ops.len() as int], after));
}

/// No operation restores a wallet with the same books.
pub proof fn lemma_nothing_restores(before: Wallet, after: Wallet)
    requires
        same_books(before, after),
    ensures
        restores(before, Seq::empty(), after),
{
    let ops = Seq::<Operation>::empty();
    let states = seq![before];
    assert(states.len() == ops.len() + 1);
    assert(same_books(states[ops.len() as int], after));
}

/// What a replay gives, the operations restore: the wallet after all
/// operations have been applied one after the other is one that they
/// restore.
pub proof fn lemma_replayed_restores(start: Wallet, ops: Seq<Operation>, end: Wallet)
    requires
        replayed(start, ops, end, ops.len() as int),
    ensures
        restores(start, ops, end),
{
    let k = ops.len() as int;
    let states = choose|states: Seq<Wallet>|
        #![trigger states.len()]
        states.len() == k + 1 && states[0] == start && unchanged(states[k], end) && forall|i: int|
            0 <= i < k ==> applies(#[trigger] states[i], ops[i]) && stepped(states[i], ops[i], states[i + 1]);
    assert forall|i: int| 0 <= i < ops.len() implies applies(#[trigger] states[i], ops[i]) && books_stepped(
        states[i],
        ops[i],
        states[i + 1],
    ) by {
        lemma_stepped_books(states[i], ops[i], states[i + 1]);
    }
    assert(states.len() == ops.len() + 1);
    assert(same_books(states[ops.len() as int], end));
}

/// The record of an address handed out restores the wallet after the call.
pub proof fn lemma_reveal_restores(before: Wallet, after: Wallet)
    requires
        revealed(before, KeychainKind::External, after),
    ensures
        restores(before, seq![Operation::RevealExternal], after),
{
    lemma_step_restores(before, Operation::RevealExternal, after);
}

/// The record of a block that was applied restores the wallet after the call.
pub proof fn lemma_block_restores(before: Wallet, after: Wallet, res: ApplyResult, height: u32, bytes: Seq<u8>, ops: Seq<Operation>)
    requires
        is_block_record(ops, height, bytes),
        applies(before, ops[0]),
        block_decoding(bytes) matches Some(b) && raw_block_applied(before, after, res, height, b),
    ensures
        restores(before, ops, after),
{
    lemma_step_restores(before, ops[0], after);
    assert(ops =~= seq![ops[0]]);
}

/// The record of a transaction created restores the wallet after the call:
/// where the call used up a change index, or where it left the keychains as
/// they were.
pub proof fn lemma_spend_restores(before: Wallet, after: Wallet)
    requires
        after.chain_view() == before.chain_view(),
        after.graph_view() == before.graph_view(),
        after.header_view() == before.header_view(),
        after.keys_view() == before.keys_view() || revealed(before, KeychainKind::Internal, after),
    ensures
        restores(before, spend_record_of(before, after), after),
{
    if after.keys_view().next_internal != before.keys_view().next_internal {
        lemma_step_restores(before, Operation::RevealInternal, after);
    } else {
        assert(after.keys_view() == before.keys_view());
        lemma_nothing_restores(before, after);
    }
}

/// The record of a mempool batch restores the wallet after the call: the
/// batch is looked at entry by entry, as the operations of its record are.
pub proof fn lemma_mempool_restores(before: Wallet, after: Wallet, res: ApplyResult, txs: Seq<MempoolTx>, ops: Seq<Operation>)
    requires
        raw_mempool_applied(before, after, res, txs),
        is_mempool_record(ops, txs),
    ensures
        restores(before, ops, after),
{
    let seen = choose|seen: Seq<(Tx, u64)>|
        decodes_mempool(seen, txs) && all_seen_decoded(seen) && one_by_one(before, after, seen)
            && #[trigger] mempool_applied(before, after, res, seen);
    let states = choose|states: Seq<Wallet>|
        #![trigger states.len()]
        states.len() == seen.len() + 1 && states[0] == before && same_books(states[seen.len() as int], after)
            && forall|i: int|
            0 <= i < seen.len() ==> sighted(#[trigger] states[i], states[i + 1], seen[i].0, seen[i].1);
    assert forall|i: int| 0 <= i < ops.len() implies applies(#[trigger] states[i], ops[i]) && books_stepped(
        states[i],
        ops[i],
        states[i + 1],
    ) by {
        let tx = seen[i].0;
        assert(decoded(tx));
        assert(Some(tx@) == tx_decoding(txs[i].tx@));
        assert(sighted(states[i], states[i + 1], tx, seen[i].1));
        assert(ops[i] is Mempool);
    }
    assert(states.len() == ops.len() + 1);
    assert(same_books(states[ops.len() as int], after));
}

} // verus!

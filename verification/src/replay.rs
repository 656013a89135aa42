//! The operations that change a wallet, as a store keeps them, and how a
//! wallet is brought back by applying them again.

use vstd::prelude::*;
use crate::backend::{block_decoding, tx_decoding};
use crate::chain::{lemma_connect_keeps_linked, linked, Checkpoint};
use crate::chain::can_connect;
use crate::types::{ApplyResult, KeychainKind, MempoolTx};
use crate::wallet::{all_decode, raw_block_applied, raw_mempool_applied, unchanged, Wallet};

verus! {

/// An operation that changed a wallet.
#[derive(Clone, Debug)]
pub enum Operation {
    /// An address of the external keychain was handed out.
    RevealExternal,
    /// A change script of the internal keychain was used.
    RevealInternal,
    /// A block was applied at a height.
    Block { height: u32, bytes: Vec<u8> },
    /// A mempool transaction was seen at a time.
    Mempool { added_unix: u64, bytes: Vec<u8> },
}

/// A time as the signed number that a store keeps: itself, or itself less
/// 2^64 where it is beyond the signed numbers.
pub open spec fn stored_time(t: u64) -> i64 {
    if t <= i64::MAX {
        t as i64
    } else {
        (t - 0x1_0000_0000_0000_0000) as i64
    }
}

/// The time that a stored number stands for.
pub open spec fn time_stored(n: i64) -> u64 {
    if n >= 0 {
        n as u64
    } else {
        (n + 0x1_0000_0000_0000_0000) as u64
    }
}

/// The kind of an operation, as a store keeps it.
pub open spec fn kind_of(op: Operation) -> i64 {
    match op {
        Operation::RevealExternal => 0,
        Operation::RevealInternal => 1,
        Operation::Block { .. } => 2,
        Operation::Mempool { .. } => 3,
    }
}

/// The number of an operation, as a store keeps it: the height of a block,
/// the time of a mempool transaction.
pub open spec fn number_of(op: Operation) -> i64 {
    match op {
        Operation::RevealExternal => 0,
        Operation::RevealInternal => 0,
        Operation::Block { height, .. } => height as i64,
        Operation::Mempool { added_unix, .. } => stored_time(added_unix),
    }
}

/// The operation that a stored kind, number and bytes stand for, if any.
pub open spec fn operation_read(kind: i64, number: i64, bytes: Vec<u8>) -> Option<Operation> {
    if kind == 0 {
        Some(Operation::RevealExternal)
    } else if kind == 1 {
        Some(Operation::RevealInternal)
    } else if kind == 2 {
        if 0 <= number <= u32::MAX {
            Some(Operation::Block { height: number as u32, bytes: bytes })
        } else {
            None
        }
    } else if kind == 3 {
        Some(Operation::Mempool { added_unix: time_stored(number), bytes: bytes })
    } else {
        None
    }
}

/// Round trip: what is read from the kind, number and bytes of a block or a
/// mempool transaction is that operation.
pub proof fn lemma_operation_round_trip(op: Operation, bytes: Vec<u8>)
    requires
        match op {
            Operation::Block { bytes: b, .. } => b == bytes,
            Operation::Mempool { bytes: b, .. } => b == bytes,
            _ => true,
        },
    ensures
        operation_read(kind_of(op), number_of(op), bytes) == Some(op),
{
}

impl Operation {
    /// The kind of the operation, as a store keeps it.
    pub fn kind(&self) -> (r: i64)
        ensures
            r == kind_of(*self),
    {
        match self {
            Operation::RevealExternal => 0,
            Operation::RevealInternal => 1,
            Operation::Block { .. } => 2,
            Operation::Mempool { .. } => 3,
        }
    }

    /// The number of the operation, as a store keeps it.
    pub fn number(&self) -> (r: i64)
        ensures
            r == number_of(*self),
    {
        match self {
            Operation::RevealExternal => 0,
            Operation::RevealInternal => 0,
            Operation::Block { height, .. } => *height as i64,
            Operation::Mempool { added_unix, .. } => {
                let t: u64 = *added_unix;
                if t <= i64::MAX as u64 {
                    t as i64
                } else {
                    (t as i128 - 0x1_0000_0000_0000_0000) as i64
                }
            },
        }
    }

    /// The operation that a stored kind, number and bytes stand for, if any.
    pub fn read(kind: i64, number: i64, bytes: Vec<u8>) -> (r: Option<Operation>)
        ensures
            r == operation_read(kind, number, bytes),
    {
        if kind == 0 {
            Some(Operation::RevealExternal)
        } else if kind == 1 {
            Some(Operation::RevealInternal)
        } else if kind == 2 {
            if 0 <= number && number <= u32::MAX as i64 {
                Some(Operation::Block { height: number as u32, bytes: bytes })
            } else {
                None
            }
        } else if kind == 3 {
            let t: u64 = if number >= 0 {
                number as u64
            } else {
                (number as i128 + 0x1_0000_0000_0000_0000) as u64
            };
            Some(Operation::Mempool { added_unix: t, bytes: bytes })
        } else {
            None
        }
    }
}

/// Whether an operation can be applied to a wallet: a reveal always, a
/// block if it decodes and connects, a mempool transaction if it decodes.
pub open spec fn applies(before: Wallet, op: Operation) -> bool {
    match op {
        Operation::RevealExternal => true,
        Operation::RevealInternal => true,
        Operation::Block { height, bytes } => match block_decoding(bytes@) {
            Some(b) => all_decode(b.txs) && can_connect(before.chain_view(), height, b.prev_hash),
            None => false,
        },
        Operation::Mempool { bytes, .. } => tx_decoding(bytes@) is Some,
    }
}

/// Whether `after` is the wallet that an operation makes of `before`.
pub open spec fn stepped(before: Wallet, op: Operation, after: Wallet) -> bool {
    match op {
        Operation::RevealExternal => revealed(before, KeychainKind::External, after),
        Operation::RevealInternal => revealed(before, KeychainKind::Internal, after),
        Operation::Block { height, bytes } => exists|res: ApplyResult|
            block_decoding(bytes@) is Some && #[trigger] raw_block_applied(
                before,
                after,
                res,
                height,
                block_decoding(bytes@)->Some_0,
            ),
        Operation::Mempool { added_unix, bytes } => exists|res: ApplyResult|
            #[trigger] raw_mempool_applied(
                before,
                after,
                res,
                seq![MempoolTx { tx: bytes, added_unix: added_unix }],
            ),
    }
}

/// Whether `after` is `before` with the lowest unused index of a keychain used up.
pub open spec fn revealed(before: Wallet, keychain: KeychainKind, after: Wallet) -> bool {
    &&& after.keys_view() == before.keys_view().reveal_to(keychain, before.keys_view().lowest_unused(keychain))
    &&& after.chain_view() == before.chain_view()
    &&& after.graph_view() == before.graph_view()
    &&& after.header_view() == before.header_view()
}

/// Whether `end` is, in all that callers see, the wallet after the first `k`
/// operations have been applied to `start`, one after the other.
pub open spec fn replayed(start: Wallet, ops: Seq<Operation>, end: Wallet, k: int) -> bool {
    exists|states: Seq<Wallet>|
        #![trigger states.len()]
        states.len() == k + 1 && states[0] == start && unchanged(states[k], end) && forall|i: int|
            0 <= i < k ==> applies(#[trigger] states[i], ops[i]) && stepped(states[i], ops[i], states[i + 1])
}

/// Whether `r` and `end` are what applying the operations to `start` gives:
/// the place of the first operation that cannot be applied, with the wallet
/// as after the operations before it; or `None`, with the wallet as after
/// all of them.
pub open spec fn replay_gives(start: Wallet, ops: Seq<Operation>, end: Wallet, r: Option<usize>) -> bool {
    match r {
        Some(k) => k < ops.len() && replayed(start, ops, end, k as int) && !applies(end, ops[k as int]),
        None => replayed(start, ops, end, ops.len() as int),
    }
}

/// Whether each of the first `k` operations is a block.
pub open spec fn all_blocks(ops: Seq<Operation>, k: int) -> bool {
    forall|i: int| 0 <= i < k ==> (#[trigger] ops[i]) is Block
}

/// Blocks applied one after the other to linked chains leave linked chains,
/// each one checkpoint longer than the one before, with the block's height
/// on top.
proof fn lemma_blocks_stepped(states: Seq<Wallet>, ops: Seq<Operation>, k: int, j: int)
    requires
        0 <= j <= k < states.len(),
        k <= ops.len(),
        all_blocks(ops, k),
        linked(states[0].chain_view()),
        forall|i: int|
            0 <= i < k ==> applies(#[trigger] states[i], ops[i]) && stepped(states[i], ops[i], states[i + 1]),
    ensures
        linked(states[j].chain_view()),
        states[j].chain_view().len() == states[0].chain_view().len() + j,
        forall|i: int|
            0 <= i < j ==> (#[trigger] states[j].chain_view()[states[0].chain_view().len() + i]).height
                == ops[i]->Block_height,
        forall|i: int|
            0 <= i < states[0].chain_view().len() ==> #[trigger] states[j].chain_view()[i]
                == states[0].chain_view()[i],
    decreases j,
{
    if j > 0 {
        lemma_blocks_stepped(states, ops, k, j - 1);
        let before = states[j - 1];
        let after = states[j];
        assert(applies(before, ops[j - 1]) && stepped(before, ops[j - 1], after));
        assert(ops[j - 1] is Block);
        let height = ops[j - 1]->Block_height;
        let bytes = ops[j - 1]->Block_bytes;
        let b = block_decoding(bytes@)->Some_0;
        let res = choose|res: ApplyResult| #[trigger] raw_block_applied(before, after, res, height, b);
        let (hash, parent, txs) = choose|hash: [u8; 32], parent: [u8; 32], txs: Seq<crate::types::Tx>|
            hash@ == b.hash && parent@ == b.prev_hash && crate::wallet::decodes(txs, b.txs)
                && crate::wallet::all_txs_decoded(txs) && #[trigger] crate::wallet::block_applied(
                before,
                after,
                res,
                height,
                hash,
                parent,
                txs,
            );
        let cp = Checkpoint { height: height, hash: hash, parent: parent };
        lemma_connect_keeps_linked(before.chain_view(), cp);
        assert(after.chain_view() == before.chain_view().push(cp));
        assert forall|i: int| 0 <= i < j implies (#[trigger] after.chain_view()[states[0].chain_view().len()
            + i]).height == ops[i]->Block_height by {
            if i < j - 1 {
                assert(after.chain_view()[states[0].chain_view().len() + i] == before.chain_view()[
                    states[0].chain_view().len() + i]);
            }
        }
        assert forall|i: int| 0 <= i < states[0].chain_view().len() implies #[trigger] after.chain_view()[i]
            == states[0].chain_view()[i] by {
            assert(after.chain_view()[i] == before.chain_view()[i]);
        }
    }
}

/// Chain linkage over calls: where `k` blocks have been applied one after
/// the other to a wallet, its chain is linked and has `k` checkpoints more,
/// the blocks' heights on top of the checkpoints it had, in the order of the
/// calls. From a chain that holds only genesis that is `k + 1` checkpoints
/// with strictly rising heights.
pub proof fn lemma_blocks_replayed(start: Wallet, ops: Seq<Operation>, end: Wallet, k: int)
    requires
        start.wf(),
        0 <= k <= ops.len(),
        all_blocks(ops, k),
        replayed(start, ops, end, k),
    ensures
        linked(end.chain_view()),
        end.chain_view().len() == start.chain_view().len() + k,
        forall|i: int|
            0 <= i < k ==> (#[trigger] end.chain_view()[start.chain_view().len() + i]).height
                == ops[i]->Block_height,
        forall|i: int|
            0 <= i < start.chain_view().len() ==> #[trigger] end.chain_view()[i] == start.chain_view()[i],
{
    start.lemma_wf();
    let states = choose|states: Seq<Wallet>|
        #![trigger states.len()]
        states.len() == k + 1 && states[0] == start && unchanged(states[k], end) && forall|i: int|
            0 <= i < k ==> applies(#[trigger] states[i], ops[i]) && stepped(states[i], ops[i], states[i + 1]);
    lemma_blocks_stepped(states, ops, k, k);
}

impl Wallet {
    /// Applies stored operations in order, as far as they can be applied.
    /// Gives the place of the first operation that cannot be applied, with
    /// the wallet as after the operations before it, or `None` where all
    /// have been applied.
    pub fn replay(&mut self, ops: Vec<Operation>) -> (r: Option<usize>)
        requires
            old(self).wf(),
        ensures
            final(self).wf(),
            replay_gives(*old(self), ops@, *final(self), r),
    {
        let ghost all = ops@;
        let ghost mut states: Seq<Wallet> = seq![*self];
        let n: usize = ops.len();
        let mut rest: Vec<Operation> = ops;
        let mut i: usize = 0;
        while i < n
            invariant
                self.wf(),
                all == ops@,
                n == all.len(),
                i <= n,
                rest@ == all.skip(i as int),
                states.len() == i + 1,
                states[0] == *old(self),
                states[i as int] == *self,
                forall|j: int|
                    0 <= j < i ==> applies(#[trigger] states[j], all[j]) && stepped(states[j], all[j], states[j + 1]),
            decreases n - i,
        {
            let op = rest.remove(0);
            assert(op == all[i as int]);
            assert(rest@ =~= all.skip(i + 1));
            let ghost before = *self;
            let done: bool = match op {
                Operation::RevealExternal => {
                    let _ = self.fresh_address();
                    true
                },
                Operation::RevealInternal => {
                    let _ = self.reveal_change();
                    true
                },
                Operation::Block { height, bytes } => {
                    match self.apply_block(height, bytes.as_slice()) {
                        Ok(res) => {
                            assert(raw_block_applied(before, *self, res, height, block_decoding(bytes@)->Some_0));
                            true
                        },
                        Err(_) => {
                            assert(!applies(before, all[i as int]));
                            false
                        },
                    }
                },
                Operation::Mempool { added_unix, bytes } => {
                    let mut batch: Vec<MempoolTx> = Vec::new();
                    batch.push(MempoolTx { tx: bytes, added_unix: added_unix });
                    assert(batch@ =~= seq![MempoolTx { tx: bytes, added_unix: added_unix }]);
                    assert(batch@[0].tx@ == bytes@);
                    match self.try_apply_mempool(batch) {
                        Some(res) => {
                            assert(raw_mempool_applied(before, *self, res, seq![MempoolTx { tx: bytes, added_unix: added_unix }]));
                            true
                        },
                        None => {
                            assert(!applies(before, all[i as int]));
                            false
                        },
                    }
                },
            };
            if !done {
                assert(unchanged(states[i as int], *self));
                assert(!applies(*self, all[i as int]));
                assert(replayed(*old(self), all, *self, i as int));
                let r = Some(i);
                assert(replay_gives(*old(self), all, *self, r));
                return r;
            }
            proof {
                let grown = states.push(*self);
                assert forall|j: int| 0 <= j < i + 1 implies applies(#[trigger] grown[j], all[j]) && stepped(
                    grown[j],
                    all[j],
                    grown[j + 1],
                ) by {
                    if j < i {
                        assert(grown[j] == states[j] && grown[j + 1] == states[j + 1]);
                    }
                }
                states = grown;
            }
            i = i + 1;
        }
        assert(unchanged(states[n as int], *self));
        assert(replayed(*old(self), all, *self, n as int));
        let r = None;
        assert(replay_gives(*old(self), all, *self, r));
        r
    }
}

} // verus!

//! The index of confirmed block checkpoints.

use vstd::prelude::*;
use crate::types::{hash_bytes, hash_eq, BlockId};

verus! {

/// A block the wallet has connected: its height, its hash and the parent hash it claims.
#[derive(Clone, Debug)]
pub struct Checkpoint {
    pub height: u32,
    pub hash: [u8; 32],
    pub parent: [u8; 32],
}

/// A block could not be connected: the chain lacks a matching checkpoint at
/// `try_include_height`.
#[derive(Clone, Copy, Debug, PartialEq, Eq, Structural)]
pub struct CannotConnectError {
    pub try_include_height: u32,
}

/// Heights strictly increase from the first checkpoint to the last.
pub open spec fn heights_increase(c: Seq<Checkpoint>) -> bool {
    forall|i: int, j: int| 0 <= i < j < c.len() ==> c[i].height < c[j].height
}

/// From the third checkpoint on, each one sits directly on its predecessor and
/// names it as parent. The second checkpoint is tied to genesis on trust.
pub open spec fn parents_link(c: Seq<Checkpoint>) -> bool {
    forall|i: int|
        2 <= i < c.len() ==> (#[trigger] c[i]).height == c[i - 1].height + 1 && c[i].parent@
            == c[i - 1].hash@
}

/// A chain of checkpoints that starts at genesis, rises strictly in height and is hash-linked.
pub open spec fn linked(c: Seq<Checkpoint>) -> bool {
    &&& c.len() > 0 ==> c[0].height == 0
    &&& heights_increase(c)
    &&& parents_link(c)
}

/// Whether the chain holds a checkpoint with this height and hash.
pub open spec fn chain_holds(c: Seq<Checkpoint>, height: u32, hash: Seq<u8>) -> bool {
    exists|i: int| 0 <= i < c.len() && (#[trigger] c[i]).height == height && c[i].hash@ == hash
}

/// Whether a block at `height` that names `parent` can be put on top of `c`.
///
/// An empty chain takes only genesis. A chain that holds nothing but genesis
/// takes any later block, whatever parent it names. Every other chain takes
/// only the direct successor of its tip.
pub open spec fn can_connect(c: Seq<Checkpoint>, height: u32, parent: Seq<u8>) -> bool {
    if c.len() == 0 {
        height == 0
    } else if c.last().height == 0 {
        height > 0
    } else {
        height == c.last().height + 1 && parent == c.last().hash@
    }
}

/// The height at which a checkpoint is missing when a block at `height` cannot connect.
pub open spec fn missing_height(height: u32) -> u32 {
    if height > 0 {
        (height - 1) as u32
    } else {
        0
    }
}

/// The chain after a sequence of blocks has been connected in order, if every one connects.
pub open spec fn connect_all(c: Seq<Checkpoint>, blocks: Seq<Checkpoint>) -> Option<Seq<Checkpoint>>
    decreases blocks.len(),
{
    if blocks.len() == 0 {
        Some(c)
    } else {
        let b = blocks[0];
        if can_connect(c, b.height, b.parent@) {
            connect_all(c.push(b), blocks.drop_first())
        } else {
            None
        }
    }
}

/// Connecting a block to a linked chain yields a linked chain, one checkpoint longer.
pub proof fn lemma_connect_keeps_linked(c: Seq<Checkpoint>, b: Checkpoint)
    requires
        linked(c),
        can_connect(c, b.height, b.parent@),
    ensures
        linked(c.push(b)),
        c.push(b).len() == c.len() + 1,
{
    let d = c.push(b);
    if c.len() > 0 {
        assert forall|i: int, j: int| 0 <= i < j < d.len() implies d[i].height < d[j].height by {
            if j == c.len() {
                if i < c.len() - 1 {
                    assert(c[i].height < c[c.len() - 1].height);
                }
            }
        }
        assert forall|i: int| 2 <= i < d.len() implies (#[trigger] d[i]).height == d[i - 1].height
            + 1 && d[i].parent@ == d[i - 1].hash@ by {
            if i == c.len() {
                assert(c[0].height < c[c.len() - 1].height);
            } else {
                assert(d[i] == c[i]);
            }
        }
    }
}

/// Chain linkage: starting from a chain that holds only genesis, `n` blocks
/// that connect one after the other leave exactly `n + 1` checkpoints, with
/// strictly increasing heights and each checkpoint past the second naming its
/// predecessor as parent.
pub proof fn lemma_chain_linkage(genesis: Checkpoint, blocks: Seq<Checkpoint>)
    requires
        genesis.height == 0,
        connect_all(seq![genesis], blocks) is Some,
    ensures
        connect_all(seq![genesis], blocks).unwrap().len() == blocks.len() + 1,
        linked(connect_all(seq![genesis], blocks).unwrap()),
{
    lemma_connect_all(seq![genesis], blocks);
}

/// Connecting `blocks` in order to a linked chain keeps it linked and adds one checkpoint per block.
pub proof fn lemma_connect_all(c: Seq<Checkpoint>, blocks: Seq<Checkpoint>)
    requires
        linked(c),
        connect_all(c, blocks) is Some,
    ensures
        connect_all(c, blocks).unwrap().len() == c.len() + blocks.len(),
        linked(connect_all(c, blocks).unwrap()),
    decreases blocks.len(),
{
    if blocks.len() > 0 {
        let b = blocks[0];
        lemma_connect_all(c.push(b), blocks.drop_first());
    }
}

/// The sequence of block checkpoints the wallet has connected, genesis first.
#[derive(Clone, Debug)]
pub struct ChainIndex {
    checkpoints: Vec<Checkpoint>,
}

impl View for ChainIndex {
    type V = Seq<Checkpoint>;

    closed spec fn view(&self) -> Seq<Checkpoint> {
        self.checkpoints@
    }
}

impl ChainIndex {
    /// The invariant of the index: its checkpoints form a linked chain.
    pub open spec fn wf(&self) -> bool {
        linked(self@)
    }

    /// An index without any checkpoint.
    pub fn new() -> (r: Self)
        ensures
            r@ == Seq::<Checkpoint>::empty(),
            r.wf(),
    {
        ChainIndex { checkpoints: Vec::new() }
    }

    /// An index that holds the genesis block only.
    pub fn from_genesis(hash: [u8; 32]) -> (r: Self)
        ensures
            r@.len() == 1,
            r@[0].height == 0,
            r@[0].hash == hash,
            forall|i: int| 0 <= i < 32 ==> r@[0].parent@[i] == 0,
            r.wf(),
    {
        let mut checkpoints: Vec<Checkpoint> = Vec::new();
        checkpoints.push(Checkpoint { height: 0, hash: hash, parent: [0u8; 32] });
        ChainIndex { checkpoints }
    }

    /// The number of checkpoints.
    pub fn len(&self) -> (r: usize)
        ensures
            r == self@.len(),
    {
        self.checkpoints.len()
    }

    /// The height of the tip, or `None` for an empty index.
    pub fn tip_height(&self) -> (r: Option<u32>)
        ensures
            r == (if self@.len() == 0 {
                None
            } else {
                Some(self@.last().height)
            }),
    {
        let n: usize = self.checkpoints.len();
        if n == 0 {
            None
        } else {
            Some(self.checkpoints[n - 1].height)
        }
    }

    /// Puts the block on top of the chain if it connects, and reports the
    /// missing checkpoint otherwise, leaving the chain as it was.
    pub fn connect_block(&mut self, height: u32, hash: [u8; 32], prev_hash: [u8; 32]) -> (r: Result<
        (),
        CannotConnectError,
    >)
        requires
            old(self).wf(),
        ensures
            final(self).wf(),
            r is Ok <==> can_connect(old(self)@, height, prev_hash@),
            r is Ok ==> final(self)@ == old(self)@.push(
                Checkpoint { height: height, hash: hash, parent: prev_hash },
            ),
            r is Err ==> final(self)@ == old(self)@ && r->Err_0.try_include_height
                == missing_height(height),
    {
        let n: usize = self.checkpoints.len();
        let fits: bool = if n == 0 {
            height == 0
        } else {
            let tip = &self.checkpoints[n - 1];
            if tip.height == 0 {
                height > 0
            } else {
                tip.height < u32::MAX && height == tip.height + 1 && hash_eq(&prev_hash, &tip.hash)
            }
        };
        if fits {
            let cp = Checkpoint { height: height, hash: hash, parent: prev_hash };
            self.checkpoints.push(cp);
            Ok(())
        } else {
            let at: u32 = if height > 0 {
                height - 1
            } else {
                0
            };
            Err(CannotConnectError { try_include_height: at })
        }
    }

    /// Drops every checkpoint above `height`; returns how many were dropped.
    pub fn disconnect_from(&mut self, height: u32) -> (r: usize)
        requires
            old(self).wf(),
        ensures
            final(self).wf(),
            final(self)@ == old(self)@.take(final(self)@.len() as int),
            final(self)@.len() + r == old(self)@.len(),
            forall|i: int| 0 <= i < final(self)@.len() ==> old(self)@[i].height <= height,
            forall|i: int|
                final(self)@.len() <= i < old(self)@.len() ==> old(self)@[i].height > height,
    {
        let n: usize = self.checkpoints.len();
        let mut k: usize = n;
        while k > 0 && self.checkpoints[k - 1].height > height
            invariant
                n == self.checkpoints@.len(),
                k <= n,
                forall|i: int| k <= i < n ==> self.checkpoints@[i].height > height,
            decreases k,
        {
            k = k - 1;
        }
        proof {
            let c = self.checkpoints@;
            assert forall|i: int| 0 <= i < k implies c[i].height <= height by {
                if i < k - 1 {
                    assert(c[i].height < c[k - 1].height);
                }
            }
            let d = c.take(k as int);
            assert forall|i: int, j: int| 0 <= i < j < d.len() implies d[i].height
                < d[j].height by {
                assert(c[i].height < c[j].height);
            }
            assert forall|i: int| 2 <= i < d.len() implies (#[trigger] d[i]).height == d[i
                - 1].height + 1 && d[i].parent@ == d[i - 1].hash@ by {
                assert(d[i] == c[i]);
            }
            assert(linked(d));
        }
        self.checkpoints.truncate(k);
        assert(self.checkpoints@ =~= old(self)@.take(k as int));
        n - k
    }

    /// Whether the chain holds a checkpoint with this height and hash.
    pub fn contains(&self, height: u32, hash: &[u8; 32]) -> (r: bool)
        ensures
            r == chain_holds(self@, height, hash@),
    {
        let mut i: usize = 0;
        while i < self.checkpoints.len()
            invariant
                i <= self.checkpoints.len(),
                forall|j: int|
                    0 <= j < i ==> !((#[trigger] self@[j]).height == height && self@[j].hash@
                        == hash@),
            decreases self.checkpoints.len() - i,
        {
            if self.checkpoints[i].height == height && hash_eq(&self.checkpoints[i].hash, hash) {
                return true;
            }
            i = i + 1;
        }
        false
    }

    /// The hash of the genesis block, or nothing for an empty index.
    pub fn genesis_hash(&self) -> (r: Vec<u8>)
        ensures
            r@ == (if self@.len() == 0 {
                Seq::<u8>::empty()
            } else {
                self@[0].hash@
            }),
    {
        if self.checkpoints.len() == 0 {
            Vec::new()
        } else {
            hash_bytes(&self.checkpoints[0].hash)
        }
    }

    /// Up to `count` blocks, the tip first and then downwards.
    pub fn recent(&self, count: u32) -> (r: Vec<BlockId>)
        ensures
            r@.len() == (if count <= self@.len() {
                count as int
            } else {
                self@.len() as int
            }),
            forall|k: int|
                0 <= k < r@.len() ==> (#[trigger] r@[k]).height == self@[self@.len() - 1 - k].height
                    && r@[k].hash@ == self@[self@.len() - 1 - k].hash@,
    {
        let n: usize = self.checkpoints.len();
        let mut out: Vec<BlockId> = Vec::new();
        let mut k: usize = 0;
        while k < n && k < count as usize
            invariant
                n == self.checkpoints@.len(),
                k <= n,
                k <= count,
                out@.len() == k,
                forall|j: int|
                    0 <= j < k ==> (#[trigger] out@[j]).height == self@[n - 1 - j].height
                        && out@[j].hash@ == self@[n - 1 - j].hash@,
            decreases n - k,
        {
            let cp = &self.checkpoints[n - 1 - k];
            out.push(BlockId { height: cp.height, hash: hash_bytes(&cp.hash) });
            k = k + 1;
        }
        out
    }
}

} // verus!

//! The order of listings: deepest in the chain first, and among equals the
//! one that was known first.

use vstd::prelude::*;
use crate::types::{TxInfo, UtxoInfo};

verus! {

/// An entry of a listing, which knows how deep it is in the chain.
pub trait Confirmable {
    /// The number of confirmations of the entry.
    spec fn depth(&self) -> u32;

    /// The number of confirmations of the entry.
    fn confirmations(&self) -> (r: u32)
        ensures
            r == self.depth(),
    ;
}

impl Confirmable for TxInfo {
    open spec fn depth(&self) -> u32 {
        self.confirmations
    }

    fn confirmations(&self) -> (r: u32) {
        self.confirmations
    }
}

impl Confirmable for UtxoInfo {
    open spec fn depth(&self) -> u32 {
        self.confirmations
    }

    fn confirmations(&self) -> (r: u32) {
        self.confirmations
    }
}

/// Whether `perm` names each of the positions `0..n` exactly once.
pub open spec fn is_permutation(perm: Seq<int>, n: int) -> bool {
    &&& perm.len() == n
    &&& forall|k: int| 0 <= k < perm.len() ==> 0 <= #[trigger] perm[k] < n
    &&& forall|k: int, l: int| 0 <= k < l < perm.len() ==> #[trigger] perm[k] != #[trigger] perm[l]
}

/// Whether the entry at position `a` of `items` belongs before the one at
/// `b`: it is deeper, or as deep and earlier in `items`.
pub open spec fn comes_before<T: Confirmable>(items: Seq<T>, a: int, b: int) -> bool {
    items[a].depth() > items[b].depth() || (items[a].depth() == items[b].depth() && a < b)
}

/// Whether `output` is `input` rearranged by `perm` into listing order.
/// For each input exactly one output and one `perm` are so.
pub open spec fn listed<T: Confirmable>(input: Seq<T>, output: Seq<T>, perm: Seq<int>) -> bool {
    &&& is_permutation(perm, input.len() as int)
    &&& output.len() == input.len()
    &&& forall|k: int| 0 <= k < output.len() ==> #[trigger] output[k] == input[perm[k]]
    &&& forall|k: int, l: int|
        0 <= k < l < perm.len() ==> comes_before(input, #[trigger] perm[k], #[trigger] perm[l])
}

/// Puts a listing in order: descending by confirmations, entries with equal
/// confirmations in the order in which they came.
pub fn sort_by_confirmations<T: Confirmable>(items: Vec<T>) -> (r: Vec<T>)
    ensures
        exists|perm: Seq<int>| listed(items@, r@, perm),
{
    let ghost input = items@;
    let n: usize = items.len();
    let mut rest: Vec<T> = items;
    let mut out: Vec<T> = Vec::new();
    let ghost mut perm: Seq<int> = Seq::empty();
    let mut i: usize = 0;
    while i < n
        invariant
            n == input.len(),
            i <= n,
            rest@ == input.skip(i as int),
            out@.len() == i,
            perm.len() == i,
            forall|k: int| 0 <= k < i ==> 0 <= #[trigger] perm[k] < i,
            forall|k: int, l: int| 0 <= k < l < i ==> #[trigger] perm[k] != #[trigger] perm[l],
            forall|k: int| 0 <= k < i ==> #[trigger] out@[k] == input[perm[k]],
            forall|k: int, l: int| 0 <= k < l < i ==> comes_before(input, #[trigger] perm[k], #[trigger] perm[l]),
        decreases n - i,
    {
        let x = rest.remove(0);
        let d: u32 = x.confirmations();
        let mut j: usize = 0;
        while j < out.len() && out[j].confirmations() >= d
            invariant
                j <= out@.len(),
                d == x.depth(),
                forall|k: int| 0 <= k < j ==> (#[trigger] out@[k]).depth() >= d,
            decreases out@.len() - j,
        {
            j = j + 1;
        }
        let ghost old_out = out@;
        let ghost old_perm = perm;
        out.insert(j, x);
        proof {
            perm = old_perm.insert(j as int, i as int);
            assert forall|k: int, l: int| 0 <= k < l < i + 1 implies #[trigger] perm[k] != #[trigger] perm[l]
                && comes_before(input, perm[k], perm[l]) by {
                if l == j {
                    assert(old_out[k].depth() >= d);
                }
            }
        }
        i = i + 1;
    }
    proof {
        assert(listed(input, out@, perm));
    }
    out
}

} // verus!

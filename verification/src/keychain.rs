//! The wallet's scripts: two keychains derived from one entropy, each with a
//! window of scripts derived ahead of the indices handed out.

use vstd::prelude::*;
use crate::backend::{check_seed, derive_address, derive_script, derived_address, derived_script, is_address_of, seed_usable, MAX_INDEX};
use crate::types::{bytes_eq, AddressInfo, KeychainKind, Network};

verus! {

/// One script of a keychain. It is `used` once its index has been handed out
/// or absorbed by a payment.
#[derive(Clone, Debug)]
pub struct KeychainEntry {
    pub keychain: KeychainKind,
    pub index: u32,
    pub script: Vec<u8>,
    pub used: bool,
}

/// What a keychain index is: the seed of its scripts, the width of the
/// lookahead window, and per keychain the first index not yet revealed.
pub struct KeychainView {
    pub network: Network,
    pub entropy: Seq<u8>,
    pub lookahead: u32,
    pub next_external: u32,
    pub next_internal: u32,
}

impl KeychainView {
    /// The first index of the keychain that is not yet revealed.
    pub open spec fn next(self, keychain: KeychainKind) -> u32 {
        match keychain {
            KeychainKind::External => self.next_external,
            KeychainKind::Internal => self.next_internal,
        }
    }

    /// The number of scripts of the keychain that are matched against
    /// payments: the revealed ones and the lookahead behind them.
    pub open spec fn window(self, keychain: KeychainKind) -> int {
        if self.next(keychain) + self.lookahead <= MAX_INDEX {
            self.next(keychain) + self.lookahead
        } else {
            MAX_INDEX + 1
        }
    }

    /// The script at an index of the keychain.
    pub open spec fn script(self, keychain: KeychainKind, index: u32) -> Seq<u8> {
        derived_script(self.network, self.entropy, keychain, index)
    }

    /// The lowest index from `from` on, inside the window, whose script is `script`.
    pub open spec fn first_match(self, keychain: KeychainKind, from: int, script: Seq<u8>) -> Option<u32>
        decreases self.window(keychain) - from,
    {
        if from < 0 || from >= self.window(keychain) {
            None
        } else if self.script(keychain, from as u32) == script {
            Some(from as u32)
        } else {
            self.first_match(keychain, from + 1, script)
        }
    }

    /// The keychain and index that a script belongs to: the lowest match of
    /// the external keychain, else the lowest of the internal one.
    pub open spec fn owner(self, script: Seq<u8>) -> Option<(KeychainKind, u32)> {
        match self.first_match(KeychainKind::External, 0, script) {
            Some(i) => Some((KeychainKind::External, i)),
            None => match self.first_match(KeychainKind::Internal, 0, script) {
                Some(i) => Some((KeychainKind::Internal, i)),
                None => None,
            },
        }
    }

    /// Whether a script belongs to the wallet.
    pub open spec fn owns(self, script: Seq<u8>) -> bool {
        self.owner(script) is Some
    }

    /// The lowest index that is not used yet; the last index once the
    /// keychain is exhausted.
    pub open spec fn lowest_unused(self, keychain: KeychainKind) -> u32 {
        if self.next(keychain) <= MAX_INDEX {
            self.next(keychain)
        } else {
            MAX_INDEX
        }
    }

    /// The state with every index of the keychain up to `index` revealed.
    pub open spec fn reveal_to(self, keychain: KeychainKind, index: u32) -> KeychainView {
        if index < self.next(keychain) {
            self
        } else {
            match keychain {
                KeychainKind::External => KeychainView { next_external: (index + 1) as u32, ..self },
                KeychainKind::Internal => KeychainView { next_internal: (index + 1) as u32, ..self },
            }
        }
    }

    /// The state after a payment to `script` has been seen: a match past the
    /// revealed indices reveals everything up to it.
    pub open spec fn absorb(self, script: Seq<u8>) -> KeychainView {
        match self.owner(script) {
            Some((keychain, index)) => self.reveal_to(keychain, index),
            None => self,
        }
    }

    /// The indices are inside the derivation range.
    pub open spec fn in_range(self) -> bool {
        self.next_external <= MAX_INDEX + 1 && self.next_internal <= MAX_INDEX + 1
    }
}

/// A match lies inside the window, carries the script, and nothing before it does.
pub proof fn lemma_first_match(v: KeychainView, keychain: KeychainKind, from: int, script: Seq<u8>)
    requires
        0 <= from,
    ensures
        v.first_match(keychain, from, script) matches Some(i) ==> from <= i < v.window(keychain)
            && v.script(keychain, i) == script,
        v.first_match(keychain, from, script) is None ==> forall|j: u32|
            from <= j < v.window(keychain) ==> #[trigger] v.script(keychain, j) != script,
        v.first_match(keychain, from, script) matches Some(i) ==> forall|j: u32|
            from <= j < i ==> #[trigger] v.script(keychain, j) != script,
    decreases v.window(keychain) - from,
{
    if from < v.window(keychain) && v.script(keychain, from as u32) != script {
        lemma_first_match(v, keychain, from + 1, script);
    }
}

/// A script that matches in a window matches in every window at least as
/// wide of the same seed.
pub proof fn lemma_wider_window_matches(a: KeychainView, b: KeychainView, keychain: KeychainKind, from: int, script: Seq<u8>)
    requires
        a.network == b.network,
        a.entropy == b.entropy,
        a.window(keychain) <= b.window(keychain),
        0 <= from,
        a.first_match(keychain, from, script) is Some,
    ensures
        b.first_match(keychain, from, script) == a.first_match(keychain, from, script),
    decreases a.window(keychain) - from,
{
    if from < a.window(keychain) && a.script(keychain, from as u32) != script {
        lemma_wider_window_matches(a, b, keychain, from + 1, script);
    }
}

/// Revealing loses nothing: a script that the wallet owns it still owns
/// after indices have been revealed, and so after any payment has been seen.
pub proof fn lemma_reveal_keeps_owned(v: KeychainView, keychain: KeychainKind, index: u32, script: Seq<u8>)
    requires
        v.in_range(),
        index <= MAX_INDEX,
        v.owns(script),
    ensures
        v.reveal_to(keychain, index).owns(script),
        v.reveal_to(keychain, index).in_range(),
        forall|s: Seq<u8>| v.absorb(s).in_range(),
        forall|s: Seq<u8>| v.absorb(s).owns(script),
{
    let w = v.reveal_to(keychain, index);
    if v.first_match(KeychainKind::External, 0, script) is Some {
        lemma_wider_window_matches(v, w, KeychainKind::External, 0, script);
    } else {
        lemma_wider_window_matches(v, w, KeychainKind::Internal, 0, script);
    }
    assert forall|s: Seq<u8>| v.absorb(s).in_range() && v.absorb(s).owns(script) by {
        match v.owner(s) {
            Some((k, i)) => {
                lemma_first_match(v, KeychainKind::External, 0, s);
                lemma_first_match(v, KeychainKind::Internal, 0, s);
                let x = v.reveal_to(k, i);
                if v.first_match(KeychainKind::External, 0, script) is Some {
                    lemma_wider_window_matches(v, x, KeychainKind::External, 0, script);
                } else {
                    lemma_wider_window_matches(v, x, KeychainKind::Internal, 0, script);
                }
            },
            None => {},
        }
    }
}

/// A script of the window is owned: the script at an index that is revealed
/// or within the lookahead behind the revealed ones belongs to the wallet.
pub proof fn lemma_window_owned(v: KeychainView, keychain: KeychainKind, index: u32)
    requires
        index < v.window(keychain),
    ensures
        v.owns(v.script(keychain, index)),
{
    lemma_first_match(v, KeychainKind::External, 0, v.script(keychain, index));
    lemma_first_match(v, KeychainKind::Internal, 0, v.script(keychain, index));
}

/// The first script of the external keychain belongs to that keychain at
/// index 0, whatever other index carries the same script.
pub proof fn lemma_first_script_owner(v: KeychainView)
    requires
        v.window(KeychainKind::External) >= 1,
    ensures
        v.owner(v.script(KeychainKind::External, 0)) == Some((KeychainKind::External, 0u32)),
{
    assert(v.first_match(KeychainKind::External, 0, v.script(KeychainKind::External, 0)) == Some(0u32));
}

/// Determinism: two indexes made from the same network and entropy hold the
/// same script at every index of every keychain, whatever has been revealed
/// in either.
pub proof fn lemma_derive_deterministic(a: KeychainView, b: KeychainView, keychain: KeychainKind, index: u32)
    requires
        a.network == b.network,
        a.entropy == b.entropy,
    ensures
        a.script(keychain, index) == b.script(keychain, index),
{
}

/// Reveal boundary: looking at the lowest unused index changes nothing, so
/// looking twice gives the same index; revealing hands out exactly that index
/// and, unless the keychain is exhausted, moves the lowest unused index one up.
pub proof fn lemma_reveal_boundary(v: KeychainView, keychain: KeychainKind)
    requires
        v.in_range(),
    ensures
        v.reveal_to(keychain, v.lowest_unused(keychain)).in_range(),
        v.next(keychain) <= MAX_INDEX ==> v.reveal_to(keychain, v.lowest_unused(keychain)).next(keychain)
            == v.next(keychain) + 1,
        v.next(keychain) < MAX_INDEX ==> v.reveal_to(keychain, v.lowest_unused(keychain)).lowest_unused(
            keychain,
        ) == v.lowest_unused(keychain) + 1,
        v.next(keychain) > MAX_INDEX ==> v.reveal_to(keychain, v.lowest_unused(keychain)) == v,
{
}

/// The scripts of both keychains of a wallet, with what has been revealed.
#[derive(Clone, Debug)]
pub struct KeychainIndex {
    network: Network,
    entropy: [u8; 16],
    lookahead: u32,
    next_external: u32,
    next_internal: u32,
    external: Vec<Vec<u8>>,
    internal: Vec<Vec<u8>>,
}

/// The cache holds the first `cache.len()` scripts of the keychain.
pub open spec fn cache_holds(cache: Seq<Vec<u8>>, network: Network, entropy: Seq<u8>, keychain: KeychainKind) -> bool {
    &&& cache.len() <= MAX_INDEX + 1
    &&& forall|i: int| 0 <= i < cache.len() ==> (#[trigger] cache[i])@ == derived_script(network, entropy, keychain, i as u32)
}

/// Derives scripts behind the cached ones until the cache holds `target` of them.
fn fill(network: Network, entropy: &[u8; 16], keychain: KeychainKind, cache: &mut Vec<Vec<u8>>, target: u64)
    requires
        seed_usable(network, entropy@),
        cache_holds(old(cache)@, network, entropy@, keychain),
        old(cache)@.len() <= target <= MAX_INDEX + 1,
    ensures
        cache_holds(final(cache)@, network, entropy@, keychain),
        final(cache)@.len() == target,
{
    while (cache.len() as u64) < target
        invariant
            seed_usable(network, entropy@),
            cache_holds(cache@, network, entropy@, keychain),
            cache@.len() <= target <= MAX_INDEX + 1,
        decreases target - cache@.len(),
    {
        let index: u32 = cache.len() as u32;
        let script = derive_script(network, entropy, keychain, index);
        cache.push(script);
    }
}

impl View for KeychainIndex {
    type V = KeychainView;

    closed spec fn view(&self) -> KeychainView {
        KeychainView {
            network: self.network,
            entropy: self.entropy@,
            lookahead: self.lookahead,
            next_external: self.next_external,
            next_internal: self.next_internal,
        }
    }
}

impl KeychainIndex {
    /// The invariant of the index: the seed gives keys, the revealed indices
    /// are in range, and each keychain's window is derived in full.
    pub closed spec fn wf(&self) -> bool {
        &&& seed_usable(self.network, self.entropy@)
        &&& self@.in_range()
        &&& cache_holds(self.external@, self.network, self.entropy@, KeychainKind::External)
        &&& cache_holds(self.internal@, self.network, self.entropy@, KeychainKind::Internal)
        &&& self.external@.len() == self@.window(KeychainKind::External)
        &&& self.internal@.len() == self@.window(KeychainKind::Internal)
    }

    /// A well-formed index stays inside the derivation range and rests on a usable seed.
    pub proof fn lemma_wf(&self)
        requires
            self.wf(),
        ensures
            self@.in_range(),
            seed_usable(self@.network, self@.entropy),
            self@.entropy.len() == 16,
    {
    }

    /// An index with nothing revealed, or `None` where the entropy gives no keys.
    pub fn new(network: Network, entropy: [u8; 16], lookahead: u32) -> (r: Option<Self>)
        ensures
            r is Some <==> seed_usable(network, entropy@),
            r matches Some(k) ==> k.wf() && k@ == (KeychainView {
                network: network,
                entropy: entropy@,
                lookahead: lookahead,
                next_external: 0,
                next_internal: 0,
            }),
    {
        if !check_seed(network, &entropy) {
            return None;
        }
        let target: u64 = if lookahead <= MAX_INDEX {
            lookahead as u64
        } else {
            MAX_INDEX as u64 + 1
        };
        let mut external: Vec<Vec<u8>> = Vec::new();
        let mut internal: Vec<Vec<u8>> = Vec::new();
        fill(network, &entropy, KeychainKind::External, &mut external, target);
        fill(network, &entropy, KeychainKind::Internal, &mut internal, target);
        Some(
            KeychainIndex {
                network,
                entropy,
                lookahead,
                next_external: 0,
                next_internal: 0,
                external,
                internal,
            },
        )
    }

    /// The network of the wallet.
    pub fn network(&self) -> (r: Network)
        ensures
            r == self@.network,
    {
        self.network
    }

    /// The first index of the keychain that is not yet revealed.
    pub fn next_unrevealed(&self, keychain: KeychainKind) -> (r: u32)
        ensures
            r == self@.next(keychain),
    {
        match keychain {
            KeychainKind::External => self.next_external,
            KeychainKind::Internal => self.next_internal,
        }
    }

    /// The script at an index of a keychain. Nothing changes, and the index
    /// need not be revealed.
    pub fn derive(&self, keychain: KeychainKind, index: u32) -> (r: Vec<u8>)
        requires
            self.wf(),
            index <= MAX_INDEX,
        ensures
            r@ == self@.script(keychain, index),
    {
        derive_script(self.network, &self.entropy, keychain, index)
    }

    /// The address at an index of a keychain. Nothing changes.
    pub fn peek(&self, keychain: KeychainKind, index: u32) -> (r: AddressInfo)
        requires
            self.wf(),
            index <= MAX_INDEX,
        ensures
            r.index == index,
            r.address@ == derived_address(self@.network, self@.entropy, keychain, index),
            is_address_of(r.address@, self@.network, self@.script(keychain, index)),
    {
        AddressInfo { index, address: derive_address(self.network, &self.entropy, keychain, index) }
    }

    /// The script at an index, with whether the index has been used.
    pub fn entry(&self, keychain: KeychainKind, index: u32) -> (r: KeychainEntry)
        requires
            self.wf(),
            index <= MAX_INDEX,
        ensures
            r.keychain == keychain,
            r.index == index,
            r.script@ == self@.script(keychain, index),
            r.used == (index < self@.next(keychain)),
    {
        let script = self.derive(keychain, index);
        let used: bool = index < self.next_unrevealed(keychain);
        KeychainEntry { keychain, index, script, used }
    }

    /// The lowest index of the keychain that is not used yet. Nothing changes.
    pub fn lowest_unused(&self, keychain: KeychainKind) -> (r: u32)
        ensures
            r == self@.lowest_unused(keychain),
    {
        let next: u32 = self.next_unrevealed(keychain);
        if next <= MAX_INDEX {
            next
        } else {
            MAX_INDEX
        }
    }

    /// Reveals every index of the keychain up to `index`, and derives the
    /// window behind the new boundary.
    pub fn reveal_to(&mut self, keychain: KeychainKind, index: u32)
        requires
            old(self).wf(),
            index <= MAX_INDEX,
        ensures
            final(self).wf(),
            final(self)@ == old(self)@.reveal_to(keychain, index),
    {
        if index < self.next_unrevealed(keychain) {
            return ;
        }
        let next: u32 = index + 1;
        let target: u64 = if next as u64 + self.lookahead as u64 <= MAX_INDEX as u64 {
            next as u64 + self.lookahead as u64
        } else {
            MAX_INDEX as u64 + 1
        };
        match keychain {
            KeychainKind::External => {
                fill(self.network, &self.entropy, keychain, &mut self.external, target);
                self.next_external = next;
            },
            KeychainKind::Internal => {
                fill(self.network, &self.entropy, keychain, &mut self.internal, target);
                self.next_internal = next;
            },
        }
    }

    /// Hands out the lowest unused index of the keychain and marks it used.
    pub fn reveal_next(&mut self, keychain: KeychainKind) -> (r: u32)
        requires
            old(self).wf(),
        ensures
            final(self).wf(),
            r == old(self)@.lowest_unused(keychain),
            final(self)@ == old(self)@.reveal_to(keychain, r),
    {
        let index: u32 = self.lowest_unused(keychain);
        self.reveal_to(keychain, index);
        index
    }

    /// The keychain and index that a script belongs to, if it is one of the
    /// wallet's. Nothing changes.
    pub fn lookup(&self, script: &Vec<u8>) -> (r: Option<(KeychainKind, u32)>)
        requires
            self.wf(),
        ensures
            r == self@.owner(script@),
    {
        match find_in(&self.external, script, Ghost(self@), Ghost(KeychainKind::External)) {
            Some(i) => Some((KeychainKind::External, i)),
            None => match find_in(&self.internal, script, Ghost(self@), Ghost(KeychainKind::Internal)) {
                Some(i) => Some((KeychainKind::Internal, i)),
                None => None,
            },
        }
    }

    /// Looks a script up as `lookup` does; a match past the revealed indices
    /// reveals everything up to it, so that the window stays contiguous.
    pub fn match_script(&mut self, script: &Vec<u8>) -> (r: Option<(KeychainKind, u32)>)
        requires
            old(self).wf(),
        ensures
            final(self).wf(),
            r == old(self)@.owner(script@),
            final(self)@ == old(self)@.absorb(script@),
    {
        let hit = self.lookup(script);
        match hit {
            Some((keychain, index)) => {
                proof {
                    lemma_first_match(self@, KeychainKind::External, 0, script@);
                    lemma_first_match(self@, KeychainKind::Internal, 0, script@);
                }
                self.reveal_to(keychain, index);
            },
            None => {},
        }
        hit
    }
}

/// The lowest position of `script` in a keychain's cache.
fn find_in(cache: &Vec<Vec<u8>>, script: &Vec<u8>, Ghost(v): Ghost<KeychainView>, Ghost(keychain): Ghost<KeychainKind>) -> (r: Option<u32>)
    requires
        cache_holds(cache@, v.network, v.entropy, keychain),
        cache@.len() == v.window(keychain),
    ensures
        r == v.first_match(keychain, 0, script@),
{
    let mut i: usize = 0;
    while i < cache.len()
        invariant
            cache_holds(cache@, v.network, v.entropy, keychain),
            cache@.len() == v.window(keychain),
            i <= cache@.len(),
            v.first_match(keychain, 0, script@) == v.first_match(keychain, i as int, script@),
        decreases cache@.len() - i,
    {
        if bytes_eq(&cache[i], script) {
            return Some(i as u32);
        }
        i = i + 1;
    }
    None
}

} // verus!

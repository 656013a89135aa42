//! Spending: from recipients and a fee rate to a signed transaction.

use vstd::prelude::*;
use crate::backend::{address_script, address_script_of, descriptor_string, descriptor_text, extract_raw, extracted_tx_of, ids_of_32, output_views, psbt_of, psbt_with_spent, sign_psbt, signed_psbt_of, spent_outputs, spent_points, tx_decoding, unsigned_tx, unsigned_tx_of, decode_tx};
use crate::builder::{build, build_result, BuildError, TxTemplate};
use crate::errors::{CreateTxError, SignFailure};
use crate::graph::distinct_ids;
use crate::ledger::{describes_utxo, lemma_spendable_distinct, outpoint_at, spendable_set, valid_ref};
use crate::listing::{listed, sort_by_confirmations};
use crate::types::{bytes_eq, ids_view, KeychainKind, Network, OutPointView, Recipient, Tx, TxOut, TxView, UtxoInfo};
use crate::wallet::{delta_is, unchanged, Wallet};

verus! {

/// The largest lock time that is a block height.
pub const MAX_LOCK_HEIGHT: u32 = 499_999_999;

/// The lock time of a transaction made at a tip: the height of the tip, so
/// that the transaction cannot be mined into an earlier block.
pub open spec fn lock_time_at(tip: u32) -> u32 {
    if tip <= MAX_LOCK_HEIGHT {
        tip
    } else {
        0
    }
}

/// Whether every recipient's address is an address of the network.
pub open spec fn addresses_valid(recipients: Seq<Recipient>, network: Network) -> bool {
    forall|i: int|
        0 <= i < recipients.len() ==> address_script_of((#[trigger] recipients[i]).address@, network) is Some
}

/// Whether `outs` are the payments to the recipients: to each one's script, each one's amount.
pub open spec fn pays(outs: Seq<TxOut>, recipients: Seq<Recipient>, network: Network) -> bool {
    &&& outs.len() == recipients.len()
    &&& forall|i: int|
        0 <= i < outs.len() ==> Some((#[trigger] outs[i]).script@) == address_script_of(
            recipients[i].address@,
            network,
        ) && outs[i].value == recipients[i].amount
}

/// Whether a decoded transaction has the inputs and outputs of a template.
pub open spec fn carries(t: TxView, template: TxTemplate) -> bool {
    &&& t.inputs.len() == template.inputs@.len()
    &&& forall|i: int|
        0 <= i < t.inputs.len() ==> #[trigger] t.inputs[i] == (OutPointView {
            txid: template.inputs@[i].txid@,
            vout: template.inputs@[i].vout,
        })
    &&& t.outputs.len() == template.outputs@.len()
    &&& forall|j: int| 0 <= j < t.outputs.len() ==> #[trigger] t.outputs[j] == template.outputs@[j]@
}

/// Whether `c` lists the outputs that the wallet can spend now, in listing order.
pub open spec fn is_candidates(w: Wallet, c: Seq<UtxoInfo>) -> bool {
    exists|all: Seq<UtxoInfo>, perm: Seq<int>|
        all.len() == spendable_set(w.graph_view(), w.keys_view(), w.tip()).len() && (forall|k: int|
            0 <= k < all.len() ==> describes_utxo(
                #[trigger] all[k],
                w.graph_view(),
                w.keys_view(),
                w.tip(),
                spendable_set(w.graph_view(), w.keys_view(), w.tip())[k],
            )) && #[trigger] listed(all, c, perm)
}

/// Whether `plan` is what the wallet plans for the payments `outs` at a fee
/// rate: what building gives from the outputs it can spend now, with the
/// lowest unused script of the internal keychain for the change.
pub open spec fn plan_result(w: Wallet, rate: u64, outs: Seq<TxOut>, plan: Result<TxTemplate, BuildError>) -> bool {
    exists|c: Seq<UtxoInfo>, change: Vec<u8>|
        is_candidates(w, c) && change@ == w.keys_view().script(
            KeychainKind::Internal,
            w.keys_view().lowest_unused(KeychainKind::Internal),
        ) && #[trigger] build_result(plan, c, outs, change, rate, lock_time_at(w.tip()))
}

/// Whether `r` and `after` are what creating a transaction gives, where
/// `outs` are the payments and `plan` is what the wallet planned for them.
/// A plan that fails is the error. A plan whose signing gives the plan's
/// transaction gives those bytes, and uses up the change index if there is
/// change; any other plan is a signing failure. On every error the wallet
/// is as before.
pub open spec fn created(before: Wallet, after: Wallet, r: Result<Vec<u8>, CreateTxError>, outs: Seq<TxOut>, plan: Result<TxTemplate, BuildError>) -> bool {
    match plan {
        Err(e) => r matches Err(CreateTxError::CreateTx(x)) && x == e && unchanged(before, after),
        Ok(t) => match r {
            Ok(raw) => {
                &&& signs(t, before.header_view().network, before.header_view().entropy@)
                &&& Some(raw@) == signed_bytes(t, before.header_view().network, before.header_view().entropy@)
                &&& after.chain_view() == before.chain_view()
                &&& after.graph_view() == before.graph_view()
                &&& after.header_view() == before.header_view()
                &&& after.keys_view() == (if t.outputs@.len() > outs.len() {
                    before.keys_view().reveal_to(
                        KeychainKind::Internal,
                        before.keys_view().lowest_unused(KeychainKind::Internal),
                    )
                } else {
                    before.keys_view()
                })
                &&& delta_is(after.staged_view(), Seq::empty(), None, None, after.keys_view())
            },
            Err(e) => e is SignTx && !signs(t, before.header_view().network, before.header_view().entropy@)
                && unchanged(before, after),
        },
    }
}

/// No double spend: the outputs that the wallet may select from are
/// referred to by pairwise different references, so no input of a planned
/// transaction spends the same output as another.
pub proof fn lemma_candidates_distinct(w: Wallet, c: Seq<UtxoInfo>)
    requires
        distinct_ids(w.graph_view()),
        is_candidates(w, c),
    ensures
        forall|a: int, b: int|
            0 <= a < b < c.len() ==> !((#[trigger] c[a]).txid@ == (#[trigger] c[b]).txid@ && c[a].vout
                == c[b].vout),
{
    let g = w.graph_view();
    let kv = w.keys_view();
    let s = spendable_set(g, kv, w.tip());
    let (all, perm) = choose|all: Seq<UtxoInfo>, perm: Seq<int>|
        all.len() == s.len() && (forall|k: int|
            0 <= k < all.len() ==> describes_utxo(#[trigger] all[k], g, kv, w.tip(), s[k])) && #[trigger] listed(
            all,
            c,
            perm,
        );
    lemma_spendable_distinct(g, kv, w.tip());
    assert forall|a: int, b: int| 0 <= a < b < c.len() implies !((#[trigger] c[a]).txid@ == (
    #[trigger] c[b]).txid@ && c[a].vout == c[b].vout) by {
        let x = perm[a];
        let y = perm[b];
        assert(x != y);
        assert(c[a] == all[x] && c[b] == all[y]);
        assert(describes_utxo(all[x], g, kv, w.tip(), s[x]));
        assert(describes_utxo(all[y], g, kv, w.tip(), s[y]));
        assert(valid_ref(g, kv, s[x]));
        assert(valid_ref(g, kv, s[y]));
        if x < y {
            assert(outpoint_at(g, s[x]) != outpoint_at(g, s[y]));
        } else {
            assert(outpoint_at(g, s[y]) != outpoint_at(g, s[x]));
        }
    }
}

/// Whether a decoded transaction has the inputs and outputs of a template.
fn tx_carries(tx: &Tx, template: &TxTemplate) -> (r: bool)
    ensures
        r == carries(tx@, *template),
{
    if tx.inputs.len() != template.inputs.len() || tx.outputs.len() != template.outputs.len() {
        return false;
    }
    let mut i: usize = 0;
    while i < tx.inputs.len()
        invariant
            i <= tx.inputs@.len(),
            tx.inputs@.len() == template.inputs@.len(),
            forall|j: int|
                0 <= j < i ==> #[trigger] tx@.inputs[j] == (OutPointView {
                    txid: template.inputs@[j].txid@,
                    vout: template.inputs@[j].vout,
                }),
        decreases tx.inputs@.len() - i,
    {
        if tx.inputs[i].vout != template.inputs[i].vout || !bytes_eq(&tx.inputs[i].txid, &template.inputs[i].txid) {
            assert(tx@.inputs[i as int] != (OutPointView {
                txid: template.inputs@[i as int].txid@,
                vout: template.inputs@[i as int].vout,
            }));
            return false;
        }
        i = i + 1;
    }
    let mut j: usize = 0;
    while j < tx.outputs.len()
        invariant
            j <= tx.outputs@.len(),
            tx.outputs@.len() == template.outputs@.len(),
            forall|k: int| 0 <= k < j ==> #[trigger] tx@.outputs[k] == template.outputs@[k]@,
        decreases tx.outputs@.len() - j,
    {
        if tx.outputs[j].value != template.outputs[j].value || !bytes_eq(
            &tx.outputs[j].script,
            &template.outputs[j].script,
        ) {
            assert(tx@.outputs[j as int] != template.outputs@[j as int]@);
            return false;
        }
        j = j + 1;
    }
    true
}

/// The payments to a list of recipients, or the error of the first address
/// that is no address of the network.
fn recipient_outputs(recipients: &Vec<Recipient>, network: Network) -> (r: Result<Vec<TxOut>, bdk_wallet::bitcoin::address::ParseError>)
    ensures
        r is Ok <==> addresses_valid(recipients@, network),
        r matches Ok(outs) ==> pays(outs@, recipients@, network),
{
    let mut outs: Vec<TxOut> = Vec::new();
    let mut i: usize = 0;
    while i < recipients.len()
        invariant
            i <= recipients@.len(),
            outs@.len() == i,
            forall|j: int|
                0 <= j < i ==> Some((#[trigger] outs@[j]).script@) == address_script_of(
                    recipients@[j].address@,
                    network,
                ) && outs@[j].value == recipients@[j].amount,
            forall|j: int|
                0 <= j < i ==> address_script_of((#[trigger] recipients@[j]).address@, network) is Some,
        decreases recipients@.len() - i,
    {
        match address_script(recipients[i].address.as_str(), network) {
            Ok(script) => {
                outs.push(TxOut { value: recipients[i].amount, script: script });
            },
            Err(e) => {
                return Err(e);
            },
        }
        i = i + 1;
    }
    Ok(outs)
}

/// Whether every input of a template names its transaction by an id of 32 bytes.
pub open spec fn ids_well_formed(template: TxTemplate) -> bool {
    ids_of_32(spent_points(template.inputs@))
}

/// One more than the highest derivation index among the first `n` inputs,
/// as far as a `u32` goes: the number of scripts that the signer must know.
pub open spec fn reach_upto(inputs: Seq<UtxoInfo>, n: int) -> u32
    decreases n,
{
    if n <= 0 {
        0
    } else {
        let before = reach_upto(inputs, n - 1);
        let index = inputs[n - 1].derivation_index;
        if index < before {
            before
        } else if index < u32::MAX {
            (index + 1) as u32
        } else {
            index
        }
    }
}

/// The bytes of the signed transaction of a plan, for a wallet's network and
/// entropy: the plan is written out without signatures, each input is given
/// the output it spends, the signer signs with the wallet's two descriptors,
/// and the finalized transaction is taken out. `None` where a step fails.
pub open spec fn signed_bytes(template: TxTemplate, network: Network, entropy: Seq<u8>) -> Option<Seq<u8>> {
    match unsigned_tx_of(
        template.version,
        template.lock_time,
        template.sequence,
        spent_points(template.inputs@),
        output_views(template.outputs@),
    ) {
        None => None,
        Some(tx) => match psbt_of(tx, spent_outputs(template.inputs@)) {
            None => None,
            Some(psbt) => match signed_psbt_of(
                psbt,
                descriptor_text(network, entropy, KeychainKind::External),
                descriptor_text(network, entropy, KeychainKind::Internal),
                network,
                reach_upto(template.inputs@, template.inputs@.len() as int),
                true,
            ) {
                None => None,
                Some(signed) => extracted_tx_of(signed),
            },
        },
    }
}

/// Whether signing a plan gives bytes, and the bytes are the plan's transaction.
pub open spec fn signs(template: TxTemplate, network: Network, entropy: Seq<u8>) -> bool {
    match signed_bytes(template, network, entropy) {
        Some(b) => accepts(b, template),
        None => false,
    }
}

/// Whether the bytes decode to a transaction with the inputs and outputs of a template.
pub open spec fn accepts(raw: Seq<u8>, template: TxTemplate) -> bool {
    match tx_decoding(raw) {
        Some(d) => carries(d, template),
        None => false,
    }
}

/// What a signer's report means: the bytes of a transaction that is
/// finalized go on; one that is not finalized, a signer's error, and the lack
/// of a signer are failures.
pub fn signing_outcome(report: Option<Result<(bool, Vec<u8>), bdk_wallet::signer::SignerError>>) -> (r: Result<Vec<u8>, SignFailure>)
    ensures
        match report {
            None => r matches Err(SignFailure::NoSigner),
            Some(Err(e)) => r matches Err(SignFailure::Signer(x)) && x == e,
            Some(Ok(p)) => if p.0 {
                r matches Ok(b) && b == p.1
            } else {
                r matches Err(SignFailure::Unfinalized)
            },
        },
{
    match report {
        None => Err(SignFailure::NoSigner),
        Some(Err(e)) => Err(SignFailure::Signer(e)),
        Some(Ok(p)) => if p.0 {
            Ok(p.1)
        } else {
            Err(SignFailure::Unfinalized)
        },
    }
}

/// Holds what came back from signing against the plan: bytes are accepted,
/// and handed on as they are, exactly if they decode to a transaction with
/// the plan's inputs and outputs.
pub fn accept_signed(extracted: Option<Vec<u8>>, template: &TxTemplate) -> (r: Result<Vec<u8>, SignFailure>)
    ensures
        match extracted {
            None => r matches Err(SignFailure::Extract),
            Some(raw) => if accepts(raw@, *template) {
                r matches Ok(x) && x == raw
            } else {
                r matches Err(SignFailure::Mismatch)
            },
        },
{
    match extracted {
        None => Err(SignFailure::Extract),
        Some(raw) => {
            let fits: bool = match decode_tx(raw.as_slice()) {
                Ok(tx) => tx_carries(&tx, template),
                Err(_) => false,
            };
            if fits {
                Ok(raw)
            } else {
                Err(SignFailure::Mismatch)
            }
        },
    }
}

impl Wallet {
    /// Plans a transaction for the payments `outputs` at `fee_rate` satoshis
    /// per virtual byte: the outputs that can be spent now are the
    /// candidates, the deepest first; the change, if any, goes to the lowest
    /// unused script of the internal keychain. Nothing changes.
    pub fn plan_tx(&self, fee_rate: u64, outputs: Vec<TxOut>) -> (r: Result<TxTemplate, BuildError>)
        requires
            self.wf(),
        ensures
            plan_result(*self, fee_rate, outputs@, r),
    {
        proof {
            self.lemma_parts();
        }
        let tip: u32 = self.tip_height();
        let all = self.graph.list_spendable(&self.keys, tip);
        let candidates = sort_by_confirmations(all);
        let index: u32 = self.keys.lowest_unused(KeychainKind::Internal);
        let change = self.keys.derive(KeychainKind::Internal, index);
        let lock_time: u32 = if tip <= MAX_LOCK_HEIGHT {
            tip
        } else {
            0
        };
        let ghost c = candidates@;
        let r = build(candidates, outputs, change, fee_rate, lock_time);
        assert(build_result(r, c, outputs@, change, fee_rate, lock_time_at(self.tip())));
        r
    }

    /// Signs a planned transaction and gives its bytes.
    ///
    /// The plan is written out without signatures, each input is given the
    /// output it spends, and the signer signs with the wallet's descriptors.
    /// What the signer reports goes through `signing_outcome`, and what is
    /// taken out goes through `accept_signed`: the bytes are given exactly if
    /// every step gives its part and they decode to the plan's inputs and
    /// outputs.
    pub fn sign_tx(&self, template: &TxTemplate) -> (r: Result<Vec<u8>, SignFailure>)
        requires
            self.wf(),
        ensures
            r is Ok <==> signs(*template, self.header_view().network, self.header_view().entropy@),
            r matches Ok(raw) ==> Some(raw@) == signed_bytes(
                *template,
                self.header_view().network,
                self.header_view().entropy@,
            ),
            !ids_well_formed(*template) ==> r matches Err(SignFailure::Template),
    {
        proof {
            self.lemma_parts();
            self.lemma_wf();
        }
        let mut reach: u32 = 0;
        let mut i: usize = 0;
        while i < template.inputs.len()
            invariant
                i <= template.inputs@.len(),
                reach == reach_upto(template.inputs@, i as int),
            decreases template.inputs@.len() - i,
        {
            let index: u32 = template.inputs[i].derivation_index;
            if index >= reach {
                reach = if index < u32::MAX {
                    index + 1
                } else {
                    index
                };
            }
            i = i + 1;
        }
        let tx = match unsigned_tx(
            template.version,
            template.lock_time,
            template.sequence,
            &template.inputs,
            &template.outputs,
        ) {
            Some(tx) => tx,
            None => {
                return Err(SignFailure::Template);
            },
        };
        let psbt = match psbt_with_spent(tx.as_slice(), &template.inputs) {
            Some(psbt) => psbt,
            None => {
                return Err(SignFailure::Template);
            },
        };
        assert(psbt_of(tx@, spent_outputs(template.inputs@)) == Some(psbt@));
        let external = descriptor_string(self.header.network, &self.header.entropy, KeychainKind::External);
        let internal = descriptor_string(self.header.network, &self.header.entropy, KeychainKind::Internal);
        let report = sign_psbt(
            psbt.as_slice(),
            external.as_str(),
            internal.as_str(),
            self.header.network,
            reach,
            true,
        );
        let signed = match signing_outcome(report) {
            Ok(signed) => signed,
            Err(e) => {
                return Err(e);
            },
        };
        assert(signed_psbt_of(psbt@, external@, internal@, self.header.network, reach, true) == Some(signed@));
        accept_signed(extract_raw(signed.as_slice()), template)
    }

    /// Creates a signed transaction that pays the recipients at `feerate`
    /// satoshis per virtual byte, and gives its bytes.
    pub fn create_tx(&mut self, feerate: u64, recipients: Vec<Recipient>) -> (r: Result<Vec<u8>, CreateTxError>)
        requires
            old(self).wf(),
        ensures
            final(self).wf(),
            !addresses_valid(recipients@, old(self).keys_view().network) ==> (r matches Err(
                CreateTxError::InvalidAddress(_),
            ) && unchanged(*old(self), *final(self))),
            addresses_valid(recipients@, old(self).keys_view().network) ==> exists|
                outs: Seq<TxOut>,
                plan: Result<TxTemplate, BuildError>,
            |
                pays(outs, recipients@, old(self).keys_view().network) && plan_result(
                    *old(self),
                    feerate,
                    outs,
                    plan,
                ) && #[trigger] created(*old(self), *final(self), r, outs, plan),
    {
        proof {
            self.lemma_parts();
        }
        let outputs = match recipient_outputs(&recipients, self.keys.network()) {
            Ok(outs) => outs,
            Err(e) => {
                return Err(CreateTxError::InvalidAddress(e));
            },
        };
        let ghost outs = outputs@;
        let paid: usize = outputs.len();
        let plan = self.plan_tx(feerate, outputs);
        let ghost planned = plan;
        let template = match plan {
            Ok(t) => t,
            Err(e) => {
                let r = Err(CreateTxError::CreateTx(e));
                assert(created(*old(self), *self, r, outs, planned));
                return r;
            },
        };
        match self.sign_tx(&template) {
            Err(e) => {
                let r = Err(CreateTxError::SignTx(e));
                assert(created(*old(self), *self, r, outs, planned));
                r
            },
            Ok(raw) => {
                if template.outputs.len() > paid {
                    let _ = self.reveal_change();
                } else {
                    self.stage(Vec::new(), None, None);
                    assert(ids_view(self.staged.txids@) =~= Seq::<Seq<u8>>::empty());
                }
                proof {
                    self.lemma_parts();
                }
                let r = Ok(raw);
                assert(created(*old(self), *self, r, outs, planned));
                r
            },
        }
    }
}

} // verus!

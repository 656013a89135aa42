//! Coin selection and fees: from the outputs the wallet can spend, a fee
//! rate and the payments to make, to the inputs and outputs of a transaction.

use vstd::prelude::*;
use crate::ledger::{add_capped, capped};
use crate::types::{TxOut, UtxoInfo};

verus! {

/// The value, in satoshis, that a change output must exceed to be worth making.
pub const DUST_LIMIT: u64 = 330;

/// Why no transaction could be put together.
#[derive(Clone, Copy, Debug, PartialEq, Eq, Structural)]
pub enum BuildError {
    /// There is nobody to pay.
    NoRecipients,
    /// No choice of inputs covers the payments and the fee.
    InsufficientFunds,
}

/// The version of the transactions that the wallet makes.
pub const TX_VERSION: i32 = 2;

/// The sequence number of every input: it signals that the transaction may be replaced.
pub const TX_SEQUENCE: u32 = 0xffff_fffd;

/// What goes into a transaction that is still to be signed, and the fee it pays.
#[derive(Clone, Debug)]
pub struct TxTemplate {
    pub version: i32,
    pub lock_time: u32,
    pub sequence: u32,
    pub inputs: Vec<UtxoInfo>,
    pub outputs: Vec<TxOut>,
    pub fee: u64,
}

/// A number as a `u64`, if it is one.
pub open spec fn fit(x: int) -> Option<u64> {
    if 0 <= x <= u64::MAX {
        Some(x as u64)
    } else {
        None
    }
}

/// The number of bytes that a count takes in a serialized transaction.
pub open spec fn varint_len(n: int) -> int {
    if n < 0xfd {
        1
    } else if n <= 0xffff {
        3
    } else if n <= 0xffff_ffff {
        5
    } else {
        9
    }
}

/// The number of bytes of a serialized output: the amount, the length of the script, the script.
pub open spec fn output_size(script_len: int) -> int {
    8 + varint_len(script_len) + script_len
}

/// The number of bytes of the first `n` outputs.
pub open spec fn outputs_size(outs: Seq<TxOut>, n: int) -> int
    decreases n,
{
    if n <= 0 {
        0
    } else {
        outputs_size(outs, n - 1) + output_size(outs[n - 1].script@.len() as int)
    }
}

/// The weight of a transaction with `n_in` key-spend taproot inputs and
/// `n_out` outputs of `out_bytes` bytes in all. Each input takes 41 bytes
/// and a witness of 66; the witness data counts once, the rest four times.
pub open spec fn tx_weight(n_in: int, n_out: int, out_bytes: int) -> int {
    4 * (8 + varint_len(n_in) + 41 * n_in + varint_len(n_out) + out_bytes) + 2 + 66 * n_in
}

/// The virtual size of such a transaction: a quarter of its weight, rounded up.
pub open spec fn tx_vsize(n_in: int, n_out: int, out_bytes: int) -> int {
    (tx_weight(n_in, n_out, out_bytes) + 3) / 4
}

/// The fee of such a transaction at `rate` satoshis per virtual byte.
pub open spec fn tx_fee(rate: u64, n_in: int, n_out: int, out_bytes: int) -> int {
    rate * tx_vsize(n_in, n_out, out_bytes)
}

/// The sum of the amounts of the first `n` outputs.
pub open spec fn target(outs: Seq<TxOut>, n: int) -> int
    decreases n,
{
    if n <= 0 {
        0
    } else {
        target(outs, n - 1) + outs[n - 1].value
    }
}

/// The sum of the amounts of the first `k` candidates.
pub open spec fn have(c: Seq<UtxoInfo>, k: int) -> int
    decreases k,
{
    if k <= 0 {
        0
    } else {
        have(c, k - 1) + c[k - 1].amount
    }
}

/// Whether the first `k` candidates pay for the outputs and for the fee of a
/// transaction without change. Funds count up to the largest `u64`.
pub open spec fn covers(c: Seq<UtxoInfo>, outs: Seq<TxOut>, rate: u64, k: int) -> bool {
    capped(have(c, k)) >= target(outs, outs.len() as int) + tx_fee(
        rate,
        k,
        outs.len() as int,
        outputs_size(outs, outs.len() as int),
    )
}

/// The least number of candidates from `from` on, taken from the front, that covers.
pub open spec fn first_cover(c: Seq<UtxoInfo>, outs: Seq<TxOut>, rate: u64, from: int) -> Option<int>
    decreases c.len() - from + 1,
{
    if from > c.len() || from < 1 {
        None
    } else if covers(c, outs, rate, from) {
        Some(from)
    } else {
        first_cover(c, outs, rate, from + 1)
    }
}

/// The number of candidates that are selected: the least one, at least one, that covers.
pub open spec fn selection(c: Seq<UtxoInfo>, outs: Seq<TxOut>, rate: u64) -> Option<int> {
    first_cover(c, outs, rate, 1)
}

/// What is left of the first `k` candidates once the outputs are paid, and
/// the fee of a transaction that has one more output for the change.
pub open spec fn excess(c: Seq<UtxoInfo>, outs: Seq<TxOut>, change_len: int, rate: u64, k: int) -> int {
    capped(have(c, k)) - target(outs, outs.len() as int) - tx_fee(
        rate,
        k,
        (outs.len() + 1) as int,
        outputs_size(outs, outs.len() as int) + output_size(change_len),
    )
}

/// Whether the transaction gets a change output: what is left exceeds the dust limit.
pub open spec fn has_change(c: Seq<UtxoInfo>, outs: Seq<TxOut>, change_len: int, rate: u64, k: int) -> bool {
    excess(c, outs, change_len, rate, k) > DUST_LIMIT
}

/// The outputs of the transaction: the payments, and behind them the change if there is any.
pub open spec fn planned_outputs(c: Seq<UtxoInfo>, outs: Seq<TxOut>, change: Vec<u8>, rate: u64, k: int) -> Seq<TxOut> {
    if has_change(c, outs, change@.len() as int, rate, k) {
        outs.push(TxOut { value: excess(c, outs, change@.len() as int, rate, k) as u64, script: change })
    } else {
        outs
    }
}

/// The fee of the transaction: with change, the fee of its size at the rate;
/// without, all that the inputs hold beyond the payments.
pub open spec fn planned_fee(c: Seq<UtxoInfo>, outs: Seq<TxOut>, change_len: int, rate: u64, k: int) -> int {
    if has_change(c, outs, change_len, rate, k) {
        tx_fee(rate, k, (outs.len() + 1) as int, outputs_size(outs, outs.len() as int) + output_size(change_len))
    } else {
        capped(have(c, k)) - target(outs, outs.len() as int)
    }
}

/// The sums are never negative, and grow with the number of terms.
pub proof fn lemma_target_grows(outs: Seq<TxOut>, a: int, b: int)
    requires
        a <= b,
    ensures
        0 <= target(outs, a) <= target(outs, b),
    decreases b,
{
    if b > 0 {
        if a < b {
            lemma_target_grows(outs, a, b - 1);
        } else {
            lemma_target_grows(outs, a - 1, b - 1);
        }
    }
}

/// The sums are never negative, and grow with the number of terms.
pub proof fn lemma_outputs_size_grows(outs: Seq<TxOut>, a: int, b: int)
    requires
        a <= b,
    ensures
        0 <= outputs_size(outs, a) <= outputs_size(outs, b),
    decreases b,
{
    if b > 0 {
        if a < b {
            lemma_outputs_size_grows(outs, a, b - 1);
        } else {
            lemma_outputs_size_grows(outs, a - 1, b - 1);
        }
    }
}

/// The sums are never negative.
pub proof fn lemma_have_nonneg(c: Seq<UtxoInfo>, k: int)
    ensures
        have(c, k) >= 0,
    decreases k,
{
    if k > 0 {
        lemma_have_nonneg(c, k - 1);
    }
}

/// The payments and the size of the outputs do not depend on what is pushed behind them.
pub proof fn lemma_push_keeps(outs: Seq<TxOut>, o: TxOut, n: int)
    requires
        n <= outs.len(),
    ensures
        target(outs.push(o), n) == target(outs, n),
        outputs_size(outs.push(o), n) == outputs_size(outs, n),
    decreases n,
{
    if n > 0 {
        lemma_push_keeps(outs, o, n - 1);
    }
}

/// The fee is at least the virtual size times the rate, and a transaction
/// is at least as large as its outputs.
pub proof fn lemma_fee_bounds(rate: u64, n_in: int, n_out: int, out_bytes: int)
    requires
        n_in >= 0,
        out_bytes >= 0,
    ensures
        tx_vsize(n_in, n_out, out_bytes) >= out_bytes,
        tx_vsize(n_in, n_out, out_bytes) >= 0,
        tx_fee(rate, n_in, n_out, out_bytes) >= 0,
        rate >= 1 ==> tx_fee(rate, n_in, n_out, out_bytes) >= tx_vsize(n_in, n_out, out_bytes),
{
    let v = tx_vsize(n_in, n_out, out_bytes);
    if rate >= 1 {
        assert(rate * v >= v) by (nonlinear_arith)
            requires
                rate >= 1,
                v >= 0,
        ;
    }
}

/// Balance of a built transaction: its outputs and its fee add up to what
/// its inputs are counted for, which is no more than what they hold; and the
/// fee is at least the fee of the transaction's size at the rate.
pub proof fn lemma_plan_balanced(c: Seq<UtxoInfo>, outs: Seq<TxOut>, change: Vec<u8>, rate: u64, k: int)
    requires
        1 <= k <= c.len(),
        covers(c, outs, rate, k),
    ensures
        ({
            let planned = planned_outputs(c, outs, change, rate, k);
            let fee = planned_fee(c, outs, change@.len() as int, rate, k);
            &&& target(planned, planned.len() as int) + fee == capped(have(c, k))
            &&& capped(have(c, k)) <= have(c, k)
            &&& fee >= tx_fee(rate, k, planned.len() as int, outputs_size(planned, planned.len() as int))
            &&& 0 <= fee <= u64::MAX
        }),
{
    let n = outs.len() as int;
    let len = change@.len() as int;
    lemma_have_nonneg(c, k);
    lemma_target_grows(outs, 0, n);
    lemma_outputs_size_grows(outs, 0, n);
    if has_change(c, outs, len, rate, k) {
        let o = TxOut { value: excess(c, outs, len, rate, k) as u64, script: change };
        lemma_push_keeps(outs, o, n);
    }
}

/// The sum of the amounts to pay, if it is a `u64`.
fn sum_amounts(outs: &Vec<TxOut>) -> (r: Option<u64>)
    ensures
        r == fit(target(outs@, outs@.len() as int)),
{
    let mut acc: u64 = 0;
    let mut i: usize = 0;
    while i < outs.len()
        invariant
            i <= outs@.len(),
            acc == target(outs@, i as int),
        decreases outs@.len() - i,
    {
        match acc.checked_add(outs[i].value) {
            Some(s) => {
                acc = s;
            },
            None => {
                proof {
                    lemma_target_grows(outs@, i + 1, outs@.len() as int);
                }
                return None;
            },
        }
        i = i + 1;
    }
    Some(acc)
}

/// The number of bytes that a count takes in a serialized transaction.
fn varint_size(n: u128) -> (r: u64)
    ensures
        r == varint_len(n as int),
{
    if n < 0xfd {
        1
    } else if n <= 0xffff {
        3
    } else if n <= 0xffff_ffff {
        5
    } else {
        9
    }
}

/// The number of bytes of a serialized output with a script of this length, if it is a `u64`.
fn output_bytes(script_len: usize) -> (r: Option<u64>)
    ensures
        r == fit(output_size(script_len as int)),
{
    let len: u64 = script_len as u64;
    let head: u64 = 8 + varint_size(len as u128);
    len.checked_add(head)
}

/// The number of bytes of the serialized outputs, if it is a `u64`.
fn sum_sizes(outs: &Vec<TxOut>) -> (r: Option<u64>)
    ensures
        r == fit(outputs_size(outs@, outs@.len() as int)),
{
    let mut acc: u64 = 0;
    let mut i: usize = 0;
    while i < outs.len()
        invariant
            i <= outs@.len(),
            acc == outputs_size(outs@, i as int),
        decreases outs@.len() - i,
    {
        let next: Option<u64> = match output_bytes(outs[i].script.len()) {
            Some(b) => acc.checked_add(b),
            None => None,
        };
        match next {
            Some(s) => {
                acc = s;
            },
            None => {
                proof {
                    lemma_outputs_size_grows(outs@, i + 1, outs@.len() as int);
                }
                return None;
            },
        }
        i = i + 1;
    }
    Some(acc)
}

/// The fee of a transaction at a rate, if it is a `u64`. `out_bytes` is the
/// size of the outputs, if that is a `u64`.
fn fee_for(rate: u64, n_in: usize, n_out: u128, out_bytes: Option<u64>, Ghost(bytes): Ghost<int>) -> (r: Option<u64>)
    requires
        bytes >= 0,
        out_bytes == fit(bytes),
    ensures
        r == fit(tx_fee(rate, n_in as int, n_out as int, bytes)),
{
    proof {
        lemma_fee_bounds(rate, n_in as int, n_out as int, bytes);
    }
    if rate == 0 {
        assert(tx_fee(rate, n_in as int, n_out as int, bytes) == 0) by (nonlinear_arith)
            requires
                rate == 0,
                tx_fee(rate, n_in as int, n_out as int, bytes) == rate * tx_vsize(
                    n_in as int,
                    n_out as int,
                    bytes,
                ),
        ;
        return Some(0);
    }
    match out_bytes {
        None => None,
        Some(b) => {
            let base: u128 = 8 + varint_size(n_in as u128) as u128 + 41 * (n_in as u128) + varint_size(n_out) as u128
                + b as u128;
            let weight: u128 = 4 * base + 2 + 66 * (n_in as u128);
            let vsize: u128 = (weight + 3) / 4;
            if vsize > u64::MAX as u128 {
                None
            } else {
                assert(rate * vsize <= u64::MAX * u64::MAX) by (nonlinear_arith)
                    requires
                        0 <= rate <= u64::MAX,
                        0 <= vsize <= u64::MAX,
                ;
                let fee: u128 = rate as u128 * vsize;
                if fee > u64::MAX as u128 {
                    None
                } else {
                    Some(fee as u64)
                }
            }
        },
    }
}

/// What building gives for the candidates `c`, the payments `outs`, the
/// script `change` for the change, a fee rate and a lock time: an error where
/// there is nobody to pay or no front part of the candidates covers; else the
/// least front part that covers as inputs, the planned outputs, and the
/// planned fee.
pub open spec fn build_result(r: Result<TxTemplate, BuildError>, c: Seq<UtxoInfo>, outs: Seq<TxOut>, change: Vec<u8>, rate: u64, lock_time: u32) -> bool {
    &&& r == Err::<TxTemplate, BuildError>(BuildError::NoRecipients) <==> outs.len() == 0
    &&& r == Err::<TxTemplate, BuildError>(BuildError::InsufficientFunds) <==> outs.len() > 0 && selection(
        c,
        outs,
        rate,
    ) is None
    &&& r matches Ok(t) ==> (selection(c, outs, rate) matches Some(k) && 1 <= k <= c.len() && covers(
        c,
        outs,
        rate,
        k,
    ) && t.inputs@ == c.take(k) && t.outputs@ == planned_outputs(c, outs, change, rate, k) && t.fee
        == planned_fee(c, outs, change@.len() as int, rate, k) && t.version == TX_VERSION && t.sequence
        == TX_SEQUENCE && t.lock_time == lock_time)
}

/// Selects inputs for the payments and settles the fee and the change.
///
/// Candidates are taken from the front of the list, as few as pay for the
/// payments and the fee of a transaction without change, and at least one.
/// If what is left after the fee of a transaction with a change output
/// exceeds the dust limit, it goes to `change_script`; else it goes to the fee.
/// `lock_time` is the height before which the transaction is not to be mined.
pub fn build(candidates: Vec<UtxoInfo>, recipients: Vec<TxOut>, change_script: Vec<u8>, fee_rate: u64, lock_time: u32) -> (r: Result<TxTemplate, BuildError>)
    ensures
        build_result(r, candidates@, recipients@, change_script, fee_rate, lock_time),
{
    if recipients.len() == 0 {
        return Err(BuildError::NoRecipients);
    }
    let ghost c = candidates@;
    let ghost outs = recipients@;
    let ghost m = outs.len() as int;
    let n: usize = candidates.len();
    let n_out: u128 = recipients.len() as u128;
    let amounts = sum_amounts(&recipients);
    let sizes = sum_sizes(&recipients);
    proof {
        lemma_outputs_size_grows(outs, 0, m);
        lemma_target_grows(outs, 0, m);
    }
    let mut funds: u64 = 0;
    let mut k: usize = 0;
    let mut chosen: Option<usize> = None;
    while k < n
        invariant_except_break
            chosen is None,
            selection(c, outs, fee_rate) == first_cover(c, outs, fee_rate, k + 1),
        invariant
            c == candidates@,
            outs == recipients@,
            m == outs.len(),
            m > 0,
            n == c.len(),
            n_out == m,
            k <= n,
            amounts == fit(target(outs, m)),
            sizes == fit(outputs_size(outs, m)),
            outputs_size(outs, m) >= 0,
            target(outs, m) >= 0,
            funds == capped(have(c, k as int)),
        ensures
            k <= n,
            funds == capped(have(c, k as int)),
            match chosen {
                Some(x) => x == k && 1 <= k && selection(c, outs, fee_rate) == Some(k as int) && covers(
                    c,
                    outs,
                    fee_rate,
                    k as int,
                ),
                None => selection(c, outs, fee_rate) is None,
            },
        decreases n - k,
    {
        proof {
            lemma_have_nonneg(c, k as int);
        }
        funds = add_capped(funds, candidates[k].amount, Ghost(have(c, k as int)));
        k = k + 1;
        let fee = fee_for(fee_rate, k, n_out, sizes, Ghost(outputs_size(outs, m)));
        let need: Option<u64> = match (amounts, fee) {
            (Some(a), Some(f)) => a.checked_add(f),
            _ => None,
        };
        let enough: bool = match need {
            Some(x) => x <= funds,
            None => false,
        };
        if enough {
            chosen = Some(k);
            break ;
        }
    }
    match chosen {
        None => Err(BuildError::InsufficientFunds),
        Some(k) => {
            let change_bytes: Option<u64> = match (sizes, output_bytes(change_script.len())) {
                (Some(s), Some(b)) => s.checked_add(b),
                _ => None,
            };
            let ghost with_change = outputs_size(outs, m) + output_size(change_script@.len() as int);
            let fee_c = fee_for(fee_rate, k, n_out + 1, change_bytes, Ghost(with_change));
            let paid: u64 = match amounts {
                Some(a) => a,
                None => 0,
            };
            let left: u64 = funds - paid;
            let extra: u64 = match fee_c {
                Some(f) => if left > f && left - f > DUST_LIMIT {
                    left - f
                } else {
                    0
                },
                None => 0,
            };
            let mut inputs = candidates;
            inputs.truncate(k);
            let mut outputs = recipients;
            if extra > 0 {
                let fee: u64 = left - extra;
                outputs.push(TxOut { value: extra, script: change_script });
                Ok(
                    TxTemplate {
                        version: TX_VERSION,
                        lock_time: lock_time,
                        sequence: TX_SEQUENCE,
                        inputs: inputs,
                        outputs: outputs,
                        fee: fee,
                    },
                )
            } else {
                Ok(
                    TxTemplate {
                        version: TX_VERSION,
                        lock_time: lock_time,
                        sequence: TX_SEQUENCE,
                        inputs: inputs,
                        outputs: outputs,
                        fee: left,
                    },
                )
            }
        },
    }
}

} // verus!

use bdkgo::builder::{build, BuildError, DUST_LIMIT, TX_SEQUENCE, TX_VERSION};
use bdkgo::chain::ChainIndex;
use bdk_wallet::bitcoin;
use bdkgo::graph::{conflicts, decode_transaction, is_sound, yields, TransactionGraph};
use bdkgo::keychain::KeychainIndex;
use bdkgo::ledger::{confirmations, COINBASE_MATURITY};
use bdkgo::listing::sort_by_confirmations;
use bdkgo::types::{bytes_clone, bytes_eq, hash_bytes, hash_eq, is_hash, ApplyResult, ChainPosition, KeychainKind, Network, OutPoint, Tx, TxInfo, TxOut, UtxoInfo};
use bdkgo::replay::Operation;
use bdkgo::scan::scan_tx;
use bdkgo::wallet::Wallet;

fn utxo(tag: u8, amount: u64, confirmations: u32) -> UtxoInfo {
    UtxoInfo {
        txid: vec![tag; 32],
        vout: 0,
        amount,
        script_pubkey: vec![0x51; 34],
        is_change: false,
        derivation_index: 0,
        confirmations,
    }
}

fn pay(amount: u64) -> TxOut {
    TxOut { value: amount, script: vec![0x51; 34] }
}

fn info(tag: u8, confirmations: u32) -> TxInfo {
    TxInfo { txid: vec![tag], tx: vec![], spent: 0, received: 0, confirmations }
}

fn id(tag: u8) -> Vec<u8> {
    vec![tag; 32]
}

fn tx(inputs: Vec<(Vec<u8>, u32)>, outputs: Vec<(Vec<u8>, u64)>) -> Tx {
    let made = bitcoin::Transaction {
        version: bitcoin::transaction::Version::TWO,
        lock_time: bitcoin::absolute::LockTime::ZERO,
        input: inputs
            .into_iter()
            .map(|(txid, vout)| {
                let txid: bitcoin::Txid = bitcoin::hashes::Hash::from_slice(&txid).expect("an id");
                bitcoin::TxIn {
                    previous_output: bitcoin::OutPoint::new(txid, vout),
                    script_sig: bitcoin::ScriptBuf::new(),
                    sequence: bitcoin::Sequence::MAX,
                    witness: bitcoin::Witness::new(),
                }
            })
            .collect(),
        output: outputs
            .into_iter()
            .map(|(script, value)| bitcoin::TxOut {
                value: bitcoin::Amount::from_sat(value),
                script_pubkey: bitcoin::ScriptBuf::from_bytes(script),
            })
            .collect(),
    };
    let bytes = bitcoin::consensus::serialize(&made);
    let decoded = decode_transaction(&bytes).expect("decodes");
    assert_eq!(decoded.raw, bytes);
    assert_eq!(decoded.txid, bitcoin::hashes::Hash::to_byte_array(made.compute_txid()).to_vec());
    decoded
}

#[test]
fn byte_helpers() {
    assert!(bytes_eq(&vec![1, 2], &vec![1, 2]));
    assert!(!bytes_eq(&vec![1, 2], &vec![1, 3]));
    assert!(!bytes_eq(&vec![1, 2], &vec![1]));
    assert_eq!(bytes_clone(&vec![4, 5]), vec![4, 5]);
    assert!(hash_eq(&[7u8; 32], &[7u8; 32]));
    let mut other = [7u8; 32];
    other[31] = 8;
    assert!(!hash_eq(&[7u8; 32], &other));
    assert_eq!(hash_bytes(&other), other.to_vec());
    assert!(is_hash(&other.to_vec(), &other));
    assert!(!is_hash(&vec![7u8; 31], &[7u8; 32]));
    assert!(!is_hash(&vec![7u8; 32], &other));
}

#[test]
fn confirmations_count_from_the_anchor() {
    let at = |h: u32| ChainPosition::Confirmed { anchor_height: h, anchor_hash: [0u8; 32] };
    assert_eq!(confirmations(&at(10), 10), 1);
    assert_eq!(confirmations(&at(10), 15), 6);
    assert_eq!(confirmations(&at(10), 9), 0);
    assert_eq!(confirmations(&at(0), u32::MAX), u32::MAX);
    assert_eq!(confirmations(&at(1), u32::MAX), u32::MAX);
    assert_eq!(confirmations(&at(2), u32::MAX), u32::MAX - 1);
    assert_eq!(confirmations(&ChainPosition::Unconfirmed { first_seen_unix: 3 }, 15), 0);
    assert_eq!(COINBASE_MATURITY, 100);
}

#[test]
fn listing_is_deepest_first_and_stable() {
    let sorted = sort_by_confirmations(vec![info(1, 0), info(2, 5), info(3, 0), info(4, 9), info(5, 5)]);
    let order: Vec<u8> = sorted.iter().map(|t| t.txid[0]).collect();
    assert_eq!(order, vec![4, 2, 5, 1, 3]);
    assert!(sort_by_confirmations(Vec::<TxInfo>::new()).is_empty());
    let sorted = sort_by_confirmations(vec![utxo(1, 1, 3), utxo(2, 1, 3), utxo(3, 1, 4)]);
    let order: Vec<u8> = sorted.iter().map(|u| u.txid[0]).collect();
    assert_eq!(order, vec![3, 1, 2]);
}

#[test]
fn chain_connects_and_disconnects() {
    let mut chain = ChainIndex::new();
    assert_eq!(chain.len(), 0);
    assert_eq!(chain.tip_height(), None);
    assert_eq!(chain.connect_block(3, [3; 32], [0; 32]).unwrap_err().try_include_height, 2);
    assert!(chain.connect_block(0, [1; 32], [0; 32]).is_ok());
    assert_eq!(chain.connect_block(0, [1; 32], [0; 32]).unwrap_err().try_include_height, 0);
    assert!(chain.connect_block(10, [2; 32], [9; 32]).is_ok());
    assert_eq!(chain.connect_block(12, [4; 32], [2; 32]).unwrap_err().try_include_height, 11);
    assert_eq!(chain.connect_block(11, [3; 32], [9; 32]).unwrap_err().try_include_height, 10);
    assert_eq!(chain.connect_block(10, [3; 32], [1; 32]).unwrap_err().try_include_height, 9);
    assert!(chain.connect_block(11, [3; 32], [2; 32]).is_ok());
    assert!(chain.connect_block(12, [4; 32], [3; 32]).is_ok());
    assert_eq!(chain.len(), 4);
    assert_eq!(chain.tip_height(), Some(12));
    assert!(chain.contains(11, &[3; 32]));
    assert!(!chain.contains(11, &[4; 32]));
    assert!(!chain.contains(13, &[4; 32]));
    assert_eq!(chain.genesis_hash(), vec![1u8; 32]);
    let recent = chain.recent(2);
    assert_eq!(recent.len(), 2);
    assert_eq!((recent[0].height, recent[0].hash.clone()), (12, vec![4u8; 32]));
    assert_eq!((recent[1].height, recent[1].hash.clone()), (11, vec![3u8; 32]));
    assert_eq!(chain.disconnect_from(12), 0);
    assert_eq!(chain.disconnect_from(10), 2);
    assert_eq!(chain.tip_height(), Some(10));
    assert_eq!(chain.disconnect_from(5), 1);
    assert_eq!(chain.len(), 1);
    assert_eq!(chain.disconnect_from(0), 0);
    assert_eq!(chain.len(), 1);
    let genesis = ChainIndex::from_genesis([5; 32]);
    assert_eq!(genesis.len(), 1);
    assert_eq!(genesis.tip_height(), Some(0));
    assert!(genesis.contains(0, &[5; 32]));
}

#[test]
fn graph_positions_move_forward_only() {
    let chain = {
        let mut c = ChainIndex::from_genesis([0; 32]);
        c.connect_block(1, [1; 32], [0; 32]).unwrap();
        c.connect_block(2, [2; 32], [1; 32]).unwrap();
        c
    };
    let t1 = tx(vec![(id(9), 0)], vec![(vec![0x51], 1)]);
    let t2 = tx(vec![(id(9), 1)], vec![(vec![0x51], 2)]);
    let mut graph = TransactionGraph::new();
    assert!(graph.insert_unconfirmed(t1.clone(), 50));
    assert!(!graph.insert_unconfirmed(t1.clone(), 40));
    assert!(matches!(graph.record(0).position, ChainPosition::Unconfirmed { first_seen_unix: 50 }));
    assert!(!graph.insert_unconfirmed(t1.clone(), 60));
    assert!(matches!(graph.record(0).position, ChainPosition::Unconfirmed { first_seen_unix: 60 }));
    assert!(!graph.insert_confirmed(&chain, t1.clone(), 1, [1; 32]));
    assert!(matches!(graph.record(0).position, ChainPosition::Confirmed { anchor_height: 1, .. }));
    assert!(!graph.insert_unconfirmed(t1.clone(), 70));
    assert!(matches!(graph.record(0).position, ChainPosition::Confirmed { anchor_height: 1, .. }));
    assert!(!graph.insert_confirmed(&chain, t1.clone(), 1, [1; 32]));
    assert!(!graph.insert_confirmed(&chain, t1.clone(), 2, [2; 32]));
    assert!(matches!(graph.record(0).position, ChainPosition::Confirmed { anchor_height: 1, .. }));
    assert!(graph.insert_confirmed(&chain, t2.clone(), 2, [2; 32]));
    assert_eq!(graph.len(), 2);
    assert_eq!(graph.find(&t2.txid), Some(1));
    assert_eq!(graph.confirmations(&t1.txid, 1), 1);
    assert_eq!(graph.confirmations(&t1.txid, 7), 7);
    assert_eq!(graph.confirmations(&t2.txid, 1), 0);
    assert_eq!(graph.confirmations(&id(3), 7), 0);
    assert_eq!(graph.find(&id(3)), None);
    graph.disconnect_block(1, 999);
    assert!(matches!(graph.record(0).position, ChainPosition::Confirmed { anchor_height: 1, .. }));
    assert!(matches!(graph.record(1).position, ChainPosition::Unconfirmed { first_seen_unix: 999 }));
    graph.disconnect_block(0, 1000);
    assert!(matches!(graph.record(0).position, ChainPosition::Unconfirmed { first_seen_unix: 60 }));
    assert!(matches!(graph.record(1).position, ChainPosition::Unconfirmed { first_seen_unix: 999 }));
    assert!(!graph.insert_confirmed(&chain, t1, 2, [2; 32]));
    assert!(matches!(graph.record(0).position, ChainPosition::Confirmed { anchor_height: 2, .. }));
    assert_eq!(graph.record(0).first_seen, Some(60));
}

#[test]
fn conflicting_transactions_do_not_stand_together() {
    let chain = {
        let mut c = ChainIndex::from_genesis([0; 32]);
        c.connect_block(1, [1; 32], [0; 32]).unwrap();
        c
    };
    let first = tx(vec![(id(9), 0), (id(9), 5)], vec![(vec![0x51], 1)]);
    let second = tx(vec![(id(7), 0), (id(9), 0)], vec![(vec![0x51], 2)]);
    let third = tx(vec![(id(9), 5)], vec![(vec![0x51], 3)]);
    let other = tx(vec![(id(6), 0)], vec![(vec![0x51], 4)]);
    assert!(conflicts(&first, &second));
    assert!(conflicts(&third, &first));
    assert!(!conflicts(&second, &third));
    assert!(!conflicts(&other, &first));
    let at = |t: u64| ChainPosition::Unconfirmed { first_seen_unix: t };
    let deep = ChainPosition::Confirmed { anchor_height: 1, anchor_hash: [1; 32] };
    assert!(yields(&at(5), &at(5)));
    assert!(yields(&at(6), &at(5)));
    assert!(!yields(&at(4), &at(5)));
    assert!(yields(&deep, &at(5)));
    assert!(!yields(&at(5), &deep));
    assert!(!yields(&deep, &deep));
    let mut graph = TransactionGraph::new();
    assert!(graph.insert_unconfirmed(other.clone(), 1));
    assert!(graph.insert_unconfirmed(first.clone(), 10));
    assert!(!graph.wins_over(&second, &at(9)));
    assert!(!graph.insert_unconfirmed(second.clone(), 9));
    assert_eq!(graph.len(), 2);
    assert_eq!(graph.find(&second.txid), None);
    assert!(graph.insert_unconfirmed(second.clone(), 10));
    assert_eq!(graph.len(), 2);
    assert_eq!(graph.find(&first.txid), None);
    assert_eq!(graph.find(&other.txid), Some(0));
    assert_eq!(graph.find(&second.txid), Some(1));
    assert!(graph.insert_unconfirmed(third.clone(), 3));
    assert_eq!(graph.len(), 3);
    assert!(graph.insert_confirmed(&chain, first.clone(), 1, [1; 32]));
    assert_eq!(graph.len(), 2);
    assert_eq!(graph.find(&other.txid), Some(0));
    assert_eq!(graph.find(&first.txid), Some(1));
    assert!(!graph.insert_unconfirmed(second.clone(), 99));
    assert!(!graph.insert_confirmed(&chain, third, 1, [1; 32]));
    assert_eq!(graph.len(), 2);
}

#[test]
fn unsound_transactions_stay_out() {
    let twice = tx(vec![(id(9), 0), (id(9), 0)], vec![(vec![0x51], 1)]);
    assert!(!is_sound(&twice));
    assert!(is_sound(&tx(vec![(id(9), 0), (id(9), 1)], vec![(vec![0x51], 1)])));
    let mut own = tx(vec![(id(9), 0)], vec![(vec![0x51], 1)]);
    own.inputs[0].txid = own.txid.clone();
    assert!(!is_sound(&own));
    let mut graph = TransactionGraph::new();
    assert!(!graph.insert_unconfirmed(twice, 1));
    assert_eq!(graph.len(), 0);
}

#[test]
fn ledger_sums_owned_outputs_and_inputs() {
    let keys = KeychainIndex::new(Network::Regtest, [2u8; 16], 4).expect("usable");
    let chain = {
        let mut c = ChainIndex::from_genesis([0; 32]);
        c.connect_block(1, [1; 32], [0; 32]).unwrap();
        c
    };
    let e0 = keys.derive(KeychainKind::External, 0);
    let e1 = keys.derive(KeychainKind::External, 1);
    let i0 = keys.derive(KeychainKind::Internal, 0);
    let far = keys.derive(KeychainKind::External, 4);
    let mut graph = TransactionGraph::new();
    let fund = tx(vec![(id(9), 0)], vec![(e0.clone(), 700), (vec![0x51], 5), (e1.clone(), 300), (far, 11)]);
    let f = fund.txid.clone();
    let spend = tx(vec![(f.clone(), 0), (f.clone(), 1), (f.clone(), 7), (id(8), 0)], vec![(i0.clone(), 600), (vec![0x52], 90)]);
    graph.insert_confirmed(&chain, fund.clone(), 1, [1; 32]);
    assert_eq!(graph.sent_and_received(&keys, &fund), (0, 1000));
    assert_eq!(graph.sent_and_received(&keys, &spend), (700, 600));
    assert!(!graph.is_self_funded(&keys, &spend));
    assert!(graph.is_self_funded(&keys, &tx(vec![(f.clone(), 0), (f.clone(), 2)], vec![(vec![0x51], 1)])));
    let empty = Tx { txid: id(3), raw: vec![], inputs: vec![], outputs: vec![], coinbase: false };
    assert!(!graph.is_self_funded(&keys, &empty));
    assert_eq!(graph.prevout(&OutPoint { txid: f.clone(), vout: 2 }).map(|o| o.value), Some(300));
    assert!(graph.prevout(&OutPoint { txid: f.clone(), vout: 4 }).is_none());
    assert!(graph.prevout(&OutPoint { txid: id(5), vout: 0 }).is_none());
    assert_eq!(graph.unspent_refs(&keys), vec![(0, 0), (0, 2)]);
    assert_eq!(graph.balance(&keys, 1).confirmed, 1000);
    let s = spend.txid.clone();
    graph.insert_unconfirmed(spend, 10);
    assert!(graph.output_spent(&f, 0));
    assert!(!graph.output_spent(&f, 2));
    assert!(!graph.output_spent(&s, 0));
    assert_eq!(graph.unspent_refs(&keys), vec![(0, 2), (1, 0)]);
    let balance = graph.balance(&keys, 1);
    assert_eq!(balance.confirmed, 300);
    assert_eq!(balance.trusted_pending, 600);
    assert_eq!(balance.untrusted_pending, 0);
    assert_eq!(balance.immature, 0);
    let listed = graph.list_unspent(&keys, 1);
    assert_eq!(listed.len(), 2);
    assert_eq!((listed[0].amount, listed[0].vout, listed[0].is_change, listed[0].derivation_index), (300, 2, false, 1));
    assert_eq!((listed[1].amount, listed[1].vout, listed[1].is_change, listed[1].derivation_index), (600, 0, true, 0));
    assert_eq!(listed[0].confirmations, 1);
    assert_eq!(listed[1].confirmations, 0);
    assert_eq!(graph.list_spendable(&keys, 1).len(), 2);
    let history = graph.list_history(&keys, 3);
    assert_eq!(history.len(), 2);
    assert_eq!((history[0].spent, history[0].received, history[0].confirmations), (0, 1000, 3));
    assert_eq!((history[1].spent, history[1].received, history[1].confirmations), (700, 600, 0));
    assert_eq!(history[0].tx, fund.raw);
    let received: u64 = history.iter().map(|t| t.received).sum();
    let unspent: u64 = listed.iter().map(|u| u.amount).sum();
    assert_eq!(unspent, received - 700);
}

#[test]
fn ledger_sums_are_capped() {
    let keys = KeychainIndex::new(Network::Regtest, [2u8; 16], 1).expect("usable");
    let e0 = keys.derive(KeychainKind::External, 0);
    let mut graph = TransactionGraph::new();
    let big = tx(vec![(id(9), 0)], vec![(e0.clone(), u64::MAX), (e0, 5)]);
    assert_eq!(graph.sent_and_received(&keys, &big), (0, u64::MAX));
    graph.insert_unconfirmed(big, 1);
    assert_eq!(graph.balance(&keys, 0).untrusted_pending, u64::MAX);
}

#[test]
fn scan_finds_payments_and_spends() {
    let mut keys = KeychainIndex::new(Network::Regtest, [2u8; 16], 2).expect("usable");
    let e1 = keys.derive(KeychainKind::External, 1);
    let e3 = keys.derive(KeychainKind::External, 3);
    let mut graph = TransactionGraph::new();
    assert!(!scan_tx(&graph, &mut keys, &tx(vec![(id(9), 0)], vec![(vec![0x51], 5)])));
    assert!(!scan_tx(&graph, &mut keys, &tx(vec![(id(9), 0)], vec![(e3.clone(), 5)])));
    let fund = tx(vec![(id(9), 0)], vec![(e1, 5), (e3, 6)]);
    let f = fund.txid.clone();
    assert!(scan_tx(&graph, &mut keys, &fund));
    assert_eq!(keys.next_unrevealed(KeychainKind::External), 4);
    graph.insert_unconfirmed(fund, 1);
    assert!(scan_tx(&graph, &mut keys, &tx(vec![(f.clone(), 1)], vec![(vec![0x51], 1)])));
    assert!(!scan_tx(&graph, &mut keys, &tx(vec![(f, 2)], vec![(vec![0x51], 1)])));
}

#[test]
fn build_takes_as_few_inputs_as_cover() {
    let candidates = vec![utxo(1, 10_000, 9), utxo(2, 20_000, 5), utxo(3, 30_000, 1)];
    let t = build(candidates.clone(), vec![pay(9_000)], vec![0x51; 34], 1, 77).expect("covered");
    assert_eq!(t.inputs.len(), 1);
    assert_eq!(t.inputs[0].txid, vec![1u8; 32]);
    assert_eq!(t.outputs.len(), 2);
    assert_eq!(t.outputs[1].value, 10_000 - 9_000 - 154);
    assert_eq!(t.fee, 154);
    assert_eq!((t.version, t.sequence, t.lock_time), (TX_VERSION, TX_SEQUENCE, 77));
    let t = build(candidates.clone(), vec![pay(9_889)], vec![0x51; 34], 1, 0).expect("covered");
    assert_eq!(t.inputs.len(), 1);
    assert_eq!(t.outputs.len(), 1);
    assert_eq!(t.fee, 111);
    let t = build(candidates.clone(), vec![pay(9_890)], vec![0x51; 34], 1, 0).expect("covered");
    assert_eq!(t.inputs.len(), 2);
    assert_eq!(t.outputs.len(), 2);
    assert_eq!(t.fee, 212);
    assert_eq!(t.outputs[1].value, 30_000 - 9_890 - 212);
    let t = build(candidates.clone(), vec![pay(10_000 - 154 - DUST_LIMIT)], vec![0x51; 34], 1, 0).expect("covered");
    assert_eq!(t.outputs.len(), 1);
    assert_eq!(t.fee, 154 + DUST_LIMIT);
    let t = build(candidates.clone(), vec![pay(10_000 - 154 - DUST_LIMIT - 1)], vec![0x51; 34], 1, 0).expect("covered");
    assert_eq!(t.outputs.len(), 2);
    assert_eq!(t.outputs[1].value, DUST_LIMIT + 1);
    assert_eq!(t.fee, 154);
    let t = build(candidates.clone(), vec![pay(50_000), pay(9_000)], vec![0x51; 34], 3, 0).expect("covered");
    assert_eq!(t.inputs.len(), 3);
    assert_eq!(t.outputs.len(), 2);
    assert_eq!(t.fee, 1_000);
    let t = build(candidates.clone(), vec![pay(40_000), pay(9_000)], vec![0x51; 34], 3, 0).expect("covered");
    assert_eq!(t.inputs.len(), 3);
    assert_eq!(t.outputs.len(), 3);
    assert_eq!(t.fee, 3 * 312);
    assert_eq!(t.outputs[2].value, 60_000 - 49_000 - 3 * 312);
    let t = build(candidates.clone(), vec![pay(60_000)], vec![0x51; 34], 0, 0).expect("covered");
    assert_eq!(t.inputs.len(), 3);
    assert_eq!(t.fee, 0);
    assert_eq!(t.outputs.len(), 1);
}

#[test]
fn build_fails_without_funds_or_recipients() {
    let candidates = vec![utxo(1, 10_000, 9)];
    assert_eq!(build(candidates.clone(), vec![], vec![0x51; 34], 1, 0).unwrap_err(), BuildError::NoRecipients);
    assert_eq!(build(candidates.clone(), vec![pay(9_890)], vec![0x51; 34], 1, 0).unwrap_err(), BuildError::InsufficientFunds);
    assert_eq!(build(vec![], vec![pay(0)], vec![0x51; 34], 0, 0).unwrap_err(), BuildError::InsufficientFunds);
    assert_eq!(build(candidates.clone(), vec![pay(u64::MAX), pay(1)], vec![0x51; 34], 0, 0).unwrap_err(), BuildError::InsufficientFunds);
    assert_eq!(build(candidates.clone(), vec![pay(1)], vec![0x51; 34], u64::MAX, 0).unwrap_err(), BuildError::InsufficientFunds);
    let rich = vec![utxo(1, u64::MAX, 9), utxo(2, u64::MAX, 9)];
    let t = build(rich, vec![pay(u64::MAX - 111)], vec![0x51; 34], 1, 0).expect("covered");
    assert_eq!(t.inputs.len(), 1);
    assert_eq!(t.fee, 111);
}

#[test]
fn apply_result_names_the_latest_transactions() {
    let header = bdkgo::header::WalletHeader { version: bdkgo::header::db_magic(), entropy: [0u8; 16], network: Network::Regtest };
    let mut wallet = Wallet::from_header(header, 2).expect("usable");
    let script = wallet.derive(KeychainKind::External, 0);
    let t1 = tx(vec![(id(9), 0)], vec![(script.clone(), 5)]);
    let t2 = tx(vec![(id(9), 1)], vec![(vec![0x51], 5)]);
    let t3 = tx(vec![(t1.txid.clone(), 0)], vec![(vec![0x51], 4)]);
    let res = wallet.apply_unconfirmed(vec![(t1.clone(), 1), (t2, 2), (t3.clone(), 3), (t1.clone(), 4)]);
    assert_eq!(res.relevant_txids, vec![t1.txid.clone(), t3.txid.clone()]);
    assert_eq!(ApplyResult::new(&wallet).relevant_txids, res.relevant_txids);
    assert_eq!(wallet.staged().txids, res.relevant_txids);
    assert!(wallet.staged().connected.is_none());
    assert_eq!(wallet.tip_height(), 0);
    let r = wallet.apply_decoded_block(4, [4; 32], [0; 32], vec![t1.clone()]).expect("connects");
    assert!(r.relevant_txids.is_empty());
    assert_eq!(wallet.staged().connected.as_ref().map(|b| b.height), Some(4));
    assert_eq!(wallet.transactions()[0].confirmations, 1);
    assert!(wallet.apply_decoded_block(4, [5; 32], [4; 32], vec![]).is_err());
    assert_eq!(wallet.disconnect_from(0, 8), 1);
    assert_eq!(wallet.staged().disconnected_above, Some(0));
    assert_eq!(wallet.transactions()[0].confirmations, 0);
}

#[test]
fn operations_are_read_back_as_stored() {
    let ops = vec![
        Operation::RevealExternal,
        Operation::RevealInternal,
        Operation::Block { height: 0, bytes: vec![1, 2] },
        Operation::Block { height: u32::MAX, bytes: vec![] },
        Operation::Mempool { added_unix: 0, bytes: vec![3] },
        Operation::Mempool { added_unix: i64::MAX as u64, bytes: vec![4] },
        Operation::Mempool { added_unix: i64::MAX as u64 + 1, bytes: vec![5] },
        Operation::Mempool { added_unix: u64::MAX, bytes: vec![6] },
    ];
    let numbers: Vec<(i64, i64)> = ops.iter().map(|op| (op.kind(), op.number())).collect();
    assert_eq!(
        numbers,
        vec![(0, 0), (1, 0), (2, 0), (2, 4_294_967_295), (3, 0), (3, i64::MAX), (3, i64::MIN), (3, -1)]
    );
    for op in ops {
        let bytes = match &op {
            Operation::Block { bytes, .. } | Operation::Mempool { bytes, .. } => bytes.clone(),
            _ => vec![],
        };
        let back = Operation::read(op.kind(), op.number(), bytes).expect("read");
        assert_eq!(format!("{:?}", back), format!("{:?}", op));
    }
    assert!(Operation::read(4, 0, vec![]).is_none());
    assert!(Operation::read(-1, 0, vec![]).is_none());
    assert!(Operation::read(2, -1, vec![]).is_none());
    assert!(Operation::read(2, 4_294_967_296, vec![]).is_none());
}

#[test]
fn replay_brings_a_wallet_back() {
    let header = bdkgo::header::WalletHeader { version: bdkgo::header::db_magic(), entropy: [0u8; 16], network: Network::Regtest };
    let mut first = Wallet::from_header(header.clone(), 3).expect("usable");
    let script = first.derive(KeychainKind::External, 1);
    let pay = tx(vec![(id(9), 0)], vec![(script, 700)]);
    first.fresh_address();
    first.apply_unconfirmed(vec![(pay.clone(), 8)]);
    first.reveal_change();
    let ops = vec![
        Operation::RevealExternal,
        Operation::Mempool { added_unix: 8, bytes: pay.raw.clone() },
        Operation::RevealInternal,
    ];
    let mut second = Wallet::from_header(header.clone(), 3).expect("usable");
    assert_eq!(second.replay(ops.clone()), None);
    assert_eq!(second.balance(), first.balance());
    assert_eq!(second.last_unused_address().index, 2);
    assert_eq!(second.staged().next_internal, 1);
    assert_eq!(second.transactions()[0].txid, pay.txid);
    let mut third = Wallet::from_header(header, 3).expect("usable");
    let mut broken = ops;
    broken.insert(1, Operation::Block { height: 1, bytes: vec![0xff] });
    broken.insert(1, Operation::Mempool { added_unix: 1, bytes: vec![0xff] });
    assert_eq!(third.replay(broken), Some(1));
    assert_eq!(third.last_unused_address().index, 1);
    assert!(third.transactions().is_empty());
}

use bdk_wallet::bitcoin;
use bdkgo::builder::BuildError;
use bdkgo::builder::{TxTemplate, TX_SEQUENCE, TX_VERSION};
use bdkgo::errors::{ApplyBlockError, CreateTxError, SignFailure};
use bdkgo::header::{db_magic, WalletHeader};
use bdkgo::spend::{accept_signed, signing_outcome};
use bdkgo::types::{KeychainKind, MempoolTx, Network, Recipient, TxOut, UtxoInfo};
use bdkgo::wallet::{Wallet, LOOKAHEAD};
use std::str::FromStr;

fn zero_wallet(network: Network) -> Wallet {
    let header = WalletHeader { version: db_magic(), entropy: [0u8; 16], network };
    Wallet::from_header(header, LOOKAHEAD).expect("usable entropy")
}

fn payment(prev: [u8; 32], vout: u32, outputs: Vec<(Vec<u8>, u64)>) -> bitcoin::Transaction {
    let txid: bitcoin::Txid = bitcoin::hashes::Hash::from_byte_array(prev);
    bitcoin::Transaction {
        version: bitcoin::transaction::Version::TWO,
        lock_time: bitcoin::absolute::LockTime::ZERO,
        input: vec![bitcoin::TxIn {
            previous_output: bitcoin::OutPoint::new(txid, vout),
            script_sig: bitcoin::ScriptBuf::new(),
            sequence: bitcoin::Sequence::MAX,
            witness: bitcoin::Witness::new(),
        }],
        output: outputs
            .into_iter()
            .map(|(script, value)| bitcoin::TxOut {
                value: bitcoin::Amount::from_sat(value),
                script_pubkey: bitcoin::ScriptBuf::from_bytes(script),
            })
            .collect(),
    }
}

fn coinbase(outputs: Vec<(Vec<u8>, u64)>) -> bitcoin::Transaction {
    let mut tx = payment([0u8; 32], u32::MAX, outputs);
    tx.input[0].script_sig = bitcoin::ScriptBuf::from_bytes(vec![1, 1]);
    tx
}

fn block(prev: [u8; 32], nonce: u32, txdata: Vec<bitcoin::Transaction>) -> bitcoin::Block {
    bitcoin::Block {
        header: bitcoin::block::Header {
            version: bitcoin::block::Version::ONE,
            prev_blockhash: bitcoin::hashes::Hash::from_byte_array(prev),
            merkle_root: bitcoin::hashes::Hash::from_byte_array([0u8; 32]),
            time: 0,
            bits: bitcoin::CompactTarget::from_consensus(0x207f_ffff),
            nonce,
        },
        txdata,
    }
}

fn hash_of(b: &bitcoin::Block) -> [u8; 32] {
    bitcoin::hashes::Hash::to_byte_array(b.block_hash())
}

fn txid_of(tx: &bitcoin::Transaction) -> Vec<u8> {
    bitcoin::hashes::Hash::to_byte_array(tx.compute_txid()).to_vec()
}

fn bytes_of_block(b: &bitcoin::Block) -> Vec<u8> {
    bitcoin::consensus::serialize(b)
}

fn bytes_of_tx(tx: &bitcoin::Transaction) -> Vec<u8> {
    bitcoin::consensus::serialize(tx)
}

#[test]
fn fresh_wallet_hands_out_index_zero_on_testnet() {
    let mut wallet = Wallet::create_new("testnet").expect("a wallet");
    let first = wallet.fresh_address();
    assert_eq!(first.index, 0);
    let parsed = bitcoin::Address::from_str(&first.address).expect("an address");
    assert!(parsed.require_network(bitcoin::Network::Testnet).is_ok());
    assert!(wallet.utxos().is_empty());
    assert_eq!(wallet.balance().confirmed, 0);
}

#[test]
fn create_new_rejects_unknown_network() {
    assert!(matches!(Wallet::create_new("mainnet"), Err(bdkgo::errors::CreateNewError::ParseNetwork(_))));
    assert!(Wallet::create_new("bitcoin").is_ok());
    assert!(Wallet::create_new("testnet4").is_ok());
    assert!(Wallet::create_new("signet").is_ok());
    assert!(Wallet::create_new("regtest").is_ok());
}

#[test]
fn payment_in_block_is_confirmed_balance() {
    let mut wallet = zero_wallet(Network::Testnet);
    let first = wallet.fresh_address();
    assert_eq!(first.index, 0);
    let script = wallet.derive(KeychainKind::External, 0);
    let pay = payment([7u8; 32], 0, vec![(script.clone(), 50_000)]);
    let other = payment([8u8; 32], 1, vec![(vec![0x51], 1_000)]);
    let b = block([9u8; 32], 1, vec![coinbase(vec![(vec![0x51], 5_000)]), pay.clone(), other]);
    let res = wallet.apply_block(1, &bytes_of_block(&b)).expect("applied");
    assert_eq!(res.relevant_txids, vec![txid_of(&pay)]);
    let balance = wallet.balance();
    assert_eq!(balance.confirmed, 50_000);
    assert_eq!(balance.immature, 0);
    assert_eq!(balance.trusted_pending, 0);
    assert_eq!(balance.untrusted_pending, 0);
    let utxos = wallet.utxos();
    assert_eq!(utxos.len(), 1);
    assert_eq!(utxos[0].confirmations, 1);
    assert_eq!(utxos[0].amount, 50_000);
    assert_eq!(utxos[0].vout, 0);
    assert_eq!(utxos[0].txid, txid_of(&pay));
    assert_eq!(utxos[0].script_pubkey, script);
    assert!(!utxos[0].is_change);
    assert_eq!(utxos[0].derivation_index, 0);
    let blocks = wallet.recent_blocks(5);
    assert_eq!(blocks.len(), 2);
    assert_eq!(blocks[0].height, 1);
    assert_eq!(blocks[0].hash, hash_of(&b).to_vec());
    assert_eq!(blocks[1].height, 0);
    assert_eq!(blocks[1].hash, wallet.genesis_hash());
}

#[test]
fn mempool_spend_empties_utxos_and_lists_last() {
    let mut wallet = zero_wallet(Network::Testnet);
    let script = wallet.derive(KeychainKind::External, 0);
    let pay = payment([7u8; 32], 0, vec![(script, 50_000)]);
    let b = block([9u8; 32], 1, vec![pay.clone()]);
    wallet.apply_block(1, &bytes_of_block(&b)).expect("applied");
    let pay_id: [u8; 32] = bitcoin::hashes::Hash::to_byte_array(pay.compute_txid());
    let spend = payment(pay_id, 0, vec![(vec![0x51], 49_000)]);
    let res = wallet.apply_mempool(vec![MempoolTx { tx: bytes_of_tx(&spend), added_unix: 1_700_000_000 }]);
    assert_eq!(res.relevant_txids, vec![txid_of(&spend)]);
    assert!(wallet.utxos().is_empty());
    let txs = wallet.transactions();
    assert_eq!(txs.len(), 2);
    assert_eq!(txs[0].txid, txid_of(&pay));
    assert_eq!(txs[0].confirmations, 1);
    assert_eq!(txs[0].received, 50_000);
    assert_eq!(txs[0].spent, 0);
    assert_eq!(txs[0].tx, bytes_of_tx(&pay));
    assert_eq!(txs[1].txid, txid_of(&spend));
    assert_eq!(txs[1].confirmations, 0);
    assert_eq!(txs[1].spent, 50_000);
    assert_eq!(txs[1].received, 0);
    assert_eq!(wallet.balance().confirmed, 0);
}

#[test]
fn confirmed_transaction_stays_confirmed_when_seen_in_mempool() {
    let mut wallet = zero_wallet(Network::Regtest);
    let script = wallet.derive(KeychainKind::External, 0);
    let pay = payment([7u8; 32], 0, vec![(script, 50_000)]);
    let b = block([9u8; 32], 1, vec![pay.clone()]);
    wallet.apply_block(1, &bytes_of_block(&b)).expect("applied");
    let res = wallet.apply_mempool(vec![MempoolTx { tx: bytes_of_tx(&pay), added_unix: 5 }]);
    assert!(res.relevant_txids.is_empty());
    let txs = wallet.transactions();
    assert_eq!(txs.len(), 1);
    assert_eq!(txs[0].confirmations, 1);
    assert_eq!(wallet.balance().confirmed, 50_000);
}

#[test]
fn blocks_must_link_after_the_first() {
    let mut wallet = zero_wallet(Network::Regtest);
    let b5 = block([9u8; 32], 5, vec![coinbase(vec![(vec![0x51], 1)])]);
    wallet.apply_block(5, &bytes_of_block(&b5)).expect("the first block connects to genesis");
    let b6 = block(hash_of(&b5), 6, vec![coinbase(vec![(vec![0x51], 1)])]);
    let orphan = block([3u8; 32], 7, vec![coinbase(vec![(vec![0x51], 1)])]);
    match wallet.apply_block(6, &bytes_of_block(&orphan)) {
        Err(ApplyBlockError::CannotConnect(e)) => assert_eq!(e.try_include_height, 5),
        _ => panic!("a block with another parent must not connect"),
    }
    match wallet.apply_block(8, &bytes_of_block(&b6)) {
        Err(ApplyBlockError::CannotConnect(e)) => assert_eq!(e.try_include_height, 7),
        _ => panic!("a block out of order must not connect"),
    }
    match wallet.apply_block(0, &bytes_of_block(&b6)) {
        Err(ApplyBlockError::CannotConnect(e)) => assert_eq!(e.try_include_height, 0),
        _ => panic!("genesis is never replaced"),
    }
    assert_eq!(wallet.recent_blocks(10).len(), 2);
    wallet.apply_block(6, &bytes_of_block(&b6)).expect("the successor connects");
    let blocks = wallet.recent_blocks(10);
    assert_eq!(blocks.len(), 3);
    assert_eq!(blocks[0].height, 6);
    assert_eq!(blocks[1].height, 5);
    assert_eq!(blocks[2].height, 0);
    assert_eq!(wallet.recent_blocks(1).len(), 1);
    assert_eq!(wallet.recent_blocks(0).len(), 0);
}

#[test]
fn malformed_block_is_a_decode_error() {
    let mut wallet = zero_wallet(Network::Regtest);
    assert!(matches!(wallet.apply_block(1, &[1, 2, 3]), Err(ApplyBlockError::DecodeBlock(_))));
    let b = block([9u8; 32], 1, vec![coinbase(vec![(vec![0x51], 1)])]);
    let mut bytes = bytes_of_block(&b);
    bytes.push(0);
    assert!(matches!(wallet.apply_block(1, &bytes), Err(ApplyBlockError::DecodeBlock(_))));
    assert_eq!(wallet.recent_blocks(10).len(), 1);
}

#[test]
fn undecodable_mempool_entry_changes_nothing() {
    let mut wallet = zero_wallet(Network::Regtest);
    let script = wallet.derive(KeychainKind::External, 0);
    let pay = payment([7u8; 32], 0, vec![(script, 50_000)]);
    let batch = vec![
        MempoolTx { tx: bytes_of_tx(&pay), added_unix: 1 },
        MempoolTx { tx: vec![0xff], added_unix: 2 },
    ];
    assert!(wallet.try_apply_mempool(batch).is_none());
    assert!(wallet.transactions().is_empty());
}

#[test]
fn disconnect_takes_confirmations_back() {
    let mut wallet = zero_wallet(Network::Regtest);
    let script = wallet.derive(KeychainKind::External, 0);
    let seen = payment([6u8; 32], 0, vec![(script.clone(), 10_000)]);
    wallet.apply_mempool(vec![MempoolTx { tx: bytes_of_tx(&seen), added_unix: 77 }]);
    assert_eq!(wallet.balance().untrusted_pending, 10_000);
    let b1 = block([9u8; 32], 1, vec![seen.clone()]);
    wallet.apply_block(1, &bytes_of_block(&b1)).expect("applied");
    let late = payment([5u8; 32], 0, vec![(script, 20_000)]);
    let b2 = block(hash_of(&b1), 2, vec![late.clone()]);
    wallet.apply_block(2, &bytes_of_block(&b2)).expect("applied");
    assert_eq!(wallet.balance().confirmed, 30_000);
    assert_eq!(wallet.disconnect_from(1, 1234), 1);
    assert_eq!(wallet.recent_blocks(10).len(), 2);
    assert_eq!(wallet.balance().confirmed, 10_000);
    assert_eq!(wallet.balance().untrusted_pending, 20_000);
    assert_eq!(wallet.disconnect_from(0, 99), 1);
    assert_eq!(wallet.balance().confirmed, 0);
    assert_eq!(wallet.balance().untrusted_pending, 30_000);
    assert_eq!(wallet.recent_blocks(10).len(), 1);
    let again = block([4u8; 32], 3, vec![late]);
    wallet.apply_block(3, &bytes_of_block(&again)).expect("a chain back at genesis takes any block");
    assert_eq!(wallet.balance().confirmed, 20_000);
}

#[test]
fn coinbase_is_immature_below_one_hundred_confirmations() {
    let mut wallet = zero_wallet(Network::Regtest);
    let script = wallet.derive(KeychainKind::External, 0);
    let reward = coinbase(vec![(script, 5_000_000_000)]);
    let mut prev = block([9u8; 32], 1, vec![reward]);
    wallet.apply_block(1, &bytes_of_block(&prev)).expect("applied");
    assert_eq!(wallet.balance().immature, 5_000_000_000);
    assert_eq!(wallet.balance().confirmed, 0);
    for height in 2..=99u32 {
        let next = block(hash_of(&prev), height, vec![coinbase(vec![(vec![0x51], 1)])]);
        wallet.apply_block(height, &bytes_of_block(&next)).expect("applied");
        prev = next;
    }
    assert_eq!(wallet.utxos()[0].confirmations, 99);
    assert_eq!(wallet.balance().immature, 5_000_000_000);
    let next = block(hash_of(&prev), 100, vec![coinbase(vec![(vec![0x51], 1)])]);
    wallet.apply_block(100, &bytes_of_block(&next)).expect("applied");
    assert_eq!(wallet.utxos()[0].confirmations, 100);
    assert_eq!(wallet.balance().immature, 0);
    assert_eq!(wallet.balance().confirmed, 5_000_000_000);
}

#[test]
fn payment_into_the_lookahead_reveals_up_to_it() {
    let mut wallet = zero_wallet(Network::Regtest);
    assert_eq!(wallet.last_unused_address().index, 0);
    let ahead = wallet.derive(KeychainKind::External, 7);
    let beyond = wallet.derive(KeychainKind::External, LOOKAHEAD);
    let pay = payment([7u8; 32], 0, vec![(beyond, 1), (ahead, 2), (vec![0x51], 3)]);
    let b = block([9u8; 32], 1, vec![pay]);
    let res = wallet.apply_block(1, &bytes_of_block(&b)).expect("applied");
    assert_eq!(res.relevant_txids.len(), 1);
    assert_eq!(wallet.last_unused_address().index, 8);
    assert_eq!(wallet.balance().confirmed, 3);
    assert_eq!(wallet.utxos().len(), 2);
    assert_eq!(wallet.fresh_address().index, 8);
    assert_eq!(wallet.last_unused_address().index, 9);
    assert_eq!(wallet.staged().next_external, 9);
}

#[test]
fn last_unused_address_is_stable_until_revealed() {
    let mut wallet = zero_wallet(Network::Testnet);
    let a = wallet.last_unused_address();
    let b = wallet.last_unused_address();
    assert_eq!(a.index, b.index);
    assert_eq!(a.address, b.address);
    let c = wallet.fresh_address();
    assert_eq!(c.index, a.index);
    assert_eq!(c.address, a.address);
    let d = wallet.last_unused_address();
    assert_eq!(d.index, a.index + 1);
    assert_eq!(wallet.peek_address(0).address, a.address);
    assert_eq!(wallet.peek_address(1).address, d.address);
}

#[test]
fn create_tx_pays_half_with_change() {
    let mut wallet = zero_wallet(Network::Regtest);
    let script = wallet.derive(KeychainKind::External, 0);
    let pay = payment([7u8; 32], 0, vec![(script, 100_000)]);
    let b = block([9u8; 32], 1, vec![pay.clone()]);
    wallet.apply_block(1, &bytes_of_block(&b)).expect("applied");
    let to = wallet.peek_address(3).address;
    let raw = wallet
        .create_tx(1, vec![Recipient { address: to.clone(), amount: 50_000 }])
        .expect("a signed transaction");
    let tx: bitcoin::Transaction = bitcoin::consensus::deserialize(&raw).expect("decodes");
    assert_eq!(tx.input.len(), 1);
    assert_eq!(tx.input[0].previous_output.txid, pay.compute_txid());
    assert_eq!(tx.input[0].previous_output.vout, 0);
    assert_eq!(tx.input[0].witness.len(), 1);
    assert_eq!(tx.output.len(), 2);
    assert_eq!(tx.output[0].value.to_sat(), 50_000);
    assert_eq!(tx.output[0].script_pubkey.to_bytes(), wallet.derive(KeychainKind::External, 3));
    assert_eq!(tx.output[1].script_pubkey.to_bytes(), wallet.derive(KeychainKind::Internal, 0));
    assert_eq!(tx.output[1].value.to_sat(), 100_000 - 50_000 - 154);
    let out: u64 = tx.output.iter().map(|o| o.value.to_sat()).sum();
    assert!(out + 154 <= 100_000);
    assert_eq!(tx.vsize(), 154);
    assert_eq!(tx.version, bitcoin::transaction::Version::TWO);
    assert_eq!(tx.lock_time.to_consensus_u32(), 1);
    assert_eq!(wallet.staged().next_internal, 1);
    let res = wallet.apply_mempool(vec![MempoolTx { tx: raw, added_unix: 10 }]);
    assert_eq!(res.relevant_txids.len(), 1);
    let balance = wallet.balance();
    assert_eq!(balance.confirmed, 0);
    assert_eq!(balance.trusted_pending, 100_000 - 154);
    assert_eq!(balance.untrusted_pending, 0);
}

#[test]
fn create_tx_without_change_leaves_dust_to_the_fee() {
    let mut wallet = zero_wallet(Network::Regtest);
    let script = wallet.derive(KeychainKind::External, 0);
    let pay = payment([7u8; 32], 0, vec![(script, 100_000)]);
    let b = block([9u8; 32], 1, vec![pay]);
    wallet.apply_block(1, &bytes_of_block(&b)).expect("applied");
    let to = wallet.peek_address(3).address;
    let raw = wallet
        .create_tx(2, vec![Recipient { address: to, amount: 100_000 - 2 * 154 - 330 }])
        .expect("a signed transaction");
    let tx: bitcoin::Transaction = bitcoin::consensus::deserialize(&raw).expect("decodes");
    assert_eq!(tx.output.len(), 1);
    assert_eq!(wallet.staged().next_internal, 0);
}

#[test]
fn create_tx_errors() {
    let mut wallet = zero_wallet(Network::Regtest);
    let to = wallet.peek_address(3).address;
    match wallet.create_tx(1, vec![Recipient { address: to.clone(), amount: 1 }]) {
        Err(CreateTxError::CreateTx(e)) => assert_eq!(e, BuildError::InsufficientFunds),
        _ => panic!("an empty wallet cannot pay"),
    }
    match wallet.create_tx(1, vec![]) {
        Err(CreateTxError::CreateTx(e)) => assert_eq!(e, BuildError::NoRecipients),
        _ => panic!("nobody to pay"),
    }
    assert!(matches!(
        wallet.create_tx(1, vec![Recipient { address: "nonsense".to_string(), amount: 1 }]),
        Err(CreateTxError::InvalidAddress(_))
    ));
    let mainnet = zero_wallet(Network::Mainnet).peek_address(0).address;
    assert!(matches!(
        wallet.create_tx(1, vec![Recipient { address: mainnet, amount: 1 }]),
        Err(CreateTxError::InvalidAddress(_))
    ));
}

#[test]
fn create_tx_spends_an_output_far_up_the_keychain() {
    let mut wallet = zero_wallet(Network::Regtest);
    for expected in 0..=40u32 {
        assert_eq!(wallet.fresh_address().index, expected);
    }
    let script = wallet.derive(KeychainKind::External, 40);
    let pay = payment([7u8; 32], 0, vec![(vec![0x51], 1), (script, 80_000)]);
    let b = block([9u8; 32], 1, vec![pay.clone()]);
    wallet.apply_block(1, &bytes_of_block(&b)).expect("applied");
    let utxos = wallet.utxos();
    assert_eq!((utxos[0].vout, utxos[0].derivation_index), (1, 40));
    let to = zero_wallet(Network::Regtest).peek_address(100).address;
    let raw = wallet.create_tx(5, vec![Recipient { address: to, amount: 10_000 }]).expect("signed");
    let tx: bitcoin::Transaction = bitcoin::consensus::deserialize(&raw).expect("decodes");
    assert_eq!(tx.input[0].previous_output, bitcoin::OutPoint::new(pay.compute_txid(), 1));
    assert_eq!(tx.output[1].value.to_sat(), 80_000 - 10_000 - 5 * 154);
}

#[test]
fn create_tx_takes_the_deepest_outputs_first() {
    let mut wallet = zero_wallet(Network::Regtest);
    let script = wallet.derive(KeychainKind::External, 0);
    let young = payment([7u8; 32], 0, vec![(script.clone(), 30_000)]);
    let old = payment([6u8; 32], 0, vec![(script.clone(), 20_000)]);
    let unconfirmed = payment([5u8; 32], 0, vec![(script, 90_000)]);
    wallet.apply_mempool(vec![MempoolTx { tx: bytes_of_tx(&unconfirmed), added_unix: 1 }]);
    let b1 = block([9u8; 32], 1, vec![old.clone()]);
    wallet.apply_block(1, &bytes_of_block(&b1)).expect("applied");
    let b2 = block(hash_of(&b1), 2, vec![young.clone()]);
    wallet.apply_block(2, &bytes_of_block(&b2)).expect("applied");
    let order: Vec<u64> = wallet.utxos().iter().map(|u| u.amount).collect();
    assert_eq!(order, vec![20_000, 30_000, 90_000]);
    let to = wallet.peek_address(9).address;
    let template = wallet.plan_tx(1, vec![TxOut { value: 25_000, script: wallet.derive(KeychainKind::External, 9) }]).expect("covered");
    assert_eq!(template.inputs.len(), 2);
    assert_eq!(template.lock_time, 2);
    let raw = wallet.create_tx(1, vec![Recipient { address: to, amount: 25_000 }]).expect("signed");
    let tx: bitcoin::Transaction = bitcoin::consensus::deserialize(&raw).expect("decodes");
    assert_eq!(tx.input.len(), 2);
    assert_eq!(tx.input[0].previous_output.txid, old.compute_txid());
    assert_eq!(tx.input[1].previous_output.txid, young.compute_txid());
    assert_eq!(tx.output[1].value.to_sat(), 50_000 - 25_000 - 212);
}

#[test]
fn sign_tx_reports_what_it_cannot_sign() {
    let wallet = zero_wallet(Network::Regtest);
    let own = wallet.derive(KeychainKind::External, 0);
    let input = |txid: Vec<u8>, script: Vec<u8>| UtxoInfo {
        txid,
        vout: 0,
        amount: 10_000,
        script_pubkey: script,
        is_change: false,
        derivation_index: 0,
        confirmations: 1,
    };
    let template = |inputs: Vec<UtxoInfo>| TxTemplate {
        version: TX_VERSION,
        lock_time: 0,
        sequence: TX_SEQUENCE,
        inputs,
        outputs: vec![TxOut { value: 9_000, script: vec![0x51] }],
        fee: 1_000,
    };
    assert!(matches!(wallet.sign_tx(&template(vec![input(vec![1u8; 31], own.clone())])), Err(SignFailure::Template)));
    let other = WalletHeader { version: db_magic(), entropy: [9u8; 16], network: Network::Regtest };
    let foreign = Wallet::from_header(other, 1).expect("usable").derive(KeychainKind::External, 0);
    assert!(matches!(wallet.sign_tx(&template(vec![input(vec![1u8; 32], foreign)])), Err(SignFailure::Unfinalized)));
    let raw = wallet.sign_tx(&template(vec![input(vec![1u8; 32], own)])).expect("signed");
    let tx: bitcoin::Transaction = bitcoin::consensus::deserialize(&raw).expect("decodes");
    assert_eq!(tx.output[0].value.to_sat(), 9_000);
    assert_eq!(tx.input[0].sequence, bitcoin::Sequence::ENABLE_RBF_NO_LOCKTIME);
}

#[test]
fn create_tx_refuses_an_absurd_fee() {
    let mut wallet = zero_wallet(Network::Regtest);
    let script = wallet.derive(KeychainKind::External, 0);
    let pay = payment([7u8; 32], 0, vec![(script, 100_000_000)]);
    let b = block([9u8; 32], 1, vec![pay]);
    wallet.apply_block(1, &bytes_of_block(&b)).expect("applied");
    let to = wallet.peek_address(3).address;
    assert!(matches!(
        wallet.create_tx(100_000, vec![Recipient { address: to, amount: 1_000 }]),
        Err(CreateTxError::SignTx(SignFailure::Extract))
    ));
    assert_eq!(wallet.staged().next_internal, 0);
    assert_eq!(wallet.balance().confirmed, 100_000_000);
}

#[test]
fn unspent_values_are_received_less_consumed() {
    let mut wallet = zero_wallet(Network::Regtest);
    let a = wallet.derive(KeychainKind::External, 0);
    let c = wallet.derive(KeychainKind::Internal, 0);
    let fund = payment([7u8; 32], 0, vec![(a.clone(), 40_000), (a, 2_000), (vec![0x51], 9)]);
    let fund_id: [u8; 32] = bitcoin::hashes::Hash::to_byte_array(fund.compute_txid());
    let spend = payment(fund_id, 0, vec![(c, 30_000), (vec![0x51], 9_000)]);
    let b = block([9u8; 32], 1, vec![fund]);
    wallet.apply_block(1, &bytes_of_block(&b)).expect("applied");
    wallet.apply_mempool(vec![MempoolTx { tx: bytes_of_tx(&spend), added_unix: 3 }]);
    let unspent: u64 = wallet.utxos().iter().map(|u| u.amount).sum();
    let received: u64 = wallet.transactions().iter().map(|t| t.received).sum();
    let consumed: u64 = wallet.transactions().iter().map(|t| t.spent).sum();
    assert_eq!(received, 72_000);
    assert_eq!(consumed, 40_000);
    assert_eq!(unspent, received - consumed);
    let balance = wallet.balance();
    assert_eq!(balance.confirmed + balance.trusted_pending + balance.untrusted_pending + balance.immature, unspent);
    assert_eq!(balance.trusted_pending, 30_000);
}

#[test]
fn genesis_is_the_network_genesis() {
    let table = [
        (Network::Mainnet, bitcoin::Network::Bitcoin, "000000000019d6689c085ae165831e934ff763ae46a2a6c172b3f1b60a8ce26f"),
        (Network::Testnet, bitcoin::Network::Testnet, "000000000933ea01ad0ee984209779baaec3ced90fa3f408719526f8d77f4943"),
        (Network::Testnet4, bitcoin::Network::Testnet4, "00000000da84f2bafbbc53dee25a72ae507ff4914b867c565be350b0da8bf043"),
        (Network::Signet, bitcoin::Network::Signet, "00000008819873e925422c1ff0f99f7cc9bbb232af63a077a480a3633bee1ef6"),
        (Network::Regtest, bitcoin::Network::Regtest, "0f9188f13cb7b2c71f2a335e3a4fc328bf5beb436012afca590b1a11466e2206"),
    ];
    for (network, outside, hex) in table {
        let mut expected = Vec::new();
        for i in (0..32).rev() {
            expected.push(u8::from_str_radix(&hex[2 * i..2 * i + 2], 16).expect("hex"));
        }
        assert_eq!(zero_wallet(network).genesis_hash(), expected);
        assert_eq!(bitcoin::constants::genesis_block(outside).block_hash().to_string(), hex);
    }
}

#[test]
fn signing_outcome_reads_the_signer_report() {
    assert_eq!(signing_outcome(Some(Ok((true, vec![7, 8])))).expect("finalized"), vec![7, 8]);
    assert!(matches!(signing_outcome(Some(Ok((false, vec![7, 8])))), Err(SignFailure::Unfinalized)));
    assert!(matches!(signing_outcome(None), Err(SignFailure::NoSigner)));
    assert!(matches!(
        signing_outcome(Some(Err(bdk_wallet::signer::SignerError::MissingKey))),
        Err(SignFailure::Signer(bdk_wallet::signer::SignerError::MissingKey))
    ));
}

#[test]
fn signing_twice_gives_the_same_bytes() {
    let mut a = zero_wallet(Network::Regtest);
    let mut b = zero_wallet(Network::Regtest);
    let script = a.derive(KeychainKind::External, 0);
    let pay = payment([7u8; 32], 0, vec![(script, 100_000)]);
    let blk = block([9u8; 32], 1, vec![pay]);
    a.apply_block(1, &bytes_of_block(&blk)).expect("applied");
    b.apply_block(1, &bytes_of_block(&blk)).expect("applied");
    let to = a.peek_address(3).address;
    let first = a.create_tx(2, vec![Recipient { address: to.clone(), amount: 40_000 }]).expect("signed");
    let second = b.create_tx(2, vec![Recipient { address: to, amount: 40_000 }]).expect("signed");
    assert_eq!(first, second);
}

#[test]
fn accept_signed_holds_bytes_against_the_plan() {
    let wallet = zero_wallet(Network::Regtest);
    let own = wallet.derive(KeychainKind::External, 0);
    let plan = |paid: u64| TxTemplate {
        version: TX_VERSION,
        lock_time: 0,
        sequence: TX_SEQUENCE,
        inputs: vec![UtxoInfo {
            txid: vec![1u8; 32],
            vout: 0,
            amount: 10_000,
            script_pubkey: own.clone(),
            is_change: false,
            derivation_index: 0,
            confirmations: 1,
        }],
        outputs: vec![TxOut { value: paid, script: vec![0x51] }],
        fee: 10_000 - paid,
    };
    let raw = wallet.sign_tx(&plan(9_000)).expect("signed");
    assert_eq!(accept_signed(Some(raw.clone()), &plan(9_000)).expect("accepted"), raw);
    assert!(matches!(accept_signed(Some(raw.clone()), &plan(9_001)), Err(SignFailure::Mismatch)));
    let mut other = plan(9_000);
    other.inputs[0].vout = 1;
    assert!(matches!(accept_signed(Some(raw.clone()), &other), Err(SignFailure::Mismatch)));
    let mut more = plan(9_000);
    more.outputs.push(TxOut { value: 1, script: vec![0x51] });
    assert!(matches!(accept_signed(Some(raw), &more), Err(SignFailure::Mismatch)));
    assert!(matches!(accept_signed(Some(vec![1, 2, 3]), &plan(9_000)), Err(SignFailure::Mismatch)));
    assert!(matches!(accept_signed(None, &plan(9_000)), Err(SignFailure::Extract)));
}

#[test]
fn of_two_spends_of_one_output_one_is_listed() {
    let mut wallet = zero_wallet(Network::Regtest);
    let script = wallet.derive(KeychainKind::External, 0);
    let pay = payment([7u8; 32], 0, vec![(script, 50_000)]);
    let b1 = block([9u8; 32], 1, vec![pay.clone()]);
    wallet.apply_block(1, &bytes_of_block(&b1)).expect("applied");
    let pay_id: [u8; 32] = bitcoin::hashes::Hash::to_byte_array(pay.compute_txid());
    let early = payment(pay_id, 0, vec![(vec![0x51], 49_000)]);
    let late = payment(pay_id, 0, vec![(vec![0x52], 48_000)]);
    let res = wallet.apply_mempool(vec![MempoolTx { tx: bytes_of_tx(&early), added_unix: 10 }]);
    assert_eq!(res.relevant_txids, vec![txid_of(&early)]);
    let res = wallet.apply_mempool(vec![MempoolTx { tx: bytes_of_tx(&late), added_unix: 20 }]);
    assert_eq!(res.relevant_txids, vec![txid_of(&late)]);
    let txs = wallet.transactions();
    assert_eq!(txs.len(), 2);
    assert_eq!(txs[0].txid, txid_of(&pay));
    assert_eq!(txs[1].txid, txid_of(&late));
    assert!(wallet.utxos().is_empty());
    let received: u64 = txs.iter().map(|t| t.received).sum();
    let spent: u64 = txs.iter().map(|t| t.spent).sum();
    assert_eq!((received, spent), (50_000, 50_000));
    let res = wallet.apply_mempool(vec![MempoolTx { tx: bytes_of_tx(&early), added_unix: 15 }]);
    assert!(res.relevant_txids.is_empty());
    assert_eq!(wallet.transactions()[1].txid, txid_of(&late));
    let b2 = block(hash_of(&b1), 2, vec![early.clone()]);
    let res = wallet.apply_block(2, &bytes_of_block(&b2)).expect("applied");
    assert_eq!(res.relevant_txids, vec![txid_of(&early)]);
    let txs = wallet.transactions();
    assert_eq!(txs.len(), 2);
    assert_eq!((txs[0].txid.clone(), txs[0].confirmations), (txid_of(&pay), 2));
    assert_eq!((txs[1].txid.clone(), txs[1].confirmations), (txid_of(&early), 1));
    let res = wallet.apply_mempool(vec![MempoolTx { tx: bytes_of_tx(&late), added_unix: 99 }]);
    assert!(res.relevant_txids.is_empty());
    assert_eq!(wallet.transactions().len(), 2);
    let spent: u64 = wallet.transactions().iter().map(|t| t.spent).sum();
    assert_eq!(spent, 50_000);
}

use bdk_wallet::bitcoin;
use bdkgo::errors::CreateTxError;
use bdkgo::header::{db_magic, WalletHeader};
use bdkgo::journal::{block_record, mempool_record, reveal_record, spend_record};
use bdkgo::replay::Operation;
use bdkgo::types::{KeychainKind, MempoolTx, Network, Recipient};
use bdkgo::wallet::{Wallet, LOOKAHEAD};
use std::str::FromStr;

fn wallet_on(network: Network) -> Wallet {
    let header = WalletHeader { version: db_magic(), entropy: [0u8; 16], network };
    Wallet::from_header(header, LOOKAHEAD).expect("usable entropy")
}

fn paying(from: u8, script: Vec<u8>, amount: u64) -> bitcoin::Transaction {
    bitcoin::Transaction {
        version: bitcoin::transaction::Version::TWO,
        lock_time: bitcoin::absolute::LockTime::ZERO,
        input: vec![bitcoin::TxIn {
            previous_output: bitcoin::OutPoint { txid: bitcoin::Txid::from_raw_hash(bitcoin::hashes::Hash::from_byte_array([from; 32])), vout: 0 },
            script_sig: bitcoin::ScriptBuf::new(),
            sequence: bitcoin::Sequence::MAX,
            witness: bitcoin::Witness::new(),
        }],
        output: vec![bitcoin::TxOut { value: bitcoin::Amount::from_sat(amount), script_pubkey: bitcoin::ScriptBuf::from_bytes(script) }],
    }
}

fn block_of(txdata: Vec<bitcoin::Transaction>) -> Vec<u8> {
    let header = bitcoin::block::Header {
        version: bitcoin::block::Version::TWO,
        prev_blockhash: bitcoin::BlockHash::from_raw_hash(bitcoin::hashes::Hash::from_byte_array([9u8; 32])),
        merkle_root: bitcoin::TxMerkleNode::from_raw_hash(bitcoin::hashes::Hash::from_byte_array([0u8; 32])),
        time: 0,
        bits: bitcoin::CompactTarget::from_consensus(0),
        nonce: 1,
    };
    bitcoin::consensus::serialize(&bitcoin::Block { header, txdata })
}

#[test]
fn records_name_what_each_call_stores() {
    let reveal = reveal_record();
    assert_eq!(reveal.len(), 1);
    assert!(matches!(reveal[0], Operation::RevealExternal));

    let block = block_record(7, vec![1, 2, 3]);
    assert_eq!(block.len(), 1);
    assert!(matches!(&block[0], Operation::Block { height: 7, bytes } if bytes == &vec![1u8, 2, 3]));

    let batch = vec![MempoolTx { tx: vec![4, 5], added_unix: 11 }, MempoolTx { tx: vec![6], added_unix: 12 }];
    let record = mempool_record(&batch);
    assert_eq!(record.len(), 2);
    assert!(matches!(&record[0], Operation::Mempool { added_unix: 11, bytes } if bytes == &vec![4u8, 5]));
    assert!(matches!(&record[1], Operation::Mempool { added_unix: 12, bytes } if bytes == &vec![6u8]));
    assert!(mempool_record(&Vec::new()).is_empty());
}

#[test]
fn spend_record_holds_the_change_index_where_one_was_used() {
    let mut wallet = wallet_on(Network::Regtest);
    let script = wallet.derive(KeychainKind::External, 0);
    wallet.apply_block(1, &block_of(vec![paying(7, script, 100_000)])).expect("applied");
    let to = wallet.peek_address(3).address;

    let before = wallet.clone();
    assert_eq!(wallet.next_change(), 0);
    wallet.create_tx(1, vec![Recipient { address: to.clone(), amount: 50_000 }]).expect("signed");
    assert_eq!(wallet.next_change(), 1);
    let record = spend_record(&before, &wallet);
    assert_eq!(record.len(), 1);
    assert!(matches!(record[0], Operation::RevealInternal));

    let again = wallet.clone();
    assert!(matches!(
        wallet.create_tx(1, vec![Recipient { address: to, amount: 1_000_000 }]),
        Err(CreateTxError::CreateTx(_))
    ));
    assert!(spend_record(&again, &wallet).is_empty());
}

#[test]
fn settle_keeps_a_written_call_and_takes_back_an_unwritten_one() {
    let mut wallet = wallet_on(Network::Testnet);
    let before = wallet.clone();
    let first = wallet.fresh_address();
    assert_eq!(first.index, 0);
    assert!(wallet.settle(before, true));
    assert_eq!(wallet.last_unused_address().index, 1);

    let before = wallet.clone();
    let second = wallet.fresh_address();
    assert_eq!(second.index, 1);
    assert_eq!(wallet.last_unused_address().index, 2);
    assert!(!wallet.settle(before, false));
    assert_eq!(wallet.last_unused_address().index, 1);
    assert_eq!(wallet.fresh_address().address, second.address);
}

#[test]
fn replaying_the_records_restores_the_wallet() {
    let mut wallet = wallet_on(Network::Regtest);
    let mut stored: Vec<Operation> = Vec::new();

    wallet.fresh_address();
    stored.extend(reveal_record());

    let script = wallet.derive(KeychainKind::External, 0);
    let bytes = block_of(vec![paying(7, script, 100_000)]);
    wallet.apply_block(1, &bytes).expect("applied");
    stored.extend(block_record(1, bytes));

    let before = wallet.clone();
    let to = wallet.peek_address(5).address;
    let raw = wallet.create_tx(1, vec![Recipient { address: to, amount: 40_000 }]).expect("signed");
    stored.extend(spend_record(&before, &wallet));

    let batch = vec![MempoolTx { tx: raw, added_unix: 30 }];
    stored.extend(mempool_record(&batch));
    wallet.apply_mempool(batch);

    assert_eq!(stored.len(), 4);
    let mut restored = wallet_on(Network::Regtest);
    assert_eq!(restored.replay(stored), None);
    assert_eq!(restored.balance(), wallet.balance());
    assert_eq!(restored.tip_height(), wallet.tip_height());
    assert_eq!(restored.next_change(), wallet.next_change());
    assert_eq!(restored.last_unused_address().index, wallet.last_unused_address().index);
    assert_eq!(restored.transactions().len(), 2);
    assert_eq!(restored.utxos().len(), wallet.utxos().len());
}

#[test]
fn a_batch_is_its_entries_one_by_one() {
    let mut whole = wallet_on(Network::Regtest);
    let mut single = wallet_on(Network::Regtest);
    let a = bitcoin::consensus::serialize(&paying(7, whole.derive(KeychainKind::External, 2), 500));
    let b = bitcoin::consensus::serialize(&paying(8, whole.derive(KeychainKind::Internal, 1), 700));
    let batch = vec![MempoolTx { tx: a, added_unix: 5 }, MempoolTx { tx: b, added_unix: 6 }];
    assert_eq!(single.replay(mempool_record(&batch)), None);
    whole.apply_mempool(batch);
    assert_eq!(whole.balance(), single.balance());
    assert_eq!(whole.balance().untrusted_pending, 500);
    assert_eq!(whole.balance().trusted_pending, 700);
    assert_eq!(whole.transactions().len(), 2);
    assert_eq!(whole.transactions().len(), single.transactions().len());
    assert_eq!(whole.last_unused_address().index, 3);
    assert_eq!(whole.last_unused_address().index, single.last_unused_address().index);
    assert_eq!(whole.next_change(), single.next_change());
}

#[test]
fn handed_out_address_pays_to_the_script_at_its_index() {
    let mut wallet = wallet_on(Network::Testnet);
    let first = wallet.fresh_address();
    let parsed = bitcoin::Address::from_str(&first.address).expect("an address");
    assert!(first.address.starts_with("tb1p"));
    assert!(parsed.is_valid_for_network(bitcoin::Network::Testnet));
    assert!(parsed.is_valid_for_network(bitcoin::Network::Signet));
    assert!(!parsed.is_valid_for_network(bitcoin::Network::Bitcoin));
    assert!(!parsed.is_valid_for_network(bitcoin::Network::Regtest));
    assert_eq!(parsed.assume_checked().script_pubkey().to_bytes(), wallet.derive(KeychainKind::External, 0));
    assert_eq!(first.address, wallet.peek_address(0).address);

    let mut main = wallet_on(Network::Mainnet);
    assert!(matches!(
        main.create_tx(1, vec![Recipient { address: first.address.clone(), amount: 1_000 }]),
        Err(CreateTxError::InvalidAddress(_))
    ));
    let mut signet = wallet_on(Network::Signet);
    assert!(matches!(
        signet.create_tx(1, vec![Recipient { address: first.address, amount: 1_000 }]),
        Err(CreateTxError::CreateTx(_))
    ));
}

#[test]
fn the_two_keychains_have_different_descriptors() {
    let header = WalletHeader { version: db_magic(), entropy: [3u8; 16], network: Network::Signet };
    let external = header.descriptor(KeychainKind::External);
    let internal = header.descriptor(KeychainKind::Internal);
    assert_ne!(external, internal);
    let mut other = header.clone();
    other.version = [0u8; 21];
    assert_eq!(other.descriptor(KeychainKind::External), external);
    assert_eq!(other.descriptor(KeychainKind::Internal), internal);
}

use bdkgo::errors::LoadError;
use bdkgo::header::{db_magic, is_magic, WalletHeader};
use bdkgo::types::{KeychainKind, Network};
use bdkgo::wallet::{Wallet, LOOKAHEAD};

fn sample() -> WalletHeader {
    let mut entropy = [0u8; 16];
    for (i, b) in entropy.iter_mut().enumerate() {
        *b = i as u8 + 1;
    }
    WalletHeader { version: [0u8; 21], entropy, network: Network::Signet }
}

#[test]
fn magic_is_the_tag() {
    assert_eq!(&db_magic()[..], "utreexod.bdk.345e94cf".as_bytes());
    assert!(is_magic(&db_magic()));
    assert!(!is_magic(&[0u8; 21]));
}

#[test]
fn encode_writes_length_tag_entropy_network() {
    let mut header = sample();
    let bytes = header.encode();
    assert_eq!(header.version, db_magic());
    let mut expected = vec![41u8, 0, 0, 0];
    expected.extend_from_slice("utreexod.bdk.345e94cf".as_bytes());
    expected.extend_from_slice(&[1, 2, 3, 4, 5, 6, 7, 8, 9, 10, 11, 12, 13, 14, 15, 16]);
    expected.extend_from_slice(&[3, 0, 0, 0]);
    assert_eq!(bytes, expected);
}

#[test]
fn decode_reads_back_what_encode_wrote() {
    for network in [Network::Mainnet, Network::Testnet, Network::Testnet4, Network::Signet, Network::Regtest] {
        let mut header = sample();
        header.network = network;
        let bytes = header.encode();
        let back = WalletHeader::decode(&bytes).expect("decodes");
        assert_eq!(back.version, db_magic());
        assert_eq!(back.entropy, header.entropy);
        assert_eq!(back.network, network);
    }
}

#[test]
fn decode_ignores_what_follows_the_record() {
    let mut bytes = sample().encode();
    bytes.extend_from_slice(&[9, 9, 9]);
    assert!(WalletHeader::decode(&bytes).is_ok());
}

#[test]
fn decode_reports_truncation() {
    match WalletHeader::decode(&[41, 0]) {
        Err(LoadError::ReadHeader(e)) => {
            assert_eq!(e.expected, 4);
            assert_eq!(e.available, 2);
        },
        _ => panic!("a record of two bytes is truncated"),
    }
    let bytes = sample().encode();
    match WalletHeader::decode(&bytes[..44]) {
        Err(LoadError::ReadHeader(e)) => {
            assert_eq!(e.expected, 45);
            assert_eq!(e.available, 44);
        },
        _ => panic!("a record that ends early is truncated"),
    }
}

#[test]
fn decode_rejects_other_versions() {
    let mut bytes = sample().encode();
    bytes[4] = b'x';
    assert!(matches!(WalletHeader::decode(&bytes), Err(LoadError::HeaderVersion)));
}

#[test]
fn decode_rejects_malformed_bodies() {
    let mut bytes = sample().encode();
    bytes[41] = 5;
    assert!(matches!(WalletHeader::decode(&bytes), Err(LoadError::ParseHeader(_))));
    let mut bytes = sample().encode();
    bytes[42] = 1;
    assert!(matches!(WalletHeader::decode(&bytes), Err(LoadError::ParseHeader(_))));
    let mut short = vec![40u8, 0, 0, 0];
    short.extend_from_slice(&sample().encode()[4..44]);
    assert!(matches!(WalletHeader::decode(&short), Err(LoadError::ParseHeader(_))));
    let mut long = vec![42u8, 0, 0, 0];
    long.extend_from_slice(&sample().encode()[4..]);
    long.push(0);
    assert!(matches!(WalletHeader::decode(&long), Err(LoadError::ParseHeader(_))));
}

#[test]
fn new_header_carries_tag_and_network() {
    let a = WalletHeader::new(Network::Regtest);
    let b = WalletHeader::new(Network::Regtest);
    assert_eq!(a.version, db_magic());
    assert_eq!(a.network, Network::Regtest);
    assert_ne!(a.entropy, b.entropy);
}

#[test]
fn mnemonic_of_zero_entropy() {
    let header = WalletHeader { version: db_magic(), entropy: [0u8; 16], network: Network::Mainnet };
    let words = header.mnemonic_words();
    assert_eq!(words.len(), 12);
    assert_eq!(words[0], "abandon");
    assert_eq!(words[10], "abandon");
    assert_eq!(words[11], "about");
}

#[test]
fn descriptor_is_a_taproot_descriptor_of_the_keychain() {
    let header = WalletHeader { version: db_magic(), entropy: [0u8; 16], network: Network::Mainnet };
    assert!(header.is_usable());
    let external = header.descriptor(KeychainKind::External);
    let internal = header.try_descriptor(KeychainKind::Internal).expect("usable");
    assert!(external.starts_with("tr(xprv"));
    assert!(external.contains("/86'/0'/0'/0/*"));
    assert!(internal.contains("/86'/0'/0'/1/*"));
    assert_eq!(external, header.descriptor(KeychainKind::External));
}

#[test]
fn load_checks_header_and_genesis() {
    let mut header = WalletHeader { version: db_magic(), entropy: [0u8; 16], network: Network::Regtest };
    let bytes = header.encode();
    let created = Wallet::from_header(header, LOOKAHEAD).expect("usable");
    let genesis = created.genesis_hash();
    assert_eq!(genesis.len(), 32);
    let loaded = Wallet::load(&bytes, &genesis).expect("loads");
    assert_eq!(loaded.genesis_hash(), genesis);
    assert_eq!(loaded.header().entropy, [0u8; 16]);
    assert_eq!(loaded.peek_address(5).address, created.peek_address(5).address);
    assert_eq!(loaded.mnemonic_words(), created.mnemonic_words());
    match Wallet::load(&bytes, &vec![0u8; 32]) {
        Err(LoadError::Wallet(bdkgo::errors::InitError::Genesis { loaded, expected })) => {
            assert_eq!(loaded, genesis);
            assert_eq!(expected, vec![0u8; 32]);
        },
        _ => panic!("another genesis must not load"),
    }
    assert!(matches!(Wallet::load(&bytes[..10], &genesis), Err(LoadError::ReadHeader(_))));
}

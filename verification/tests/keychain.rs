use bdk_wallet::bitcoin;
use bdkgo::keychain::KeychainIndex;
use std::str::FromStr;
use bdkgo::types::{KeychainKind, Network};

fn taproot_script(network: bitcoin::Network, entropy: &[u8; 16], path: &str) -> (Vec<u8>, String) {
    let secp = bitcoin::secp256k1::Secp256k1::new();
    let master = bitcoin::bip32::Xpriv::new_master(network, entropy).expect("a master key");
    let path = bitcoin::bip32::DerivationPath::from_str(path).expect("a path");
    let child = master.derive_priv(&secp, &path).expect("a child key");
    let (key, _) = child.to_keypair(&secp).x_only_public_key();
    let address = bitcoin::Address::p2tr(&secp, key, None, network);
    (address.script_pubkey().to_bytes(), address.to_string())
}

#[test]
fn derives_single_key_taproot_scripts() {
    let entropy = [0u8; 16];
    let keys = KeychainIndex::new(Network::Mainnet, entropy, 3).expect("usable");
    let (script, address) = taproot_script(bitcoin::Network::Bitcoin, &entropy, "m/86'/0'/0'/0/0");
    assert_eq!(keys.derive(KeychainKind::External, 0), script);
    assert_eq!(keys.peek(KeychainKind::External, 0).address, address);
    assert!(address.starts_with("bc1p"));
    let (script, address) = taproot_script(bitcoin::Network::Bitcoin, &entropy, "m/86'/0'/0'/0/7");
    assert_eq!(keys.derive(KeychainKind::External, 7), script);
    assert_eq!(keys.peek(KeychainKind::External, 7).address, address);
    let (script, address) = taproot_script(bitcoin::Network::Bitcoin, &entropy, "m/86'/0'/0'/1/2");
    assert_eq!(keys.derive(KeychainKind::Internal, 2), script);
    assert_eq!(keys.peek(KeychainKind::Internal, 2).address, address);
    let test = KeychainIndex::new(Network::Testnet, entropy, 0).expect("usable");
    let (script, address) = taproot_script(bitcoin::Network::Testnet, &entropy, "m/86'/1'/0'/0/0");
    assert_eq!(test.derive(KeychainKind::External, 0), script);
    assert_eq!(test.peek(KeychainKind::External, 0).address, address);
    assert!(address.starts_with("tb1p"));
}

#[test]
fn derivation_is_the_same_in_every_index() {
    let a = KeychainIndex::new(Network::Testnet, [3u8; 16], 0).expect("usable");
    let mut b = KeychainIndex::new(Network::Testnet, [3u8; 16], 10).expect("usable");
    b.reveal_next(KeychainKind::External);
    for index in [0u32, 1, 9, 10, 500, 0x7fff_ffff] {
        assert_eq!(a.derive(KeychainKind::External, index), b.derive(KeychainKind::External, index));
        assert_eq!(a.derive(KeychainKind::Internal, index), b.derive(KeychainKind::Internal, index));
    }
    assert_ne!(a.derive(KeychainKind::External, 0), a.derive(KeychainKind::Internal, 0));
    assert_ne!(a.derive(KeychainKind::External, 0), a.derive(KeychainKind::External, 1));
    let other = KeychainIndex::new(Network::Testnet, [4u8; 16], 0).expect("usable");
    assert_ne!(a.derive(KeychainKind::External, 0), other.derive(KeychainKind::External, 0));
}

#[test]
fn lookup_sees_the_window_only() {
    let mut keys = KeychainIndex::new(Network::Regtest, [1u8; 16], 2).expect("usable");
    let s0 = keys.derive(KeychainKind::External, 0);
    let s1 = keys.derive(KeychainKind::External, 1);
    let s2 = keys.derive(KeychainKind::External, 2);
    let c1 = keys.derive(KeychainKind::Internal, 1);
    assert_eq!(keys.lookup(&s0), Some((KeychainKind::External, 0)));
    assert_eq!(keys.lookup(&s1), Some((KeychainKind::External, 1)));
    assert_eq!(keys.lookup(&s2), None);
    assert_eq!(keys.lookup(&c1), Some((KeychainKind::Internal, 1)));
    assert_eq!(keys.lookup(&vec![1, 2, 3]), None);
    assert_eq!(keys.match_script(&s1), Some((KeychainKind::External, 1)));
    assert_eq!(keys.next_unrevealed(KeychainKind::External), 2);
    assert_eq!(keys.next_unrevealed(KeychainKind::Internal), 0);
    assert_eq!(keys.lookup(&s2), Some((KeychainKind::External, 2)));
    assert_eq!(keys.match_script(&s0), Some((KeychainKind::External, 0)));
    assert_eq!(keys.next_unrevealed(KeychainKind::External), 2);
    assert_eq!(keys.match_script(&vec![9]), None);
}

#[test]
fn reveal_hands_out_indices_in_order() {
    let mut keys = KeychainIndex::new(Network::Regtest, [1u8; 16], 0).expect("usable");
    assert_eq!(keys.lowest_unused(KeychainKind::Internal), 0);
    assert_eq!(keys.lowest_unused(KeychainKind::Internal), 0);
    assert_eq!(keys.reveal_next(KeychainKind::Internal), 0);
    assert_eq!(keys.reveal_next(KeychainKind::Internal), 1);
    assert_eq!(keys.lowest_unused(KeychainKind::Internal), 2);
    assert_eq!(keys.lowest_unused(KeychainKind::External), 0);
    let e = keys.entry(KeychainKind::Internal, 1);
    assert!(e.used);
    assert_eq!(e.index, 1);
    assert_eq!(e.script, keys.derive(KeychainKind::Internal, 1));
    assert!(!keys.entry(KeychainKind::Internal, 2).used);
    keys.reveal_to(KeychainKind::External, 4);
    assert_eq!(keys.next_unrevealed(KeychainKind::External), 5);
    keys.reveal_to(KeychainKind::External, 2);
    assert_eq!(keys.next_unrevealed(KeychainKind::External), 5);
    assert_eq!(keys.network(), Network::Regtest);
}

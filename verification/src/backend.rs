//! The calls into other crates.
//!
//! Nothing in this file is proved: each function states what the crate it
//! calls is relied on to do, and the rest of the library is verified against
//! those statements.

use vstd::prelude::*;
use bdk_wallet::bitcoin;
use bincode::Options;
use rand::RngCore;
use std::str::FromStr;
use bdk_wallet::template::DescriptorTemplate;
use crate::types::{words_view, KeychainKind, Network, OutPoint, OutPointView, RawBlock, RawBlockView, Tx, TxOut, TxOutView, TxView, UtxoInfo};

verus! {

/// Length in bytes of the tag that opens a wallet header.
pub const MAGIC_LEN: usize = 21;

/// Length in bytes of the entropy a wallet is derived from.
pub const ENTROPY_LEN: usize = 16;

/// Highest derivation index of a keychain.
pub const MAX_INDEX: u32 = 0x7fff_ffff;

#[verifier::external_type_specification]
#[verifier::external_body]
pub struct ExParseNetworkError(bitcoin::network::ParseNetworkError);

#[verifier::external_type_specification]
#[verifier::external_body]
pub struct ExDecodeError(bitcoin::consensus::encode::Error);

#[verifier::external_type_specification]
#[verifier::external_body]
pub struct ExAddressParseError(bitcoin::address::ParseError);

#[verifier::external_type_specification]
#[verifier::external_body]
pub struct ExBincodeErrorKind(bincode::ErrorKind);

#[verifier::external_type_specification]
#[verifier::external_body]
pub struct ExSignerError(bdk_wallet::signer::SignerError);

/// The network that a name stands for.
pub open spec fn network_named(name: Seq<char>) -> Option<Network> {
    if name == "bitcoin"@ {
        Some(Network::Mainnet)
    } else if name == "testnet"@ {
        Some(Network::Testnet)
    } else if name == "testnet4"@ {
        Some(Network::Testnet4)
    } else if name == "signet"@ {
        Some(Network::Signet)
    } else if name == "regtest"@ {
        Some(Network::Regtest)
    } else {
        None
    }
}

/// `bitcoin::Network::from_str`: accepts exactly the five network names and
/// gives the network each one stands for.
#[verifier::external_body]
pub(crate) fn parse_network(name: &str) -> (r: Result<Network, bitcoin::network::ParseNetworkError>)
    ensures
        r is Ok <==> network_named(name@) is Some,
        r is Ok ==> Some(r->Ok_0) == network_named(name@),
{
    Ok(match bitcoin::Network::from_str(name)? {
        bitcoin::Network::Bitcoin => Network::Mainnet,
        bitcoin::Network::Testnet => Network::Testnet,
        bitcoin::Network::Testnet4 => Network::Testnet4,
        bitcoin::Network::Signet => Network::Signet,
        bitcoin::Network::Regtest => Network::Regtest,
    })
}

/// `rand::thread_rng().fill_bytes`: sixteen bytes from the thread's random
/// generator. Nothing is known of them.
#[verifier::external_body]
pub(crate) fn random_entropy() -> (r: [u8; 16]) {
    let mut entropy = [0_u8; 16];
    rand::thread_rng().fill_bytes(&mut entropy);
    entropy
}

/// The hash of a network's genesis block, in the order of its bytes.
pub open spec fn genesis_hash_of(network: Network) -> Seq<u8> {
    match network {
        Network::Mainnet => seq![
            111u8, 226u8, 140u8, 10u8, 182u8, 241u8, 179u8, 114u8, 193u8, 166u8, 162u8, 70u8, 174u8, 99u8, 247u8, 79u8, 147u8, 30u8, 131u8, 101u8, 225u8, 90u8, 8u8, 156u8, 104u8, 214u8, 25u8, 0u8, 0u8, 0u8, 0u8, 0u8,
        ],
        Network::Testnet => seq![
            67u8, 73u8, 127u8, 215u8, 248u8, 38u8, 149u8, 113u8, 8u8, 244u8, 163u8, 15u8, 217u8, 206u8, 195u8, 174u8, 186u8, 121u8, 151u8, 32u8, 132u8, 233u8, 14u8, 173u8, 1u8, 234u8, 51u8, 9u8, 0u8, 0u8, 0u8, 0u8,
        ],
        Network::Testnet4 => seq![
            67u8, 240u8, 139u8, 218u8, 176u8, 80u8, 227u8, 91u8, 86u8, 124u8, 134u8, 75u8, 145u8, 244u8, 127u8, 80u8, 174u8, 114u8, 90u8, 226u8, 222u8, 83u8, 188u8, 251u8, 186u8, 242u8, 132u8, 218u8, 0u8, 0u8, 0u8, 0u8,
        ],
        Network::Signet => seq![
            246u8, 30u8, 238u8, 59u8, 99u8, 163u8, 128u8, 164u8, 119u8, 160u8, 99u8, 175u8, 50u8, 178u8, 187u8, 201u8, 124u8, 159u8, 249u8, 240u8, 31u8, 44u8, 66u8, 37u8, 233u8, 115u8, 152u8, 129u8, 8u8, 0u8, 0u8, 0u8,
        ],
        Network::Regtest => seq![
            6u8, 34u8, 110u8, 70u8, 17u8, 26u8, 11u8, 89u8, 202u8, 175u8, 18u8, 96u8, 67u8, 235u8, 91u8, 191u8, 40u8, 195u8, 79u8, 58u8, 94u8, 51u8, 42u8, 31u8, 199u8, 178u8, 183u8, 60u8, 241u8, 136u8, 145u8, 15u8,
        ],
    }
}

/// `bitcoin::constants::genesis_block(..).block_hash()`: the hash of the
/// network's genesis block, one of five constants.
#[verifier::external_body]
pub(crate) fn network_genesis_hash(network: Network) -> (r: [u8; 32])
    ensures
        r@ == genesis_hash_of(network),
{
    let net = match network {
        Network::Mainnet => bitcoin::Network::Bitcoin,
        Network::Testnet => bitcoin::Network::Testnet,
        Network::Testnet4 => bitcoin::Network::Testnet4,
        Network::Signet => bitcoin::Network::Signet,
        Network::Regtest => bitcoin::Network::Regtest,
    };
    let hash = bitcoin::constants::genesis_block(net).block_hash();
    bitcoin::hashes::Hash::to_byte_array(hash)
}

/// Whether a master key and both keychain descriptors can be made from the entropy.
pub uninterp spec fn seed_usable(network: Network, entropy: Seq<u8>) -> bool;

/// `bitcoin::bip32::Xpriv::new_master` and `bdk_wallet::template::Bip86::build`:
/// whether the entropy gives a master key, and that key a descriptor for each
/// keychain.
#[verifier::external_body]
pub(crate) fn check_seed(network: Network, entropy: &[u8; 16]) -> (r: bool)
    ensures
        r == seed_usable(network, entropy@),
{
    let net = match network {
        Network::Mainnet => bitcoin::Network::Bitcoin,
        Network::Testnet => bitcoin::Network::Testnet,
        Network::Testnet4 => bitcoin::Network::Testnet4,
        Network::Signet => bitcoin::Network::Signet,
        Network::Regtest => bitcoin::Network::Regtest,
    };
    match bitcoin::bip32::Xpriv::new_master(net, entropy) {
        Ok(key) => bdk_wallet::template::Bip86(key, bdk_wallet::KeychainKind::External).build(net).is_ok()
            && bdk_wallet::template::Bip86(key, bdk_wallet::KeychainKind::Internal).build(net).is_ok(),
        Err(_) => false,
    }
}

/// The text of a keychain's descriptor, private keys included.
pub uninterp spec fn descriptor_text(network: Network, entropy: Seq<u8>, keychain: KeychainKind) -> Seq<char>;

/// `Bip86::build` and `Descriptor::to_string_with_secret`: the single-key
/// taproot descriptor of the keychain, written out with its private key. The
/// text depends on the network, the entropy and the keychain alone. For a
/// usable seed neither the master key nor the descriptor fails. The text
/// writes out the derivation path, which ends in 0 for the external keychain
/// and in 1 for the internal one: it is not the text of the other keychain.
#[verifier::external_body]
pub(crate) fn descriptor_string(network: Network, entropy: &[u8; 16], keychain: KeychainKind) -> (r: String)
    requires
        seed_usable(network, entropy@),
    ensures
        r@ == descriptor_text(network, entropy@, keychain),
        r@ != descriptor_text(network, entropy@, keychain.other()),
{
    let net = match network {
        Network::Mainnet => bitcoin::Network::Bitcoin,
        Network::Testnet => bitcoin::Network::Testnet,
        Network::Testnet4 => bitcoin::Network::Testnet4,
        Network::Signet => bitcoin::Network::Signet,
        Network::Regtest => bitcoin::Network::Regtest,
    };
    let kind = match keychain {
        KeychainKind::External => bdk_wallet::KeychainKind::External,
        KeychainKind::Internal => bdk_wallet::KeychainKind::Internal,
    };
    let key = bitcoin::bip32::Xpriv::new_master(net, entropy).unwrap();
    let (descriptor, key_map, _) = bdk_wallet::template::Bip86(key, kind).build(net).unwrap();
    descriptor.to_string_with_secret(&key_map)
}

/// The script at a derivation index of a keychain.
pub uninterp spec fn derived_script(network: Network, entropy: Seq<u8>, keychain: KeychainKind, index: u32) -> Seq<u8>;

/// `Descriptor::at_derivation_index` and `script_pubkey` on the keychain's
/// descriptor: the output script at the index. It depends on the network,
/// the entropy, the keychain and the index alone. For a usable seed the
/// descriptor exists, and an index up to `MAX_INDEX` is one it can be
/// derived at. The derivation of the child key fails where a hash falls
/// outside the curve's order, about once in 2^128 keys: no such seed and
/// index is known, and the contract does not leave them out.
#[verifier::external_body]
pub(crate) fn derive_script(network: Network, entropy: &[u8; 16], keychain: KeychainKind, index: u32) -> (r: Vec<u8>)
    requires
        seed_usable(network, entropy@),
        index <= MAX_INDEX,
    ensures
        r@ == derived_script(network, entropy@, keychain, index),
{
    let net = match network {
        Network::Mainnet => bitcoin::Network::Bitcoin,
        Network::Testnet => bitcoin::Network::Testnet,
        Network::Testnet4 => bitcoin::Network::Testnet4,
        Network::Signet => bitcoin::Network::Signet,
        Network::Regtest => bitcoin::Network::Regtest,
    };
    let kind = match keychain {
        KeychainKind::External => bdk_wallet::KeychainKind::External,
        KeychainKind::Internal => bdk_wallet::KeychainKind::Internal,
    };
    let key = bitcoin::bip32::Xpriv::new_master(net, entropy).unwrap();
    let (descriptor, _, _) = bdk_wallet::template::Bip86(key, kind).build(net).unwrap();
    descriptor.at_derivation_index(index).unwrap().script_pubkey().to_bytes()
}

/// The address, as text, at a derivation index of a keychain.
pub uninterp spec fn derived_address(network: Network, entropy: Seq<u8>, keychain: KeychainKind, index: u32) -> Seq<char>;

/// `Descriptor::at_derivation_index` and `address` on the keychain's
/// descriptor: the address at the index, in the network's encoding. For a
/// usable seed the descriptor exists, an index up to `MAX_INDEX` is one it
/// can be derived at, and a taproot descriptor has an address; the child
/// key is derived as for the script, with the same failure that no known
/// input shows. The address is made from the script at the index and
/// written with the network's prefix: read back for a network with that
/// prefix it gives that script, and for any other network it is refused.
#[verifier::external_body]
pub(crate) fn derive_address(network: Network, entropy: &[u8; 16], keychain: KeychainKind, index: u32) -> (r: String)
    requires
        seed_usable(network, entropy@),
        index <= MAX_INDEX,
    ensures
        r@ == derived_address(network, entropy@, keychain, index),
        is_address_of(r@, network, derived_script(network, entropy@, keychain, index)),
{
    let net = match network {
        Network::Mainnet => bitcoin::Network::Bitcoin,
        Network::Testnet => bitcoin::Network::Testnet,
        Network::Testnet4 => bitcoin::Network::Testnet4,
        Network::Signet => bitcoin::Network::Signet,
        Network::Regtest => bitcoin::Network::Regtest,
    };
    let kind = match keychain {
        KeychainKind::External => bdk_wallet::KeychainKind::External,
        KeychainKind::Internal => bdk_wallet::KeychainKind::Internal,
    };
    let key = bitcoin::bip32::Xpriv::new_master(net, entropy).unwrap();
    let (descriptor, _, _) = bdk_wallet::template::Bip86(key, kind).build(net).unwrap();
    descriptor.at_derivation_index(index).unwrap().address(net).unwrap().to_string()
}

/// The recovery words of an entropy.
pub uninterp spec fn mnemonic_of(entropy: Seq<u8>) -> Seq<Seq<char>>;

/// `bip39::Mnemonic::from_entropy` and `words`: the English recovery phrase
/// of the entropy, twelve words for sixteen bytes, a length that
/// `from_entropy` accepts.
#[verifier::external_body]
pub(crate) fn mnemonic(entropy: &[u8; 16]) -> (r: Vec<String>)
    ensures
        words_view(r@) == mnemonic_of(entropy@),
        r@.len() == 12,
{
    let phrase = bdk_wallet::keys::bip39::Mnemonic::from_entropy(entropy).unwrap();
    phrase.words().map(|w| w.to_string()).collect()
}

/// The script that an address pays to, if the text is an address of the network.
pub uninterp spec fn address_script_of(address: Seq<char>, network: Network) -> Option<Seq<u8>>;

/// Whether two networks write their addresses with the same prefix: the
/// main network and the regression test network each have their own, the
/// test networks share one.
pub open spec fn same_prefix(a: Network, b: Network) -> bool {
    (a is Mainnet) == (b is Mainnet) && (a is Regtest) == (b is Regtest)
}

/// Whether the text is the address of a script on a network: read for a
/// network with the same prefix it gives the script, and for any other
/// network it is no address.
pub open spec fn is_address_of(address: Seq<char>, network: Network, script: Seq<u8>) -> bool {
    forall|m: Network| #[trigger]
        address_script_of(address, m) == if same_prefix(network, m) {
            Some(script)
        } else {
            None
        }
}

/// `Address::from_str`, `require_network` and `script_pubkey`: the script of
/// the address, or the error of the parse or of the network check.
#[verifier::external_body]
pub(crate) fn address_script(address: &str, network: Network) -> (r: Result<Vec<u8>, bitcoin::address::ParseError>)
    ensures
        r is Ok <==> address_script_of(address@, network) is Some,
        r is Ok ==> Some(r->Ok_0@) == address_script_of(address@, network),
{
    let net = match network {
        Network::Mainnet => bitcoin::Network::Bitcoin,
        Network::Testnet => bitcoin::Network::Testnet,
        Network::Testnet4 => bitcoin::Network::Testnet4,
        Network::Signet => bitcoin::Network::Signet,
        Network::Regtest => bitcoin::Network::Regtest,
    };
    let checked = bitcoin::Address::from_str(address)?.require_network(net)?;
    Ok(checked.script_pubkey().to_bytes())
}

/// What a serialized transaction decodes to, if it decodes.
pub uninterp spec fn tx_decoding(bytes: Seq<u8>) -> Option<TxView>;

/// `bitcoin::consensus::deserialize::<Transaction>`: the transaction that the
/// bytes encode, with nothing left over, or the decoder's error. Of a decoded
/// transaction: its id of 32 bytes, the outputs it spends, the outputs it
/// makes, and whether it is a coinbase; the bytes themselves are kept beside
/// them.
#[verifier::external_body]
pub(crate) fn decode_tx(bytes: &[u8]) -> (r: Result<Tx, bitcoin::consensus::encode::Error>)
    ensures
        r is Ok <==> tx_decoding(bytes@) is Some,
        r is Ok ==> Some(r->Ok_0@) == tx_decoding(bytes@),
        r is Ok ==> r->Ok_0@.raw == bytes@ && r->Ok_0@.txid.len() == 32,
{
    let tx: bitcoin::Transaction = bitcoin::consensus::deserialize(bytes)?;
    Ok(Tx {
        txid: bitcoin::hashes::Hash::to_byte_array(tx.compute_txid()).to_vec(),
        raw: bytes.to_vec(),
        inputs: tx.input.iter().map(|i| OutPoint {
            txid: bitcoin::hashes::Hash::to_byte_array(i.previous_output.txid).to_vec(),
            vout: i.previous_output.vout,
        }).collect(),
        outputs: tx.output.iter().map(|o| TxOut { value: o.value.to_sat(), script: o.script_pubkey.to_bytes() }).collect(),
        coinbase: tx.is_coinbase(),
    })
}

/// What a serialized block decodes to, if it decodes.
pub uninterp spec fn block_decoding(bytes: Seq<u8>) -> Option<RawBlockView>;

/// `bitcoin::consensus::deserialize::<Block>`: the block that the bytes
/// encode, with nothing left over, or the decoder's error. Of a decoded
/// block: its hash, the parent hash in its header, and each transaction
/// serialized again by `bitcoin::consensus::serialize`. The decoder reads
/// back what the encoder writes of a transaction that it has decoded: each
/// of those serialized transactions decodes.
#[verifier::external_body]
pub(crate) fn decode_block(bytes: &[u8]) -> (r: Result<RawBlock, bitcoin::consensus::encode::Error>)
    ensures
        r is Ok <==> block_decoding(bytes@) is Some,
        r is Ok ==> Some(r->Ok_0@) == block_decoding(bytes@),
        r matches Ok(b) ==> forall|i: int| 0 <= i < b@.txs.len() ==> tx_decoding(#[trigger] b@.txs[i]) is Some,
{
    let block: bitcoin::Block = bitcoin::consensus::deserialize(bytes)?;
    Ok(RawBlock {
        hash: bitcoin::hashes::Hash::to_byte_array(block.block_hash()),
        prev_hash: bitcoin::hashes::Hash::to_byte_array(block.header.prev_blockhash),
        txs: block.txdata.iter().map(bitcoin::consensus::serialize).collect(),
    })
}

/// The four bytes of a `u32`, lowest first.
pub open spec fn le_bytes(x: u32) -> Seq<u8> {
    seq![
        (x % 256) as u8,
        ((x / 256) % 256) as u8,
        ((x / 65536) % 256) as u8,
        ((x / 16777216) % 256) as u8,
    ]
}

/// The number that stands for a network in a header.
pub open spec fn network_code(network: Network) -> u32 {
    match network {
        Network::Mainnet => 0,
        Network::Testnet => 1,
        Network::Testnet4 => 2,
        Network::Signet => 3,
        Network::Regtest => 4,
    }
}

/// The fixed-width encoding of a header's three fields, one after the other.
pub open spec fn header_body(version: Seq<u8>, entropy: Seq<u8>, network: Network) -> Seq<u8> {
    version + entropy + le_bytes(network_code(network))
}

/// `bincode::options().with_fixint_encoding().serialize`: the bytes of the
/// tag, then those of the entropy, then the network's number in four bytes,
/// lowest first. Writing to memory does not fail.
#[verifier::external_body]
pub(crate) fn bincode_serialize(version: &[u8; 21], entropy: &[u8; 16], network: Network) -> (r: Vec<u8>)
    ensures
        r@ == header_body(version@, entropy@, network),
{
    let net = match network {
        Network::Mainnet => bitcoin::Network::Bitcoin,
        Network::Testnet => bitcoin::Network::Testnet,
        Network::Testnet4 => bitcoin::Network::Testnet4,
        Network::Signet => bitcoin::Network::Signet,
        Network::Regtest => bitcoin::Network::Regtest,
    };
    bincode::options().with_fixint_encoding().serialize(&(version, entropy, net)).unwrap()
}

/// Whether the bytes are the fixed-width encoding of some header fields.
pub open spec fn is_header_body(bytes: Seq<u8>) -> bool {
    exists|version: Seq<u8>, entropy: Seq<u8>, network: Network|
        version.len() == MAGIC_LEN && entropy.len() == ENTROPY_LEN && bytes == #[trigger] header_body(
            version,
            entropy,
            network,
        )
}

/// `bincode::options().with_fixint_encoding().deserialize`: succeeds exactly
/// on the encodings of a 21-byte tag, a 16-byte entropy and a network, and
/// gives those three back.
#[verifier::external_body]
pub(crate) fn bincode_deserialize(bytes: &[u8]) -> (r: Result<([u8; 21], [u8; 16], Network), Box<bincode::ErrorKind>>)
    ensures
        r is Ok <==> is_header_body(bytes@),
        r is Ok ==> bytes@ == header_body(r->Ok_0.0@, r->Ok_0.1@, r->Ok_0.2),
{
    let (version, entropy, net): ([u8; 21], [u8; 16], bitcoin::Network) =
        bincode::options().with_fixint_encoding().deserialize(bytes)?;
    Ok((version, entropy, match net {
        bitcoin::Network::Bitcoin => Network::Mainnet,
        bitcoin::Network::Testnet => Network::Testnet,
        bitcoin::Network::Testnet4 => Network::Testnet4,
        bitcoin::Network::Signet => Network::Signet,
        bitcoin::Network::Regtest => Network::Regtest,
    }))
}

/// The outputs that the inputs of a plan spend, as references.
pub open spec fn spent_points(inputs: Seq<UtxoInfo>) -> Seq<OutPointView> {
    inputs.map_values(|u: UtxoInfo| OutPointView { txid: u.txid@, vout: u.vout })
}

/// The outputs that the inputs of a plan spend, as amounts and scripts.
pub open spec fn spent_outputs(inputs: Seq<UtxoInfo>) -> Seq<TxOutView> {
    inputs.map_values(|u: UtxoInfo| TxOutView { value: u.amount, script: u.script_pubkey@ })
}

/// The outputs of a plan, as amounts and scripts.
pub open spec fn output_views(outputs: Seq<TxOut>) -> Seq<TxOutView> {
    outputs.map_values(|o: TxOut| o@)
}

/// Whether every reference names its transaction by an id of 32 bytes.
pub open spec fn ids_of_32(points: Seq<OutPointView>) -> bool {
    forall|i: int| 0 <= i < points.len() ==> (#[trigger] points[i]).txid.len() == 32
}

/// The serialized transaction without signatures that spends `inputs` into `outputs`.
pub uninterp spec fn unsigned_tx_of(version: i32, lock_time: u32, sequence: u32, inputs: Seq<OutPointView>, outputs: Seq<TxOutView>) -> Option<Seq<u8>>;

/// `bitcoin::consensus::serialize` of a `bitcoin::Transaction` put together
/// from the arguments, each input with an empty script and witness. The
/// bytes depend on the arguments alone. An id is read by `Hash::from_slice`,
/// which takes exactly the ids of 32 bytes: with another id there is no
/// transaction.
#[verifier::external_body]
pub(crate) fn unsigned_tx(version: i32, lock_time: u32, sequence: u32, inputs: &Vec<UtxoInfo>, outputs: &Vec<TxOut>) -> (r: Option<Vec<u8>>)
    ensures
        r is Some <==> unsigned_tx_of(version, lock_time, sequence, spent_points(inputs@), output_views(outputs@)) is Some,
        r matches Some(b) ==> Some(b@) == unsigned_tx_of(version, lock_time, sequence, spent_points(inputs@), output_views(outputs@)),
        !ids_of_32(spent_points(inputs@)) ==> r is None,
{
    let mut input = Vec::new();
    for u in inputs {
        let previous_output = bitcoin::OutPoint::new(bitcoin::hashes::Hash::from_slice(&u.txid).ok()?, u.vout);
        input.push(bitcoin::TxIn { previous_output, sequence: bitcoin::Sequence(sequence), ..Default::default() });
    }
    let output = outputs.iter().map(|o| bitcoin::TxOut {
        value: bitcoin::Amount::from_sat(o.value),
        script_pubkey: bitcoin::ScriptBuf::from_bytes(o.script.clone()),
    }).collect();
    let version = bitcoin::transaction::Version(version);
    let lock_time = bitcoin::absolute::LockTime::from_consensus(lock_time);
    Some(bitcoin::consensus::serialize(&bitcoin::Transaction { version, lock_time, input, output }))
}

/// The serialized partially signed transaction of an unsigned transaction,
/// each input carrying the output of `spent` at its place.
pub uninterp spec fn psbt_of(tx: Seq<u8>, spent: Seq<TxOutView>) -> Option<Seq<u8>>;

/// `Psbt::from_unsigned_tx` and `Psbt::serialize`: the partially signed
/// transaction of the decoded bytes, whose inputs are given as one input for
/// each output spent, with that output in its field `witness_utxo`. The
/// bytes depend on the arguments alone.
#[verifier::external_body]
pub(crate) fn psbt_with_spent(tx: &[u8], inputs: &Vec<UtxoInfo>) -> (r: Option<Vec<u8>>)
    ensures
        r is Some <==> psbt_of(tx@, spent_outputs(inputs@)) is Some,
        r matches Some(b) ==> Some(b@) == psbt_of(tx@, spent_outputs(inputs@)),
{
    let tx: bitcoin::Transaction = bitcoin::consensus::deserialize(tx).ok()?;
    let mut psbt = bitcoin::psbt::Psbt::from_unsigned_tx(tx).ok()?;
    psbt.inputs = inputs.iter().map(|u| bitcoin::psbt::Input {
        witness_utxo: Some(bitcoin::TxOut {
            value: bitcoin::Amount::from_sat(u.amount),
            script_pubkey: bitcoin::ScriptBuf::from_bytes(u.script_pubkey.clone()),
        }),
        ..Default::default()
    }).collect();
    Some(psbt.serialize())
}

/// Whether the bytes are a partially signed transaction as `psbt_with_spent`
/// makes them: each input carries the output it spends.
pub open spec fn is_made_psbt(psbt: Seq<u8>) -> bool {
    exists|tx: Seq<u8>, spent: Seq<TxOutView>| #[trigger] psbt_of(tx, spent) == Some(psbt)
}

/// The serialized transaction after signing, if the signer finalized it.
pub uninterp spec fn signed_psbt_of(psbt: Seq<u8>, external: Seq<char>, internal: Seq<char>, network: Network, lookahead: u32, trust_witness_utxo: bool) -> Option<Seq<u8>>;

/// `bdk_wallet::Wallet::sign`, on a wallet made from the two descriptors
/// whose index reaches `lookahead` scripts: signs every input it has the key
/// for and tries to finalize. Gives whether the transaction is finalized and
/// its bytes after signing, or the signer's error; `None` where the bytes
/// are no partially signed transaction or no such wallet can be made. The
/// signer draws no randomness: what it gives depends on the arguments alone.
/// The signer looks up the output that each input spends; the bytes must be
/// such as `psbt_with_spent` makes them, where each input carries it.
#[verifier::external_body]
pub(crate) fn sign_psbt(psbt: &[u8], external: &str, internal: &str, network: Network, lookahead: u32, trust_witness_utxo: bool) -> (r: Option<Result<(bool, Vec<u8>), bdk_wallet::signer::SignerError>>)
    requires
        is_made_psbt(psbt@),
    ensures
        (r matches Some(Ok(p)) && p.0) <==> signed_psbt_of(psbt@, external@, internal@, network, lookahead, trust_witness_utxo) is Some,
        (r matches Some(Ok(p)) && p.0) ==> Some(r->Some_0->Ok_0.1@) == signed_psbt_of(psbt@, external@, internal@, network, lookahead, trust_witness_utxo),
{
    let net = match network {
        Network::Mainnet => bitcoin::Network::Bitcoin,
        Network::Testnet => bitcoin::Network::Testnet,
        Network::Testnet4 => bitcoin::Network::Testnet4,
        Network::Signet => bitcoin::Network::Signet,
        Network::Regtest => bitcoin::Network::Regtest,
    };
    let mut psbt = bitcoin::psbt::Psbt::deserialize(psbt).ok()?;
    let signer = bdk_wallet::Wallet::create(external.to_string(), internal.to_string()).network(net).lookahead(lookahead).create_wallet_no_persist().ok()?;
    let options = bdk_wallet::SignOptions { trust_witness_utxo, ..Default::default() };
    Some(signer.sign(&mut psbt, options).map(|finalized| (finalized, psbt.serialize())))
}

/// Whether the bytes are a transaction as `sign_psbt` finalized it, from
/// bytes such as `psbt_with_spent` makes them.
pub open spec fn is_signed_psbt(signed: Seq<u8>) -> bool {
    exists|psbt: Seq<u8>, external: Seq<char>, internal: Seq<char>, network: Network, lookahead: u32, trust: bool|
        is_made_psbt(psbt) && #[trigger] signed_psbt_of(psbt, external, internal, network, lookahead, trust)
            == Some(signed)
}

/// The serialized transaction that a finalized partially signed transaction holds.
pub uninterp spec fn extracted_tx_of(psbt: Seq<u8>) -> Option<Seq<u8>>;

/// `Psbt::extract_tx` and `bitcoin::consensus::serialize`: the bytes of the
/// finalized transaction, or `None` where it cannot be extracted. The bytes
/// depend on the argument alone. Extraction computes the fee from the output
/// that each input spends; the bytes must be such as `sign_psbt` finalized
/// them, where each input still carries it.
#[verifier::external_body]
pub(crate) fn extract_raw(psbt: &[u8]) -> (r: Option<Vec<u8>>)
    requires
        is_signed_psbt(psbt@),
    ensures
        r is Some <==> extracted_tx_of(psbt@) is Some,
        r matches Some(b) ==> Some(b@) == extracted_tx_of(psbt@),
{
    let psbt = bitcoin::psbt::Psbt::deserialize(psbt).ok()?;
    psbt.extract_tx().ok().map(|tx| bitcoin::consensus::serialize(&tx))
}

} // verus!

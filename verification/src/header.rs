//! The wallet header: the first record of a wallet's store.
//!
//! A record is the length of its body, in four bytes with the lowest first,
//! and then the body: the version tag, the entropy, and the network's number
//! in four bytes.

use vstd::prelude::*;
use vstd::slice::slice_subrange;
use crate::backend::{bincode_deserialize, bincode_serialize, check_seed, descriptor_string, descriptor_text, header_body, is_header_body, le_bytes, mnemonic, mnemonic_of, network_code, random_entropy, seed_usable, ENTROPY_LEN, MAGIC_LEN};
use crate::errors::{LoadError, ReadHeaderError};
use crate::types::{words_view, KeychainKind, Network};

verus! {

/// The version tag, `utreexod.bdk.345e94cf` in ASCII.
pub open spec fn magic() -> Seq<u8> {
    seq![
        117u8, 116u8, 114u8, 101u8, 101u8, 120u8, 111u8, 100u8, 46u8, 98u8, 100u8, 107u8, 46u8, 51u8,
        52u8, 53u8, 101u8, 57u8, 52u8, 99u8, 102u8,
    ]
}

/// The version tag.
pub fn db_magic() -> (r: [u8; 21])
    ensures
        r@ == magic(),
{
    let tag: [u8; 21] = [
        117, 116, 114, 101, 101, 120, 111, 100, 46, 98, 100, 107, 46, 51, 52, 53, 101, 57, 52, 99, 102,
    ];
    tag
}

/// The number that four bytes spell, lowest byte first.
pub open spec fn le_value(s: Seq<u8>) -> int {
    s[0] + 256 * s[1] + 65536 * s[2] + 16777216 * s[3]
}

/// The network that a number stands for in a header.
pub open spec fn network_of_code(code: u8) -> Network {
    if code == 0 {
        Network::Mainnet
    } else if code == 1 {
        Network::Testnet
    } else if code == 2 {
        Network::Testnet4
    } else if code == 3 {
        Network::Signet
    } else {
        Network::Regtest
    }
}

/// Whether a body has the length of a header and names a network.
pub open spec fn well_formed_body(body: Seq<u8>) -> bool {
    &&& body.len() == MAGIC_LEN + ENTROPY_LEN + 4
    &&& body[37] < 5
    &&& body[38] == 0
    &&& body[39] == 0
    &&& body[40] == 0
}

/// What reading a header record gives.
pub enum HeaderOutcome {
    /// The record ends early: it must have `expected` bytes and has `available`.
    Truncated { expected: int, available: int },
    /// The body is no header.
    Malformed,
    /// The body is a header with another version tag.
    WrongVersion,
    /// The body is a header of this version.
    Header { entropy: Seq<u8>, network: Network },
}

/// What the bytes of a header record hold. Bytes behind the record are not looked at.
pub open spec fn read_header(bytes: Seq<u8>) -> HeaderOutcome {
    if bytes.len() < 4 {
        HeaderOutcome::Truncated { expected: 4, available: bytes.len() as int }
    } else if bytes.len() < 4 + le_value(bytes) {
        HeaderOutcome::Truncated { expected: 4 + le_value(bytes), available: bytes.len() as int }
    } else {
        let body = bytes.subrange(4, 4 + le_value(bytes));
        if !well_formed_body(body) {
            HeaderOutcome::Malformed
        } else if body.subrange(0, 21) != magic() {
            HeaderOutcome::WrongVersion
        } else {
            HeaderOutcome::Header { entropy: body.subrange(21, 37), network: network_of_code(body[37]) }
        }
    }
}

/// The record of a header of this version.
pub open spec fn encoding(entropy: Seq<u8>, network: Network) -> Seq<u8> {
    le_bytes(41) + header_body(magic(), entropy, network)
}

/// The bodies that decode are exactly the well-formed ones.
pub proof fn lemma_header_body(body: Seq<u8>)
    ensures
        is_header_body(body) <==> well_formed_body(body),
{
    if well_formed_body(body) {
        let version = body.subrange(0, 21);
        let entropy = body.subrange(21, 37);
        let network = network_of_code(body[37]);
        assert(body =~= header_body(version, entropy, network));
    }
}

/// Where the fields of a header lie in its body.
pub proof fn lemma_body_parts(version: Seq<u8>, entropy: Seq<u8>, network: Network)
    requires
        version.len() == MAGIC_LEN,
        entropy.len() == ENTROPY_LEN,
    ensures
        ({
            let body = header_body(version, entropy, network);
            &&& well_formed_body(body)
            &&& body.subrange(0, 21) == version
            &&& body.subrange(21, 37) == entropy
            &&& network_of_code(body[37]) == network
            &&& body[37] == network_code(network)
        }),
{
}

/// Round trip: reading the record of a header gives the header back.
pub proof fn lemma_header_round_trip(entropy: Seq<u8>, network: Network)
    requires
        entropy.len() == ENTROPY_LEN,
    ensures
        read_header(encoding(entropy, network)) == (HeaderOutcome::Header { entropy: entropy, network: network }),
{
    let body = header_body(magic(), entropy, network);
    let bytes = encoding(entropy, network);
    lemma_body_parts(magic(), entropy, network);
    assert(bytes.subrange(4, 45) =~= body);
}

/// The parameters a wallet is made from. Created once, and never changed.
#[derive(Clone, Debug)]
pub struct WalletHeader {
    pub version: [u8; 21],
    pub entropy: [u8; 16],
    pub network: Network,
}

impl WalletHeader {
    /// A header for a new wallet on `network`, with fresh random entropy.
    pub fn new(network: Network) -> (r: Self)
        ensures
            r.version@ == magic(),
            r.network == network,
    {
        WalletHeader { version: db_magic(), entropy: random_entropy(), network: network }
    }

    /// Stamps the header with the version tag and gives its record.
    pub fn encode(&mut self) -> (r: Vec<u8>)
        ensures
            final(self).version@ == magic(),
            final(self).entropy == old(self).entropy,
            final(self).network == old(self).network,
            r@ == encoding(old(self).entropy@, old(self).network),
    {
        self.version = db_magic();
        let mut body = bincode_serialize(&self.version, &self.entropy, self.network);
        let len: u32 = body.len() as u32;
        let mut out: Vec<u8> = Vec::new();
        out.push((len % 256) as u8);
        out.push(((len / 256) % 256) as u8);
        out.push(((len / 65536) % 256) as u8);
        out.push(((len / 16777216) % 256) as u8);
        out.append(&mut body);
        out
    }

    /// Reads a header from the front of `bytes`.
    pub fn decode(bytes: &[u8]) -> (r: Result<Self, LoadError>)
        ensures
            match read_header(bytes@) {
                HeaderOutcome::Truncated { expected, available } => r matches Err(LoadError::ReadHeader(e))
                    && e.expected == expected && e.available == available,
                HeaderOutcome::Malformed => r matches Err(LoadError::ParseHeader(_)),
                HeaderOutcome::WrongVersion => r matches Err(LoadError::HeaderVersion),
                HeaderOutcome::Header { entropy, network } => r matches Ok(h) && h.version@ == magic()
                    && h.entropy@ == entropy && h.network == network,
            },
    {
        let have: u64 = bytes.len() as u64;
        if have < 4 {
            return Err(LoadError::ReadHeader(ReadHeaderError { expected: 4, available: have }));
        }
        let len: u64 = bytes[0] as u64 + 256 * (bytes[1] as u64) + 65536 * (bytes[2] as u64) + 16777216 * (
        bytes[3] as u64);
        if have < 4 + len {
            return Err(LoadError::ReadHeader(ReadHeaderError { expected: 4 + len, available: have }));
        }
        let body = slice_subrange(bytes, 4, (4 + len) as usize);
        proof {
            lemma_header_body(body@);
        }
        match bincode_deserialize(body) {
            Err(e) => Err(LoadError::ParseHeader(e)),
            Ok((version, entropy, network)) => {
                proof {
                    lemma_body_parts(version@, entropy@, network);
                }
                if is_magic(&version) {
                    Ok(WalletHeader { version: version, entropy: entropy, network: network })
                } else {
                    Err(LoadError::HeaderVersion)
                }
            },
        }
    }

    /// Whether the entropy gives keys, so that the descriptors exist.
    pub open spec fn usable(&self) -> bool {
        seed_usable(self.network, self.entropy@)
    }

    /// Whether the entropy gives keys.
    pub fn is_usable(&self) -> (r: bool)
        ensures
            r == self.usable(),
    {
        check_seed(self.network, &self.entropy)
    }

    /// The descriptor of a keychain, private key included. It is not the
    /// descriptor of the other keychain.
    pub fn descriptor(&self, keychain: KeychainKind) -> (r: String)
        requires
            self.usable(),
        ensures
            r@ == descriptor_text(self.network, self.entropy@, keychain),
            r@ != descriptor_text(self.network, self.entropy@, keychain.other()),
    {
        descriptor_string(self.network, &self.entropy, keychain)
    }

    /// The descriptor of a keychain, or `None` where the entropy gives no keys.
    pub fn try_descriptor(&self, keychain: KeychainKind) -> (r: Option<String>)
        ensures
            r is Some <==> self.usable(),
            r matches Some(d) ==> d@ == descriptor_text(self.network, self.entropy@, keychain) && d@
                != descriptor_text(self.network, self.entropy@, keychain.other()),
    {
        if self.is_usable() {
            Some(self.descriptor(keychain))
        } else {
            None
        }
    }

    /// The recovery phrase of the wallet: twelve words that stand for its entropy.
    pub fn mnemonic_words(&self) -> (r: Vec<String>)
        ensures
            words_view(r@) == mnemonic_of(self.entropy@),
            r@.len() == 12,
    {
        mnemonic(&self.entropy)
    }
}

/// Whether a tag is the version tag.
pub fn is_magic(tag: &[u8; 21]) -> (r: bool)
    ensures
        r == (tag@ == magic()),
{
    let expected = db_magic();
    let mut i: usize = 0;
    while i < 21
        invariant
            i <= 21,
            expected@ == magic(),
            forall|j: int| 0 <= j < i ==> tag@[j] == expected@[j],
        decreases 21 - i,
    {
        if tag[i] != expected[i] {
            return false;
        }
        i = i + 1;
    }
    assert(tag@ =~= expected@);
    true
}

/// Determinism of the descriptors: two headers with the same entropy and
/// network have the same descriptor for each keychain, whatever their
/// version tags.
pub proof fn lemma_descriptor_of_seed(a: WalletHeader, b: WalletHeader, keychain: KeychainKind)
    requires
        a.entropy@ == b.entropy@,
        a.network == b.network,
    ensures
        descriptor_text(a.network, a.entropy@, keychain) == descriptor_text(b.network, b.entropy@, keychain),
{
}

} // verus!

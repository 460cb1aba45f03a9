//! BIP32 extended private keys, secp256k1 public keys and native segwit
//! (BIP84, pay-to-witness-public-key-hash) addresses.

use vstd::prelude::*;
use bitcoin::bip32::{ChildNumber, Xpriv};
use bitcoin::secp256k1::{PublicKey, Secp256k1};

verus! {

/// The networks that a Bitcoin address or key is made for.
#[derive(Clone, Copy, PartialEq, Eq, Debug, Structural)]
pub enum Network {
    Bitcoin,
    Testnet,
    Testnet4,
    Signet,
    Regtest,
}

/// Mainnet or one of the test networks, as an extended key records it.
#[derive(Clone, Copy, PartialEq, Eq, Debug, Structural)]
pub enum NetworkKind {
    Main,
    Test,
}

/// Mainnet keys for `Bitcoin`, test keys for every other network.
pub open spec fn network_kind(network: Network) -> NetworkKind {
    match network {
        Network::Bitcoin => NetworkKind::Main,
        _ => NetworkKind::Test,
    }
}

/// A BIP32 extended private key, kept in its 78-byte BIP32 serialization:
/// 4 version bytes (mainnet or test), the depth, the parent fingerprint (4
/// bytes), the child number (4 bytes, big-endian, bit 31 for hardened), the
/// chain code (32 bytes), a zero byte and the secret key (32 bytes).
#[derive(Clone, Copy, Debug)]
pub struct ExtendedPrivKey {
    pub encoded: [u8; 78],
}

/// An extended private key as mathematical values.
pub struct ExtendedKeyModel {
    pub network: NetworkKind,
    pub depth: nat,
    pub parent_fingerprint: Seq<u8>,
    pub child_number: nat,
    pub private_key: Seq<u8>,
    pub chain_code: Seq<u8>,
}

/// The version bytes of a serialized mainnet extended private key ("xprv").
pub open spec fn mainnet_private_version() -> Seq<u8> {
    seq![0x04u8, 0x88u8, 0xADu8, 0xE4u8]
}

/// The version bytes of a serialized test-network extended private key ("tprv").
pub open spec fn testnet_private_version() -> Seq<u8> {
    seq![0x04u8, 0x35u8, 0x83u8, 0x94u8]
}

/// The fields of a 78-byte serialization.
pub open spec fn decode_model(bytes: Seq<u8>) -> ExtendedKeyModel {
    ExtendedKeyModel {
        network: if bytes.subrange(0, 4) == mainnet_private_version() {
            NetworkKind::Main
        } else {
            NetworkKind::Test
        },
        depth: bytes[4] as nat,
        parent_fingerprint: bytes.subrange(5, 9),
        child_number: be_value(bytes.subrange(9, 13)),
        chain_code: bytes.subrange(13, 45),
        private_key: bytes.subrange(46, 78),
    }
}

/// A serialization that the crate reads back: known version bytes and a
/// valid secret key.
pub open spec fn decodable(bytes: Seq<u8>) -> bool {
    &&& bytes.len() == 78
    &&& (bytes.subrange(0, 4) == mainnet_private_version() || bytes.subrange(0, 4)
        == testnet_private_version())
    &&& is_valid_secret_key(bytes.subrange(46, 78))
}

/// A serialization as the crate writes it: the version bytes of the key's
/// network and a zero byte before the secret key.
pub open spec fn canonical(bytes: Seq<u8>) -> bool {
    &&& bytes.len() == 78
    &&& bytes.subrange(0, 4) == (if decode_model(bytes).network == NetworkKind::Main {
        mainnet_private_version()
    } else {
        testnet_private_version()
    })
    &&& bytes[45] == 0
}

impl View for ExtendedPrivKey {
    type V = ExtendedKeyModel;

    open spec fn view(&self) -> ExtendedKeyModel {
        decode_model(self.encoded@)
    }
}

impl ExtendedPrivKey {
    /// Number of derivation steps from the master key.
    pub fn depth(&self) -> (depth: u8)
        ensures
            depth == self@.depth,
    {
        self.encoded[4]
    }

    /// The index of the last derivation step; hardened indexes have bit 31 set.
    pub fn child_number(&self) -> (index: u32)
        ensures
            index == self@.child_number,
    {
        let b = &self.encoded;
        proof {
            let s = b@.subrange(9, 13);
            reveal_with_fuel(be_value, 5);
            assert(s.drop_last().drop_last().drop_last().drop_last() =~= Seq::<u8>::empty());
            assert(s.drop_last().drop_last().drop_last() =~= seq![b@[9]]);
            assert(s.drop_last().drop_last() =~= seq![b@[9], b@[10]]);
            assert(s.drop_last() =~= seq![b@[9], b@[10], b@[11]]);
        }
        (b[9] as u32) * 0x100_0000 + (b[10] as u32) * 0x1_0000 + (b[11] as u32) * 0x100 + b[12] as u32
    }

    /// Mainnet or test networks, by the version bytes.
    pub fn network(&self) -> (kind: NetworkKind)
        ensures
            kind == self@.network,
    {
        let b = &self.encoded;
        let ghost version = b@.subrange(0, 4);
        if b[0] == 0x04 && b[1] == 0x88 && b[2] == 0xAD && b[3] == 0xE4 {
            assert(version =~= mainnet_private_version());
            NetworkKind::Main
        } else {
            assert(version != mainnet_private_version()) by {
                if version == mainnet_private_version() {
                    assert(version[0] == b@[0] && version[1] == b@[1] && version[2] == b@[2] && version[3] == b@[3]);
                }
            }
            NetworkKind::Test
        }
    }

    /// The first four bytes of the parent key's identifier (zeros for a master key).
    pub fn parent_fingerprint(&self) -> (fingerprint: [u8; 4])
        ensures
            fingerprint@ == self@.parent_fingerprint,
    {
        let b = &self.encoded;
        let fingerprint = [b[5], b[6], b[7], b[8]];
        assert(fingerprint@ =~= b@.subrange(5, 9));
        fingerprint
    }

    /// The 32-byte chain code.
    pub fn chain_code(&self) -> (chain_code: Vec<u8>)
        ensures
            chain_code@ == self@.chain_code,
    {
        copy_range(self.encoded.as_slice(), 13, 45)
    }

    /// The 32-byte secp256k1 secret key, big-endian.
    pub fn private_key(&self) -> (private_key: Vec<u8>)
        ensures
            private_key@ == self@.private_key,
    {
        copy_range(self.encoded.as_slice(), 46, 78)
    }
}

/// The bytes from `start` up to `end`, copied.
fn copy_range(bytes: &[u8], start: usize, end: usize) -> (out: Vec<u8>)
    requires
        start <= end <= bytes@.len(),
    ensures
        out@ == bytes@.subrange(start as int, end as int),
{
    let mut out: Vec<u8> = Vec::new();
    let mut i = start;
    while i < end
        invariant
            start <= i <= end <= bytes@.len(),
            out@ == bytes@.subrange(start as int, i as int),
        decreases end - i,
    {
        out.push(bytes[i]);
        i = i + 1;
        assert(out@ =~= bytes@.subrange(start as int, i as int));
    }
    out
}

/// Appends `bytes` to `out`.
fn append_bytes(out: &mut Vec<u8>, bytes: &[u8])
    ensures
        final(out)@ == old(out)@ + bytes@,
{
    let mut i: usize = 0;
    while i < bytes.len()
        invariant
            i <= bytes@.len(),
            out@ == old(out)@ + bytes@.subrange(0, i as int),
        decreases bytes@.len() - i,
    {
        out.push(bytes[i]);
        i = i + 1;
        assert(out@ =~= old(out)@ + bytes@.subrange(0, i as int));
    }
    assert(bytes@.subrange(0, bytes@.len() as int) =~= bytes@);
}

/// Big-endian value of a byte string.
pub open spec fn be_value(bytes: Seq<u8>) -> nat
    decreases bytes.len(),
{
    if bytes.len() == 0 {
        0
    } else {
        be_value(bytes.drop_last()) * 256 + bytes.last() as nat
    }
}

/// The order of the secp256k1 group.
pub open spec fn secp256k1_order() -> nat {
    0xFFFF_FFFF_FFFF_FFFF_FFFF_FFFF_FFFF_FFFE_BAAE_DCE6_AF48_A03B_BFD2_5E8C_D036_4141nat
}

/// A secp256k1 secret key: 32 bytes whose big-endian value is neither zero
/// nor at least the group order.
pub open spec fn is_valid_secret_key(bytes: Seq<u8>) -> bool {
    bytes.len() == 32 && 0 < be_value(bytes) < secp256k1_order()
}

/// BIP32 master key material from a seed: the secret key and chain code
/// (left and right halves of HMAC-SHA512 keyed with "Bitcoin seed"), or
/// `None` when the left half is not a valid secret key.
pub uninterp spec fn bip32_master(seed: Seq<u8>) -> Option<(Seq<u8>, Seq<u8>)>;

/// One BIP32 private child derivation step: the child's secret key and
/// chain code from the parent's and the child index.
pub uninterp spec fn bip32_child(private_key: Seq<u8>, chain_code: Seq<u8>, index: u32) -> (Seq<u8>, Seq<u8>);

/// HMAC-SHA512 of `data` under `key` (64 bytes).
pub uninterp spec fn hmac_sha512(key: Seq<u8>, data: Seq<u8>) -> Seq<u8>;

/// The four big-endian bytes of a child index.
pub open spec fn index_bytes(index: u32) -> Seq<u8> {
    seq![
        (index / 0x100_0000) as u8,
        (index / 0x1_0000 % 0x100) as u8,
        (index / 0x100 % 0x100) as u8,
        (index % 0x100) as u8,
    ]
}

/// What a private child step authenticates under the chain code: a zero
/// byte and the secret key for a hardened index (bit 31 set), the compressed
/// public key for a normal one; then the index.
pub open spec fn child_step_message(private_key: Seq<u8>, index: u32) -> Seq<u8> {
    if index >= 0x8000_0000 {
        seq![0u8] + private_key + index_bytes(index)
    } else {
        secp256k1_public_key(private_key) + index_bytes(index)
    }
}

/// Whether a private child step is defined: the left half of the step's
/// HMAC-SHA512 is a valid secret key, and adding the parent's secret key to
/// it does not give zero modulo the group order.
pub open spec fn bip32_step_defined(private_key: Seq<u8>, chain_code: Seq<u8>, index: u32) -> bool {
    let tweak = hmac_sha512(chain_code, child_step_message(private_key, index)).subrange(0, 32);
    is_valid_secret_key(tweak) && (be_value(tweak) + be_value(private_key)) % secp256k1_order() != 0
}

/// HASH160 of `data`: RIPEMD-160 of SHA-256 (20 bytes).
pub uninterp spec fn hash160(data: Seq<u8>) -> Seq<u8>;

/// The BIP32 fingerprint of the key with this secret: the first four bytes of
/// HASH160 of its compressed public key.
pub open spec fn bip32_fingerprint(private_key: Seq<u8>) -> Seq<u8> {
    hash160(secp256k1_public_key(private_key)).subrange(0, 4)
}

/// The 33-byte compressed secp256k1 public key of a secret key.
pub uninterp spec fn secp256k1_public_key(private_key: Seq<u8>) -> Seq<u8>;

/// The value of a string of decimal digits.
pub open spec fn decimal_value(digits: Seq<char>) -> nat
    decreases digits.len(),
{
    if digits.len() == 0 {
        0
    } else {
        decimal_value(digits.drop_last()) * 10 + (digits.last() as nat - '0' as nat) as nat
    }
}

/// `u32::from_str`: an optional `+`, then one or more ASCII digits, with a
/// value that fits in 32 bits.
pub open spec fn parse_u32_spec(text: Seq<char>) -> Option<u32> {
    let digits = if text.len() > 0 && text[0] == '+' {
        text.drop_first()
    } else {
        text
    };
    if digits.len() == 0 || exists|i: int| 0 <= i < digits.len() && !('0' <= #[trigger] digits[i] <= '9') {
        None
    } else if decimal_value(digits) > u32::MAX {
        None
    } else {
        Some(decimal_value(digits) as u32)
    }
}

/// One step of a BIP32 path: a decimal index below 2^31, hardened (bit 31
/// set) when followed by `'` or `h`.
pub open spec fn parse_child_number(text: Seq<char>) -> Option<u32> {
    let hardened = text.len() > 0 && (text.last() == '\'' || text.last() == 'h');
    let index = if hardened {
        parse_u32_spec(text.drop_last())
    } else {
        parse_u32_spec(text)
    };
    match index {
        Some(i) => if i < 0x8000_0000 {
            Some(if hardened { (i + 0x8000_0000) as u32 } else { i })
        } else {
            None
        },
        None => None,
    }
}

/// The pieces of a text between the `/` separators (as `str::split('/')`).
pub open spec fn split_slash(text: Seq<char>) -> Seq<Seq<char>>
    decreases text.len(),
{
    if text.len() == 0 {
        seq![Seq::empty()]
    } else {
        let rest = split_slash(text.drop_first());
        if text[0] == '/' {
            seq![Seq::<char>::empty()] + rest
        } else {
            rest.update(0, seq![text[0]] + rest[0])
        }
    }
}

/// A text without `/` is a single piece.
pub proof fn lemma_split_slash_single(text: Seq<char>)
    requires
        !text.contains('/'),
    ensures
        split_slash(text) == seq![text],
    decreases text.len(),
{
    if text.len() > 0 {
        assert(!text.drop_first().contains('/')) by {
            if text.drop_first().contains('/') {
                let i = choose|i: int| 0 <= i < text.drop_first().len() && text.drop_first()[i] == '/';
                assert(text[i + 1] == '/');
            }
        }
        lemma_split_slash_single(text.drop_first());
        assert(text[0] != '/') by {
            if text[0] == '/' {
                assert(text.contains('/'));
            }
        }
        assert(seq![text[0]] + text.drop_first() =~= text);
        assert(split_slash(text) =~= seq![text]);
    } else {
        assert(text =~= Seq::<char>::empty());
    }
}

/// A first piece without `/`, then a `/`: the first piece comes off the front.
pub proof fn lemma_split_slash_front(first: Seq<char>, rest: Seq<char>)
    requires
        !first.contains('/'),
    ensures
        split_slash(first + seq!['/'] + rest) == seq![first] + split_slash(rest),
    decreases first.len(),
{
    let text = first + seq!['/'] + rest;
    if first.len() == 0 {
        assert(text[0] == '/');
        assert(text.drop_first() =~= rest);
        assert(first =~= Seq::<char>::empty());
    } else {
        assert(!first.drop_first().contains('/')) by {
            if first.drop_first().contains('/') {
                let i = choose|i: int| 0 <= i < first.drop_first().len() && first.drop_first()[i] == '/';
                assert(first[i + 1] == '/');
            }
        }
        lemma_split_slash_front(first.drop_first(), rest);
        assert(text.drop_first() =~= first.drop_first() + seq!['/'] + rest);
        assert(first[0] != '/') by {
            if first[0] == '/' {
                assert(first.contains('/'));
            }
        }
        assert(text[0] == first[0]);
        assert(seq![first[0]] + first.drop_first() =~= first);
        assert(split_slash(text) =~= seq![first] + split_slash(rest));
    }
}

/// Every piece parsed as a child number, or `None` if one fails.
pub open spec fn parse_child_numbers(parts: Seq<Seq<char>>) -> Option<Seq<u32>>
    decreases parts.len(),
{
    if parts.len() == 0 {
        Some(Seq::empty())
    } else {
        match (parse_child_numbers(parts.drop_last()), parse_child_number(parts.last())) {
            (Some(front), Some(n)) => Some(front.push(n)),
            _ => None,
        }
    }
}

/// What `DerivationPath::from_str` reads from a path such as
/// "m/84'/0'/0'/0/0": the empty path for "", "m" and "m/"; otherwise the
/// child numbers of the `/`-separated steps after an optional "m/".
pub open spec fn bip32_parse_path(path: Seq<char>) -> Option<Seq<u32>> {
    if path.len() == 0 || path == seq!['m'] || path == seq!['m', '/'] {
        Some(Seq::empty())
    } else {
        let body = if path.len() >= 2 && path[0] == 'm' && path[1] == '/' {
            path.skip(2)
        } else {
            path
        };
        parse_child_numbers(split_slash(body))
    }
}

/// The start of a native segwit version 0 address on a network: the
/// human-readable part ("bc" on mainnet, "tb" on the test networks, "bcrt"
/// on regtest), the separator '1' and 'q' for witness version 0.
pub open spec fn segwit_v0_prefix(network: Network) -> Seq<char> {
    match network {
        Network::Bitcoin => seq!['b', 'c', '1', 'q'],
        Network::Regtest => seq!['b', 'c', 'r', 't', '1', 'q'],
        _ => seq!['t', 'b', '1', 'q'],
    }
}

/// The output script of a P2WPKH output: OP_0, a push of 20 bytes, and the
/// HASH160 of the compressed public key.
pub open spec fn p2wpkh_script(public_key: Seq<u8>) -> Seq<u8> {
    seq![0x00u8, 0x14u8] + hash160(public_key)
}

/// The native segwit (P2WPKH) address of a compressed public key on a
/// network: its text and its output script; `None` when the bytes are not
/// a public key.
pub uninterp spec fn p2wpkh_address(public_key: Seq<u8>, network: Network) -> Option<(Seq<char>, Seq<u8>)>;

/// The output script that pays to the address written as `text`, when the
/// text is an address and is valid on `network`; otherwise `None`.
pub uninterp spec fn address_script(text: Seq<char>, network: Network) -> Option<Seq<u8>>;

/// The master key of a seed, as BIP32 defines it.
pub open spec fn master_key_spec(seed: Seq<u8>, network: Network) -> Option<ExtendedKeyModel> {
    match bip32_master(seed) {
        Some((private_key, chain_code)) => Some(
            ExtendedKeyModel {
                network: network_kind(network),
                depth: 0,
                parent_fingerprint: seq![0u8, 0u8, 0u8, 0u8],
                child_number: 0,
                private_key,
                chain_code,
            },
        ),
        None => None,
    }
}

/// Derivation along a path, one child step after another; `None` when the
/// depth would pass 255 or a step is not defined.
pub open spec fn derive_path_spec(key: ExtendedKeyModel, path: Seq<u32>) -> Option<ExtendedKeyModel>
    decreases path.len(),
{
    if path.len() == 0 {
        Some(key)
    } else {
        match derive_path_spec(key, path.drop_last()) {
            None => None,
            Some(parent) => {
                if parent.depth >= 255 || !bip32_step_defined(
                    parent.private_key,
                    parent.chain_code,
                    path.last(),
                ) {
                    None
                } else {
                    let (private_key, chain_code) = bip32_child(
                        parent.private_key,
                        parent.chain_code,
                        path.last(),
                    );
                    Some(
                        ExtendedKeyModel {
                            network: parent.network,
                            depth: parent.depth + 1,
                            parent_fingerprint: bip32_fingerprint(parent.private_key),
                            child_number: path.last() as nat,
                            private_key,
                            chain_code,
                        },
                    )
                }
            },
        }
    }
}

/// Law: one more step along a path derives the child of the key at the path:
/// it exists exactly when that key exists, is shallower than 255 and the step
/// is defined; and then it is one level deeper, on the same network, numbered
/// by the step's index, records its immediate parent's fingerprint (the first
/// four bytes of HASH160 of the parent's public key), and holds the BIP32
/// child key and chain code of that parent.
pub proof fn lemma_derive_path_push(key: ExtendedKeyModel, path: Seq<u32>, index: u32)
    ensures
        derive_path_spec(key, path.push(index)) is Some <==> (derive_path_spec(key, path) matches Some(parent)
            && parent.depth < 255 && bip32_step_defined(parent.private_key, parent.chain_code, index)),
        derive_path_spec(key, path.push(index)) matches Some(child) ==> {
            let parent = derive_path_spec(key, path)->0;
            &&& child.parent_fingerprint == hash160(secp256k1_public_key(parent.private_key)).subrange(0, 4)
            &&& child.depth == parent.depth + 1
            &&& child.child_number == index as nat
            &&& child.network == parent.network
            &&& (child.private_key, child.chain_code) == bip32_child(parent.private_key, parent.chain_code, index)
        },
        derive_path_spec(key, Seq::<u32>::empty()) == Some(key),
{
    assert(path.push(index).drop_last() =~= path);
    assert(path.push(index).last() == index);
}

#[verifier::external_type_specification]
#[verifier::external_body]
pub struct ExBip32Error(bitcoin::bip32::Error);



#[verifier::external_type_specification]
#[verifier::external_body]
pub struct ExSecpError(bitcoin::secp256k1::Error);

#[verifier::external_type_specification]
#[verifier::external_body]
pub struct ExAddressParseError(bitcoin::address::ParseError);

/// `Xpriv::new_master` with the network, written with `Xpriv::encode`. The
/// claims: an error exactly when the named master material is `None` (the
/// secret key check); otherwise depth 0, zero parent fingerprint, child
/// number 0 and the named key and chain code, in the crate's serialization.
#[verifier::external_body]
pub(crate) fn xpriv_new_master(network: Network, seed: &[u8]) -> (res: Result<ExtendedPrivKey, bitcoin::bip32::Error>)
    ensures
        res is Ok <==> bip32_master(seed@) is Some,
        res matches Ok(k) ==> Some(k@) == master_key_spec(seed@, network),
        res matches Ok(k) ==> canonical(k.encoded@) && decodable(k.encoded@),
{
    let net = match network {
        Network::Bitcoin => bitcoin::Network::Bitcoin, Network::Testnet => bitcoin::Network::Testnet,
        Network::Testnet4 => bitcoin::Network::Testnet4, Network::Signet => bitcoin::Network::Signet,
        Network::Regtest => bitcoin::Network::Regtest,
    };
    match Xpriv::new_master(net, seed) {
        Ok(x) => Ok(ExtendedPrivKey { encoded: x.encode() }),
        Err(e) => Err(e),
    }
}

/// `Xpriv::derive_priv` with a one-element path (one private child step,
/// `ckd_priv`) on `Xpriv::decode` of the key, written with `Xpriv::encode`.
/// The crate panics ("statistically impossible") when the step is not
/// defined (`bip32_step_defined`), before it looks at the depth, so
/// `requires` leaves those keys out. The claims: an error exactly when the
/// serialization does not decode (version bytes, secret key) or the depth is
/// already 255 (`MaximumDepthExceeded`); otherwise the same network, one more
/// depth, the parent's fingerprint, the index as child number and the named
/// child key and chain code.
#[verifier::external_body]
pub(crate) fn xpriv_child(key: &ExtendedPrivKey, index: u32) -> (res: Result<ExtendedPrivKey, bitcoin::bip32::Error>)
    requires
        decodable(key.encoded@) ==> bip32_step_defined(key@.private_key, key@.chain_code, index),
    ensures
        res is Ok <==> (decodable(key.encoded@) && key@.depth < 255),
        res matches Ok(k) ==> k@.network == key@.network && k@.depth == key@.depth + 1 && k@.child_number == index,
        res matches Ok(k) ==> k@.parent_fingerprint == bip32_fingerprint(key@.private_key),
        res matches Ok(k) ==> (k@.private_key, k@.chain_code) == bip32_child(key@.private_key, key@.chain_code, index),
        res matches Ok(k) ==> canonical(k.encoded@) && decodable(k.encoded@),
{
    match Xpriv::decode(&key.encoded) {
        Ok(x) => match x.derive_priv(&Secp256k1::new(), &ChildNumber::from(index)) {
            Ok(c) => Ok(ExtendedPrivKey { encoded: c.encode() }),
            Err(e) => Err(e),
        },
        Err(e) => Err(e),
    }
}

/// `Xpriv::fingerprint` of `Xpriv::decode` of the key. The claims: an error
/// exactly when the serialization does not decode; otherwise the named
/// fingerprint of the secret key (the crate hashes the public key that the
/// secret key alone determines).
#[verifier::external_body]
pub(crate) fn xpriv_fingerprint(key: &ExtendedPrivKey) -> (res: Result<[u8; 4], bitcoin::bip32::Error>)
    ensures
        res is Ok <==> decodable(key.encoded@),
        res matches Ok(fp) ==> fp@ == bip32_fingerprint(key@.private_key),
{
    match Xpriv::decode(&key.encoded) {
        Ok(x) => Ok(x.fingerprint(&Secp256k1::new()).to_bytes()),
        Err(e) => Err(e),
    }
}

/// `DerivationPath::from_str`, each child number written as its `u32` (bit 31
/// for hardened). The claim: the parse that `bip32_parse_path` states (the
/// crate strips "m/", splits at '/', and reads each step with
/// `ChildNumber::from_str`, whose index is a `u32::from_str` below 2^31), an
/// error exactly when it is `None`.
#[verifier::external_body]
pub(crate) fn parse_derivation_path(path: &str) -> (res: Result<Vec<u32>, bitcoin::bip32::Error>)
    ensures
        res is Ok <==> bip32_parse_path(path@) is Some,
        res matches Ok(p) ==> Some(p@) == bip32_parse_path(path@),
{
    match path.parse::<bitcoin::bip32::DerivationPath>() {
        Ok(p) => Ok(p.into_iter().map(|c| u32::from(*c)).collect()),
        Err(e) => Err(e),
    }
}

/// `secp256k1::PublicKey::from_secret_key` of the secret key of
/// `Xpriv::decode` of the key, serialized compressed (33 bytes). The claims:
/// an error exactly when the serialization does not decode; otherwise the
/// named public key of the secret key, whose first byte is 0x02 or 0x03 (the
/// parity of y in the compressed form).
#[verifier::external_body]
pub(crate) fn xpriv_public_key(key: &ExtendedPrivKey) -> (res: Result<[u8; 33], bitcoin::bip32::Error>)
    ensures
        res is Ok <==> decodable(key.encoded@),
        res matches Ok(pk) ==> pk@ == secp256k1_public_key(key@.private_key),
        res matches Ok(pk) ==> pk@[0] == 0x02 || pk@[0] == 0x03,
{
    match Xpriv::decode(&key.encoded) {
        Ok(x) => Ok(PublicKey::from_secret_key(&Secp256k1::new(), &x.private_key).serialize()),
        Err(e) => Err(e),
    }
}

/// `Address::p2wpkh` for the public key read by `PublicKey::from_slice`,
/// written as text and as its `script_pubkey` bytes. The claims: the named
/// address, an error exactly when it is `None`; the script is OP_0, a 20-byte
/// push and the HASH160 of the key (`WitnessProgram::p2wpkh` hashes the
/// compressed serialization, which is the 33 bytes given); the text is the
/// lowercase bech32 form: the network's prefix, 32 characters for the 20-byte
/// program and 6 for the checksum.
#[verifier::external_body]
pub(crate) fn p2wpkh_from_public_key(public_key: &[u8; 33], network: Network) -> (res: Result<(String, Vec<u8>), bitcoin::secp256k1::Error>)
    ensures
        res is Ok <==> p2wpkh_address(public_key@, network) is Some,
        res matches Ok(a) ==> p2wpkh_address(public_key@, network) == Some((a.0@, a.1@)),
        res matches Ok(a) ==> a.1@ == p2wpkh_script(public_key@) && hash160(public_key@).len() == 20,
        res matches Ok(a) ==> a.0@.len() == segwit_v0_prefix(network).len() + 38
            && a.0@.subrange(0, segwit_v0_prefix(network).len() as int) == segwit_v0_prefix(network),
{
    let net = match network {
        Network::Bitcoin => bitcoin::Network::Bitcoin, Network::Testnet => bitcoin::Network::Testnet,
        Network::Testnet4 => bitcoin::Network::Testnet4, Network::Signet => bitcoin::Network::Signet,
        Network::Regtest => bitcoin::Network::Regtest,
    };
    match PublicKey::from_slice(public_key) {
        Ok(pk) => { let a = bitcoin::Address::p2wpkh(&bitcoin::CompressedPublicKey(pk), net); Ok((a.to_string(), a.script_pubkey().to_bytes())) }
        Err(e) => Err(e),
    }
}

/// `Address::from_str` followed by `require_network`, written as the
/// address's `script_pubkey` bytes. The claim: the named script, an error
/// exactly when it is `None`.
#[verifier::external_body]
pub(crate) fn script_for_address(text: &str, network: Network) -> (res: Result<Vec<u8>, bitcoin::address::ParseError>)
    ensures
        res is Ok <==> address_script(text@, network) is Some,
        res matches Ok(s) ==> address_script(text@, network) == Some(s@),
{
    let net = match network {
        Network::Bitcoin => bitcoin::Network::Bitcoin, Network::Testnet => bitcoin::Network::Testnet,
        Network::Testnet4 => bitcoin::Network::Testnet4, Network::Signet => bitcoin::Network::Signet,
        Network::Regtest => bitcoin::Network::Regtest,
    };
    match text.parse::<bitcoin::Address<bitcoin::address::NetworkUnchecked>>() {
        Ok(a) => match a.require_network(net) { Ok(a) => Ok(a.script_pubkey().to_bytes()), Err(e) => Err(e) },
        Err(e) => Err(e),
    }
}

/// HMAC-SHA512 from `bitcoin::hashes` (`HmacEngine::new`, `input`,
/// `Hmac::from_engine`): the named MAC of `data` under `key`.
#[verifier::external_body]
pub(crate) fn hmac_sha512_mac(key: &[u8], data: &[u8]) -> (mac: [u8; 64])
    ensures
        mac@ == hmac_sha512(key@, data@),
{
    let mut engine = bitcoin::hashes::hmac::HmacEngine::<bitcoin::hashes::sha512::Hash>::new(key);
    bitcoin::hashes::HashEngine::input(&mut engine, data);
    let mac = <bitcoin::hashes::hmac::Hmac<bitcoin::hashes::sha512::Hash> as bitcoin::hashes::Hash>::from_engine(engine);
    bitcoin::hashes::Hash::to_byte_array(mac)
}

/// `secp256k1::SecretKey::from_slice` succeeds: exactly for 32 bytes whose
/// big-endian value is neither zero nor at least the group order
/// (`secp256k1_ec_seckey_verify`).
#[verifier::external_body]
pub(crate) fn secret_key_valid(bytes: &[u8]) -> (valid: bool)
    ensures
        valid == is_valid_secret_key(bytes@),
{
    bitcoin::secp256k1::SecretKey::from_slice(bytes).is_ok()
}

/// `secp256k1::SecretKey::add_tweak` of `key` by `tweak` (as a `Scalar`)
/// succeeds: it adds modulo the group order and fails exactly when the sum is
/// zero (`secp256k1_ec_seckey_tweak_add`). Both are valid secret keys, so
/// their conversions succeed.
#[verifier::external_body]
pub(crate) fn secret_key_add_tweak_succeeds(key: &[u8], tweak: &[u8]) -> (ok: bool)
    requires
        is_valid_secret_key(key@),
        is_valid_secret_key(tweak@),
    ensures
        ok == ((be_value(key@) + be_value(tweak@)) % secp256k1_order() != 0),
{
    match (bitcoin::secp256k1::SecretKey::from_slice(key), bitcoin::secp256k1::SecretKey::from_slice(tweak)) {
        (Ok(k), Ok(t)) => k.add_tweak(&bitcoin::secp256k1::Scalar::from(t)).is_ok(),
        _ => false,
    }
}

/// Whether a serialization decodes: known version bytes and a valid secret
/// key.
pub fn is_decodable(key: &ExtendedPrivKey) -> (d: bool)
    ensures
        d == decodable(key.encoded@),
{
    let b = &key.encoded;
    let ghost version = b@.subrange(0, 4);
    assert(version =~= seq![b@[0], b@[1], b@[2], b@[3]]);
    let main = b[0] == 0x04 && b[1] == 0x88 && b[2] == 0xAD && b[3] == 0xE4;
    let test = b[0] == 0x04 && b[1] == 0x35 && b[2] == 0x83 && b[3] == 0x94;
    assert(main == (version == mainnet_private_version())) by {
        if version == mainnet_private_version() {
            assert(version[0] == 0x04 && version[1] == 0x88 && version[2] == 0xAD && version[3] == 0xE4);
        }
    }
    assert(test == (version == testnet_private_version())) by {
        if version == testnet_private_version() {
            assert(version[0] == 0x04 && version[1] == 0x35 && version[2] == 0x83 && version[3] == 0x94);
        }
    }
    if !(main || test) {
        return false;
    }
    let private_key = key.private_key();
    secret_key_valid(private_key.as_slice())
}

/// Whether the key decodes and its private child step with `index` is
/// defined, so that deriving that child cannot panic.
pub fn child_step_defined(key: &ExtendedPrivKey, index: u32) -> (defined: bool)
    ensures
        defined == (decodable(key.encoded@) && bip32_step_defined(key@.private_key, key@.chain_code, index)),
{
    if !is_decodable(key) {
        return false;
    }
    let private_key = key.private_key();
    let chain_code = key.chain_code();
    let mut message: Vec<u8> = Vec::new();
    if index >= 0x8000_0000 {
        message.push(0u8);
        append_bytes(&mut message, private_key.as_slice());
    } else {
        let public_key = match xpriv_public_key(key) {
            Ok(pk) => pk,
            Err(_) => return false,
        };
        append_bytes(&mut message, public_key.as_slice());
    }
    message.push((index / 0x100_0000) as u8);
    message.push((index / 0x1_0000 % 0x100) as u8);
    message.push((index / 0x100 % 0x100) as u8);
    message.push((index % 0x100) as u8);
    assert(message@ =~= child_step_message(key@.private_key, index));
    let mac = hmac_sha512_mac(chain_code.as_slice(), message.as_slice());
    let tweak = copy_range(mac.as_slice(), 0, 32);
    if !secret_key_valid(tweak.as_slice()) {
        return false;
    }
    secret_key_add_tweak_succeeds(tweak.as_slice(), private_key.as_slice())
}

} // verus!

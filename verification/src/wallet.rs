//! The wallet: from entropy to a mnemonic, a seed, the BIP32 master key, the
//! BIP84 receiving key and its native segwit address; and the encrypted
//! wallet file that keeps the mnemonic.

use vstd::prelude::*;
use crate::cipher::{
    aes256gcm_decrypt, aes256gcm_encrypt, aes256gcm_open, aes256gcm_seal, aes_gcm_max_plaintext,
    pbkdf2_hmac_sha256, pbkdf2_sha256, string_from_utf8,
};
use crate::error::WalletError;
use crate::hexcodec::{
    hex_decode, hex_decode_spec, hex_encode, hex_encode_spec, lemma_hex_encode_shape, lemma_hex_round_trip,
};
use crate::mnemonic::{is_phrase_char, is_phrase_of, bip39_parse, bip39_phrase, bip39_seed, phrase_from_entropy, seed_from_phrase};
use crate::keys::{
    bip32_fingerprint, bip32_parse_path, decodable, derive_path_spec, master_key_spec,
    decimal_value, lemma_split_slash_front, lemma_split_slash_single, parse_child_number,
    parse_child_numbers, parse_u32_spec, split_slash,
    p2wpkh_address, p2wpkh_from_public_key, parse_derivation_path, xpriv_public_key,
    secp256k1_public_key, xpriv_child, xpriv_fingerprint, xpriv_new_master, bip32_master,
    ExtendedKeyModel, ExtendedPrivKey, Network, child_step_defined, p2wpkh_script,
};

verus! {

/// The BIP84 path of the first receiving address: purpose 84' (native
/// segwit), coin 0' (Bitcoin), account 0', external chain 0, index 0.
pub const BIP84_FIRST_RECEIVE_PATH: &'static str = "m/84'/0'/0'/0/0";

/// The child numbers of the BIP84 path m/84'/0'/0'/0/0.
pub open spec fn bip84_first_receive_path() -> Seq<u32> {
    seq![0x8000_0054u32, 0x8000_0000u32, 0x8000_0000u32, 0u32, 0u32]
}

/// Law: the text of the wallet's derivation path reads as the five BIP84
/// steps 84', 0', 0', 0, 0.
pub proof fn lemma_bip84_path_parses()
    ensures
        bip32_parse_path(BIP84_FIRST_RECEIVE_PATH@) == Some(bip84_first_receive_path()),
{
    reveal_strlit("m/84'/0'/0'/0/0");
    let path = BIP84_FIRST_RECEIVE_PATH@;
    let p84h = seq!['8', '4', '\''];
    let p0h = seq!['0', '\''];
    let p0 = seq!['0'];
    let slash = seq!['/'];
    let body = p84h + slash + p0h + slash + p0h + slash + p0 + slash + p0;
    assert(path.skip(2) =~= body);
    assert(!p84h.contains('/')) by {
        assert(forall|i: int| 0 <= i < p84h.len() ==> p84h[i] != '/');
    }
    assert(!p0h.contains('/')) by {
        assert(forall|i: int| 0 <= i < p0h.len() ==> p0h[i] != '/');
    }
    assert(!p0.contains('/')) by {
        assert(forall|i: int| 0 <= i < p0.len() ==> p0[i] != '/');
    }
    let tail3 = p0 + slash + p0;
    let tail2 = p0h + slash + tail3;
    let tail1 = p0h + slash + tail2;
    assert(body =~= p84h + slash + tail1);
    lemma_split_slash_single(p0);
    lemma_split_slash_front(p0, p0);
    lemma_split_slash_front(p0h, tail3);
    lemma_split_slash_front(p0h, tail2);
    lemma_split_slash_front(p84h, tail1);
    let parts = seq![p84h, p0h, p0h, p0, p0];
    assert(split_slash(body) =~= parts);
    reveal_with_fuel(decimal_value, 3);
    assert(parse_u32_spec(seq!['8', '4']) == Some(84u32)) by {
        let d = seq!['8', '4'];
        assert(d.drop_last() =~= seq!['8']);
        assert(seq!['8'].drop_last() =~= Seq::<char>::empty());
        assert(forall|i: int| 0 <= i < d.len() ==> '0' <= #[trigger] d[i] <= '9');
    }
    assert(parse_u32_spec(p0) == Some(0u32)) by {
        assert(p0.drop_last() =~= Seq::<char>::empty());
        assert(forall|i: int| 0 <= i < p0.len() ==> '0' <= #[trigger] p0[i] <= '9');
    }
    assert(p84h.drop_last() =~= seq!['8', '4']);
    assert(p0h.drop_last() =~= p0);
    assert(parse_child_number(p84h) == Some(0x8000_0054u32));
    assert(parse_child_number(p0h) == Some(0x8000_0000u32));
    assert(parse_child_number(p0) == Some(0u32));
    reveal_with_fuel(parse_child_numbers, 6);
    assert(parts.drop_last() =~= seq![p84h, p0h, p0h, p0]);
    assert(parts.drop_last().drop_last() =~= seq![p84h, p0h, p0h]);
    assert(parts.drop_last().drop_last().drop_last() =~= seq![p84h, p0h]);
    assert(parts.drop_last().drop_last().drop_last().drop_last() =~= seq![p84h]);
    assert(seq![p84h].drop_last() =~= Seq::<Seq<char>>::empty());
    assert(parse_child_numbers(parts) =~~= Some(bip84_first_receive_path()));
}

/// The network that the wallet works on.
pub open spec fn wallet_network() -> Network {
    Network::Bitcoin
}

/// A receiving address: its text and the output script that pays to it.
#[derive(Clone, Debug)]
pub struct WalletAddress {
    pub text: String,
    pub script_pubkey: Vec<u8>,
}

/// Everything that the wallet derives from a seed.
#[derive(Clone, Debug)]
pub struct DerivedWallet {
    pub master: ExtendedPrivKey,
    /// The key at the BIP84 path of the first receiving address.
    pub child: ExtendedPrivKey,
    /// The child's compressed public key.
    pub public_key: [u8; 33],
    pub address: WalletAddress,
    /// The master key's fingerprint.
    pub fingerprint: [u8; 4],
}

/// The derived wallet as mathematical values.
pub struct WalletModel {
    pub master: ExtendedKeyModel,
    pub child: ExtendedKeyModel,
    pub public_key: Seq<u8>,
    pub address: Seq<char>,
    pub script_pubkey: Seq<u8>,
    pub fingerprint: Seq<u8>,
}

impl View for DerivedWallet {
    type V = WalletModel;

    open spec fn view(&self) -> WalletModel {
        WalletModel {
            master: self.master@,
            child: self.child@,
            public_key: self.public_key@,
            address: self.address.text@,
            script_pubkey: self.address.script_pubkey@,
            fingerprint: self.fingerprint@,
        }
    }
}

/// What every derived wallet looks like: a compressed public key (first
/// byte 0x02 or 0x03), the P2WPKH script of that key, and a 42-character
/// mainnet address starting with "bc1q".
pub open spec fn wallet_shape(m: WalletModel) -> bool {
    &&& (m.public_key[0] == 0x02 || m.public_key[0] == 0x03)
    &&& m.script_pubkey == p2wpkh_script(m.public_key)
    &&& m.address.len() == 42
    &&& m.address.subrange(0, 4) == seq!['b', 'c', '1', 'q']
}

/// The wallet that a seed determines, or the first step that fails.
pub open spec fn wallet_from_seed(seed: Seq<u8>) -> Result<WalletModel, WalletError> {
    match master_key_spec(seed, wallet_network()) {
        None => Err(WalletError::KeyDerivation),
        Some(master) => match bip32_parse_path(BIP84_FIRST_RECEIVE_PATH@) {
            None => Err(WalletError::InvalidDerivationPath),
            Some(path) => match derive_path_spec(master, path) {
                None => Err(WalletError::KeyDerivation),
                Some(child) => {
                    let public_key = secp256k1_public_key(child.private_key);
                    match p2wpkh_address(public_key, wallet_network()) {
                        None => Err(WalletError::InvalidPublicKey),
                        Some((address, script_pubkey)) => Ok(
                            WalletModel {
                                master,
                                child,
                                public_key,
                                address,
                                script_pubkey,
                                fingerprint: bip32_fingerprint(master.private_key),
                            },
                        ),
                    }
                },
            },
        },
    }
}

/// Law: the receiving key sits five steps below the master key, at index 0 of
/// the external chain, on the master's network; a seed without a master key
/// fails with `KeyDerivation`; and the derivation path never makes the wallet
/// fail.
pub proof fn lemma_wallet_from_seed_shape(seed: Seq<u8>)
    ensures
        wallet_from_seed(seed) matches Ok(m) ==> {
            &&& m.master.depth == 0
            &&& m.child.depth == 5
            &&& m.child.child_number == 0
            &&& m.child.network == m.master.network
        },
        bip32_master(seed) is None ==> wallet_from_seed(seed) == Err::<WalletModel, WalletError>(
            WalletError::KeyDerivation,
        ),
        wallet_from_seed(seed) != Err::<WalletModel, WalletError>(WalletError::InvalidDerivationPath),
{
    lemma_bip84_path_parses();
    let path = bip84_first_receive_path();
    if let Some(master) = master_key_spec(seed, wallet_network()) {
        reveal_with_fuel(derive_path_spec, 2);
        let p1 = seq![0x8000_0054u32];
        let p2 = seq![0x8000_0054u32, 0x8000_0000u32];
        let p3 = seq![0x8000_0054u32, 0x8000_0000u32, 0x8000_0000u32];
        let p4 = seq![0x8000_0054u32, 0x8000_0000u32, 0x8000_0000u32, 0u32];
        assert(p1.drop_last() =~= Seq::<u32>::empty());
        assert(p2.drop_last() =~= p1);
        assert(p3.drop_last() =~= p2);
        assert(p4.drop_last() =~= p3);
        assert(path.drop_last() =~= p4);
        assert(derive_path_spec(master, p1) matches Some(k) ==> k.depth == 1 && k.network == master.network);
        assert(derive_path_spec(master, p2) matches Some(k) ==> k.depth == 2 && k.network == master.network);
        assert(derive_path_spec(master, p3) matches Some(k) ==> k.depth == 3 && k.network == master.network);
        assert(derive_path_spec(master, p4) matches Some(k) ==> k.depth == 4 && k.network == master.network);
        assert(derive_path_spec(master, path) matches Some(k) ==> k.depth == 5 && k.child_number == 0
            && k.network == master.network);
    }
}

proof fn lemma_derive_prefix_fails(key: ExtendedKeyModel, path: Seq<u32>, k: int)
    requires
        0 <= k <= path.len(),
        derive_path_spec(key, path.take(k)) is None,
    ensures
        derive_path_spec(key, path) is None,
    decreases path.len() - k,
{
    if k == path.len() {
        assert(path.take(k) =~= path);
    } else {
        assert(path.take(k + 1).drop_last() =~= path.take(k));
        lemma_derive_prefix_fails(key, path, k + 1);
    }
}

/// Derives a key along a BIP32 path, one private child step after another.
/// Fails when a step fails: a secret key that is not valid, a step that is
/// not defined (tested before each step, where the crate would panic), or a
/// depth past 255.
pub fn derive_along_path(key: &ExtendedPrivKey, path: &Vec<u32>) -> (res: Result<ExtendedPrivKey, WalletError>)
    ensures
        res is Ok <==> ((path@.len() == 0 || decodable(key.encoded@))
            && derive_path_spec(key@, path@) is Some),
        res matches Ok(k) ==> Some(k@) == derive_path_spec(key@, path@),
        res matches Ok(k) ==> (path@.len() > 0 ==> decodable(k.encoded@)),
        res matches Ok(k) ==> (path@.len() == 0 ==> k == *key),
        res matches Err(e) ==> e == WalletError::KeyDerivation,
{
    let mut current = *key;
    let mut i: usize = 0;
    while i < path.len()
        invariant
            i <= path@.len(),
            Some(current@) == derive_path_spec(key@, path@.take(i as int)),
            i == 0 ==> current == *key,
            i > 0 ==> decodable(current.encoded@),
            i > 0 ==> decodable(key.encoded@),
        decreases path@.len() - i,
    {
        assert(path@.take(i + 1).drop_last() =~= path@.take(i as int));
        if !child_step_defined(&current, path[i]) {
            proof {
                if decodable(current.encoded@) {
                    lemma_derive_prefix_fails(key@, path@, i as int + 1);
                }
            }
            return Err(WalletError::KeyDerivation);
        }
        match xpriv_child(&current, path[i]) {
            Ok(next) => {
                current = next;
            },
            Err(_) => {
                proof {
                    if current@.depth >= 255 {
                        lemma_derive_prefix_fails(key@, path@, i as int + 1);
                    }
                }
                return Err(WalletError::KeyDerivation);
            },
        }
        i = i + 1;
    }
    assert(path@.take(path@.len() as int) =~= path@);
    Ok(current)
}

/// The BIP32 master key of a seed, on mainnet. Fails only when the seed's
/// HMAC-SHA512 left half is not a valid secret key.
pub fn seed_to_master_key(seed: &[u8]) -> (res: Result<ExtendedPrivKey, WalletError>)
    ensures
        res is Ok <==> bip32_master(seed@) is Some,
        res matches Ok(k) ==> Some(k@) == master_key_spec(seed@, wallet_network()),
        res matches Ok(k) ==> decodable(k.encoded@),
        res matches Err(e) ==> e == WalletError::KeyDerivation,
{
    match xpriv_new_master(Network::Bitcoin, seed) {
        Ok(k) => Ok(k),
        Err(_) => Err(WalletError::KeyDerivation),
    }
}

/// The key of the first receiving address: the master key derived along
/// the BIP84 path m/84'/0'/0'/0/0.
pub fn derive_child_key(master: &ExtendedPrivKey) -> (res: Result<ExtendedPrivKey, WalletError>)
    ensures
        res is Ok <==> decodable(master.encoded@) && derive_path_spec(master@, bip84_first_receive_path()) is Some,
        res matches Ok(child) ==> Some(child@) == derive_path_spec(master@, bip84_first_receive_path()),
        res matches Ok(child) ==> decodable(child.encoded@),
        res matches Err(e) ==> e == WalletError::KeyDerivation,
{
    proof {
        lemma_bip84_path_parses();
    }
    let path = match parse_derivation_path(BIP84_FIRST_RECEIVE_PATH) {
        Ok(p) => p,
        Err(_) => return Err(WalletError::InvalidDerivationPath),
    };
    derive_along_path(master, &path)
}

/// The compressed public key of an extended private key.
pub fn private_to_public(key: &ExtendedPrivKey) -> (res: Result<[u8; 33], WalletError>)
    ensures
        res is Ok <==> decodable(key.encoded@),
        res matches Ok(pk) ==> pk@ == secp256k1_public_key(key@.private_key),
        res matches Ok(pk) ==> pk@[0] == 0x02 || pk@[0] == 0x03,
        res matches Err(e) ==> e == WalletError::KeyDerivation,
{
    match xpriv_public_key(key) {
        Ok(pk) => Ok(pk),
        Err(_) => Err(WalletError::KeyDerivation),
    }
}

/// The mainnet native segwit (bc1q...) address of a compressed public key.
pub fn public_key_to_address(public_key: &[u8; 33]) -> (res: Result<WalletAddress, WalletError>)
    ensures
        res is Ok <==> p2wpkh_address(public_key@, wallet_network()) is Some,
        res matches Ok(a) ==> p2wpkh_address(public_key@, wallet_network()) == Some(
            (a.text@, a.script_pubkey@),
        ),
        res matches Ok(a) ==> a.script_pubkey@ == p2wpkh_script(public_key@),
        res matches Ok(a) ==> a.text@.len() == 42 && a.text@.subrange(0, 4) == seq!['b', 'c', '1', 'q'],
        res matches Err(e) ==> e == WalletError::InvalidPublicKey,
{
    match p2wpkh_from_public_key(public_key, Network::Bitcoin) {
        Ok((text, script_pubkey)) => Ok(WalletAddress { text, script_pubkey }),
        Err(_) => Err(WalletError::InvalidPublicKey),
    }
}

/// The fingerprint of an extended private key (first four bytes of the
/// HASH160 of its public key).
pub fn master_fingerprint(key: &ExtendedPrivKey) -> (res: Result<[u8; 4], WalletError>)
    ensures
        res is Ok <==> decodable(key.encoded@),
        res matches Ok(fp) ==> fp@ == bip32_fingerprint(key@.private_key),
        res matches Err(e) ==> e == WalletError::KeyDerivation,
{
    match xpriv_fingerprint(key) {
        Ok(fp) => Ok(fp),
        Err(_) => Err(WalletError::KeyDerivation),
    }
}

/// The whole key chain from a seed: master key, receiving key, public key,
/// address and master fingerprint; or the error of the first step that fails.
pub fn derive_wallet(seed: &[u8]) -> (res: Result<DerivedWallet, WalletError>)
    ensures
        match wallet_from_seed(seed@) {
            Ok(m) => res matches Ok(w) && w@ == m,
            Err(e) => res == Err::<DerivedWallet, WalletError>(e),
        },
        res matches Ok(w) ==> wallet_shape(w@),
{
    proof {
        lemma_bip84_path_parses();
    }
    let master = seed_to_master_key(seed)?;
    let child = derive_child_key(&master)?;
    let public_key = private_to_public(&child)?;
    let address = public_key_to_address(&public_key)?;
    let fingerprint = master_fingerprint(&master)?;
    Ok(DerivedWallet { master, child, public_key, address, fingerprint })
}

/// Whether a character has the Unicode White_Space property.
pub open spec fn is_unicode_whitespace(c: char) -> bool {
    ||| '\u{9}' <= c <= '\u{d}'
    ||| c == ' '
    ||| c == '\u{85}'
    ||| c == '\u{a0}'
    ||| c == '\u{1680}'
    ||| '\u{2000}' <= c <= '\u{200a}'
    ||| c == '\u{2028}'
    ||| c == '\u{2029}'
    ||| c == '\u{202f}'
    ||| c == '\u{205f}'
    ||| c == '\u{3000}'
}

/// The text without its leading white space.
pub open spec fn trim_start_spec(s: Seq<char>) -> Seq<char>
    decreases s.len(),
{
    if s.len() > 0 && is_unicode_whitespace(s[0]) {
        trim_start_spec(s.drop_first())
    } else {
        s
    }
}

/// The text without its trailing white space.
pub open spec fn trim_end_spec(s: Seq<char>) -> Seq<char>
    decreases s.len(),
{
    if s.len() > 0 && is_unicode_whitespace(s.last()) {
        trim_end_spec(s.drop_last())
    } else {
        s
    }
}

/// The text without leading and trailing white space.
pub open spec fn trim_spec(s: Seq<char>) -> Seq<char> {
    trim_end_spec(trim_start_spec(s))
}

/// The lowercase form of a text, by Unicode's lowercase mapping.
pub uninterp spec fn unicode_lowercase(s: Seq<char>) -> Seq<char>;

/// `str::trim`: removes leading and trailing characters with the Unicode
/// White_Space property (as `char::is_whitespace` documents it).
#[verifier::external_body]
pub(crate) fn str_trim(s: &str) -> (r: &str)
    ensures
        r@ == trim_spec(s@),
{
    s.trim()
}

/// A character in ASCII lowercase: 'A' to 'Z' become 'a' to 'z', every
/// other character stays.
pub open spec fn ascii_lowercase_char(c: char) -> char {
    if 'A' <= c && c <= 'Z' {
        ((c as u32) + 32) as char
    } else {
        c
    }
}

/// A text in ASCII lowercase.
pub open spec fn ascii_lowercase(s: Seq<char>) -> Seq<char> {
    s.map_values(|c: char| ascii_lowercase_char(c))
}

/// `str::to_lowercase`: the named Unicode lowercase mapping of the text;
/// on ASCII text that mapping changes 'A' to 'Z' into 'a' to 'z' and keeps
/// every other character.
#[verifier::external_body]
fn str_to_lowercase(s: &str) -> (r: String)
    ensures
        r@ == unicode_lowercase(s@),
        vstd::utf8::is_ascii_chars(s@) ==> r@ == ascii_lowercase(s@),
{
    s.to_lowercase()
}

/// Whether an answer to "Save this wallet? (y/n)" means yes: the answer,
/// without surrounding white space and in lowercase, is exactly "y".
pub fn wants_to_save(answer: &str) -> (yes: bool)
    ensures
        yes == (unicode_lowercase(trim_spec(answer@)) == seq!['y']),
        vstd::utf8::is_ascii_chars(trim_spec(answer@)) ==> (yes == (ascii_lowercase(trim_spec(answer@))
            == seq!['y'])),
{
    let lower = str_to_lowercase(str_trim(answer));
    let y = String::from_str("y");
    proof {
        reveal_strlit("y");
        assert(y@ =~= seq!['y']);
    }
    let yes = lower == y;
    assert(yes == (lower@ == y@));
    yes
}

/// The wallet of a mnemonic phrase: `InvalidMnemonic` when the text is not
/// a mnemonic, otherwise the wallet of its seed (no passphrase).
pub open spec fn wallet_of_phrase(phrase: Seq<char>) -> Result<WalletModel, WalletError> {
    match bip39_parse(phrase) {
        None => Err(WalletError::InvalidMnemonic),
        Some(canonical) => wallet_from_seed(bip39_seed(canonical, Seq::empty())),
    }
}

/// The entropy of a new mnemonic: 16 bytes (128 bits), a 12-word phrase.
pub const ENTROPY_BYTES: usize = 16;

/// A new mnemonic from 16 bytes of entropy: its 12-word phrase and the
/// 64-byte seed (no passphrase) that key derivation starts from.
pub fn generate_mnemonic(entropy: [u8; 16]) -> (res: (String, Vec<u8>))
    ensures
        res.0@ == bip39_phrase(entropy@),
        is_phrase_of(res.0@, 12),
        bip39_parse(res.0@) == Some(res.0@),
        res.1@ == bip39_seed(res.0@, Seq::empty()),
        res.1@.len() == 64,
{
    let phrase = match phrase_from_entropy(entropy.as_slice()) {
        Ok(p) => p,
        Err(_) => {
            proof {
                assert(false);
            }
            return (String::new(), Vec::new());
        },
    };
    let no_passphrase = "";
    proof {
        reveal_strlit("");
        assert(no_passphrase@ =~= Seq::<char>::empty());
    }
    let seed = match seed_from_phrase(phrase.as_str(), no_passphrase) {
        Ok(s) => s,
        Err(_) => {
            proof {
                assert(false);
            }
            return (String::new(), Vec::new());
        },
    };
    (phrase, seed)
}

/// A freshly generated wallet: the phrase to write down, its seed, and the
/// keys and address derived from it.
#[derive(Clone, Debug)]
pub struct GeneratedWallet {
    pub phrase: String,
    pub seed: Vec<u8>,
    pub wallet: DerivedWallet,
}

/// Generates the wallet of 16 bytes of entropy: mnemonic, seed, master key,
/// BIP84 receiving key, public key, address and master fingerprint.
pub fn generate_wallet(entropy: [u8; 16]) -> (res: Result<GeneratedWallet, WalletError>)
    ensures
        match wallet_from_seed(bip39_seed(bip39_phrase(entropy@), Seq::empty())) {
            Ok(m) => res matches Ok(g) && g.wallet@ == m,
            Err(e) => res == Err::<GeneratedWallet, WalletError>(e),
        },
        res matches Ok(g) ==> g.phrase@ == bip39_phrase(entropy@) && g.seed@ == bip39_seed(
            g.phrase@,
            Seq::empty(),
        ),
        res matches Ok(g) ==> wallet_of_phrase(g.phrase@) == Ok::<WalletModel, WalletError>(g.wallet@),
        res matches Ok(g) ==> is_phrase_of(g.phrase@, 12),
        res matches Ok(g) ==> wallet_shape(g.wallet@),
{
    let (phrase, seed) = generate_mnemonic(entropy);
    let wallet = derive_wallet(seed.as_slice())?;
    Ok(GeneratedWallet { phrase, seed, wallet })
}

/// The wallet file: salt, nonce and ciphertext, each as lowercase hex.
#[derive(Clone, Debug)]
pub struct WalletFile {
    pub salt: String,
    pub nonce: String,
    pub ciphertext: String,
}

/// The wallet file's text fields.
pub struct WalletFileModel {
    pub salt: Seq<char>,
    pub nonce: Seq<char>,
    pub ciphertext: Seq<char>,
}

impl View for WalletFile {
    type V = WalletFileModel;

    open spec fn view(&self) -> WalletFileModel {
        WalletFileModel { salt: self.salt@, nonce: self.nonce@, ciphertext: self.ciphertext@ }
    }
}

/// PBKDF2 rounds for the file key (the OWASP recommendation for SHA-256).
pub const PBKDF2_ROUNDS: u32 = 600_000;

/// AES-256 key length in bytes.
pub const KEY_BYTES: usize = 32;

/// Salt length in bytes.
pub const SALT_BYTES: usize = 16;

/// AES-GCM nonce length in bytes.
pub const NONCE_BYTES: usize = 12;

/// The file key that a password and salt give.
pub open spec fn file_key(password: Seq<char>, salt: Seq<u8>) -> Seq<u8> {
    pbkdf2_hmac_sha256(password, salt, PBKDF2_ROUNDS, KEY_BYTES as nat)
}

/// The wallet file that keeps `phrase` under `password`, `salt` and `nonce`.
pub open spec fn sealed_file(phrase: Seq<char>, password: Seq<char>, salt: Seq<u8>, nonce: Seq<u8>) -> WalletFileModel {
    WalletFileModel {
        salt: hex_encode_spec(salt),
        nonce: hex_encode_spec(nonce),
        ciphertext: hex_encode_spec(
            aes256gcm_seal(file_key(password, salt), nonce, vstd::utf8::encode_utf8(phrase)),
        ),
    }
}

/// The bytes that a hex field of the wallet file stands for.
pub open spec fn decode_field(text: Seq<char>) -> Option<Seq<u8>> {
    hex_decode_spec(vstd::utf8::encode_utf8(text))
}

/// The decoded fields of a wallet file.
#[derive(Clone, Debug)]
pub struct EncryptedWallet {
    pub salt: Vec<u8>,
    pub nonce: Vec<u8>,
    pub ciphertext: Vec<u8>,
}

/// Opening the decoded fields with a password: the wallet of the phrase
/// inside, or the first step that fails.
pub open spec fn unlock_spec(salt: Seq<u8>, nonce: Seq<u8>, ciphertext: Seq<u8>, password: Seq<char>) -> Result<
    WalletModel,
    WalletError,
> {
    if nonce.len() != NONCE_BYTES {
        Err(WalletError::InvalidNonceLength)
    } else {
        match aes256gcm_open(file_key(password, salt), nonce, ciphertext) {
            None => Err(WalletError::DecryptionFailed),
            Some(plaintext) => if !vstd::utf8::valid_utf8(plaintext) {
                Err(WalletError::InvalidUtf8)
            } else {
                wallet_of_phrase(vstd::utf8::decode_utf8(plaintext))
            },
        }
    }
}

/// Loading a wallet file with a password: the wallet of the phrase that it
/// keeps, or the first step that fails.
pub open spec fn load_spec(file: WalletFileModel, password: Seq<char>) -> Result<WalletModel, WalletError> {
    match (decode_field(file.salt), decode_field(file.nonce), decode_field(file.ciphertext)) {
        (Some(salt), Some(nonce), Some(ciphertext)) => unlock_spec(salt, nonce, ciphertext, password),
        _ => Err(WalletError::InvalidHex),
    }
}

/// Encrypts a mnemonic phrase for the wallet file: the key is PBKDF2-HMAC-
/// SHA256 of the password and salt (600,000 rounds), the phrase's UTF-8 bytes
/// are sealed with AES-256-GCM under that key and the nonce, and salt, nonce
/// and ciphertext are written as hex. Law: loading the file with the same
/// password gives back the wallet of the phrase.
pub fn save_wallet(phrase: &str, password: &str, salt: &[u8; 16], nonce: &[u8; 12]) -> (res: Result<WalletFile, WalletError>)
    ensures
        res is Ok <==> vstd::utf8::encode_utf8(phrase@).len() <= aes_gcm_max_plaintext(),
        res matches Ok(f) ==> f@ == sealed_file(phrase@, password@, salt@, nonce@),
        res matches Ok(f) ==> load_spec(f@, password@) == wallet_of_phrase(phrase@),
        res matches Ok(f) ==> f.salt@.len() == 32 && f.nonce@.len() == 24
            && f.ciphertext@.len() == 2 * (vstd::utf8::encode_utf8(phrase@).len() + 16),
        res matches Err(e) ==> e == WalletError::PlaintextTooLong,
{
    let key = pbkdf2_sha256(password, salt.as_slice(), PBKDF2_ROUNDS, KEY_BYTES);
    let plaintext = phrase.as_bytes();
    let ciphertext = match aes256gcm_encrypt(key.as_slice(), nonce.as_slice(), plaintext) {
        Ok(c) => c,
        Err(_) => return Err(WalletError::PlaintextTooLong),
    };
    let file = WalletFile {
        salt: hex_encode(salt.as_slice()),
        nonce: hex_encode(nonce.as_slice()),
        ciphertext: hex_encode(ciphertext.as_slice()),
    };
    proof {
        lemma_hex_round_trip(salt@);
        lemma_hex_round_trip(nonce@);
        lemma_hex_round_trip(ciphertext@);
        lemma_hex_encode_shape(salt@);
        lemma_hex_encode_shape(nonce@);
        lemma_hex_encode_shape(ciphertext@);
        vstd::utf8::encode_utf8_valid_utf8(phrase@);
        vstd::utf8::encode_utf8_decode_utf8(phrase@);
    }
    Ok(file)
}

/// Law: a phrase of twelve English words always fits AES-256-GCM, so
/// `save_wallet` never refuses a generated phrase.
pub proof fn lemma_twelve_words_fit(phrase: Seq<char>)
    requires
        is_phrase_of(phrase, 12),
    ensures
        vstd::utf8::encode_utf8(phrase).len() <= aes_gcm_max_plaintext(),
{
    assert(vstd::utf8::is_ascii_chars(phrase)) by {
        assert forall|i: int| 0 <= i < phrase.len() implies '\0' <= #[trigger] phrase[i] <= '\u{7f}' by {
            assert(is_phrase_char(phrase[i]));
        }
    }
    vstd::utf8::is_ascii_chars_encode_utf8(phrase);
}

/// Law: the file key is PBKDF2-HMAC-SHA256 of the password and of the salt
/// bytes exactly as the file stores them, 600,000 rounds, 32 bytes.
pub proof fn lemma_file_key_is_pbkdf2(password: Seq<char>, salt: Seq<u8>)
    ensures
        file_key(password, salt) == pbkdf2_hmac_sha256(password, salt, 600_000u32, 32nat),
{
}

/// Law: any wallet file in the documented format opens: when the
/// ciphertext is AES-256-GCM, under the nonce and the key PBKDF2-HMAC-SHA256
/// (password, stored salt, 600,000 rounds, 32 bytes), of a phrase's UTF-8
/// bytes, loading the file's hex fields with that password gives the
/// phrase's wallet, whoever wrote the file.
pub proof fn lemma_documented_file_opens(
    password: Seq<char>,
    salt: Seq<u8>,
    nonce: Seq<u8>,
    ciphertext: Seq<u8>,
    phrase: Seq<char>,
)
    requires
        nonce.len() == 12,
        aes256gcm_open(pbkdf2_hmac_sha256(password, salt, 600_000u32, 32nat), nonce, ciphertext)
            == Some(vstd::utf8::encode_utf8(phrase)),
    ensures
        unlock_spec(salt, nonce, ciphertext, password) == wallet_of_phrase(phrase),
        load_spec(
            WalletFileModel {
                salt: hex_encode_spec(salt),
                nonce: hex_encode_spec(nonce),
                ciphertext: hex_encode_spec(ciphertext),
            },
            password,
        ) == wallet_of_phrase(phrase),
{
    lemma_hex_round_trip(salt);
    lemma_hex_round_trip(nonce);
    lemma_hex_round_trip(ciphertext);
    vstd::utf8::encode_utf8_valid_utf8(phrase);
    vstd::utf8::encode_utf8_decode_utf8(phrase);
}

/// Reads the hex fields of a wallet file back into bytes.
pub fn decode_wallet_file(file: &WalletFile) -> (res: Result<EncryptedWallet, WalletError>)
    ensures
        match (decode_field(file.salt@), decode_field(file.nonce@), decode_field(file.ciphertext@)) {
            (Some(salt), Some(nonce), Some(ciphertext)) => res matches Ok(enc) && enc.salt@ == salt
                && enc.nonce@ == nonce && enc.ciphertext@ == ciphertext,
            _ => res == Err::<EncryptedWallet, WalletError>(WalletError::InvalidHex),
        },
{
    let salt = match hex_decode(file.salt.as_str().as_bytes()) {
        Ok(b) => b,
        Err(_) => return Err(WalletError::InvalidHex),
    };
    let nonce = match hex_decode(file.nonce.as_str().as_bytes()) {
        Ok(b) => b,
        Err(_) => return Err(WalletError::InvalidHex),
    };
    let ciphertext = match hex_decode(file.ciphertext.as_str().as_bytes()) {
        Ok(b) => b,
        Err(_) => return Err(WalletError::InvalidHex),
    };
    Ok(EncryptedWallet { salt, nonce, ciphertext })
}

/// Opens decoded wallet fields with a password and rebuilds the wallet:
/// file key from password and salt, AES-256-GCM decryption (refused for a
/// wrong password or a changed file), UTF-8, mnemonic, seed, keys, address.
pub fn unlock_wallet(encrypted: &EncryptedWallet, password: &str) -> (res: Result<DerivedWallet, WalletError>)
    ensures
        match unlock_spec(encrypted.salt@, encrypted.nonce@, encrypted.ciphertext@, password@) {
            Ok(m) => res matches Ok(w) && w@ == m,
            Err(e) => res == Err::<DerivedWallet, WalletError>(e),
        },
        res matches Ok(w) ==> wallet_shape(w@),
{
    if encrypted.nonce.len() != NONCE_BYTES {
        return Err(WalletError::InvalidNonceLength);
    }
    let key = pbkdf2_sha256(password, encrypted.salt.as_slice(), PBKDF2_ROUNDS, KEY_BYTES);
    let plaintext = match aes256gcm_decrypt(key.as_slice(), encrypted.nonce.as_slice(), encrypted.ciphertext.as_slice()) {
        Ok(p) => p,
        Err(_) => return Err(WalletError::DecryptionFailed),
    };
    let phrase = match string_from_utf8(plaintext) {
        Ok(s) => s,
        Err(_) => return Err(WalletError::InvalidUtf8),
    };
    let no_passphrase = "";
    proof {
        reveal_strlit("");
        assert(no_passphrase@ =~= Seq::<char>::empty());
    }
    let seed = match seed_from_phrase(phrase.as_str(), no_passphrase) {
        Ok(s) => s,
        Err(_) => return Err(WalletError::InvalidMnemonic),
    };
    derive_wallet(seed.as_slice())
}

/// Loads a wallet file with a password: decodes it, opens it and rebuilds
/// the wallet (master fingerprint, receiving key and address).
pub fn load_wallet_from_file(file: &WalletFile, password: &str) -> (res: Result<DerivedWallet, WalletError>)
    ensures
        match load_spec(file@, password@) {
            Ok(m) => res matches Ok(w) && w@ == m,
            Err(e) => res == Err::<DerivedWallet, WalletError>(e),
        },
        res matches Ok(w) ==> wallet_shape(w@),
{
    let encrypted = decode_wallet_file(file)?;
    unlock_wallet(&encrypted, password)
}

/// Loads an existing wallet file, keeping only whether that succeeded.
pub fn load_existing_wallet(file: &WalletFile, password: &str) -> (res: Result<(), WalletError>)
    ensures
        res is Ok <==> load_spec(file@, password@) is Ok,
        res matches Err(e) ==> load_spec(file@, password@) == Err::<WalletModel, WalletError>(e),
{
    match load_wallet_from_file(file, password) {
        Ok(_) => Ok(()),
        Err(e) => Err(e),
    }
}

} // verus!

use btc_wallet::error::WalletError;
use btc_wallet::wallet::{
    decode_wallet_file, derive_child_key, derive_wallet, generate_mnemonic, generate_wallet,
    load_existing_wallet, load_wallet_from_file, master_fingerprint, private_to_public,
    public_key_to_address, save_wallet, seed_to_master_key, unlock_wallet, wants_to_save,
    WalletFile,
};
use btc_wallet::keys::{child_step_defined, is_decodable, NetworkKind};
use aes_gcm::aead::{Aead, KeyInit};

const ABANDON_PHRASE: &str = "abandon abandon abandon abandon abandon abandon abandon abandon abandon abandon abandon about";
const ABANDON_SEED: &str = "5eb00bbddcf069084889a8ab9155568165f5c453ccb85e70811aaed6f6da5fc19a5ac40b389cd370d086206dec8aa6c43daea6690f20ad3d8d48b2d2ce9e38e4";
const ABANDON_ADDRESS: &str = "bc1qcr8te4kr609gcawutmrza0j4xv80jy8z306fyu";
const ABANDON_PUBKEY: &str = "0330d54fd0dd420a6e5f8d3624f5f3482cae350f79d5f0753bf5beef9c2d91af3c";
const ABANDON_FINGERPRINT: &str = "73c5da0a";

#[test]
fn mnemonic_of_zero_entropy_is_the_abandon_phrase() {
    let (phrase, seed) = generate_mnemonic([0u8; 16]);
    assert_eq!(phrase, ABANDON_PHRASE);
    assert_eq!(phrase.split(' ').count(), 12);
    assert_eq!(seed.len(), 64);
    assert_eq!(hex::encode(&seed), ABANDON_SEED);
}

#[test]
fn mnemonic_of_other_entropy_has_twelve_words() {
    let (phrase, seed) = generate_mnemonic([0x7fu8; 16]);
    assert_eq!(phrase, "legal winner thank year wave sausage worth useful legal winner thank yellow");
    assert_eq!(seed.len(), 64);
}

#[test]
fn master_key_of_seed_is_at_depth_zero() {
    let seed = hex::decode(ABANDON_SEED).unwrap();
    let master = seed_to_master_key(&seed).unwrap();
    assert_eq!(master.depth(), 0);
    assert_eq!(master.child_number(), 0);
    assert_eq!(master.parent_fingerprint(), [0u8; 4]);
    assert_eq!(master.network(), NetworkKind::Main);
    assert_eq!(master.private_key().len(), 32);
    assert_eq!(master.chain_code().len(), 32);
    assert_eq!(hex::encode(master_fingerprint(&master).unwrap()), ABANDON_FINGERPRINT);
}

#[test]
fn child_key_is_five_levels_below_master() {
    let seed = hex::decode(ABANDON_SEED).unwrap();
    let master = seed_to_master_key(&seed).unwrap();
    let child = derive_child_key(&master).unwrap();
    assert_eq!(child.depth(), 5);
    assert_eq!(child.child_number(), 0);
    assert_eq!(child.network(), NetworkKind::Main);
    assert_ne!(child.private_key(), master.private_key());
    assert_ne!(child.parent_fingerprint(), [0u8; 4]);
    let public_key = private_to_public(&child).unwrap();
    assert_eq!(hex::encode(public_key), ABANDON_PUBKEY);
    let address = public_key_to_address(&public_key).unwrap();
    assert_eq!(address.text, ABANDON_ADDRESS);
    assert_eq!(hex::encode(&address.script_pubkey), "0014c0cebcd6c3d3ca8c75dc5ec62ebe55330ef910e2");
}

#[test]
fn public_key_of_invalid_secret_is_refused() {
    let seed = hex::decode(ABANDON_SEED).unwrap();
    let mut master = seed_to_master_key(&seed).unwrap();
    master.encoded[46..78].fill(0);
    assert_eq!(private_to_public(&master), Err(WalletError::KeyDerivation));
    assert_eq!(master_fingerprint(&master), Err(WalletError::KeyDerivation));
    assert_eq!(derive_child_key(&master).unwrap_err(), WalletError::KeyDerivation);
    master.encoded[46..78].fill(0xff);
    assert_eq!(private_to_public(&master), Err(WalletError::KeyDerivation));
}

#[test]
fn derivation_past_depth_255_is_refused() {
    let seed = hex::decode(ABANDON_SEED).unwrap();
    let mut master = seed_to_master_key(&seed).unwrap();
    master.encoded[4] = 251;
    assert_eq!(derive_child_key(&master).unwrap_err(), WalletError::KeyDerivation);
    master.encoded[4] = 250;
    assert_eq!(derive_child_key(&master).unwrap().depth(), 255);
}

#[test]
fn invalid_public_key_has_no_address() {
    let mut bytes = [0u8; 33];
    bytes[0] = 0x05;
    assert_eq!(public_key_to_address(&bytes).unwrap_err(), WalletError::InvalidPublicKey);
}

#[test]
fn generated_wallet_matches_the_bip84_vector() {
    let generated = generate_wallet([0u8; 16]).unwrap();
    assert_eq!(generated.phrase, ABANDON_PHRASE);
    assert_eq!(generated.wallet.address.text, ABANDON_ADDRESS);
    assert_eq!(hex::encode(generated.wallet.fingerprint), ABANDON_FINGERPRINT);
    assert_eq!(hex::encode(generated.wallet.public_key), ABANDON_PUBKEY);
    let again = derive_wallet(&generated.seed).unwrap();
    assert_eq!(again.address.text, ABANDON_ADDRESS);
}

#[test]
fn answer_y_means_save() {
    assert!(wants_to_save("y"));
    assert!(wants_to_save("y\n"));
    assert!(wants_to_save("  Y \r\n"));
    assert!(!wants_to_save("yes"));
    assert!(!wants_to_save("n"));
    assert!(!wants_to_save(""));
    assert!(!wants_to_save("y y"));
}

fn saved_abandon_wallet(password: &str) -> WalletFile {
    save_wallet(ABANDON_PHRASE, password, &[1u8; 16], &[2u8; 12]).unwrap()
}

#[test]
fn saved_file_holds_hex_salt_nonce_and_ciphertext() {
    let file = saved_abandon_wallet("correct horse");
    assert_eq!(file.salt, "01".repeat(16));
    assert_eq!(file.nonce, "02".repeat(12));
    assert_eq!(file.ciphertext.len(), 2 * (ABANDON_PHRASE.len() + 16));
    assert!(file.ciphertext.chars().all(|c| c.is_ascii_hexdigit() && !c.is_ascii_uppercase()));
    assert_ne!(hex::decode(&file.ciphertext).unwrap()[..ABANDON_PHRASE.len()], ABANDON_PHRASE.as_bytes()[..]);
}

#[test]
fn save_then_load_gives_the_same_wallet() {
    let generated = generate_wallet([0u8; 16]).unwrap();
    let file = save_wallet(&generated.phrase, "correct horse", &[1u8; 16], &[2u8; 12]).unwrap();
    let loaded = load_wallet_from_file(&file, "correct horse").unwrap();
    assert_eq!(loaded.address.text, generated.wallet.address.text);
    assert_eq!(loaded.fingerprint, generated.wallet.fingerprint);
    assert_eq!(loaded.child.encoded, generated.wallet.child.encoded);
    assert_eq!(loaded_existing(&file, "correct horse"), Ok(()));
}

fn loaded_existing(file: &WalletFile, password: &str) -> Result<(), WalletError> {
    load_existing_wallet(file, password)
}

#[test]
fn wrong_password_is_refused() {
    let file = saved_abandon_wallet("correct horse");
    let encrypted = decode_wallet_file(&file).unwrap();
    assert_eq!(unlock_wallet(&encrypted, "wrong horse").unwrap_err(), WalletError::DecryptionFailed);
}

#[test]
fn changed_ciphertext_is_refused() {
    let mut file = saved_abandon_wallet("pw");
    let first = if file.ciphertext.starts_with('0') { "1" } else { "0" };
    file.ciphertext.replace_range(0..1, first);
    assert_eq!(load_existing_wallet(&file, "pw"), Err(WalletError::DecryptionFailed));
}

#[test]
fn file_with_bad_hex_is_refused() {
    let file = WalletFile { salt: "0g".to_string(), nonce: "02".repeat(12), ciphertext: "00".to_string() };
    assert_eq!(load_wallet_from_file(&file, "pw").unwrap_err(), WalletError::InvalidHex);
    let file = WalletFile { salt: "01".to_string(), nonce: "021".to_string(), ciphertext: "00".to_string() };
    assert_eq!(decode_wallet_file(&file).unwrap_err(), WalletError::InvalidHex);
    let file = WalletFile { salt: "AB".to_string(), nonce: "02".repeat(12), ciphertext: "00FF".to_string() };
    let encrypted = decode_wallet_file(&file).unwrap();
    assert_eq!(encrypted.salt, vec![0xab]);
    assert_eq!(encrypted.ciphertext, vec![0x00, 0xff]);
}

#[test]
fn file_with_short_nonce_is_refused() {
    let mut file = saved_abandon_wallet("pw");
    file.nonce = "0202".to_string();
    assert_eq!(load_wallet_from_file(&file, "pw").unwrap_err(), WalletError::InvalidNonceLength);
}

#[test]
fn file_that_keeps_no_mnemonic_is_refused() {
    let file = save_wallet("hello world", "pw", &[3u8; 16], &[4u8; 12]).unwrap();
    assert_eq!(load_wallet_from_file(&file, "pw").unwrap_err(), WalletError::InvalidMnemonic);
}

#[test]
fn generated_phrases_are_twelve_lowercase_words_that_save() {
    for fill in [0x00u8, 0x01, 0x7f, 0x80, 0xa5, 0xff] {
        let (phrase, _) = generate_mnemonic([fill; 16]);
        let words: Vec<&str> = phrase.split(' ').collect();
        assert_eq!(words.len(), 12);
        assert!(words.iter().all(|w| (3..=8).contains(&w.len()) && w.chars().all(|c| c.is_ascii_lowercase())));
        assert!(phrase.len() < 9 * 12);
    }
    let (phrase, _) = generate_mnemonic([0xa5u8; 16]);
    assert!(save_wallet(&phrase, "pw", &[5u8; 16], &[6u8; 12]).is_ok());
}

#[test]
fn generated_receiving_key_sits_at_bip84_depth() {
    let generated = generate_wallet([0xa5u8; 16]).unwrap();
    assert_eq!(generated.wallet.master.depth(), 0);
    assert_eq!(generated.wallet.child.depth(), 5);
    assert_eq!(generated.wallet.child.child_number(), 0);
    assert_eq!(generated.wallet.child.network(), generated.wallet.master.network());
    assert!(generated.wallet.address.text.starts_with("bc1q"));
}

#[test]
fn file_that_keeps_no_utf8_is_refused() {
    let salt = [7u8; 16];
    let nonce = [8u8; 12];
    let mut key = [0u8; 32];
    pbkdf2::pbkdf2_hmac::<sha2::Sha256>(b"pw", &salt, 600_000, &mut key);
    let cipher = aes_gcm::Aes256Gcm::new_from_slice(&key).unwrap();
    let ciphertext = cipher.encrypt(aes_gcm::Nonce::from_slice(&nonce), &[0xffu8, 0xfe][..]).unwrap();
    let file = WalletFile {
        salt: hex::encode(salt),
        nonce: hex::encode(nonce),
        ciphertext: hex::encode(ciphertext),
    };
    assert_eq!(load_wallet_from_file(&file, "pw").unwrap_err(), WalletError::InvalidUtf8);
}

#[test]
fn child_steps_of_the_bip84_path_are_defined() {
    let seed = hex::decode(ABANDON_SEED).unwrap();
    let mut master = seed_to_master_key(&seed).unwrap();
    assert!(is_decodable(&master));
    for index in [0x8000_0054u32, 0x8000_0000, 0, 1, 0xffff_ffff] {
        assert!(child_step_defined(&master, index));
    }
    master.encoded[0] = 0x05;
    assert!(!is_decodable(&master));
    assert!(!child_step_defined(&master, 0));
}

fn hash160(data: &[u8]) -> [u8; 20] {
    let digest = <bitcoin::hashes::hash160::Hash as bitcoin::hashes::Hash>::hash(data);
    <bitcoin::hashes::hash160::Hash as bitcoin::hashes::Hash>::to_byte_array(digest)
}

#[test]
fn public_key_address_and_fingerprint_are_hashes_of_the_key() {
    let seed = hex::decode(ABANDON_SEED).unwrap();
    let master = seed_to_master_key(&seed).unwrap();
    let master_public = private_to_public(&master).unwrap();
    let fingerprint = master_fingerprint(&master).unwrap();
    let master_hash = hash160(&master_public);
    assert_eq!(fingerprint[..], master_hash[..4]);

    let child = derive_child_key(&master).unwrap();
    let public_key = private_to_public(&child).unwrap();
    assert!(public_key[0] == 0x02 || public_key[0] == 0x03);
    let address = public_key_to_address(&public_key).unwrap();
    assert_eq!(address.text.len(), 42);
    assert!(address.text.starts_with("bc1q"));
    let mut script = vec![0x00u8, 0x14];
    script.extend_from_slice(&hash160(&public_key));
    assert_eq!(address.script_pubkey, script);
}

#[test]
fn equal_length_phrases_give_equal_length_ciphertexts() {
    let a = save_wallet("abc def", "one", &[9u8; 16], &[1u8; 12]).unwrap();
    let b = save_wallet("xyz uvw", "two", &[9u8; 16], &[1u8; 12]).unwrap();
    assert_eq!(a.salt, b.salt);
    assert_eq!(a.nonce, b.nonce);
    assert_eq!(a.ciphertext.len(), 2 * ("abc def".len() + 16));
    assert_eq!(a.ciphertext.len(), b.ciphertext.len());
    assert_ne!(a.ciphertext, b.ciphertext);
}

//! A small Bitcoin wallet: BIP39 mnemonics, BIP32/BIP84 key derivation,
//! native segwit addresses, password-encrypted wallet files, UTXO selection
//! and unsigned transaction assembly.

pub mod cipher;
pub mod error;
pub mod hexcodec;
pub mod keys;
pub mod mnemonic;
pub mod transaction;
pub mod wallet;

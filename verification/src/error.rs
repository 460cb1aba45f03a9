//! The ways in which the wallet refuses an input.

use vstd::prelude::*;

verus! {

#[derive(Clone, Copy, PartialEq, Eq, Debug, Structural)]
pub enum WalletError {
    /// The text is not a BIP39 mnemonic (word count, unknown word, checksum).
    InvalidMnemonic,
    /// The derivation path text is not a BIP32 path.
    InvalidDerivationPath,
    /// A key could not be derived (invalid secret key material, or too deep).
    KeyDerivation,
    /// The bytes are not a secp256k1 public key.
    InvalidPublicKey,
    /// A wallet file field is not hexadecimal text.
    InvalidHex,
    /// The wallet file's nonce is not 12 bytes long.
    InvalidNonceLength,
    /// The secret is too long for AES-256-GCM.
    PlaintextTooLong,
    /// AES-256-GCM refused the ciphertext: wrong password or a changed file.
    DecryptionFailed,
    /// The decrypted bytes are not UTF-8 text.
    InvalidUtf8,
    /// The recipient is not an address, or not one for this network.
    InvalidAddress,
    /// The amount to send is not a whole number of satoshis that fits in 64 bits.
    InvalidAmount,
    /// The transaction id of the UTXO at this position is not 64 hex digits.
    InvalidTxid { index: usize },
    /// The UTXOs do not cover the amount plus the placeholder fee.
    InsufficientFunds { available: u64, required: u64 },
    /// The selected UTXOs do not cover the amount plus the estimated fee.
    InsufficientFundsAfterFee { available: u64, required: u64 },
    /// The operation is not implemented yet.
    NotImplemented,
}

} // verus!

# btc_wallet

A small Bitcoin wallet whose logic is verified with Verus.

- `src/` is the library. Each public function has a contract over
  mathematical models (spec functions, `Seq`, `nat`, views):
  - `mnemonic`: BIP39 phrases from entropy, seeds from phrases;
  - `keys`: BIP32 extended private keys (held in their 78-byte
    serialization), child derivation, public keys, native segwit addresses,
    and the grammar of derivation paths;
  - `wallet`: the key chain from entropy or seed to the BIP84 receiving
    address, and the password-encrypted wallet file (PBKDF2-HMAC-SHA256,
    AES-256-GCM, hex fields) with the law that loading a saved file gives
    back the wallet of the saved phrase;
  - `transaction`: UTXO selection, size estimate, assembly of the unsigned
    payment with value conservation, balance;
  - `hexcodec`, `cipher`: the byte encodings and cryptography the file uses.

  Calls into `bip39`, `bitcoin`, `aes-gcm`, `pbkdf2`/`sha2` and `hex` sit
  behind small trusted wrappers whose doc comments say what is assumed.
- `app/` is the command-line program: menu, prompts, `/dev/urandom`, the
  YAML wallet file, the block explorer requests and the floating-point fee
  and BTC display.
- `tests/` runs the library against known BIP39/BIP32/BIP84 vectors and the
  edge cases of each error.

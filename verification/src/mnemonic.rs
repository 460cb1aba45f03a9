//! BIP39 mnemonic phrases: from entropy to words, from words to the seed.
//! The library holds a mnemonic as its phrase: English words separated by
//! single spaces, as the phrase is shown to the user and stored encrypted.

use vstd::prelude::*;

verus! {

/// The English BIP39 phrase for `entropy`: words joined by single spaces.
pub uninterp spec fn bip39_phrase(entropy: Seq<u8>) -> Seq<char>;

/// What parsing text as a BIP39 mnemonic gives: `None` for a wrong word
/// count, an unknown word or a bad checksum, otherwise the mnemonic written
/// back as its canonical phrase.
pub uninterp spec fn bip39_parse(text: Seq<char>) -> Option<Seq<char>>;

/// The 64-byte BIP39 seed (PBKDF2-HMAC-SHA512, 2048 rounds) of the mnemonic
/// with canonical phrase `phrase` and the given passphrase.
pub uninterp spec fn bip39_seed(phrase: Seq<char>, passphrase: Seq<char>) -> Seq<u8>;

/// Entropy lengths that BIP39 accepts: 16 to 32 bytes, a multiple of 4.
pub open spec fn valid_entropy_len(len: nat) -> bool {
    len % 4 == 0 && 16 <= len <= 32
}

/// A character of a phrase: a lowercase ASCII letter, or the space between
/// two words.
pub open spec fn is_phrase_char(c: char) -> bool {
    ('a' <= c && c <= 'z') || c == ' '
}

/// The number of spaces in a text.
pub open spec fn count_spaces(text: Seq<char>) -> nat
    decreases text.len(),
{
    if text.len() == 0 {
        0
    } else {
        count_spaces(text.drop_last()) + if text.last() == ' ' {
            1nat
        } else {
            0nat
        }
    }
}

/// Whether `phrase` is `n` words of the English list joined by single
/// spaces: lowercase ASCII letters, no space at either end or next to
/// another, `n - 1` spaces; the longest English words have 8 letters, so the
/// phrase is shorter than `9 * n` characters.
pub open spec fn is_phrase_of(phrase: Seq<char>, n: nat) -> bool {
    &&& 0 < phrase.len() < 9 * n
    &&& forall|i: int| 0 <= i < phrase.len() ==> is_phrase_char(#[trigger] phrase[i])
    &&& phrase[0] != ' '
    &&& phrase.last() != ' '
    &&& forall|i: int| 0 < i < phrase.len() && #[trigger] phrase[i] == ' ' ==> phrase[i - 1] != ' '
    &&& count_spaces(phrase) + 1 == n
}

#[verifier::external_type_specification]
#[verifier::external_body]
pub struct ExBip39Error(bip39::Error);

/// `bip39::Mnemonic::from_entropy`, written back with `to_string`.
/// The claims: it fails exactly for entropy lengths other than 16..32 bytes in
/// steps of 4 (the crate checks the bit count); the phrase is the named one;
/// it holds `len * 3 / 4` words of the English list (all lowercase ASCII, 3
/// to 8 letters), which `Display` joins with single spaces; and parsing that phrase gives the same mnemonic back (`Display` joins the
/// words with a space, the English list is the only one compiled in, and the
/// checksum word was computed from the same entropy).
#[verifier::external_body]
pub(crate) fn phrase_from_entropy(entropy: &[u8]) -> (res: Result<String, bip39::Error>)
    ensures
        res is Ok <==> valid_entropy_len(entropy@.len()),
        res matches Ok(p) ==> p@ == bip39_phrase(entropy@),
        res matches Ok(p) ==> is_phrase_of(p@, entropy@.len() * 3 / 4),
        res matches Ok(p) ==> bip39_parse(p@) == Some(p@),
{
    match bip39::Mnemonic::from_entropy(entropy) {
        Ok(m) => Ok(m.to_string()),
        Err(e) => Err(e),
    }
}

/// `bip39::Mnemonic::to_seed` on the mnemonic that `Mnemonic::parse` reads
/// from `phrase`. The claims: an error exactly when parsing fails; otherwise
/// the 64-byte named seed of the parsed mnemonic.
#[verifier::external_body]
pub(crate) fn seed_from_phrase(phrase: &str, passphrase: &str) -> (res: Result<Vec<u8>, bip39::Error>)
    ensures
        res is Ok <==> bip39_parse(phrase@) is Some,
        res matches Ok(seed) ==> seed@ == bip39_seed(bip39_parse(phrase@)->0, passphrase@),
        res matches Ok(seed) ==> seed@.len() == 64,
{
    match bip39::Mnemonic::parse(phrase) {
        Ok(m) => Ok(m.to_seed(passphrase).to_vec()),
        Err(e) => Err(e),
    }
}

} // verus!

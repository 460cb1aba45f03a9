//! UTXO selection, size and fee estimation, and assembly of an unsigned
//! transaction that pays a recipient and returns the change.

use vstd::prelude::*;
use crate::error::WalletError;
use crate::hexcodec::hex_decode_spec;
use crate::keys::{address_script, decimal_value, script_for_address, Network};
use crate::wallet::{str_trim, trim_spec};

verus! {

/// An unspent output at the wallet's address, as the block explorer lists it.
#[derive(Clone, Debug)]
pub struct Utxo {
    /// The id of the transaction that created it, as 64 hexadecimal digits.
    pub txid: String,
    /// The output's index within that transaction.
    pub vout: u32,
    /// Its amount in satoshis.
    pub value: u64,
}

/// How many of the UTXOs, from the first, are spent, and their total value.
#[derive(Clone, Copy, Debug, PartialEq, Eq, Structural)]
pub struct UtxoSelection {
    pub count: usize,
    pub total: u64,
}

/// A transaction input: the outpoint it spends. Its script, witness and
/// sequence are the defaults of an unsigned input (empty, empty, 0xFFFFFFFF).
#[derive(Clone, Copy, Debug)]
pub struct TxInput {
    /// The previous transaction's id in internal (non-reversed) byte order.
    pub txid: [u8; 32],
    pub vout: u32,
}

/// A transaction output: an amount locked to an output script.
#[derive(Clone, Debug)]
pub struct TxOutput {
    pub value: u64,
    pub script_pubkey: Vec<u8>,
}

/// A transaction before signing.
#[derive(Clone, Debug)]
pub struct UnsignedTransaction {
    pub version: i32,
    pub lock_time: u32,
    pub inputs: Vec<TxInput>,
    pub outputs: Vec<TxOutput>,
}

/// The fee assumed while choosing UTXOs, before the size is known.
pub const PLACEHOLDER_FEE: u64 = 500;

/// Outputs of a payment: the recipient and the change.
pub const PAYMENT_OUTPUTS: u64 = 2;

/// The transaction version in use.
pub const TX_VERSION: i32 = 2;

/// No time lock: the transaction can be mined at once.
pub const TX_LOCK_TIME: u32 = 0;

/// The total value of the first `n` UTXOs.
pub open spec fn values_sum(utxos: Seq<Utxo>, n: int) -> int
    decreases n,
{
    if n <= 0 || n > utxos.len() {
        0
    } else {
        values_sum(utxos, n - 1) + utxos[n - 1].value
    }
}

/// Every non-empty prefix shorter than `k` stays below the target.
pub open spec fn prefixes_below(utxos: Seq<Utxo>, target: int, k: int) -> bool {
    forall|j: int| 1 <= j < k ==> #[trigger] values_sum(utxos, j) < target
}

/// `k` is where the selection stops: at the first prefix that reaches the
/// target, or after all UTXOs when none does.
pub open spec fn is_selection_count(utxos: Seq<Utxo>, target: int, k: int) -> bool {
    &&& 0 <= k <= utxos.len()
    &&& (utxos.len() > 0 ==> k >= 1)
    &&& prefixes_below(utxos, target, k)
    &&& (k == utxos.len() || values_sum(utxos, k) >= target)
}

/// The running total of the selection never passes `u64::MAX`.
pub open spec fn selection_fits(utxos: Seq<Utxo>, target: int) -> bool {
    forall|k: int|
        0 <= k <= utxos.len() && #[trigger] prefixes_below(utxos, target, k) ==> values_sum(utxos, k)
            <= u64::MAX
}

/// The size estimate in bytes: 11 bytes of overhead, 68 per segwit input and
/// 31 per output.
pub open spec fn estimated_size_spec(num_inputs: int, num_outputs: int) -> int {
    11 + 68 * num_inputs + 31 * num_outputs
}

/// A transaction id as text: 64 bytes of hexadecimal digits.
pub open spec fn txid_text_valid(text: Seq<char>) -> bool {
    vstd::utf8::encode_utf8(text).len() == 64 && hex_decode_spec(vstd::utf8::encode_utf8(text)) is Some
}

/// The internal bytes of a transaction id written as text: the digits
/// decoded, in reverse order.
pub open spec fn txid_bytes(text: Seq<char>) -> Seq<u8> {
    hex_decode_spec(vstd::utf8::encode_utf8(text))->0.reverse()
}

/// The total value of some outputs.
pub open spec fn outputs_value(outputs: Seq<TxOutput>) -> int
    decreases outputs.len(),
{
    if outputs.len() == 0 {
        0
    } else {
        outputs_value(outputs.drop_last()) + outputs.last().value
    }
}

/// The sum of the values, counting a missing value as 0.
pub open spec fn balance_sum(values: Seq<Option<u64>>, n: int) -> int
    decreases n,
{
    if n <= 0 || n > values.len() {
        0
    } else {
        balance_sum(values, n - 1) + value_or_zero(values[n - 1])
    }
}

/// A UTXO value, a missing one counting as 0.
pub open spec fn value_or_zero(value: Option<u64>) -> int {
    match value {
        Some(v) => v as int,
        None => 0,
    }
}

proof fn lemma_balance_sum_prefix(values: Seq<Option<u64>>, n: int, k: int)
    requires
        0 <= k <= n <= values.len(),
    ensures
        balance_sum(values, k) == balance_sum(values.subrange(0, n), k),
    decreases k,
{
    if k > 0 {
        lemma_balance_sum_prefix(values, n, k - 1);
    }
}

proof fn lemma_balance_total_last(values: Seq<Option<u64>>)
    requires
        values.len() > 0,
    ensures
        balance_sum(values, values.len() as int) == balance_sum(values.drop_last(), values.len() - 1)
            + value_or_zero(values.last()),
{
    lemma_balance_sum_prefix(values, values.len() - 1, values.len() - 1);
    assert(values.subrange(0, values.len() - 1) =~= values.drop_last());
}

proof fn lemma_balance_total_remove(values: Seq<Option<u64>>, j: int)
    requires
        0 <= j < values.len(),
    ensures
        balance_sum(values, values.len() as int) == balance_sum(values.remove(j), values.len() - 1)
            + value_or_zero(values[j]),
    decreases values.len(),
{
    lemma_balance_total_last(values);
    if j == values.len() - 1 {
        assert(values.remove(j) =~= values.drop_last());
    } else {
        let rest = values.remove(j);
        lemma_balance_total_remove(values.drop_last(), j);
        assert(rest.drop_last() =~= values.drop_last().remove(j));
        assert(rest.last() == values.last());
        lemma_balance_total_last(rest);
    }
}

/// Law: a readable value counts in full and an unreadable one not at all:
/// the balance of no UTXOs is 0, and appending a UTXO raises the balance by
/// exactly its value (or by nothing when the value could not be read).
pub proof fn lemma_balance_push(values: Seq<Option<u64>>, v: u64)
    ensures
        balance_sum(Seq::<Option<u64>>::empty(), 0) == 0,
        balance_sum(values.push(Some(v)), (values.len() + 1) as int) == balance_sum(values, values.len() as int) + v,
        balance_sum(values.push(None), (values.len() + 1) as int) == balance_sum(values, values.len() as int),
        balance_sum(seq![Some(v)], 1) == v,
{
    lemma_balance_total_last(values.push(Some(v)));
    lemma_balance_total_last(values.push(None));
    assert(values.push(Some(v)).drop_last() =~= values);
    assert(values.push(None).drop_last() =~= values);
    assert(seq![Some(v)][0] == Some(v));
    reveal_with_fuel(balance_sum, 2);
}

/// Law: every input adds 68 bytes to the size estimate; with no inputs a
/// payment's two outputs and the overhead take 73 bytes.
pub proof fn lemma_estimated_size_per_input(n: nat)
    ensures
        estimated_size_spec(0, PAYMENT_OUTPUTS as int) == 73,
        estimated_size_spec((n + 1) as int, PAYMENT_OUTPUTS as int) == estimated_size_spec(n as int, PAYMENT_OUTPUTS as int) + 68,
        estimated_size_spec(n as int, PAYMENT_OUTPUTS as int) == 73 + 68 * n,
{
}

/// Law: the balance does not depend on the order in which the explorer
/// lists the UTXOs: any two lists with the same values, each as often, have
/// the same balance.
pub proof fn lemma_balance_permutation(a: Seq<Option<u64>>, b: Seq<Option<u64>>)
    requires
        a.to_multiset() == b.to_multiset(),
    ensures
        balance_sum(a, a.len() as int) == balance_sum(b, b.len() as int),
    decreases a.len(),
{
    broadcast use vstd::seq_lib::group_to_multiset_ensures;

    if a.len() == 0 {
        assert(a.to_multiset().len() == 0);
        assert(b.to_multiset().len() == 0);
        assert(b.len() == 0);
    } else {
        let x = a.last();
        assert(a.contains(x)) by {
            assert(a[a.len() - 1] == x);
        }
        assert(b.to_multiset().count(x) > 0);
        assert(b.contains(x));
        let j = choose|j: int| 0 <= j < b.len() && b[j] == x;
        assert(a.remove(a.len() - 1) =~= a.drop_last());
        assert(a.drop_last().to_multiset() == a.to_multiset().remove(x));
        assert(b.remove(j).to_multiset() == b.to_multiset().remove(x));
        lemma_balance_permutation(a.drop_last(), b.remove(j));
        lemma_balance_total_last(a);
        lemma_balance_total_remove(b, j);
    }
}

/// Law: the running total of the UTXOs counts each value in full: nothing
/// before the first, and each further UTXO adds exactly its value.
pub proof fn lemma_values_sum_step(utxos: Seq<Utxo>, n: int)
    requires
        0 < n <= utxos.len(),
    ensures
        values_sum(utxos, 0) == 0,
        values_sum(utxos, n) == values_sum(utxos, n - 1) + utxos[n - 1].value,
        values_sum(utxos.push(utxos[n - 1]), (utxos.len() + 1) as int) == values_sum(utxos, utxos.len() as int)
            + utxos[n - 1].value,
{
    lemma_values_sum_prefix(utxos.push(utxos[n - 1]), utxos.len() as int, utxos.len() as int);
    assert(utxos.push(utxos[n - 1]).subrange(0, utxos.len() as int) =~= utxos);
}

proof fn lemma_values_sum_prefix(utxos: Seq<Utxo>, n: int, k: int)
    requires
        0 <= k <= n <= utxos.len(),
    ensures
        values_sum(utxos, k) == values_sum(utxos.subrange(0, n), k),
    decreases k,
{
    if k > 0 {
        lemma_values_sum_prefix(utxos, n, k - 1);
    }
}

/// Law: a single UTXO that covers the target is selected on its own, and
/// the selection's total is its full value.
pub proof fn lemma_single_utxo_selection(u: Utxo, target: int)
    requires
        u.value >= target,
    ensures
        values_sum(seq![u], 1) == u.value,
        is_selection_count(seq![u], target, 1),
        forall|k: int| #[trigger] is_selection_count(seq![u], target, k) ==> k == 1,
{
    assert(seq![u][0] == u);
    reveal_with_fuel(values_sum, 2);
}

/// Law: prefix totals are the values added up from the front: the total of
/// the first `a + b` UTXOs is the total of the first `a` plus the total of the
/// next `b` on their own.
pub proof fn lemma_values_sum_split(utxos: Seq<Utxo>, a: int, b: int)
    requires
        0 <= a,
        0 <= b,
        a + b <= utxos.len(),
    ensures
        values_sum(utxos, a + b) == values_sum(utxos, a) + values_sum(utxos.subrange(a, a + b), b),
    decreases b,
{
    if b > 0 {
        lemma_values_sum_split(utxos, a, b - 1);
        let tail = utxos.subrange(a, a + b);
        lemma_values_sum_prefix(tail, b - 1, b - 1);
        assert(tail.subrange(0, b - 1) =~= utxos.subrange(a, a + b - 1));
    }
}

proof fn lemma_values_sum_monotone(utxos: Seq<Utxo>, a: int, b: int)
    requires
        0 <= a <= b <= utxos.len(),
    ensures
        values_sum(utxos, a) <= values_sum(utxos, b),
    decreases b - a,
{
    if a < b {
        lemma_values_sum_monotone(utxos, a, b - 1);
    }
}

proof fn lemma_balance_sum_monotone(values: Seq<Option<u64>>, a: int, b: int)
    requires
        0 <= a <= b <= values.len(),
    ensures
        balance_sum(values, a) <= balance_sum(values, b),
    decreases b - a,
{
    if a < b {
        lemma_balance_sum_monotone(values, a, b - 1);
    }
}

#[verifier::external_type_specification]
#[verifier::external_body]
pub struct ExHexToArrayError(bitcoin::hashes::hex::HexToArrayError);

/// `Txid::from_str`, as the 32 bytes in internal order. The claims, from the
/// crate's hex parsing: the text must be exactly 64 bytes of hexadecimal
/// digits of either case; the bytes are those digits decoded and reversed (a
/// transaction id is displayed byte-reversed).
#[verifier::external_body]
pub(crate) fn parse_txid(text: &str) -> (res: Result<[u8; 32], bitcoin::hashes::hex::HexToArrayError>)
    ensures
        res is Ok <==> txid_text_valid(text@),
        res matches Ok(id) ==> id@ == txid_bytes(text@),
{
    match text.parse::<bitcoin::Txid>() {
        Ok(t) => Ok(bitcoin::hashes::Hash::to_byte_array(t)),
        Err(e) => Err(e),
    }
}

/// `u64::from_str`: an optional `+`, then one or more ASCII digits, with a
/// value that fits in 64 bits.
pub open spec fn parse_u64_spec(text: Seq<char>) -> Option<u64> {
    let digits = if text.len() > 0 && text[0] == '+' {
        text.drop_first()
    } else {
        text
    };
    if digits.len() == 0 || exists|i: int| 0 <= i < digits.len() && !('0' <= #[trigger] digits[i] <= '9') {
        None
    } else if decimal_value(digits) > u64::MAX {
        None
    } else {
        Some(decimal_value(digits) as u64)
    }
}

/// `str::parse::<u64>` (`u64::from_str`, radix 10): the value of an
/// optional `+` followed by only ASCII digits, `None` on any other text or
/// on a value past `u64::MAX`, as the std documentation of
/// `from_str_radix` describes it.
#[verifier::external_body]
fn parse_u64(text: &str) -> (res: Option<u64>)
    ensures
        res == parse_u64_spec(text@),
{
    text.parse::<u64>().ok()
}

/// The amount to send, typed as a line of text: surrounding white space is
/// ignored, and the rest must be a whole number of satoshis.
pub fn parse_amount(text: &str) -> (res: Result<u64, WalletError>)
    ensures
        match parse_u64_spec(trim_spec(text@)) {
            Some(v) => res == Ok::<u64, WalletError>(v),
            None => res == Err::<u64, WalletError>(WalletError::InvalidAmount),
        },
{
    match parse_u64(str_trim(text)) {
        Some(v) => Ok(v),
        None => Err(WalletError::InvalidAmount),
    }
}

/// The output script of a recipient address, which must be valid on the
/// wallet's network (mainnet).
pub fn recipient_script(address: &str) -> (res: Result<Vec<u8>, WalletError>)
    ensures
        res is Ok <==> address_script(address@, Network::Bitcoin) is Some,
        res matches Ok(s) ==> address_script(address@, Network::Bitcoin) == Some(s@),
        res matches Err(e) ==> e == WalletError::InvalidAddress,
{
    match script_for_address(address, Network::Bitcoin) {
        Ok(s) => Ok(s),
        Err(_) => Err(WalletError::InvalidAddress),
    }
}

/// Signing is not implemented yet: always refuses.
pub fn sign_transaction() -> (res: Result<(), WalletError>)
    ensures
        res == Err::<(), WalletError>(WalletError::NotImplemented),
{
    Err(WalletError::NotImplemented)
}

/// Broadcasting is not implemented yet: always refuses.
pub fn broadcast_transaction() -> (res: Result<(), WalletError>)
    ensures
        res == Err::<(), WalletError>(WalletError::NotImplemented),
{
    Err(WalletError::NotImplemented)
}

/// Sending chains building, signing and broadcasting; as signing is not
/// implemented yet, it always refuses.
pub fn send_transaction() -> (res: Result<(), WalletError>)
    ensures
        res == Err::<(), WalletError>(WalletError::NotImplemented),
{
    sign_transaction()?;
    broadcast_transaction()
}

/// Chooses UTXOs in the order given until they cover `send_amount` plus the
/// placeholder fee. Succeeds exactly when all UTXOs together cover it; then
/// the selection is the shortest covering prefix. Otherwise reports the whole
/// balance and the amount required.
pub fn select_utxos(utxos: &Vec<Utxo>, send_amount: u64) -> (res: Result<UtxoSelection, WalletError>)
    requires
        send_amount + PLACEHOLDER_FEE <= u64::MAX,
        selection_fits(utxos@, send_amount + PLACEHOLDER_FEE),
    ensures
        res is Ok <==> values_sum(utxos@, utxos@.len() as int) >= send_amount + PLACEHOLDER_FEE,
        res matches Ok(sel) ==> {
            &&& is_selection_count(utxos@, send_amount + PLACEHOLDER_FEE, sel.count as int)
            &&& sel.total == values_sum(utxos@, sel.count as int)
            &&& sel.total >= send_amount + PLACEHOLDER_FEE
        },
        res matches Err(e) ==> e == (WalletError::InsufficientFunds {
            available: values_sum(utxos@, utxos@.len() as int) as u64,
            required: (send_amount + PLACEHOLDER_FEE) as u64,
        }),
{
    let target = send_amount + PLACEHOLDER_FEE;
    let mut count: usize = 0;
    let mut total: u64 = 0;
    while (count < utxos.len() && total < target)
        invariant
            count <= utxos@.len(),
            target == send_amount + PLACEHOLDER_FEE,
            selection_fits(utxos@, target as int),
            total == values_sum(utxos@, count as int),
            prefixes_below(utxos@, target as int, count as int),
        decreases utxos@.len() - count,
    {
        assert(prefixes_below(utxos@, target as int, count + 1));
        total = total + utxos[count].value;
        count = count + 1;
    }
    proof {
        lemma_values_sum_monotone(utxos@, count as int, utxos@.len() as int);
    }
    if total < target {
        Err(WalletError::InsufficientFunds { available: total, required: target })
    } else {
        Ok(UtxoSelection { count, total })
    }
}

/// The change that a payment returns to the wallet.
pub open spec fn change_spec(total: int, send_amount: int, fee: int) -> int {
    total - send_amount - fee
}

/// The position of the first of the first `count` UTXOs whose transaction id
/// text is not valid, if any.
pub open spec fn first_invalid_txid(utxos: Seq<Utxo>, count: int, index: int) -> bool {
    &&& 0 <= index < count
    &&& !txid_text_valid(utxos[index].txid@)
    &&& forall|j: int| 0 <= j < index ==> txid_text_valid(#[trigger] utxos[j].txid@)
}

/// Assembles the unsigned payment from the selected UTXOs once the fee is
/// known: refuses when the selection does not cover the amount plus the fee;
/// otherwise one input per selected UTXO, in order (refusing at the first
/// transaction id that is not 64 hexadecimal digits), an output of
/// `send_amount` to the recipient's script and, when something is left, an
/// output of the change to the wallet's own script. Version 2, lock time 0.
pub fn build_transaction(
    utxos: &Vec<Utxo>,
    selection: &UtxoSelection,
    send_amount: u64,
    fee: u64,
    recipient_script: &Vec<u8>,
    change_script: &Vec<u8>,
) -> (res: Result<UnsignedTransaction, WalletError>)
    requires
        selection.count <= utxos@.len(),
        selection.total == values_sum(utxos@, selection.count as int),
        send_amount + fee <= u64::MAX,
    ensures
        selection.total < send_amount + fee ==> res == Err::<UnsignedTransaction, WalletError>(
            WalletError::InsufficientFundsAfterFee {
                available: selection.total,
                required: (send_amount + fee) as u64,
            },
        ),
        selection.total >= send_amount + fee ==> match res {
            Err(e) => exists|index: int|
                first_invalid_txid(utxos@, selection.count as int, index) && e == (
                WalletError::InvalidTxid { index: index as usize }),
            Ok(tx) => forall|j: int| 0 <= j < selection.count ==> txid_text_valid(#[trigger] utxos@[j].txid@),
        },
        res matches Ok(tx) ==> {
            &&& tx.version == TX_VERSION
            &&& tx.lock_time == TX_LOCK_TIME
            &&& tx.inputs@.len() == selection.count
            &&& forall|j: int|
                0 <= j < selection.count ==> {
                    &&& (#[trigger] tx.inputs@[j]).txid@ == txid_bytes(utxos@[j].txid@)
                    &&& tx.inputs@[j].vout == utxos@[j].vout
                }
        },
        res matches Ok(tx) ==> {
            let change = change_spec(selection.total as int, send_amount as int, fee as int);
            &&& change >= 0
            &&& tx.outputs@.len() == if change > 0 { 2int } else { 1int }
            &&& tx.outputs@[0].value == send_amount
            &&& tx.outputs@[0].script_pubkey@ == recipient_script@
            &&& change > 0 ==> tx.outputs@[1].value == change && tx.outputs@[1].script_pubkey@
                == change_script@
        },
        res matches Ok(tx) ==> outputs_value(tx.outputs@) + fee == values_sum(utxos@, selection.count as int),
{
    let required = send_amount + fee;
    if selection.total < required {
        return Err(WalletError::InsufficientFundsAfterFee { available: selection.total, required });
    }
    let change = selection.total - send_amount - fee;
    let mut inputs: Vec<TxInput> = Vec::new();
    let mut k: usize = 0;
    while k < selection.count
        invariant
            k <= selection.count <= utxos@.len(),
            selection.total >= send_amount + fee,
            inputs@.len() == k,
            forall|j: int| 0 <= j < k ==> txid_text_valid(#[trigger] utxos@[j].txid@),
            forall|j: int|
                0 <= j < k ==> {
                    &&& (#[trigger] inputs@[j]).txid@ == txid_bytes(utxos@[j].txid@)
                    &&& inputs@[j].vout == utxos@[j].vout
                },
        decreases selection.count - k,
    {
        match parse_txid(utxos[k].txid.as_str()) {
            Ok(id) => {
                inputs.push(TxInput { txid: id, vout: utxos[k].vout });
            },
            Err(_) => {
                assert(first_invalid_txid(utxos@, selection.count as int, k as int));
                return Err(WalletError::InvalidTxid { index: k });
            },
        }
        k = k + 1;
    }
    let mut outputs: Vec<TxOutput> = Vec::new();
    let recipient = recipient_script.clone();
    assert(recipient@ =~= recipient_script@);
    outputs.push(TxOutput { value: send_amount, script_pubkey: recipient });
    if change > 0 {
        let own = change_script.clone();
        assert(own@ =~= change_script@);
        outputs.push(TxOutput { value: change, script_pubkey: own });
        proof {
            assert(outputs@.drop_last().drop_last() =~= Seq::<TxOutput>::empty());
            assert(outputs@.drop_last() =~= seq![outputs@[0]]);
            reveal_with_fuel(outputs_value, 3);
        }
    } else {
        proof {
            assert(outputs@.drop_last() =~= Seq::<TxOutput>::empty());
            reveal_with_fuel(outputs_value, 2);
        }
    }
    Ok(UnsignedTransaction { version: TX_VERSION, lock_time: TX_LOCK_TIME, inputs, outputs })
}

/// The estimated size in bytes of a payment with `num_inputs` inputs and
/// its two outputs.
pub fn estimate_tx_size(num_inputs: u64) -> (size: u64)
    requires
        estimated_size_spec(num_inputs as int, PAYMENT_OUTPUTS as int) <= u64::MAX,
    ensures
        size == estimated_size_spec(num_inputs as int, PAYMENT_OUTPUTS as int),
        size == 73 + 68 * num_inputs,
{
    11 + 68 * num_inputs + 31 * PAYMENT_OUTPUTS
}

/// The wallet balance: the sum of the UTXO values, a value that could not be
/// read counting as 0.
pub fn check_balance(values: &Vec<Option<u64>>) -> (total: u64)
    requires
        balance_sum(values@, values@.len() as int) <= u64::MAX,
    ensures
        total == balance_sum(values@, values@.len() as int),
        values@.len() == 1 ==> total == match values@[0] {
            Some(v) => v,
            None => 0u64,
        },
{
    let mut total: u64 = 0;
    let mut i: usize = 0;
    while i < values.len()
        invariant
            i <= values@.len(),
            total == balance_sum(values@, i as int),
            balance_sum(values@, values@.len() as int) <= u64::MAX,
        decreases values@.len() - i,
    {
        proof {
            lemma_balance_sum_monotone(values@, i + 1, values@.len() as int);
        }
        let v: u64 = match values[i] {
            Some(v) => v,
            None => 0,
        };
        total = total + v;
        i = i + 1;
    }
    total
}

} // verus!

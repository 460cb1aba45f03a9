use btc_wallet::error::WalletError;
use btc_wallet::transaction::{
    broadcast_transaction, build_transaction, check_balance, estimate_tx_size, parse_amount, recipient_script,
    select_utxos, send_transaction, sign_transaction, Utxo, UtxoSelection, PLACEHOLDER_FEE,
};

const TXID_A: &str = "ffeeddccbbaa99887766554433221100ffeeddccbbaa99887766554433221100";
const TXID_B: &str = "00112233445566778899AABBCCDDEEFF00112233445566778899aabbccddeeff";

fn utxo(txid: &str, vout: u32, value: u64) -> Utxo {
    Utxo { txid: txid.to_string(), vout, value }
}

#[test]
fn balance_sums_values_and_skips_unreadable_ones() {
    assert_eq!(check_balance(&vec![Some(1000), None, Some(5)]), 1005);
    assert_eq!(check_balance(&vec![]), 0);
    assert_eq!(check_balance(&vec![None]), 0);
}

#[test]
fn selection_stops_at_first_covering_prefix() {
    let utxos = vec![utxo(TXID_A, 0, 1000), utxo(TXID_B, 1, 2000), utxo(TXID_A, 2, 4000)];
    assert_eq!(select_utxos(&utxos, 2000), Ok(UtxoSelection { count: 2, total: 3000 }));
    assert_eq!(select_utxos(&utxos, 500), Ok(UtxoSelection { count: 1, total: 1000 }));
    assert_eq!(select_utxos(&utxos, 2500), Ok(UtxoSelection { count: 2, total: 3000 }));
    assert_eq!(select_utxos(&utxos, 2501), Ok(UtxoSelection { count: 3, total: 7000 }));
}

#[test]
fn selection_reports_insufficient_funds() {
    let utxos = vec![utxo(TXID_A, 0, 1000), utxo(TXID_B, 1, 2000)];
    assert_eq!(
        select_utxos(&utxos, 2600),
        Err(WalletError::InsufficientFunds { available: 3000, required: 3100 })
    );
    assert_eq!(
        select_utxos(&vec![], 0),
        Err(WalletError::InsufficientFunds { available: 0, required: PLACEHOLDER_FEE })
    );
}

#[test]
fn size_estimate_counts_inputs_and_two_outputs() {
    assert_eq!(estimate_tx_size(0), 73);
    assert_eq!(estimate_tx_size(1), 141);
    assert_eq!(estimate_tx_size(3), 277);
}

#[test]
fn transaction_pays_recipient_and_returns_change() {
    let utxos = vec![utxo(TXID_A, 3, 1000), utxo(TXID_B, 1, 2000), utxo(TXID_A, 2, 4000)];
    let selection = select_utxos(&utxos, 2000).unwrap();
    let recipient = vec![0x00, 0x14, 0xaa];
    let change = vec![0x00, 0x14, 0xbb];
    let tx = build_transaction(&utxos, &selection, 2000, 209, &recipient, &change).unwrap();
    assert_eq!(tx.version, 2);
    assert_eq!(tx.lock_time, 0);
    assert_eq!(tx.inputs.len(), 2);
    let mut expected_a = hex::decode(TXID_A).unwrap();
    expected_a.reverse();
    assert_eq!(tx.inputs[0].txid.to_vec(), expected_a);
    assert_eq!(tx.inputs[0].vout, 3);
    let mut expected_b = hex::decode(TXID_B).unwrap();
    expected_b.reverse();
    assert_eq!(tx.inputs[1].txid.to_vec(), expected_b);
    assert_eq!(tx.inputs[1].vout, 1);
    assert_eq!(tx.outputs.len(), 2);
    assert_eq!(tx.outputs[0].value, 2000);
    assert_eq!(tx.outputs[0].script_pubkey, recipient);
    assert_eq!(tx.outputs[1].value, 791);
    assert_eq!(tx.outputs[1].script_pubkey, change);
    let out: u64 = tx.outputs.iter().map(|o| o.value).sum();
    assert_eq!(out + 209, selection.total);
}

#[test]
fn transaction_without_change_has_one_output() {
    let utxos = vec![utxo(TXID_A, 0, 3000)];
    let selection = select_utxos(&utxos, 2000).unwrap();
    let tx = build_transaction(&utxos, &selection, 2000, 1000, &vec![1], &vec![2]).unwrap();
    assert_eq!(tx.outputs.len(), 1);
    assert_eq!(tx.outputs[0].value, 2000);
}

#[test]
fn transaction_short_after_fee_is_refused() {
    let utxos = vec![utxo(TXID_A, 0, 3000)];
    let selection = select_utxos(&utxos, 2000).unwrap();
    assert_eq!(
        build_transaction(&utxos, &selection, 2000, 1001, &vec![1], &vec![2]).unwrap_err(),
        WalletError::InsufficientFundsAfterFee { available: 3000, required: 3001 }
    );
}

#[test]
fn transaction_with_bad_txid_is_refused() {
    let utxos = vec![utxo(TXID_A, 0, 100), utxo("abcd", 0, 100), utxo("zz", 1, 5000)];
    let selection = select_utxos(&utxos, 4000).unwrap();
    assert_eq!(selection.count, 3);
    assert_eq!(
        build_transaction(&utxos, &selection, 4000, 100, &vec![1], &vec![2]).unwrap_err(),
        WalletError::InvalidTxid { index: 1 }
    );
}

#[test]
fn recipient_must_be_a_mainnet_address() {
    assert_eq!(
        hex::encode(recipient_script("bc1qw508d6qejxtdg4y5r3zarvary0c5xw7kv8f3t4").unwrap()),
        "0014751e76e8199196d454941c45d1b3a323f1433bd6"
    );
    assert_eq!(
        recipient_script("tb1qw508d6qejxtdg4y5r3zarvary0c5xw7kxpjzsx").unwrap_err(),
        WalletError::InvalidAddress
    );
    assert_eq!(recipient_script("not an address").unwrap_err(), WalletError::InvalidAddress);
}

#[test]
fn signing_broadcasting_and_sending_are_not_implemented() {
    assert_eq!(sign_transaction(), Err(WalletError::NotImplemented));
    assert_eq!(broadcast_transaction(), Err(WalletError::NotImplemented));
    assert_eq!(send_transaction(), Err(WalletError::NotImplemented));
}

#[test]
fn balance_does_not_depend_on_order() {
    let values = vec![Some(1000), None, Some(5), Some(70), Some(1000)];
    let reordered = vec![Some(70), Some(1000), Some(5), Some(1000), None];
    assert_eq!(check_balance(&values), check_balance(&reordered));
    assert_eq!(check_balance(&reordered), 2075);
}

#[test]
fn amount_is_a_trimmed_whole_number_of_satoshis() {
    assert_eq!(parse_amount("1000\n"), Ok(1000));
    assert_eq!(parse_amount("  +5 \r\n"), Ok(5));
    assert_eq!(parse_amount("18446744073709551615"), Ok(u64::MAX));
    assert_eq!(parse_amount("18446744073709551616"), Err(WalletError::InvalidAmount));
    assert_eq!(parse_amount("-5"), Err(WalletError::InvalidAmount));
    assert_eq!(parse_amount("1.5"), Err(WalletError::InvalidAmount));
    assert_eq!(parse_amount("+"), Err(WalletError::InvalidAmount));
    assert_eq!(parse_amount(""), Err(WalletError::InvalidAmount));
    assert_eq!(parse_amount("1 000"), Err(WalletError::InvalidAmount));
}

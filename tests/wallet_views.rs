use grin_frb_core::ledger::{LedgerEntry, TxKind, TxStatus};
use grin_frb_core::outputs::{OutputRecord, OutputStatus};
use grin_frb_core::wallet::{Wallet, WalletError};

fn output(value: u64, status: OutputStatus, height: u64, tx: Option<u32>) -> OutputRecord {
    OutputRecord {
        commit: [1u8; 33],
        value,
        status,
        height,
        lock_height: 0,
        is_coinbase: false,
        tx_log_id: tx,
        locked_by: if status == OutputStatus::Locked { Some(1) } else { None },
    }
}

fn entry(id: u32, slate: Option<u128>, proof: Option<Vec<u8>>) -> LedgerEntry {
    LedgerEntry {
        id,
        slate_id: slate,
        kind: TxKind::TxReceived,
        confirmed: true,
        amount_credited: 10,
        amount_debited: 0,
        fee: None,
        num_inputs: 0,
        num_outputs: 1,
        kernel_excess: None,
        ttl_cutoff_height: None,
        reverted_after_secs: None,
        payment_proof: proof,
    }
}

fn opened() -> Wallet {
    let mut w = Wallet::new();
    w.init_or_open("pass", "addr".to_string()).unwrap();
    w
}

#[test]
fn balance_buckets() {
    let mut w = opened();
    let outs = vec![
        output(10, OutputStatus::Unspent, 50, None),
        output(20, OutputStatus::Unspent, 99, None),
        output(30, OutputStatus::Locked, 50, None),
        output(40, OutputStatus::Spent, 50, None),
        output(50, OutputStatus::Unconfirmed, 0, None),
    ];
    w.sync(outs, Vec::new(), 0).unwrap();
    assert_eq!(w.balance(100), Ok(10));
    let info = w.wallet_info(100).unwrap();
    assert_eq!(info.spendable, 10);
    assert_eq!(info.awaiting_confirmation, 70);
    assert_eq!(info.locked, 30);
    assert_eq!(info.total, 80);
    assert_eq!(info.active_account, "default");
}

#[test]
fn sync_refuses_inconsistent_data() {
    let mut w = opened();
    let mut bad = output(10, OutputStatus::Locked, 50, None);
    bad.locked_by = None;
    assert_eq!(w.sync(vec![bad], Vec::new(), 0), Err(WalletError::InconsistentData));
    let dup = vec![entry(0, Some(5), None), entry(1, Some(5), None)];
    assert_eq!(w.sync(Vec::new(), dup, 2), Err(WalletError::InconsistentData));
    let same_id = vec![entry(0, None, None), entry(0, None, None)];
    assert_eq!(w.sync(Vec::new(), same_id, 2), Err(WalletError::InconsistentData));
    assert_eq!(w.sync(Vec::new(), vec![entry(3, None, None)], 3), Err(WalletError::InconsistentData));
    assert_eq!(w.sync(Vec::new(), vec![entry(3, None, None)], 4), Ok(()));
}

#[test]
fn listings() {
    let mut w = opened();
    let outs = vec![
        output(10, OutputStatus::Unspent, 95, Some(0)),
        output(40, OutputStatus::Spent, 50, Some(0)),
    ];
    w.sync(outs, vec![entry(0, Some(3), None)], 1).unwrap();
    let all = w.list_outputs(true, 100).unwrap();
    assert_eq!(all.len(), 2);
    assert_eq!(all[0].confirmations, 6);
    assert!(!all[0].spendable);
    let unspent = w.list_outputs(false, 100).unwrap();
    assert_eq!(unspent.len(), 1);
    assert_eq!(unspent[0].record.value, 10);
    let txs = w.list_transactions(100).unwrap();
    assert_eq!(txs.len(), 1);
    assert_eq!(txs[0].confirmations, 6);
    assert_eq!(txs[0].status, TxStatus::Confirmed);
    assert_eq!(txs[0].amount, 10);
}

#[test]
fn accounts_lifecycle() {
    let mut w = opened();
    let created = w.create_account("  savings ").unwrap();
    assert_eq!(created.label, "savings");
    assert_eq!(created.index, 1);
    assert!(!created.is_active);
    assert_eq!(w.create_account("savings").err(), Some(WalletError::DuplicateAccount));
    assert_eq!(w.create_account("   ").err(), Some(WalletError::EmptyLabel));
    assert_eq!(w.set_active_account("nope").err(), Some(WalletError::UnknownAccount));
    assert_eq!(w.set_active_account("").err(), Some(WalletError::EmptyLabel));
    let active = w.set_active_account("savings").unwrap();
    assert!(active.is_active);
    assert_eq!(active.index, 1);
    assert_eq!(w.active_account().unwrap(), "savings");
    let list = w.list_accounts().unwrap();
    assert_eq!(list.len(), 2);
    assert_eq!(list[0].label, "default");
    assert!(!list[0].is_active);
    assert!(list[1].is_active);
}

#[test]
fn accounts_need_an_open_wallet() {
    let mut w = Wallet::new();
    assert_eq!(w.create_account("x").err(), Some(WalletError::NotInitialized));
    assert_eq!(w.list_accounts().err(), Some(WalletError::NotInitialized));
}

#[test]
fn payment_proof_lookup() {
    let mut w = opened();
    w.sync(Vec::new(), vec![entry(0, None, Some(vec![1, 2, 3])), entry(1, None, None)], 2).unwrap();
    assert_eq!(w.payment_proof(0), Ok(vec![1, 2, 3]));
    assert_eq!(w.payment_proof(1), Err(WalletError::NoPaymentProof));
    assert_eq!(w.payment_proof(2), Err(WalletError::UnknownTransaction));
}

#[test]
fn scan_report_echoes_options() {
    let w = opened();
    let r = w.scan(true, Some(10), None).unwrap();
    assert!(r.delete_unconfirmed);
    assert_eq!(r.start_height, Some(10));
    assert_eq!(r.backwards_from_tip, None);
    assert!(r.performed_at_epoch_secs > 0);
    assert_eq!(Wallet::new().scan(false, None, None).err(), Some(WalletError::NotInitialized));
}

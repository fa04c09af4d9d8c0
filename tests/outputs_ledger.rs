use grin_frb_core::ledger::{tx_confirmations, tx_direction, tx_status, net_amount, Direction, LedgerEntry, TxKind, TxStatus};
use grin_frb_core::outputs::{
    confirmations, lock_selected, release_slate, select_inputs, OutputRecord, OutputStatus,
    COINBASE_MATURITY, MIN_CONFIRMATIONS,
};

fn out(value: u64, status: OutputStatus, height: u64) -> OutputRecord {
    OutputRecord {
        commit: [0u8; 33],
        value,
        status,
        height,
        lock_height: 0,
        is_coinbase: false,
        tx_log_id: None,
        locked_by: None,
    }
}

#[test]
fn confirmations_at_tip_one_hundred() {
    assert_eq!(confirmations(95, 100), 6);
    assert_eq!(confirmations(0, 100), 0);
    assert_eq!(confirmations(150, 100), 0);
    assert_eq!(confirmations(100, 100), 1);
}

#[test]
fn unconfirmed_output_has_no_confirmations() {
    let o = out(5, OutputStatus::Unconfirmed, 95);
    assert_eq!(o.num_confirmations(100), 0);
    let o = out(5, OutputStatus::Unspent, 95);
    assert_eq!(o.num_confirmations(100), 6);
}

#[test]
fn spendability_rules() {
    let o = out(5, OutputStatus::Unspent, 91);
    assert!(o.eligible_to_spend(100, MIN_CONFIRMATIONS));
    let o = out(5, OutputStatus::Unspent, 92);
    assert!(!o.eligible_to_spend(100, MIN_CONFIRMATIONS));
    let mut o = out(5, OutputStatus::Unspent, 10);
    o.lock_height = 101;
    assert!(!o.eligible_to_spend(100, MIN_CONFIRMATIONS));
    let o = out(5, OutputStatus::Spent, 10);
    assert!(!o.eligible_to_spend(100, MIN_CONFIRMATIONS));
    let mut o = out(5, OutputStatus::Locked, 10);
    o.locked_by = Some(9);
    assert!(!o.eligible_to_spend(100, MIN_CONFIRMATIONS));
}

#[test]
fn coinbase_needs_extra_maturity() {
    let mut o = out(60, OutputStatus::Unspent, 1);
    o.is_coinbase = true;
    let tip = MIN_CONFIRMATIONS + COINBASE_MATURITY;
    assert!(o.eligible_to_spend(tip, MIN_CONFIRMATIONS));
    assert!(!o.eligible_to_spend(tip - 1, MIN_CONFIRMATIONS));
}

#[test]
fn selection_skips_locked_outputs() {
    let mut locked = out(100, OutputStatus::Locked, 10);
    locked.locked_by = Some(42);
    let outs = vec![locked, out(30, OutputStatus::Unspent, 10), out(30, OutputStatus::Unspent, 10)];
    let sel = select_inputs(&outs, 50, 100, MIN_CONFIRMATIONS).unwrap();
    assert_eq!(sel, vec![1, 2]);
    assert!(select_inputs(&outs, 61, 100, MIN_CONFIRMATIONS).is_none());
}

#[test]
fn selection_stops_once_covered() {
    let outs = vec![out(30, OutputStatus::Unspent, 10), out(30, OutputStatus::Unspent, 10), out(30, OutputStatus::Unspent, 10)];
    assert_eq!(select_inputs(&outs, 30, 100, MIN_CONFIRMATIONS).unwrap(), vec![0]);
    assert_eq!(select_inputs(&outs, 31, 100, MIN_CONFIRMATIONS).unwrap(), vec![0, 1]);
    assert_eq!(select_inputs(&outs, 0, 100, MIN_CONFIRMATIONS).unwrap(), Vec::<usize>::new());
}

#[test]
fn lock_and_release_by_slate() {
    let mut outs = vec![out(1, OutputStatus::Unspent, 1), out(2, OutputStatus::Unspent, 1), out(3, OutputStatus::Unspent, 1)];
    lock_selected(&mut outs, &vec![0, 2], 7);
    assert_eq!(outs[0].status, OutputStatus::Locked);
    assert_eq!(outs[0].locked_by, Some(7));
    assert_eq!(outs[1].status, OutputStatus::Unspent);
    assert_eq!(outs[2].locked_by, Some(7));
    assert_eq!(release_slate(&mut outs, 8), 0);
    assert_eq!(release_slate(&mut outs, 7), 2);
    assert_eq!(outs[0].status, OutputStatus::Unspent);
    assert_eq!(outs[2].locked_by, None);
    assert_eq!(release_slate(&mut outs, 7), 0);
}

#[test]
fn direction_and_status_of_entries() {
    assert_eq!(tx_direction(TxKind::TxSent), Direction::Sent);
    assert_eq!(tx_direction(TxKind::TxSentCancelled), Direction::Sent);
    assert_eq!(tx_direction(TxKind::TxReverted), Direction::Reverted);
    assert_eq!(tx_direction(TxKind::TxReceived), Direction::Received);
    assert_eq!(tx_direction(TxKind::ConfirmedCoinbase), Direction::Received);
    assert_eq!(tx_status(TxKind::TxReceivedCancelled, true), TxStatus::Cancelled);
    assert_eq!(tx_status(TxKind::TxReverted, true), TxStatus::Reverted);
    assert_eq!(tx_status(TxKind::TxSent, true), TxStatus::Confirmed);
    assert_eq!(tx_status(TxKind::TxSent, false), TxStatus::Pending);
}

#[test]
fn net_amount_saturates() {
    assert_eq!(net_amount(Direction::Sent, 100, 30), 70);
    assert_eq!(net_amount(Direction::Sent, 30, 100), 0);
    assert_eq!(net_amount(Direction::Received, 30, 100), 70);
    assert_eq!(net_amount(Direction::Reverted, 100, 30), 0);
}

#[test]
fn entry_confirmations_take_the_fewest() {
    let mut a = out(1, OutputStatus::Unspent, 90);
    a.tx_log_id = Some(3);
    let mut b = out(1, OutputStatus::Unspent, 95);
    b.tx_log_id = Some(3);
    let mut c = out(1, OutputStatus::Unspent, 50);
    c.tx_log_id = Some(4);
    let outs = vec![a, b, c];
    assert_eq!(tx_confirmations(&outs, 3, 100), 6);
    assert_eq!(tx_confirmations(&outs, 4, 100), 51);
    assert_eq!(tx_confirmations(&outs, 5, 100), 0);
}

#[test]
fn entry_summary_fields() {
    let e = LedgerEntry {
        id: 2,
        slate_id: Some(77),
        kind: TxKind::TxSent,
        confirmed: false,
        amount_credited: 40,
        amount_debited: 100,
        fee: Some(5),
        num_inputs: 2,
        num_outputs: 1,
        kernel_excess: None,
        ttl_cutoff_height: Some(500),
        reverted_after_secs: Some(3600),
        payment_proof: Some(vec![1, 2]),
    };
    let s = e.summary(3);
    assert_eq!(s.amount, 60);
    assert_eq!(s.direction, Direction::Sent);
    assert_eq!(s.status, TxStatus::Pending);
    assert!(s.has_proof);
    assert_eq!(s.confirmations, 3);
    assert_eq!(s.ttl_cutoff_height, Some(500));
    assert_eq!(s.reverted_after_secs, Some(3600));
}

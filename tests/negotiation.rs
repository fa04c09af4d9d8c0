use grin_frb_core::ledger::{LedgerEntry, TxKind};
use grin_frb_core::outputs::{OutputRecord, OutputStatus};
use grin_frb_core::slate::{inspect_slate, next_state, state_code, Participant, SlateState};
use grin_frb_core::wallet::{ErrorCategory, Wallet, WalletError};

const TIP: u64 = 1000;

fn contribution(tag: u8) -> Participant {
    Participant {
        public_blind_excess: [tag; 33],
        public_nonce: [tag; 33],
        partial_sig: None,
        is_sender: false,
    }
}

fn mature(value: u64) -> OutputRecord {
    OutputRecord {
        commit: [value as u8; 33],
        value,
        status: OutputStatus::Unspent,
        height: 100,
        lock_height: 0,
        is_coinbase: false,
        tx_log_id: None,
        locked_by: None,
    }
}

fn funded(values: &[u64]) -> Wallet {
    let mut w = Wallet::new();
    w.init_or_open("pass", "sender-address".to_string()).unwrap();
    let outs: Vec<OutputRecord> = values.iter().map(|v| mature(*v)).collect();
    w.sync(outs, Vec::new(), 0).unwrap();
    w
}

fn opened() -> Wallet {
    let mut w = Wallet::new();
    w.init_or_open("pass", "receiver-address".to_string()).unwrap();
    w
}

#[test]
fn send_records_slate_once_and_locks_inputs() {
    let mut w = funded(&[60, 60, 60]);
    let plan = w.send_slatepack(100, 8, TIP, 0xabc, contribution(1)).unwrap();
    assert_eq!(plan.slate.state, SlateState::Standard1);
    assert_eq!(plan.slate.id, 0xabc);
    assert_eq!(plan.inputs, vec![0, 1]);
    assert_eq!(plan.input_total, 120);
    assert_eq!(plan.change, 12);
    assert!(plan.slate.participants[0].is_sender);
    let id = w.tx_lock_outputs(&plan, TIP, [9u8; 33]).unwrap();
    assert_eq!(id, 0);
    let st = w.state.as_ref().unwrap();
    assert_eq!(st.ledger.len(), 1);
    assert_eq!(st.ledger[0].slate_id, Some(0xabc));
    assert_eq!(st.ledger[0].kind, TxKind::TxSent);
    assert_eq!(st.ledger[0].amount_debited, 120);
    assert_eq!(st.ledger[0].amount_credited, 12);
    assert_eq!(st.outputs[0].locked_by, Some(0xabc));
    assert_eq!(st.outputs[1].status, OutputStatus::Locked);
    assert_eq!(st.outputs[2].status, OutputStatus::Unspent);
    assert_eq!(st.outputs[3].value, 12);
    assert_eq!(st.outputs[3].status, OutputStatus::Unconfirmed);
    assert_eq!(w.tx_lock_outputs(&plan, TIP, [9u8; 33]), Err(WalletError::DuplicateSlate));
    assert_eq!(w.send_slatepack(10, 1, TIP, 0xabc, contribution(1)).err(), Some(WalletError::DuplicateSlate));
}

#[test]
fn second_negotiation_never_takes_locked_outputs() {
    let mut w = funded(&[60, 60, 60]);
    let first = w.send_slatepack(100, 8, TIP, 1, contribution(1)).unwrap();
    w.tx_lock_outputs(&first, TIP, [9u8; 33]).unwrap();
    let second = w.send_slatepack(50, 1, TIP, 2, contribution(1)).unwrap();
    assert_eq!(second.inputs, vec![2]);
    assert_eq!(w.send_slatepack(70, 1, TIP, 3, contribution(1)).err(), Some(WalletError::InsufficientFunds));
}

#[test]
fn stale_plan_is_refused() {
    let mut w = funded(&[60, 60]);
    let a = w.send_slatepack(50, 1, TIP, 1, contribution(1)).unwrap();
    let b = w.send_slatepack(50, 1, TIP, 2, contribution(1)).unwrap();
    w.tx_lock_outputs(&a, TIP, [9u8; 33]).unwrap();
    assert_eq!(w.tx_lock_outputs(&b, TIP, [9u8; 33]), Err(WalletError::StalePlan));
}

#[test]
fn zero_amount_and_missing_funds() {
    let w = funded(&[10]);
    assert_eq!(w.send_slatepack(0, 1, TIP, 1, contribution(1)).err(), Some(WalletError::ZeroAmount));
    assert_eq!(w.send_slatepack(10, 1, TIP, 1, contribution(1)).err(), Some(WalletError::InsufficientFunds));
    assert_eq!(WalletError::ZeroAmount.category(), ErrorCategory::Validation);
    assert_eq!(WalletError::UnexpectedState.category(), ErrorCategory::Precondition);
    let fresh = Wallet::new();
    assert_eq!(fresh.send_slatepack(5, 1, TIP, 1, contribution(1)).err(), Some(WalletError::NotInitialized));
}

#[test]
fn round_trip_standard_one_to_three() {
    let mut sender = funded(&[60, 60]);
    let mut receiver = opened();
    let plan = sender.send_slatepack(100, 8, TIP, 55, contribution(1)).unwrap();
    sender.tx_lock_outputs(&plan, TIP, [9u8; 33]).unwrap();
    let reply = receiver.receive_slatepack(plan.slate.clone(), contribution(2), [7u8; 33]).unwrap();
    assert_eq!(reply.state, SlateState::Standard2);
    assert_eq!(reply.participants.len(), 2);
    assert!(!reply.participants[1].is_sender);
    let rst = receiver.state.as_ref().unwrap();
    assert_eq!(rst.ledger[0].kind, TxKind::TxReceived);
    assert_eq!(rst.ledger[0].amount_credited, 100);
    assert_eq!(rst.outputs[0].value, 100);
    let done = sender.finalize_slatepack(reply.clone(), [3u8; 33], true, false).unwrap();
    assert_eq!(done.slate.state, SlateState::Standard3);
    assert_eq!(done.slate.kernel_excess, Some([3u8; 33]));
    assert_eq!(done.submit, Some(false));
    assert_eq!(sender.state.as_ref().unwrap().ledger[0].kernel_excess, Some([3u8; 33]));
    assert_eq!(sender.finalize_slatepack(reply, [3u8; 33], false, false).err(), Some(WalletError::AlreadyFinalized));
}

#[test]
fn rounds_cannot_be_skipped_or_repeated() {
    let mut sender = funded(&[60]);
    let mut receiver = opened();
    let plan = sender.send_slatepack(10, 1, TIP, 5, contribution(1)).unwrap();
    assert_eq!(sender.finalize_slatepack(plan.slate.clone(), [3u8; 33], false, false).err(), Some(WalletError::UnexpectedState));
    let reply = receiver.receive_slatepack(plan.slate.clone(), contribution(2), [7u8; 33]).unwrap();
    assert_eq!(receiver.receive_slatepack(reply, contribution(2), [7u8; 33]).err(), Some(WalletError::UnexpectedState));
    assert_eq!(receiver.receive_slatepack(plan.slate, contribution(2), [7u8; 33]).err(), Some(WalletError::DuplicateSlate));
}

#[test]
fn finalize_needs_a_recorded_slate() {
    let mut sender = funded(&[60]);
    let mut receiver = opened();
    let plan = sender.send_slatepack(10, 1, TIP, 5, contribution(1)).unwrap();
    let reply = receiver.receive_slatepack(plan.slate, contribution(2), [7u8; 33]).unwrap();
    assert_eq!(sender.finalize_slatepack(reply, [3u8; 33], false, false).err(), Some(WalletError::UnknownTransaction));
}

#[test]
fn cancel_twice_fails_and_unlocks_once() {
    let mut w = funded(&[60, 60]);
    let plan = w.send_slatepack(100, 8, TIP, 9, contribution(1)).unwrap();
    let id = w.tx_lock_outputs(&plan, TIP, [9u8; 33]).unwrap();
    assert_eq!(w.cancel_tx(id), Ok(2));
    let st = w.state.as_ref().unwrap();
    assert_eq!(st.ledger[0].kind, TxKind::TxSentCancelled);
    assert_eq!(st.outputs[0].status, OutputStatus::Unspent);
    assert_eq!(st.outputs[1].locked_by, None);
    assert_eq!(w.cancel_tx(id), Err(WalletError::AlreadyCancelled));
    assert_eq!(w.cancel_tx(99), Err(WalletError::UnknownTransaction));
    let again = w.send_slatepack(100, 8, TIP, 10, contribution(1)).unwrap();
    assert_eq!(again.inputs, vec![0, 1]);
}

#[test]
fn finalized_transaction_cannot_be_cancelled_but_can_be_reposted() {
    let mut sender = funded(&[60]);
    let mut receiver = opened();
    let plan = sender.send_slatepack(10, 1, TIP, 5, contribution(1)).unwrap();
    let id = sender.tx_lock_outputs(&plan, TIP, [9u8; 33]).unwrap();
    assert_eq!(sender.repost_tx(id, true).err(), Some(WalletError::NotFinalized));
    let reply = receiver.receive_slatepack(plan.slate, contribution(2), [7u8; 33]).unwrap();
    sender.finalize_slatepack(reply, [3u8; 33], false, true).unwrap();
    assert_eq!(sender.cancel_tx(id), Err(WalletError::AlreadyFinalized));
    let rp = sender.repost_tx(id, true).unwrap();
    assert_eq!(rp.tx_id, id);
    assert_eq!(rp.kernel_excess, [3u8; 33]);
    assert!(rp.fluff);
    assert_eq!(sender.repost_tx(77, true).err(), Some(WalletError::UnknownTransaction));
}

#[test]
fn repost_of_cancelled_or_confirmed() {
    let mut w = funded(&[60]);
    let plan = w.send_slatepack(10, 1, TIP, 5, contribution(1)).unwrap();
    let id = w.tx_lock_outputs(&plan, TIP, [9u8; 33]).unwrap();
    w.cancel_tx(id).unwrap();
    assert_eq!(w.repost_tx(id, false).err(), Some(WalletError::AlreadyCancelled));
    let mut c = opened();
    let entry = LedgerEntry {
        id: 0,
        slate_id: Some(1),
        kind: TxKind::TxSent,
        confirmed: true,
        amount_credited: 0,
        amount_debited: 5,
        fee: Some(1),
        num_inputs: 1,
        num_outputs: 0,
        kernel_excess: Some([1u8; 33]),
        ttl_cutoff_height: None,
        reverted_after_secs: None,
        payment_proof: None,
    };
    c.sync(Vec::new(), vec![entry], 1).unwrap();
    assert_eq!(c.repost_tx(0, false).err(), Some(WalletError::AlreadyConfirmed));
}

#[test]
fn invoice_round_trip() {
    let mut issuer = opened();
    let mut payer = funded(&[60]);
    let invoice = issuer.issue_invoice(40, 2, 300, contribution(4), [4u8; 33]).unwrap();
    assert_eq!(invoice.state, SlateState::Invoice1);
    assert_eq!(issuer.issue_invoice(0, 2, 301, contribution(4), [4u8; 33]).err(), Some(WalletError::ZeroAmount));
    let plan = payer.process_invoice(invoice.clone(), TIP, contribution(5)).unwrap();
    assert_eq!(plan.slate.state, SlateState::Invoice2);
    assert_eq!(plan.slate.fee, 2);
    assert_eq!(plan.change, 18);
    payer.tx_lock_outputs(&plan, TIP, [6u8; 33]).unwrap();
    let done = issuer.finalize_slatepack(plan.slate, [8u8; 33], false, false).unwrap();
    assert_eq!(done.slate.state, SlateState::Invoice3);
    assert_eq!(done.submit, None);
    assert_eq!(payer.process_invoice(invoice, TIP, contribution(5)).err(), Some(WalletError::DuplicateSlate));
}

#[test]
fn slate_codes_and_inspection() {
    assert_eq!(state_code(SlateState::Standard1), "S1");
    assert_eq!(state_code(SlateState::Invoice3), "I3");
    assert_eq!(state_code(SlateState::Unknown), "UN");
    assert_eq!(next_state(SlateState::Standard2), Some(SlateState::Standard3));
    assert_eq!(next_state(SlateState::Invoice3), None);
    let w = funded(&[60]);
    let plan = w.send_slatepack(10, 1, TIP, 5, contribution(1)).unwrap();
    let info = inspect_slate(&plan.slate);
    assert_eq!(info.code, "S1");
    assert_eq!(info.amount, 10);
    assert_eq!(info.fee, 1);
    assert_eq!(info.num_participants, 1);
    assert_eq!(info.kernel_excess, None);
}

#[test]
fn ledger_ids_can_run_out() {
    let mut w = opened();
    w.sync(Vec::new(), Vec::new(), u32::MAX).unwrap();
    let invoice_slate = {
        let mut other = opened();
        other.issue_invoice(5, 1, 1, contribution(1), [1u8; 33]).unwrap()
    };
    assert_eq!(w.issue_invoice(5, 1, 2, contribution(1), [1u8; 33]).err(), Some(WalletError::Exhausted));
    let sender = funded(&[60]);
    let plan = sender.send_slatepack(10, 1, TIP, 3, contribution(1)).unwrap();
    assert_eq!(w.receive_slatepack(plan.slate, contribution(2), [7u8; 33]).err(), Some(WalletError::Exhausted));
    assert_eq!(w.process_invoice(invoice_slate, TIP, contribution(3)).err(), Some(WalletError::InsufficientFunds));
}

#[test]
fn totals_beyond_the_ledger_fields_are_refused() {
    let mut w = funded(&[u64::MAX, u64::MAX]);
    let plan = w.send_slatepack(u64::MAX, 1, TIP, 8, contribution(1)).unwrap();
    assert_eq!(plan.input_total, 2 * (u64::MAX as u128));
    assert_eq!(w.tx_lock_outputs(&plan, TIP, [9u8; 33]), Err(WalletError::AmountTooLarge));
    assert_eq!(w.state.as_ref().unwrap().ledger.len(), 0);
}

#[test]
fn cancelled_slate_cannot_be_finalized() {
    let mut sender = funded(&[60]);
    let mut receiver = opened();
    let plan = sender.send_slatepack(10, 1, TIP, 5, contribution(1)).unwrap();
    let id = sender.tx_lock_outputs(&plan, TIP, [9u8; 33]).unwrap();
    let reply = receiver.receive_slatepack(plan.slate, contribution(2), [7u8; 33]).unwrap();
    sender.cancel_tx(id).unwrap();
    assert_eq!(sender.finalize_slatepack(reply, [3u8; 33], true, true).err(), Some(WalletError::AlreadyCancelled));
}

//! The interactive slate negotiation: each step checks the slate's state,
//! adds this wallet's contribution, and records reservations and ledger
//! entries so that no output serves two negotiations at once.
use vstd::prelude::*;
use crate::ledger::{LedgerEntry, TxKind};
use crate::outputs::{
    MIN_CONFIRMATIONS, OutputRecord, OutputStatus, lock_selected, locked_spec, output_wf, select_inputs,
    selected_in, selected_value, spendable_spec, spendable_total, valid_selection,
};
use crate::slate::{Participant, Slate, SlateState, next_state, next_state_spec};
use crate::wallet::{Wallet, WalletError, WalletState, state_wf};

verus! {

/// A spending step worked out but not yet recorded: the slate to hand to the
/// counterparty and the outputs that will pay for it.
pub struct SendPlan {
    pub slate: Slate,
    /// Positions of the chosen outputs in the wallet's output list.
    pub inputs: Vec<usize>,
    pub input_total: u128,
    pub change: u128,
}

/// The ledger records slate `slate_id`.
pub open spec fn records_slate(ledger: Seq<LedgerEntry>, slate_id: u128) -> bool {
    exists|k: int| 0 <= k < ledger.len() && (#[trigger] ledger[k]).slate_id == Some(slate_id)
}

/// `p` marked as coming from the sending party or not.
pub open spec fn as_party(p: Participant, is_sender: bool) -> Participant {
    Participant { is_sender, ..p }
}

/// What a plan promises: its inputs are spendable outputs of `outs` whose
/// value covers `target`, and the change is what is left over.
pub open spec fn plan_covers(plan: SendPlan, outs: Seq<OutputRecord>, target: int, tip: u64) -> bool {
    &&& valid_selection(outs, plan.inputs@, tip, MIN_CONFIRMATIONS)
    &&& plan.input_total == selected_value(outs, plan.inputs@)
    &&& plan.input_total >= target
    &&& plan.change == plan.input_total - target
}

proof fn lemma_selected_value_bound(outs: Seq<OutputRecord>, sel: Seq<usize>)
    requires
        forall|i: int| 0 <= i < sel.len() ==> sel[i] < outs.len(),
    ensures
        0 <= selected_value(outs, sel) <= sel.len() * (u64::MAX as int),
    decreases sel.len(),
{
    if sel.len() > 0 {
        lemma_selected_value_bound(outs, sel.drop_last());
    }
}

/// Total value of the outputs at the positions in `sel`.
pub fn selected_total(outs: &Vec<OutputRecord>, sel: &Vec<usize>) -> (r: u128)
    requires
        forall|i: int| 0 <= i < sel@.len() ==> sel@[i] < outs@.len(),
    ensures
        r == selected_value(outs@, sel@),
{
    let mut acc: u128 = 0;
    let mut i: usize = 0;
    while i < sel.len()
        invariant
            forall|k: int| 0 <= k < sel@.len() ==> sel@[k] < outs@.len(),
            i <= sel@.len(),
            acc == selected_value(outs@, sel@.subrange(0, i as int)),
        decreases sel@.len() - i,
    {
        proof {
            lemma_selected_value_bound(outs@, sel@.subrange(0, i as int));
            assert(i * (u64::MAX as int) + u64::MAX <= u64::MAX as int * u64::MAX as int + u64::MAX)
                by (nonlinear_arith)
                requires
                    i <= u64::MAX,
            ;
            assert(sel@.subrange(0, i + 1).drop_last() =~= sel@.subrange(0, i as int));
        }
        acc = acc + outs[sel[i]].value as u128;
        i = i + 1;
    }
    assert(sel@.subrange(0, sel@.len() as int) =~= sel@);
    acc
}

/// Whether `sel` is a valid selection of spendable outputs of `outs`.
pub fn check_selection(outs: &Vec<OutputRecord>, sel: &Vec<usize>, tip: u64) -> (r: bool)
    ensures
        r == valid_selection(outs@, sel@, tip, MIN_CONFIRMATIONS),
{
    let mut i: usize = 0;
    while i < sel.len()
        invariant
            i <= sel@.len(),
            forall|k: int| 0 <= k < i ==> sel@[k] < outs@.len(),
            forall|a: int, b: int| 0 <= a < b < i ==> sel@[a] < sel@[b],
            forall|k: int| 0 <= k < i ==> spendable_spec(#[trigger] outs@[sel@[k] as int], tip, MIN_CONFIRMATIONS),
        decreases sel@.len() - i,
    {
        let p = sel[i];
        if p >= outs.len() {
            return false;
        }
        if i > 0 && sel[i - 1] >= p {
            return false;
        }
        if !outs[p].eligible_to_spend(tip, MIN_CONFIRMATIONS) {
            return false;
        }
        i = i + 1;
    }
    true
}

/// Chooses inputs covering `target` and works out the change.
fn plan_inputs(outs: &Vec<OutputRecord>, target: u128, tip: u64) -> (r: Option<(Vec<usize>, u128, u128)>)
    requires
        target <= 2 * (u64::MAX as u128),
    ensures
        r is Some <==> spendable_total(outs@, outs@.len() as int, tip, MIN_CONFIRMATIONS) >= target,
        r is Some ==> {
            let (sel, total, change) = r->0;
            &&& valid_selection(outs@, sel@, tip, MIN_CONFIRMATIONS)
            &&& total == selected_value(outs@, sel@)
            &&& total >= target
            &&& change == total - target
        },
{
    match select_inputs(outs, target, tip, MIN_CONFIRMATIONS) {
        None => None,
        Some(sel) => {
            let total = selected_total(outs, &sel);
            Some((sel, total, total - target))
        },
    }
}

impl Wallet {
    /// First step of a sender-initiated negotiation: chooses unlocked,
    /// spendable outputs covering `amount + fee` (taking them in order and
    /// stopping once covered) and builds the `Standard1` slate carrying the
    /// sender's contribution. Nothing is reserved until `tx_lock_outputs`
    /// records the plan.
    pub fn send_slatepack(&self, amount: u64, fee: u64, tip: u64, slate_id: u128, contribution: Participant) -> (r: Result<SendPlan, WalletError>)
        requires
            self.wf(),
        ensures
            amount == 0 ==> r == Err::<SendPlan, WalletError>(WalletError::ZeroAmount),
            amount > 0 && !self.ready() ==> r == Err::<SendPlan, WalletError>(self.not_ready_error()),
            amount > 0 && self.ready() ==> {
                let st = self.state->0;
                let funds = spendable_total(st.outputs@, st.outputs@.len() as int, tip, MIN_CONFIRMATIONS);
                &&& records_slate(st.ledger@, slate_id) ==> r == Err::<SendPlan, WalletError>(WalletError::DuplicateSlate)
                &&& !records_slate(st.ledger@, slate_id) && funds < amount + fee ==> r == Err::<SendPlan, WalletError>(WalletError::InsufficientFunds)
                &&& !records_slate(st.ledger@, slate_id) && funds >= amount + fee ==> r is Ok
            },
            r is Ok ==> {
                let p = r->Ok_0;
                &&& p.slate.id == slate_id
                &&& p.slate.amount == amount
                &&& p.slate.fee == fee
                &&& p.slate.state == SlateState::Standard1
                &&& p.slate.participants@ == seq![as_party(contribution, true)]
                &&& p.slate.kernel_excess is None
                &&& plan_covers(p, self.state->0.outputs@, amount + fee, tip)
            },
    {
        if amount == 0 {
            return Err(WalletError::ZeroAmount);
        }
        if let Err(e) = self.check_ready() {
            return Err(e);
        }
        match &self.state {
            Some(st) => {
                if find_slate_index(&st.ledger, slate_id).is_some() {
                    return Err(WalletError::DuplicateSlate);
                }
                match plan_inputs(&st.outputs, amount as u128 + fee as u128, tip) {
                    None => Err(WalletError::InsufficientFunds),
                    Some((inputs, input_total, change)) => {
                        let mut participants: Vec<Participant> = Vec::new();
                        participants.push(Participant { is_sender: true, ..contribution });
                        assert(participants@ =~= seq![as_party(contribution, true)]);
                        let slate = Slate {
                            id: slate_id,
                            amount,
                            fee,
                            state: SlateState::Standard1,
                            participants,
                            kernel_excess: None,
                        };
                        Ok(SendPlan { slate, inputs, input_total, change })
                    },
                }
            },
            None => Err(WalletError::NotInitialized),
        }
    }
}

/// Position of the ledger entry that records slate `slate_id`.
pub fn find_slate_index(ledger: &Vec<LedgerEntry>, slate_id: u128) -> (r: Option<usize>)
    ensures
        r is Some ==> r->0 < ledger@.len() && ledger@[r->0 as int].slate_id == Some(slate_id),
        r is None <==> !records_slate(ledger@, slate_id),
{
    let mut i: usize = 0;
    while i < ledger.len()
        invariant
            i <= ledger@.len(),
            forall|k: int| 0 <= k < i ==> (#[trigger] ledger@[k]).slate_id != Some(slate_id),
        decreases ledger@.len() - i,
    {
        if ledger[i].slate_id == Some(slate_id) {
            return Some(i);
        }
        i = i + 1;
    }
    None
}

/// The change output a spending step creates.
pub open spec fn change_output_spec(commit: [u8; 33], value: u64, tx_id: u32) -> OutputRecord {
    OutputRecord {
        commit,
        value,
        status: OutputStatus::Unconfirmed,
        height: 0,
        lock_height: 0,
        is_coinbase: false,
        tx_log_id: Some(tx_id),
        locked_by: None,
    }
}

/// A fresh ledger entry for slate `slate_id`.
pub open spec fn entry_spec(
    e: LedgerEntry,
    id: u32,
    slate_id: u128,
    kind: TxKind,
    debited: int,
    credited: int,
    fee: u64,
    num_inputs: int,
    num_outputs: int,
) -> bool {
    &&& e.id == id
    &&& e.slate_id == Some(slate_id)
    &&& e.kind == kind
    &&& !e.confirmed
    &&& e.amount_debited == debited
    &&& e.amount_credited == credited
    &&& e.fee == Some(fee)
    &&& e.num_inputs == num_inputs
    &&& e.num_outputs == num_outputs
    &&& e.kernel_excess is None
    &&& e.ttl_cutoff_height is None
    &&& e.reverted_after_secs is None
    &&& e.payment_proof is None
}

/// Appends a ledger entry under the next id, for a slate the ledger does not
/// record yet.
fn record_entry(st: &mut WalletState, e: LedgerEntry)
    requires
        state_wf(*old(st)),
        e.id == old(st).next_tx_id,
        old(st).next_tx_id < u32::MAX,
        e.slate_id is Some,
        !records_slate(old(st).ledger@, e.slate_id->0),
    ensures
        state_wf(*final(st)),
        final(st).ledger@ == old(st).ledger@.push(e),
        final(st).next_tx_id == old(st).next_tx_id + 1,
        final(st).outputs@ == old(st).outputs@,
        final(st).accounts@ == old(st).accounts@,
        final(st).active_account@ == old(st).active_account@,
        final(st).address@ == old(st).address@,
        final(st).generation == old(st).generation,
{
    let ghost before = st.ledger@;
    let ghost sid = e.slate_id->0;
    st.ledger.push(e);
    st.next_tx_id = st.next_tx_id + 1;
    proof {
        let led = st.ledger@;
        assert forall|i: int, j: int|
            0 <= i < led.len() && 0 <= j < led.len() && i != j && (#[trigger] led[i]).slate_id is Some implies
            led[i].slate_id != (#[trigger] led[j]).slate_id by {
            if i == before.len() {
                assert(before[j] == led[j]);
            } else if j == before.len() {
                assert(before[i] == led[i]);
            } else {
                assert(before[i] == led[i] && before[j] == led[j]);
            }
        }
        assert forall|i: int, j: int|
            0 <= i < led.len() && 0 <= j < led.len() && i != j implies
            (#[trigger] led[i]).id != (#[trigger] led[j]).id by {
            if i == before.len() {
                assert(before[j] == led[j]);
            } else if j == before.len() {
                assert(before[i] == led[i]);
            } else {
                assert(before[i] == led[i] && before[j] == led[j]);
            }
        }
        assert forall|i: int| 0 <= i < led.len() implies (#[trigger] led[i]).id < st.next_tx_id by {
            if i < before.len() {
                assert(before[i] == led[i]);
            }
        }
    }
}

/// Appends an output that records its reservation consistently.
fn add_output(st: &mut WalletState, o: OutputRecord)
    requires
        state_wf(*old(st)),
        output_wf(o),
    ensures
        state_wf(*final(st)),
        final(st).outputs@ == old(st).outputs@.push(o),
        final(st).ledger@ == old(st).ledger@,
        final(st).next_tx_id == old(st).next_tx_id,
        final(st).accounts@ == old(st).accounts@,
        final(st).active_account@ == old(st).active_account@,
        final(st).address@ == old(st).address@,
        final(st).generation == old(st).generation,
{
    let ghost before = st.outputs@;
    st.outputs.push(o);
    assert forall|i: int| 0 <= i < st.outputs@.len() implies output_wf(#[trigger] st.outputs@[i]) by {
        if i < before.len() {
            assert(before[i] == st.outputs@[i]);
        }
    }
}

/// The outputs after a spending step: the chosen ones reserved for the slate,
/// every other one as it was, and the change output appended when there is
/// change.
pub open spec fn outputs_after_spend(
    before: Seq<OutputRecord>,
    after: Seq<OutputRecord>,
    inputs: Seq<usize>,
    slate_id: u128,
    change: int,
    change_commit: [u8; 33],
    tx_id: u32,
) -> bool {
    &&& after.len() == before.len() + if change > 0 { 1int } else { 0int }
    &&& forall|k: int| 0 <= k < before.len() ==> #[trigger] after[k] == if selected_in(inputs, inputs.len() as int, k) {
        locked_spec(before[k], slate_id)
    } else {
        before[k]
    }
    &&& change > 0 ==> after[before.len() as int] == change_output_spec(change_commit, change as u64, tx_id)
}

/// The plan still fits the wallet's outputs.
pub open spec fn plan_current(plan: SendPlan, outs: Seq<OutputRecord>, tip: u64) -> bool {
    &&& valid_selection(outs, plan.inputs@, tip, MIN_CONFIRMATIONS)
    &&& plan.input_total == selected_value(outs, plan.inputs@)
    &&& plan.input_total == plan.slate.amount + plan.slate.fee + plan.change
}

impl Wallet {
    /// Records a spending step worked out by `send_slatepack` or
    /// `process_invoice`, once its slate has been encoded for the
    /// counterparty: the inputs are reserved for the slate, the change output
    /// is added, and a ledger entry under a fresh id records the slate. A plan
    /// that no longer fits the wallet is refused and nothing changes.
    pub fn tx_lock_outputs(&mut self, plan: &SendPlan, tip: u64, change_commit: [u8; 33]) -> (r: Result<u32, WalletError>)
        requires
            old(self).wf(),
        ensures
            final(self).wf(),
            final(self).config == old(self).config,
            r is Err ==> final(self).state == old(self).state,
            !old(self).ready() ==> r == Err::<u32, WalletError>(old(self).not_ready_error()),
            old(self).ready() ==> {
                let st = old(self).state->0;
                let s = plan.slate;
                let state_ok = s.state == SlateState::Standard1 || s.state == SlateState::Invoice2;
                let fresh = !records_slate(st.ledger@, s.id);
                let current = plan_current(*plan, st.outputs@, tip);
                &&& !state_ok ==> r == Err::<u32, WalletError>(WalletError::UnexpectedState)
                &&& state_ok && !fresh ==> r == Err::<u32, WalletError>(WalletError::DuplicateSlate)
                &&& state_ok && fresh && !current ==> r == Err::<u32, WalletError>(WalletError::StalePlan)
                &&& state_ok && fresh && current && plan.input_total > u64::MAX ==> r == Err::<u32, WalletError>(WalletError::AmountTooLarge)
                &&& state_ok && fresh && current && plan.input_total <= u64::MAX && st.next_tx_id == u32::MAX ==> r == Err::<u32, WalletError>(WalletError::Exhausted)
                &&& state_ok && fresh && current && plan.input_total <= u64::MAX && st.next_tx_id < u32::MAX ==> r is Ok
            },
            r is Ok ==> final(self).ready() && ({
                let st0 = old(self).state->0;
                let st = final(self).state->0;
                let s = plan.slate;
                let id = r->Ok_0;
                &&& id == st0.next_tx_id
                &&& st.next_tx_id == st0.next_tx_id + 1
                &&& outputs_after_spend(st0.outputs@, st.outputs@, plan.inputs@, s.id, plan.change as int, change_commit, id)
                &&& st.ledger@.len() == st0.ledger@.len() + 1
                &&& st.ledger@.drop_last() == st0.ledger@
                &&& entry_spec(st.ledger@.last(), id, s.id, TxKind::TxSent, plan.input_total as int,
                    plan.change as int, s.fee, plan.inputs@.len() as int, if plan.change > 0 { 1int } else { 0int })
                &&& st.accounts@ == st0.accounts@
                &&& st.active_account@ == st0.active_account@
            }),
    {
        if let Err(e) = self.check_ready() {
            return Err(e);
        }
        let s = &plan.slate;
        if !(s.state == SlateState::Standard1 || s.state == SlateState::Invoice2) {
            return Err(WalletError::UnexpectedState);
        }
        match &mut self.state {
            Some(st) => {
                if find_slate_index(&st.ledger, s.id).is_some() {
                    return Err(WalletError::DuplicateSlate);
                }
                if !check_selection(&st.outputs, &plan.inputs, tip) {
                    return Err(WalletError::StalePlan);
                }
                let total = selected_total(&st.outputs, &plan.inputs);
                if total != plan.input_total || plan.change > plan.input_total
                    || plan.input_total - plan.change != s.amount as u128 + s.fee as u128 {
                    return Err(WalletError::StalePlan);
                }
                if plan.input_total > u64::MAX as u128 {
                    return Err(WalletError::AmountTooLarge);
                }
                if st.next_tx_id == u32::MAX {
                    return Err(WalletError::Exhausted);
                }
                let id = st.next_tx_id;
                let ghost outs0 = st.outputs@;
                lock_selected(&mut st.outputs, &plan.inputs, s.id);
                proof {
                    assert forall|i: int| 0 <= i < st.outputs@.len() implies output_wf(#[trigger] st.outputs@[i]) by {
                        assert(output_wf(outs0[i]));
                    }
                    assert(state_wf(*st));
                }
                let change = plan.change as u64;
                if change > 0 {
                    add_output(st, OutputRecord {
                        commit: change_commit,
                        value: change,
                        status: OutputStatus::Unconfirmed,
                        height: 0,
                        lock_height: 0,
                        is_coinbase: false,
                        tx_log_id: Some(id),
                        locked_by: None,
                    });
                }
                let num_outputs: usize = if change > 0 { 1 } else { 0 };
                let ghost outs1 = st.outputs@;
                record_entry(st, LedgerEntry {
                    id,
                    slate_id: Some(s.id),
                    kind: TxKind::TxSent,
                    confirmed: false,
                    amount_credited: change,
                    amount_debited: plan.input_total as u64,
                    fee: Some(s.fee),
                    num_inputs: plan.inputs.len(),
                    num_outputs,
                    kernel_excess: None,
                    ttl_cutoff_height: None,
                    reverted_after_secs: None,
                    payment_proof: None,
                });
                assert(st.ledger@.drop_last() =~= old(self).state->0.ledger@);
                Ok(id)
            },
            None => Err(WalletError::NotInitialized),
        }
    }
}

/// A slate the receiving party can answer: the sender's first round, with
/// the sender's contribution alone.
pub open spec fn receivable(s: Slate) -> bool {
    s.state == SlateState::Standard1 && s.participants@.len() == 1
}

/// An invoice the paying party can answer.
pub open spec fn payable(s: Slate) -> bool {
    s.state == SlateState::Invoice1 && s.participants@.len() == 1
}

/// A slate that can be finalized: at its penultimate state, with both
/// contributions.
pub open spec fn finalizable(s: Slate) -> bool {
    (s.state == SlateState::Standard2 || s.state == SlateState::Invoice2) && s.participants@.len() == 2
}

/// `after` is `before` moved one round on, with contribution `c` added.
pub open spec fn advanced(before: Slate, after: Slate, c: Participant, is_sender: bool) -> bool {
    &&& after.id == before.id
    &&& after.amount == before.amount
    &&& after.fee == before.fee
    &&& after.kernel_excess == before.kernel_excess
    &&& next_state_spec(before.state) == Some(after.state)
    &&& after.participants@ == before.participants@.push(as_party(c, is_sender))
}

/// `after` is `before` finalized with kernel excess `kernel`.
pub open spec fn finalized(before: Slate, after: Slate, kernel: [u8; 33]) -> bool {
    &&& after.id == before.id
    &&& after.amount == before.amount
    &&& after.fee == before.fee
    &&& after.participants@ == before.participants@
    &&& next_state_spec(before.state) == Some(after.state)
    &&& after.kernel_excess == Some(kernel)
}

/// The output a receiving step creates.
pub open spec fn received_output_spec(commit: [u8; 33], value: u64, tx_id: u32) -> OutputRecord {
    change_output_spec(commit, value, tx_id)
}

/// Moves an owned slate one round on with contribution `c`.
fn advance_slate(slate: Slate, c: Participant, is_sender: bool) -> (r: Slate)
    requires
        next_state_spec(slate.state) is Some,
    ensures
        advanced(slate, r, c, is_sender),
{
    let mut out = slate;
    out.state = match next_state(out.state) {
        Some(n) => n,
        None => out.state,
    };
    out.participants.push(Participant { is_sender, ..c });
    out
}

/// Records an incoming amount for slate `slate_id`: an unconfirmed output
/// holding it and a `TxReceived` ledger entry.
fn record_receipt(st: &mut WalletState, slate_id: u128, amount: u64, fee: u64, commit: [u8; 33]) -> (r: u32)
    requires
        state_wf(*old(st)),
        old(st).next_tx_id < u32::MAX,
        !records_slate(old(st).ledger@, slate_id),
    ensures
        state_wf(*final(st)),
        r == old(st).next_tx_id,
        final(st).next_tx_id == old(st).next_tx_id + 1,
        final(st).outputs@ == old(st).outputs@.push(received_output_spec(commit, amount, r)),
        final(st).ledger@.len() == old(st).ledger@.len() + 1,
        final(st).ledger@.drop_last() == old(st).ledger@,
        entry_spec(final(st).ledger@.last(), r, slate_id, TxKind::TxReceived, 0, amount as int, fee, 0, 1),
        final(st).accounts@ == old(st).accounts@,
        final(st).active_account@ == old(st).active_account@,
        final(st).address@ == old(st).address@,
        final(st).generation == old(st).generation,
{
    let id = st.next_tx_id;
    add_output(st, OutputRecord {
        commit,
        value: amount,
        status: OutputStatus::Unconfirmed,
        height: 0,
        lock_height: 0,
        is_coinbase: false,
        tx_log_id: Some(id),
        locked_by: None,
    });
    let ghost led0 = st.ledger@;
    record_entry(st, LedgerEntry {
        id,
        slate_id: Some(slate_id),
        kind: TxKind::TxReceived,
        confirmed: false,
        amount_credited: amount,
        amount_debited: 0,
        fee: Some(fee),
        num_inputs: 0,
        num_outputs: 1,
        kernel_excess: None,
        ttl_cutoff_height: None,
        reverted_after_secs: None,
        payment_proof: None,
    });
    assert(st.ledger@.drop_last() =~= led0);
    id
}

/// The result of finalizing: the finished slate, and whether and how to
/// submit it to the network (`Some(fluff)`).
pub struct Finalized {
    pub slate: Slate,
    pub submit: Option<bool>,
}

impl Wallet {
    /// The receiving party's round of a sender-initiated negotiation: adds the
    /// receiver's contribution, moves the slate from `Standard1` to
    /// `Standard2`, and records the incoming output and a ledger entry.
    pub fn receive_slatepack(&mut self, slate: Slate, contribution: Participant, output_commit: [u8; 33]) -> (r: Result<Slate, WalletError>)
        requires
            old(self).wf(),
        ensures
            final(self).wf(),
            final(self).config == old(self).config,
            r is Err ==> final(self).state == old(self).state,
            !old(self).ready() ==> r == Err::<Slate, WalletError>(old(self).not_ready_error()),
            old(self).ready() ==> {
                let st = old(self).state->0;
                &&& !receivable(slate) ==> r == Err::<Slate, WalletError>(WalletError::UnexpectedState)
                &&& receivable(slate) && records_slate(st.ledger@, slate.id) ==> r == Err::<Slate, WalletError>(WalletError::DuplicateSlate)
                &&& receivable(slate) && !records_slate(st.ledger@, slate.id) && st.next_tx_id == u32::MAX ==> r == Err::<Slate, WalletError>(WalletError::Exhausted)
                &&& receivable(slate) && !records_slate(st.ledger@, slate.id) && st.next_tx_id < u32::MAX ==> r is Ok
            },
            r is Ok ==> final(self).ready() && ({
                let st0 = old(self).state->0;
                let st = final(self).state->0;
                let id = st0.next_tx_id;
                &&& advanced(slate, r->Ok_0, contribution, false)
                &&& r->Ok_0.state == SlateState::Standard2
                &&& st.next_tx_id == id + 1
                &&& st.outputs@ == st0.outputs@.push(received_output_spec(output_commit, slate.amount, id))
                &&& st.ledger@.drop_last() == st0.ledger@
                &&& st.ledger@.len() == st0.ledger@.len() + 1
                &&& entry_spec(st.ledger@.last(), id, slate.id, TxKind::TxReceived, 0, slate.amount as int, slate.fee, 0, 1)
            }),
    {
        if let Err(e) = self.check_ready() {
            return Err(e);
        }
        if !(slate.state == SlateState::Standard1 && slate.participants.len() == 1) {
            return Err(WalletError::UnexpectedState);
        }
        match &mut self.state {
            Some(st) => {
                if find_slate_index(&st.ledger, slate.id).is_some() {
                    return Err(WalletError::DuplicateSlate);
                }
                if st.next_tx_id == u32::MAX {
                    return Err(WalletError::Exhausted);
                }
                record_receipt(st, slate.id, slate.amount, slate.fee, output_commit);
                Ok(advance_slate(slate, contribution, false))
            },
            None => Err(WalletError::NotInitialized),
        }
    }

    /// First step of a recipient-initiated negotiation: builds the `Invoice1`
    /// slate asking for `amount` with fee `fee`, both fixed from here on, with
    /// the issuer's contribution, and records the expected output and a ledger
    /// entry.
    pub fn issue_invoice(&mut self, amount: u64, fee: u64, slate_id: u128, contribution: Participant, output_commit: [u8; 33]) -> (r: Result<Slate, WalletError>)
        requires
            old(self).wf(),
        ensures
            final(self).wf(),
            final(self).config == old(self).config,
            r is Err ==> final(self).state == old(self).state,
            amount == 0 ==> r == Err::<Slate, WalletError>(WalletError::ZeroAmount),
            amount > 0 && !old(self).ready() ==> r == Err::<Slate, WalletError>(old(self).not_ready_error()),
            amount > 0 && old(self).ready() ==> {
                let st = old(self).state->0;
                &&& records_slate(st.ledger@, slate_id) ==> r == Err::<Slate, WalletError>(WalletError::DuplicateSlate)
                &&& !records_slate(st.ledger@, slate_id) && st.next_tx_id == u32::MAX ==> r == Err::<Slate, WalletError>(WalletError::Exhausted)
                &&& !records_slate(st.ledger@, slate_id) && st.next_tx_id < u32::MAX ==> r is Ok
            },
            r is Ok ==> final(self).ready() && ({
                let st0 = old(self).state->0;
                let st = final(self).state->0;
                let id = st0.next_tx_id;
                let s = r->Ok_0;
                &&& s.id == slate_id
                &&& s.amount == amount
                &&& s.fee == fee
                &&& s.state == SlateState::Invoice1
                &&& s.participants@ == seq![as_party(contribution, false)]
                &&& s.kernel_excess is None
                &&& st.next_tx_id == id + 1
                &&& st.outputs@ == st0.outputs@.push(received_output_spec(output_commit, amount, id))
                &&& st.ledger@.drop_last() == st0.ledger@
                &&& st.ledger@.len() == st0.ledger@.len() + 1
                &&& entry_spec(st.ledger@.last(), id, slate_id, TxKind::TxReceived, 0, amount as int, fee, 0, 1)
            }),
    {
        if amount == 0 {
            return Err(WalletError::ZeroAmount);
        }
        if let Err(e) = self.check_ready() {
            return Err(e);
        }
        match &mut self.state {
            Some(st) => {
                if find_slate_index(&st.ledger, slate_id).is_some() {
                    return Err(WalletError::DuplicateSlate);
                }
                if st.next_tx_id == u32::MAX {
                    return Err(WalletError::Exhausted);
                }
                record_receipt(st, slate_id, amount, fee, output_commit);
                let mut participants: Vec<Participant> = Vec::new();
                participants.push(Participant { is_sender: false, ..contribution });
                assert(participants@ =~= seq![as_party(contribution, false)]);
                Ok(Slate {
                    id: slate_id,
                    amount,
                    fee,
                    state: SlateState::Invoice1,
                    participants,
                    kernel_excess: None,
                })
            },
            None => Err(WalletError::NotInitialized),
        }
    }

    /// The paying party's round of an invoice: chooses inputs covering the
    /// invoiced amount plus its fee, adds the payer's contribution and moves
    /// the slate from `Invoice1` to `Invoice2`. Nothing is reserved until
    /// `tx_lock_outputs` records the plan.
    pub fn process_invoice(&self, slate: Slate, tip: u64, contribution: Participant) -> (r: Result<SendPlan, WalletError>)
        requires
            self.wf(),
        ensures
            !self.ready() ==> r == Err::<SendPlan, WalletError>(self.not_ready_error()),
            self.ready() ==> {
                let st = self.state->0;
                let funds = spendable_total(st.outputs@, st.outputs@.len() as int, tip, MIN_CONFIRMATIONS);
                &&& !payable(slate) ==> r == Err::<SendPlan, WalletError>(WalletError::UnexpectedState)
                &&& payable(slate) && records_slate(st.ledger@, slate.id) ==> r == Err::<SendPlan, WalletError>(WalletError::DuplicateSlate)
                &&& payable(slate) && !records_slate(st.ledger@, slate.id) && funds < slate.amount + slate.fee ==> r == Err::<SendPlan, WalletError>(WalletError::InsufficientFunds)
                &&& payable(slate) && !records_slate(st.ledger@, slate.id) && funds >= slate.amount + slate.fee ==> r is Ok
            },
            r is Ok ==> {
                let p = r->Ok_0;
                &&& advanced(slate, p.slate, contribution, true)
                &&& p.slate.state == SlateState::Invoice2
                &&& plan_covers(p, self.state->0.outputs@, slate.amount + slate.fee, tip)
            },
    {
        if let Err(e) = self.check_ready() {
            return Err(e);
        }
        if !(slate.state == SlateState::Invoice1 && slate.participants.len() == 1) {
            return Err(WalletError::UnexpectedState);
        }
        match &self.state {
            Some(st) => {
                if find_slate_index(&st.ledger, slate.id).is_some() {
                    return Err(WalletError::DuplicateSlate);
                }
                match plan_inputs(&st.outputs, slate.amount as u128 + slate.fee as u128, tip) {
                    None => Err(WalletError::InsufficientFunds),
                    Some((inputs, input_total, change)) => {
                        let out = advance_slate(slate, contribution, true);
                        Ok(SendPlan { slate: out, inputs, input_total, change })
                    },
                }
            },
            None => Err(WalletError::NotInitialized),
        }
    }
}

/// A plan that `tx_lock_outputs` accepts reserves only outputs that are
/// unspent and held by no other slate.
pub proof fn lemma_no_double_reservation(plan: SendPlan, outs: Seq<OutputRecord>, tip: u64)
    requires
        plan_current(plan, outs, tip),
    ensures
        forall|i: int| 0 <= i < plan.inputs@.len() ==> {
            let o = #[trigger] outs[plan.inputs@[i] as int];
            o.locked_by is None && o.status == OutputStatus::Unspent
        },
{
    assert forall|i: int| 0 <= i < plan.inputs@.len() implies {
        let o = #[trigger] outs[plan.inputs@[i] as int];
        o.locked_by is None && o.status == OutputStatus::Unspent
    } by {
        assert(spendable_spec(outs[plan.inputs@[i] as int], tip, MIN_CONFIRMATIONS));
    }
}

/// In a well-formed wallet the entry that records a slate is the only one:
/// the slate id a spending or receiving step returns names exactly the
/// ledger entry it appended.
pub proof fn lemma_slate_recorded_once(st: WalletState, k: int, slate_id: u128)
    requires
        state_wf(st),
        0 <= k < st.ledger@.len(),
        st.ledger@[k].slate_id == Some(slate_id),
    ensures
        forall|j: int| 0 <= j < st.ledger@.len() && (#[trigger] st.ledger@[j]).slate_id == Some(slate_id) ==> j == k,
{
    assert forall|j: int| 0 <= j < st.ledger@.len() && (#[trigger] st.ledger@[j]).slate_id == Some(slate_id) implies j == k by {
        if j != k {
            assert(st.ledger@[k].slate_id != st.ledger@[j].slate_id);
        }
    }
}

} // verus!

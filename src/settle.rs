//! Closing a negotiation: finalizing it, cancelling it, or submitting a
//! finished transaction again.
use vstd::prelude::*;
use crate::ledger::{LedgerEntry, TxKind};
use crate::negotiate::{Finalized, advanced, finalizable, finalized, receivable, records_slate};
use crate::outputs::{OutputRecord, count_locked_by, output_wf, release_slate, released_spec};
use crate::slate::{Participant, Slate, SlateState, next_state};
use crate::wallet::{Wallet, WalletError, WalletState, find_tx, has_tx, slate_ids_unique, state_wf, tx_ids_unique};

verus! {

/// Position of the ledger entry with id `tx_id`.
pub open spec fn tx_index(led: Seq<LedgerEntry>, tx_id: u32) -> int {
    choose|k: int| 0 <= k < led.len() && (#[trigger] led[k]).id == tx_id
}

/// Position of the ledger entry that records slate `slate_id`.
pub open spec fn slate_index(led: Seq<LedgerEntry>, slate_id: u128) -> int {
    choose|k: int| 0 <= k < led.len() && (#[trigger] led[k]).slate_id == Some(slate_id)
}

/// The entry records a cancelled negotiation.
pub open spec fn is_cancelled_kind(kind: TxKind) -> bool {
    kind == TxKind::TxSentCancelled || kind == TxKind::TxReceivedCancelled
}

/// The entry's transaction is finished: confirmed, finalized, reverted, or a
/// coinbase reward.
pub open spec fn is_settled(e: LedgerEntry) -> bool {
    e.confirmed || e.kernel_excess is Some || e.kind == TxKind::TxReverted || e.kind == TxKind::ConfirmedCoinbase
}

/// The kind an entry of kind `kind` takes when it is cancelled.
pub open spec fn cancelled_kind_spec(kind: TxKind) -> TxKind {
    match kind {
        TxKind::TxSent => TxKind::TxSentCancelled,
        TxKind::TxReceived => TxKind::TxReceivedCancelled,
        _ => kind,
    }
}

/// The kind a cancelled entry of kind `kind` takes.
pub fn cancelled_kind(kind: TxKind) -> (r: TxKind)
    ensures
        r == cancelled_kind_spec(kind),
{
    match kind {
        TxKind::TxSent => TxKind::TxSentCancelled,
        TxKind::TxReceived => TxKind::TxReceivedCancelled,
        _ => kind,
    }
}

/// Whether ledger entry `tx_id` may be cancelled, and if not, why.
pub open spec fn cancel_decision(st: WalletState, tx_id: u32) -> Result<(), WalletError> {
    if !has_tx(st.ledger@, tx_id) {
        Err(WalletError::UnknownTransaction)
    } else {
        let e = st.ledger@[tx_index(st.ledger@, tx_id)];
        if is_cancelled_kind(e.kind) {
            Err(WalletError::AlreadyCancelled)
        } else if is_settled(e) {
            Err(WalletError::AlreadyFinalized)
        } else {
            Ok(())
        }
    }
}

/// What cancelling ledger entry `tx_id` does: the entry is marked cancelled
/// and every output its slate reserved is released; nothing else changes.
pub open spec fn cancel_effect(st0: WalletState, st1: WalletState, tx_id: u32) -> bool {
    let k = tx_index(st0.ledger@, tx_id);
    let e = st0.ledger@[k];
    &&& st1.ledger@ == st0.ledger@.update(k, LedgerEntry { kind: cancelled_kind_spec(e.kind), ..e })
    &&& st1.outputs@.len() == st0.outputs@.len()
    &&& forall|j: int|
        0 <= j < st0.outputs@.len() ==> #[trigger] st1.outputs@[j] == if e.slate_id is Some
            && st0.outputs@[j].locked_by == e.slate_id {
            released_spec(st0.outputs@[j])
        } else {
            st0.outputs@[j]
        }
    &&& st1.next_tx_id == st0.next_tx_id
    &&& st1.accounts@ == st0.accounts@
    &&& st1.active_account@ == st0.active_account@
    &&& st1.address@ == st0.address@
    &&& st1.generation == st0.generation
}

/// Whether `slate` may be finalized, and if not, why.
pub open spec fn finalize_decision(st: WalletState, slate: Slate) -> Result<(), WalletError> {
    if !finalizable(slate) {
        Err(WalletError::UnexpectedState)
    } else if !records_slate(st.ledger@, slate.id) {
        Err(WalletError::UnknownTransaction)
    } else {
        let e = st.ledger@[slate_index(st.ledger@, slate.id)];
        if is_cancelled_kind(e.kind) {
            Err(WalletError::AlreadyCancelled)
        } else if e.kernel_excess is Some {
            Err(WalletError::AlreadyFinalized)
        } else {
            Ok(())
        }
    }
}

/// Whether ledger entry `tx_id` may be submitted again, and if not, why.
pub open spec fn repost_decision(st: WalletState, tx_id: u32) -> Result<(), WalletError> {
    if !has_tx(st.ledger@, tx_id) {
        Err(WalletError::UnknownTransaction)
    } else {
        let e = st.ledger@[tx_index(st.ledger@, tx_id)];
        if is_cancelled_kind(e.kind) {
            Err(WalletError::AlreadyCancelled)
        } else if e.kernel_excess is None {
            Err(WalletError::NotFinalized)
        } else if e.confirmed {
            Err(WalletError::AlreadyConfirmed)
        } else {
            Ok(())
        }
    }
}

/// A request to submit a finished transaction again.
#[derive(Debug, Clone, Copy)]
pub struct Repost {
    pub tx_id: u32,
    pub kernel_excess: [u8; 33],
    pub fluff: bool,
}

proof fn lemma_tx_index(led: Seq<LedgerEntry>, tx_id: u32, i: int)
    requires
        tx_ids_unique(led),
        0 <= i < led.len(),
        led[i].id == tx_id,
    ensures
        has_tx(led, tx_id),
        tx_index(led, tx_id) == i,
{
    assert(led[i].id == tx_id);
    let k = tx_index(led, tx_id);
    assert(0 <= k < led.len() && led[k].id == tx_id);
}

proof fn lemma_slate_index(led: Seq<LedgerEntry>, slate_id: u128, i: int)
    requires
        slate_ids_unique(led),
        0 <= i < led.len(),
        led[i].slate_id == Some(slate_id),
    ensures
        records_slate(led, slate_id),
        slate_index(led, slate_id) == i,
{
    assert(led[i].slate_id == Some(slate_id));
    let k = slate_index(led, slate_id);
    assert(0 <= k < led.len() && led[k].slate_id == Some(slate_id));
}

/// The entry at `i` with the given kind and kernel excess.
pub open spec fn with_kind_kernel(e: LedgerEntry, kind: TxKind, kernel: Option<[u8; 33]>) -> LedgerEntry {
    LedgerEntry { kind, kernel_excess: kernel, ..e }
}

/// Sets the kind and the kernel excess of the ledger entry at `i`.
fn update_entry(st: &mut WalletState, i: usize, kind: TxKind, kernel: Option<[u8; 33]>)
    requires
        state_wf(*old(st)),
        i < old(st).ledger@.len(),
    ensures
        state_wf(*final(st)),
        final(st).ledger@ == old(st).ledger@.update(i as int, with_kind_kernel(old(st).ledger@[i as int], kind, kernel)),
        final(st).outputs@ == old(st).outputs@,
        final(st).next_tx_id == old(st).next_tx_id,
        final(st).accounts@ == old(st).accounts@,
        final(st).active_account@ == old(st).active_account@,
        final(st).address@ == old(st).address@,
        final(st).generation == old(st).generation,
{
    let ghost before = st.ledger@;
    let mut e = st.ledger.remove(i);
    e.kind = kind;
    e.kernel_excess = kernel;
    st.ledger.insert(i, e);
    assert(st.ledger@ =~= before.update(i as int, with_kind_kernel(before[i as int], kind, kernel)));
    proof {
        let led = st.ledger@;
        assert forall|a: int| 0 <= a < led.len() implies (#[trigger] led[a]).id == before[a].id
            && led[a].slate_id == before[a].slate_id by {}
        assert forall|a: int, b: int|
            0 <= a < led.len() && 0 <= b < led.len() && a != b implies (#[trigger] led[a]).id
            != (#[trigger] led[b]).id by {
            assert(led[a].id == before[a].id && led[b].id == before[b].id);
        }
        assert forall|a: int, b: int|
            0 <= a < led.len() && 0 <= b < led.len() && a != b && (#[trigger] led[a]).slate_id
                is Some implies led[a].slate_id != (#[trigger] led[b]).slate_id by {
            assert(led[a].slate_id == before[a].slate_id && led[b].slate_id == before[b].slate_id);
        }
        assert forall|a: int| 0 <= a < led.len() implies (#[trigger] led[a]).id < st.next_tx_id by {
            assert(led[a].id == before[a].id);
        }
    }
}

impl Wallet {
    /// Finalizes a slate at its penultimate state with the aggregated kernel
    /// excess: the slate moves to `Standard3` or `Invoice3`, the ledger entry
    /// records the kernel, and whether to submit it (and with fluff or not) is
    /// passed through.
    pub fn finalize_slatepack(&mut self, slate: Slate, kernel_excess: [u8; 33], post: bool, fluff: bool) -> (r: Result<Finalized, WalletError>)
        requires
            old(self).wf(),
        ensures
            final(self).wf(),
            final(self).config == old(self).config,
            r is Err ==> final(self).state == old(self).state,
            !old(self).ready() ==> r is Err && r->Err_0 == old(self).not_ready_error(),
            old(self).ready() ==> (r is Ok <==> finalize_decision(old(self).state->0, slate) is Ok),
            old(self).ready() && finalize_decision(old(self).state->0, slate) is Err ==> r is Err && r->Err_0
                == finalize_decision(old(self).state->0, slate)->Err_0,
            r is Ok ==> final(self).ready() && ({
                let st0 = old(self).state->0;
                let st = final(self).state->0;
                let k = slate_index(st0.ledger@, slate.id);
                &&& finalized(slate, r->Ok_0.slate, kernel_excess)
                &&& r->Ok_0.submit == if post { Some(fluff) } else { None::<bool> }
                &&& st.ledger@ == st0.ledger@.update(k, with_kind_kernel(st0.ledger@[k], st0.ledger@[k].kind, Some(kernel_excess)))
                &&& st.outputs@ == st0.outputs@
                &&& st.next_tx_id == st0.next_tx_id
            }),
    {
        if let Err(e) = self.check_ready() {
            return Err(e);
        }
        if !((slate.state == SlateState::Standard2 || slate.state == SlateState::Invoice2) && slate.participants.len() == 2) {
            return Err(WalletError::UnexpectedState);
        }
        match &mut self.state {
            Some(st) => {
                let i = match crate::negotiate::find_slate_index(&st.ledger, slate.id) {
                    None => return Err(WalletError::UnknownTransaction),
                    Some(i) => i,
                };
                proof {
                    lemma_slate_index(st.ledger@, slate.id, i as int);
                }
                let kind = st.ledger[i].kind;
                if kind == TxKind::TxSentCancelled || kind == TxKind::TxReceivedCancelled {
                    return Err(WalletError::AlreadyCancelled);
                }
                if st.ledger[i].kernel_excess.is_some() {
                    return Err(WalletError::AlreadyFinalized);
                }
                update_entry(st, i, kind, Some(kernel_excess));
                let mut out = slate;
                out.state = match next_state(out.state) {
                    Some(n) => n,
                    None => out.state,
                };
                out.kernel_excess = Some(kernel_excess);
                Ok(Finalized { slate: out, submit: if post { Some(fluff) } else { None } })
            },
            None => Err(WalletError::NotInitialized),
        }
    }
}

impl Wallet {
    /// Cancels ledger entry `tx_id`: it is marked cancelled and the outputs its
    /// slate reserved are released. Returns how many were released. An entry
    /// that is already cancelled or already finished is refused.
    pub fn cancel_tx(&mut self, tx_id: u32) -> (r: Result<usize, WalletError>)
        requires
            old(self).wf(),
        ensures
            final(self).wf(),
            final(self).config == old(self).config,
            r is Err ==> final(self).state == old(self).state,
            !old(self).ready() ==> r is Err && r->Err_0 == old(self).not_ready_error(),
            old(self).ready() ==> (r is Ok <==> cancel_decision(old(self).state->0, tx_id) is Ok),
            old(self).ready() && cancel_decision(old(self).state->0, tx_id) is Err ==> r is Err && r->Err_0
                == cancel_decision(old(self).state->0, tx_id)->Err_0,
            r is Ok ==> final(self).ready() && ({
                let st0 = old(self).state->0;
                let e = st0.ledger@[tx_index(st0.ledger@, tx_id)];
                &&& cancel_effect(st0, final(self).state->0, tx_id)
                &&& r->Ok_0 == match e.slate_id {
                    Some(sid) => count_locked_by(st0.outputs@, st0.outputs@.len() as int, sid),
                    None => 0,
                }
            }),
    {
        if let Err(e) = self.check_ready() {
            return Err(e);
        }
        match &mut self.state {
            Some(st) => {
                let i = match find_tx(&st.ledger, tx_id) {
                    None => return Err(WalletError::UnknownTransaction),
                    Some(i) => i,
                };
                proof {
                    lemma_tx_index(st.ledger@, tx_id, i as int);
                }
                let kind = st.ledger[i].kind;
                if kind == TxKind::TxSentCancelled || kind == TxKind::TxReceivedCancelled {
                    return Err(WalletError::AlreadyCancelled);
                }
                let kernel = st.ledger[i].kernel_excess;
                if st.ledger[i].confirmed || kernel.is_some() || kind == TxKind::TxReverted
                    || kind == TxKind::ConfirmedCoinbase {
                    return Err(WalletError::AlreadyFinalized);
                }
                let slate_id = st.ledger[i].slate_id;
                update_entry(st, i, cancelled_kind(kind), kernel);
                match slate_id {
                    None => Ok(0),
                    Some(sid) => {
                        let ghost outs0 = st.outputs@;
                        let n = release_slate(&mut st.outputs, sid);
                        assert forall|j: int| 0 <= j < st.outputs@.len() implies output_wf(#[trigger] st.outputs@[j]) by {
                            assert(output_wf(outs0[j]));
                        }
                        Ok(n)
                    },
                }
            },
            None => Err(WalletError::NotInitialized),
        }
    }

    /// Asks for finished ledger entry `tx_id` to be submitted again, without
    /// touching any state.
    pub fn repost_tx(&self, tx_id: u32, fluff: bool) -> (r: Result<Repost, WalletError>)
        requires
            self.wf(),
        ensures
            !self.ready() ==> r is Err && r->Err_0 == self.not_ready_error(),
            self.ready() ==> (r is Ok <==> repost_decision(self.state->0, tx_id) is Ok),
            self.ready() && repost_decision(self.state->0, tx_id) is Err ==> r is Err && r->Err_0
                == repost_decision(self.state->0, tx_id)->Err_0,
            r is Ok ==> ({
                let led = self.state->0.ledger@;
                let e = led[tx_index(led, tx_id)];
                &&& r->Ok_0.tx_id == tx_id
                &&& Some(r->Ok_0.kernel_excess) == e.kernel_excess
                &&& r->Ok_0.fluff == fluff
            }),
    {
        if let Err(e) = self.check_ready() {
            return Err(e);
        }
        match &self.state {
            Some(st) => {
                let i = match find_tx(&st.ledger, tx_id) {
                    None => return Err(WalletError::UnknownTransaction),
                    Some(i) => i,
                };
                proof {
                    lemma_tx_index(st.ledger@, tx_id, i as int);
                }
                let e = &st.ledger[i];
                if e.kind == TxKind::TxSentCancelled || e.kind == TxKind::TxReceivedCancelled {
                    return Err(WalletError::AlreadyCancelled);
                }
                match e.kernel_excess {
                    None => Err(WalletError::NotFinalized),
                    Some(k) => if e.confirmed {
                        Err(WalletError::AlreadyConfirmed)
                    } else {
                        Ok(Repost { tx_id, kernel_excess: k, fluff })
                    },
                }
            },
            None => Err(WalletError::NotInitialized),
        }
    }
}

proof fn lemma_none_locked(outs: Seq<OutputRecord>, n: int, sid: u128)
    requires
        0 <= n <= outs.len(),
        forall|j: int| 0 <= j < outs.len() ==> (#[trigger] outs[j]).locked_by != Some(sid),
    ensures
        count_locked_by(outs, n, sid) == 0,
    decreases n,
{
    if n > 0 {
        lemma_none_locked(outs, n - 1, sid);
    }
}

/// Cancelling takes effect once: after a cancellation of ledger entry
/// `tx_id` has succeeded, a second one is refused as already cancelled, and
/// no output is reserved by the entry's slate any more, so none can be
/// released twice.
pub proof fn lemma_cancel_once(st0: WalletState, st1: WalletState, tx_id: u32)
    requires
        state_wf(st0),
        cancel_decision(st0, tx_id) is Ok,
        cancel_effect(st0, st1, tx_id),
    ensures
        cancel_decision(st1, tx_id) == Err::<(), WalletError>(WalletError::AlreadyCancelled),
        ({
            let e = st0.ledger@[tx_index(st0.ledger@, tx_id)];
            e.slate_id is Some ==> count_locked_by(st1.outputs@, st1.outputs@.len() as int, e.slate_id->0) == 0
        }),
{
    let k = tx_index(st0.ledger@, tx_id);
    let e = st0.ledger@[k];
    assert(0 <= k < st0.ledger@.len() && st0.ledger@[k].id == tx_id);
    let led1 = st1.ledger@;
    assert(tx_ids_unique(led1)) by {
        assert forall|a: int, b: int| 0 <= a < led1.len() && 0 <= b < led1.len() && a != b implies
            (#[trigger] led1[a]).id != (#[trigger] led1[b]).id by {
            assert(led1[a].id == st0.ledger@[a].id);
            assert(led1[b].id == st0.ledger@[b].id);
        }
    }
    assert(led1[k].id == tx_id);
    lemma_tx_index(led1, tx_id, k);
    assert(e.kind == TxKind::TxSent || e.kind == TxKind::TxReceived);
    if e.slate_id is Some {
        let sid = e.slate_id->0;
        assert forall|j: int| 0 <= j < st1.outputs@.len() implies (#[trigger] st1.outputs@[j]).locked_by != Some(sid) by {
            assert(st1.outputs@[j] == if st0.outputs@[j].locked_by == e.slate_id {
                released_spec(st0.outputs@[j])
            } else {
                st0.outputs@[j]
            });
        }
        lemma_none_locked(st1.outputs@, st1.outputs@.len() as int, sid);
    }
}

/// A sender's first-round slate, answered by the receiver and then finalized,
/// passes through `Standard2` to `Standard3` and ends with a kernel: each
/// step's result is exactly what the next step accepts.
pub proof fn lemma_round_trip(
    sent: Slate,
    reply: Participant,
    received: Slate,
    kernel: [u8; 33],
    done: Slate,
)
    requires
        sent.state == SlateState::Standard1,
        sent.participants@.len() == 1,
        advanced(sent, received, reply, false),
        finalized(received, done, kernel),
    ensures
        receivable(sent),
        received.state == SlateState::Standard2,
        finalizable(received),
        done.state == SlateState::Standard3,
        done.kernel_excess == Some(kernel),
        done.id == sent.id && done.amount == sent.amount && done.fee == sent.fee,
{
}

} // verus!

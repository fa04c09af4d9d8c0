//! The transaction ledger: one entry per negotiation, and how an entry is
//! classified and summarised for callers.
use vstd::prelude::*;
use crate::outputs::{OutputRecord, confirmations, confirmations_spec};

verus! {

/// What kind of transaction an entry records.
#[derive(Debug, Clone, Copy, PartialEq, Eq, Structural)]
pub enum TxKind {
    ConfirmedCoinbase,
    TxReceived,
    TxSent,
    TxReceivedCancelled,
    TxSentCancelled,
    TxReverted,
}

/// Which way value moved.
#[derive(Debug, Clone, Copy, PartialEq, Eq, Structural)]
pub enum Direction {
    Sent,
    Received,
    Reverted,
}

/// Where a transaction stands.
#[derive(Debug, Clone, Copy, PartialEq, Eq, Structural)]
pub enum TxStatus {
    Pending,
    Confirmed,
    Cancelled,
    Reverted,
}

/// A durable record of one negotiation.
#[derive(Debug, Clone)]
pub struct LedgerEntry {
    pub id: u32,
    pub slate_id: Option<u128>,
    pub kind: TxKind,
    pub confirmed: bool,
    pub amount_credited: u64,
    pub amount_debited: u64,
    pub fee: Option<u64>,
    pub num_inputs: usize,
    pub num_outputs: usize,
    /// Kernel excess, present once the transaction is finalized.
    pub kernel_excess: Option<[u8; 33]>,
    pub ttl_cutoff_height: Option<u64>,
    /// How long after its creation an unconfirmed transaction counts as
    /// reverted, in seconds.
    pub reverted_after_secs: Option<u64>,
    /// Serialized payment proof, when one was requested.
    pub payment_proof: Option<Vec<u8>>,
}

/// Sent transactions, cancelled or not, move value out; reverted ones are
/// their own direction; everything else moves value in.
pub open spec fn direction_spec(kind: TxKind) -> Direction {
    match kind {
        TxKind::TxSent | TxKind::TxSentCancelled => Direction::Sent,
        TxKind::TxReverted => Direction::Reverted,
        _ => Direction::Received,
    }
}

/// The direction of a transaction of kind `kind`.
pub fn tx_direction(kind: TxKind) -> (r: Direction)
    ensures
        r == direction_spec(kind),
{
    match kind {
        TxKind::TxSent | TxKind::TxSentCancelled => Direction::Sent,
        TxKind::TxReverted => Direction::Reverted,
        _ => Direction::Received,
    }
}

/// Cancellation and reversion decide the status; otherwise confirmation does.
pub open spec fn status_spec(kind: TxKind, confirmed: bool) -> TxStatus {
    match kind {
        TxKind::TxReceivedCancelled | TxKind::TxSentCancelled => TxStatus::Cancelled,
        TxKind::TxReverted => TxStatus::Reverted,
        _ => if confirmed {
            TxStatus::Confirmed
        } else {
            TxStatus::Pending
        },
    }
}

/// The status of a transaction of kind `kind`.
pub fn tx_status(kind: TxKind, confirmed: bool) -> (r: TxStatus)
    ensures
        r == status_spec(kind, confirmed),
{
    match kind {
        TxKind::TxReceivedCancelled | TxKind::TxSentCancelled => TxStatus::Cancelled,
        TxKind::TxReverted => TxStatus::Reverted,
        _ => if confirmed {
            TxStatus::Confirmed
        } else {
            TxStatus::Pending
        },
    }
}

/// The net amount moved in the transaction's direction, never below zero.
pub open spec fn net_amount_spec(dir: Direction, debited: u64, credited: u64) -> int {
    if dir == Direction::Sent {
        if debited >= credited { debited - credited } else { 0 }
    } else {
        if credited >= debited { credited - debited } else { 0 }
    }
}

/// The net amount moved in direction `dir`.
pub fn net_amount(dir: Direction, debited: u64, credited: u64) -> (r: u64)
    ensures
        r == net_amount_spec(dir, debited, credited),
{
    if dir == Direction::Sent {
        debited.saturating_sub(credited)
    } else {
        credited.saturating_sub(debited)
    }
}

/// The fewest confirmations among the first `n` outputs created by ledger
/// entry `tx_id`, or `None` when there is none.
pub open spec fn min_confirmations_spec(outs: Seq<OutputRecord>, n: int, tx_id: u32, tip: u64) -> Option<int>
    decreases n,
{
    if n <= 0 {
        None
    } else {
        let rest = min_confirmations_spec(outs, n - 1, tx_id, tip);
        if outs[n - 1].tx_log_id == Some(tx_id) {
            let c = confirmations_spec(outs[n - 1].height, tip);
            match rest {
                None => Some(c),
                Some(m) => Some(if c < m { c } else { m }),
            }
        } else {
            rest
        }
    }
}

/// Confirmations of ledger entry `tx_id`: the fewest among the outputs it
/// created, zero when it created none.
pub open spec fn tx_confirmations_spec(outs: Seq<OutputRecord>, tx_id: u32, tip: u64) -> int {
    match min_confirmations_spec(outs, outs.len() as int, tx_id, tip) {
        None => 0,
        Some(m) => m,
    }
}

/// Confirmations of ledger entry `tx_id` at chain height `tip`.
pub fn tx_confirmations(outs: &Vec<OutputRecord>, tx_id: u32, tip: u64) -> (r: u64)
    ensures
        r == tx_confirmations_spec(outs@, tx_id, tip),
{
    let mut best: Option<u64> = None;
    let mut i: usize = 0;
    while i < outs.len()
        invariant
            i <= outs@.len(),
            match best {
                None => min_confirmations_spec(outs@, i as int, tx_id, tip) is None,
                Some(b) => min_confirmations_spec(outs@, i as int, tx_id, tip) == Some(b as int),
            },
        decreases outs@.len() - i,
    {
        if outs[i].tx_log_id == Some(tx_id) {
            let c = confirmations(outs[i].height, tip);
            best = match best {
                None => Some(c),
                Some(b) => Some(if c < b { c } else { b }),
            };
        }
        i = i + 1;
    }
    match best {
        None => 0,
        Some(b) => b,
    }
}

/// What callers are shown of a ledger entry.
#[derive(Debug, Clone)]
pub struct TxSummary {
    pub id: u32,
    pub slate_id: Option<u128>,
    pub kind: TxKind,
    pub status: TxStatus,
    pub direction: Direction,
    pub confirmed: bool,
    pub amount: u64,
    pub fee: Option<u64>,
    pub num_inputs: usize,
    pub num_outputs: usize,
    pub has_proof: bool,
    pub kernel_excess: Option<[u8; 33]>,
    pub ttl_cutoff_height: Option<u64>,
    pub reverted_after_secs: Option<u64>,
    pub confirmations: u64,
}

/// The summary of `e` given its confirmation count.
pub open spec fn summary_spec(e: LedgerEntry, confirmations: u64) -> TxSummary {
    TxSummary {
        id: e.id,
        slate_id: e.slate_id,
        kind: e.kind,
        status: status_spec(e.kind, e.confirmed),
        direction: direction_spec(e.kind),
        confirmed: e.confirmed,
        amount: net_amount_spec(direction_spec(e.kind), e.amount_debited, e.amount_credited) as u64,
        fee: e.fee,
        num_inputs: e.num_inputs,
        num_outputs: e.num_outputs,
        has_proof: e.payment_proof is Some,
        kernel_excess: e.kernel_excess,
        ttl_cutoff_height: e.ttl_cutoff_height,
        reverted_after_secs: e.reverted_after_secs,
        confirmations,
    }
}

impl LedgerEntry {
    /// The summary of this entry given its confirmation count.
    pub fn summary(&self, confirmations: u64) -> (r: TxSummary)
        ensures
            r == summary_spec(*self, confirmations),
    {
        let direction = tx_direction(self.kind);
        TxSummary {
            id: self.id,
            slate_id: self.slate_id,
            kind: self.kind,
            status: tx_status(self.kind, self.confirmed),
            direction,
            confirmed: self.confirmed,
            amount: net_amount(direction, self.amount_debited, self.amount_credited),
            fee: self.fee,
            num_inputs: self.num_inputs,
            num_outputs: self.num_outputs,
            has_proof: self.payment_proof.is_some(),
            kernel_excess: self.kernel_excess,
            ttl_cutoff_height: self.ttl_cutoff_height,
            reverted_after_secs: self.reverted_after_secs,
            confirmations,
        }
    }
}

} // verus!

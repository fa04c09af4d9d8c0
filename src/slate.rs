//! Slates: the transaction-in-progress exchanged by the two negotiating
//! parties, and the fixed orderings its state moves along.
use vstd::prelude::*;

verus! {

/// Where a slate stands in one of the two negotiation tracks: sender
/// initiated (`Standard*`) or recipient initiated (`Invoice*`).
#[derive(Debug, Clone, Copy, PartialEq, Eq, Structural)]
pub enum SlateState {
    Unknown,
    Standard1,
    Standard2,
    Standard3,
    Invoice1,
    Invoice2,
    Invoice3,
}

/// The state one round after `s`, if the protocol has one.
pub open spec fn next_state_spec(s: SlateState) -> Option<SlateState> {
    match s {
        SlateState::Standard1 => Some(SlateState::Standard2),
        SlateState::Standard2 => Some(SlateState::Standard3),
        SlateState::Invoice1 => Some(SlateState::Invoice2),
        SlateState::Invoice2 => Some(SlateState::Invoice3),
        _ => None,
    }
}

/// The state one round after `s`; `None` for the final states and `Unknown`.
pub fn next_state(s: SlateState) -> (r: Option<SlateState>)
    ensures
        r == next_state_spec(s),
{
    match s {
        SlateState::Standard1 => Some(SlateState::Standard2),
        SlateState::Standard2 => Some(SlateState::Standard3),
        SlateState::Invoice1 => Some(SlateState::Invoice2),
        SlateState::Invoice2 => Some(SlateState::Invoice3),
        _ => None,
    }
}

/// The short code shown for each state.
pub open spec fn state_code_spec(s: SlateState) -> Seq<char> {
    match s {
        SlateState::Standard1 => "S1"@,
        SlateState::Standard2 => "S2"@,
        SlateState::Standard3 => "S3"@,
        SlateState::Invoice1 => "I1"@,
        SlateState::Invoice2 => "I2"@,
        SlateState::Invoice3 => "I3"@,
        SlateState::Unknown => "UN"@,
    }
}

/// The short code of state `s`.
pub fn state_code(s: SlateState) -> (r: &'static str)
    ensures
        r@ == state_code_spec(s),
{
    match s {
        SlateState::Standard1 => "S1",
        SlateState::Standard2 => "S2",
        SlateState::Standard3 => "S3",
        SlateState::Invoice1 => "I1",
        SlateState::Invoice2 => "I2",
        SlateState::Invoice3 => "I3",
        SlateState::Unknown => "UN",
    }
}

/// One party's contribution to a slate.
#[derive(Debug, Clone, Copy)]
pub struct Participant {
    pub public_blind_excess: [u8; 33],
    pub public_nonce: [u8; 33],
    pub partial_sig: Option<[u8; 64]>,
    pub is_sender: bool,
}

/// A transaction in progress between two parties.
#[derive(Debug, Clone)]
pub struct Slate {
    pub id: u128,
    pub amount: u64,
    pub fee: u64,
    pub state: SlateState,
    pub participants: Vec<Participant>,
    /// Kernel excess of the finished transaction.
    pub kernel_excess: Option<[u8; 33]>,
}

/// What an inspection of a slate reports.
#[derive(Debug, Clone)]
pub struct SlateInspection {
    pub code: String,
    pub slate_id: u128,
    pub state: SlateState,
    pub amount: u64,
    pub fee: u64,
    pub num_participants: usize,
    pub kernel_excess: Option<[u8; 33]>,
}

/// Reports what a slate holds without changing it.
pub fn inspect_slate(slate: &Slate) -> (r: SlateInspection)
    ensures
        r.code@ == state_code_spec(slate.state),
        r.slate_id == slate.id,
        r.state == slate.state,
        r.amount == slate.amount,
        r.fee == slate.fee,
        r.num_participants == slate.participants@.len(),
        r.kernel_excess == slate.kernel_excess,
{
    SlateInspection {
        code: state_code(slate.state).to_owned(),
        slate_id: slate.id,
        state: slate.state,
        amount: slate.amount,
        fee: slate.fee,
        num_participants: slate.participants.len(),
        kernel_excess: slate.kernel_excess,
    }
}

} // verus!

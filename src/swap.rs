//! The cross-chain atomic-swap coordinator: a four-phase state machine over
//! an indexed store of swap slates, with a checksum gate on every transition
//! that consumes the counterparty's public half.
use vstd::prelude::*;
use crate::config::str_eq;
use crate::text::{to_upper, trim_str, trimmed, upper_of};

verus! {

/// A currency that can stand on either leg of a swap.
#[derive(Debug, Clone, Copy, PartialEq, Eq, Structural)]
pub enum Currency {
    Btc,
    Grin,
}

/// The phase of a swap. Phases only move forward; `Cancelled` is reachable
/// from any phase before `Executed`.
#[derive(Debug, Clone, Copy, PartialEq, Eq, Structural)]
pub enum SwapPhase {
    Init,
    Locked,
    Executed,
    Cancelled,
}

/// Why a swap operation was refused.
#[derive(Debug, Clone, Copy, PartialEq, Eq, Structural)]
pub enum SwapError {
    UnsupportedCurrency,
    DuplicateSwap,
    UnknownSwap,
    AlreadyAccepted,
    /// The public half does not match the checksum the counterparty recorded.
    ChecksumMismatch,
    /// The swap is not in the phase this step needs.
    WrongPhase,
    AlreadyExecuted,
    AlreadyCancelled,
    /// The slate's own id differs from the id it is filed under.
    IdMismatch,
}

/// The currency an upper-case code names.
pub open spec fn currency_of_code(code: Seq<char>) -> Option<Currency> {
    if code == "BTC"@ || code == "BITCOIN"@ {
        Some(Currency::Btc)
    } else if code == "GRIN"@ {
        Some(Currency::Grin)
    } else {
        None
    }
}

/// The currency an upper-case, trimmed code names.
pub fn currency_from_code(code: &str) -> (r: Option<Currency>)
    ensures
        r == currency_of_code(code@),
{
    if str_eq(code, "BTC") || str_eq(code, "BITCOIN") {
        Some(Currency::Btc)
    } else if str_eq(code, "GRIN") {
        Some(Currency::Grin)
    } else {
        None
    }
}

/// Reads a currency code, ignoring surrounding whitespace and case.
pub fn parse_currency(value: &str) -> (r: Result<Currency, SwapError>)
    ensures
        r is Ok <==> currency_of_code(upper_of(trimmed(value@))) is Some,
        r is Ok ==> r->Ok_0 == currency_of_code(upper_of(trimmed(value@)))->0,
        r is Err ==> r->Err_0 == SwapError::UnsupportedCurrency,
{
    let upper = to_upper(trim_str(value));
    match currency_from_code(upper.as_str()) {
        Some(c) => Ok(c),
        None => Err(SwapError::UnsupportedCurrency),
    }
}

/// The public half of a swap slate, safe to hand to the counterparty.
#[derive(Debug, Clone, Copy, PartialEq, Eq, Structural)]
pub struct SwapSlate {
    pub id: u64,
    pub from_currency: Currency,
    pub to_currency: Currency,
    pub from_amount: u64,
    pub to_amount: u64,
    pub timeout_minutes: u64,
    pub phase: SwapPhase,
}

/// A stored swap: its public half and, once this party holds it, the private
/// half (redemption material), which never leaves the store.
#[derive(Debug, Clone)]
pub struct StoredSwap {
    pub slate: SwapSlate,
    pub private_half: Option<Vec<u8>>,
}

/// Swap slates indexed by id.
pub struct SwapStore {
    pub entries: Vec<StoredSwap>,
}

/// Position of swap `id` among `entries`.
pub open spec fn swap_index(entries: Seq<StoredSwap>, id: u64) -> int {
    choose|k: int| 0 <= k < entries.len() && (#[trigger] entries[k]).slate.id == id
}

/// Swap `id` is among `entries`.
pub open spec fn has_swap(entries: Seq<StoredSwap>, id: u64) -> bool {
    exists|k: int| 0 <= k < entries.len() && (#[trigger] entries[k]).slate.id == id
}

/// Whether swap `id` may be locked, and if not, why.
pub open spec fn lock_decision(entries: Seq<StoredSwap>, id: u64, recorded: Seq<char>, computed: Seq<char>) -> Result<(), SwapError> {
    if !has_swap(entries, id) {
        Err(SwapError::UnknownSwap)
    } else if entries[swap_index(entries, id)].slate.phase != SwapPhase::Init {
        Err(SwapError::WrongPhase)
    } else if recorded != computed {
        Err(SwapError::ChecksumMismatch)
    } else {
        Ok(())
    }
}

/// Whether swap `id` may be executed, and if not, why.
pub open spec fn execute_decision(entries: Seq<StoredSwap>, id: u64, recorded: Seq<char>, computed: Seq<char>) -> Result<(), SwapError> {
    if !has_swap(entries, id) {
        Err(SwapError::UnknownSwap)
    } else {
        let p = entries[swap_index(entries, id)].slate.phase;
        if p == SwapPhase::Executed {
            Err(SwapError::AlreadyExecuted)
        } else if p == SwapPhase::Cancelled {
            Err(SwapError::AlreadyCancelled)
        } else if p != SwapPhase::Locked {
            Err(SwapError::WrongPhase)
        } else if recorded != computed {
            Err(SwapError::ChecksumMismatch)
        } else {
            Ok(())
        }
    }
}

/// Whether swap `id` may be cancelled, and if not, why.
pub open spec fn cancel_decision(entries: Seq<StoredSwap>, id: u64) -> Result<(), SwapError> {
    if !has_swap(entries, id) {
        Err(SwapError::UnknownSwap)
    } else {
        let p = entries[swap_index(entries, id)].slate.phase;
        if p == SwapPhase::Executed {
            Err(SwapError::AlreadyExecuted)
        } else if p == SwapPhase::Cancelled {
            Err(SwapError::AlreadyCancelled)
        } else {
            Ok(())
        }
    }
}

/// The store after swap `id` moved to phase `p`: only that slate's phase
/// changed.
pub open spec fn moved_to(before: Seq<StoredSwap>, after: Seq<StoredSwap>, id: u64, p: SwapPhase) -> bool {
    let k = swap_index(before, id);
    &&& after.len() == before.len()
    &&& after[k].slate == SwapSlate { phase: p, ..before[k].slate }
    &&& after[k].private_half == before[k].private_half
    &&& forall|j: int| 0 <= j < before.len() && j != k ==> #[trigger] after[j] == before[j]
}

impl SwapStore {
    /// No two stored swaps share an id.
    pub open spec fn wf(&self) -> bool {
        forall|i: int, j: int|
            0 <= i < self.entries@.len() && 0 <= j < self.entries@.len() && i != j ==> (#[trigger] self.entries@[i]).slate.id
                != (#[trigger] self.entries@[j]).slate.id
    }

    /// An empty store.
    pub fn new() -> (r: SwapStore)
        ensures
            r.wf(),
            r.entries@.len() == 0,
    {
        SwapStore { entries: Vec::new() }
    }

    /// Position of swap `id`.
    pub fn find(&self, id: u64) -> (r: Option<usize>)
        requires
            self.wf(),
        ensures
            r is None <==> !has_swap(self.entries@, id),
            r is Some ==> r->0 < self.entries@.len() && r->0 == swap_index(self.entries@, id),
    {
        let mut i: usize = 0;
        while i < self.entries.len()
            invariant
                self.wf(),
                i <= self.entries@.len(),
                forall|k: int| 0 <= k < i ==> (#[trigger] self.entries@[k]).slate.id != id,
            decreases self.entries@.len() - i,
        {
            if self.entries[i].slate.id == id {
                proof {
                    assert(self.entries@[i as int].slate.id == id);
                    assert(has_swap(self.entries@, id));
                    let k = swap_index(self.entries@, id);
                    assert(0 <= k < self.entries@.len() && self.entries@[k].slate.id == id);
                    if k != i as int {
                        assert(self.entries@[k].slate.id != self.entries@[i as int].slate.id);
                    }
                }
                return Some(i);
            }
            i = i + 1;
        }
        None
    }

    /// Whether swap `id` is stored.
    pub fn contains(&self, id: u64) -> (r: bool)
        requires
            self.wf(),
        ensures
            r == has_swap(self.entries@, id),
    {
        self.find(id).is_some()
    }

    /// The public half of swap `id`.
    pub fn read_swap(&self, id: u64) -> (r: Result<SwapSlate, SwapError>)
        requires
            self.wf(),
        ensures
            r is Ok <==> has_swap(self.entries@, id),
            r is Ok ==> r->Ok_0 == self.entries@[swap_index(self.entries@, id)].slate,
            r is Err ==> r->Err_0 == SwapError::UnknownSwap,
    {
        match self.find(id) {
            None => Err(SwapError::UnknownSwap),
            Some(i) => Ok(self.entries[i].slate),
        }
    }

    /// The public halves of all stored swaps, in the order they are held.
    pub fn list_swaps(&self) -> (r: Vec<SwapSlate>)
        ensures
            r@.len() == self.entries@.len(),
            forall|i: int| 0 <= i < r@.len() ==> #[trigger] r@[i] == self.entries@[i].slate,
    {
        let mut res: Vec<SwapSlate> = Vec::new();
        let mut i: usize = 0;
        while i < self.entries.len()
            invariant
                i <= self.entries@.len(),
                res@.len() == i,
                forall|k: int| 0 <= k < i ==> #[trigger] res@[k] == self.entries@[k].slate,
            decreases self.entries@.len() - i,
        {
            res.push(self.entries[i].slate);
            i = i + 1;
        }
        res
    }
}

/// Whether two checksums agree.
pub fn checksums_match(recorded: &str, computed: &str) -> (r: bool)
    ensures
        r == (recorded@ == computed@),
{
    str_eq(recorded, computed)
}

impl SwapStore {
    /// Moves the swap at position `i` to phase `p`.
    fn set_phase(&mut self, i: usize, p: SwapPhase)
        requires
            old(self).wf(),
            i < old(self).entries@.len(),
        ensures
            final(self).wf(),
            final(self).entries@.len() == old(self).entries@.len(),
            final(self).entries@[i as int].slate == (SwapSlate { phase: p, ..old(self).entries@[i as int].slate }),
            final(self).entries@[i as int].private_half == old(self).entries@[i as int].private_half,
            forall|j: int| 0 <= j < old(self).entries@.len() && j != i ==> #[trigger] final(self).entries@[j] == old(self).entries@[j],
    {
        let ghost before = self.entries@;
        let mut e = self.entries.remove(i);
        e.slate.phase = p;
        self.entries.insert(i, e);
        proof {
            let after = self.entries@;
            assert forall|j: int| 0 <= j < before.len() && j != i implies #[trigger] after[j] == before[j] by {
                if j < i {
                    assert(after[j] == before[j]);
                } else {
                    assert(after[j] == before[j]);
                }
            }
            assert forall|a: int, b: int|
                0 <= a < after.len() && 0 <= b < after.len() && a != b implies (#[trigger] after[a]).slate.id
                != (#[trigger] after[b]).slate.id by {
                assert(after[a].slate.id == before[a].slate.id);
                assert(after[b].slate.id == before[b].slate.id);
            }
        }
    }

    /// Appends a swap whose id is not stored yet.
    fn add(&mut self, e: StoredSwap)
        requires
            old(self).wf(),
            !has_swap(old(self).entries@, e.slate.id),
        ensures
            final(self).wf(),
            final(self).entries@ == old(self).entries@.push(e),
    {
        let ghost before = self.entries@;
        self.entries.push(e);
        proof {
            let after = self.entries@;
            assert forall|a: int, b: int|
                0 <= a < after.len() && 0 <= b < after.len() && a != b implies (#[trigger] after[a]).slate.id
                != (#[trigger] after[b]).slate.id by {
                if a < before.len() && b < before.len() {
                    assert(after[a] == before[a] && after[b] == before[b]);
                } else if a < before.len() {
                    assert(after[a] == before[a]);
                } else {
                    assert(after[b] == before[b]);
                }
            }
        }
    }

    /// Proposes a swap: reads both currency codes, files the public half in
    /// phase `Init` under the fresh id `id`, together with this party's
    /// private half, and returns the public half for the counterparty.
    pub fn init_swap(
        &mut self,
        from_currency: &str,
        to_currency: &str,
        from_amount: u64,
        to_amount: u64,
        timeout_minutes: u64,
        id: u64,
        private_half: Vec<u8>,
    ) -> (r: Result<SwapSlate, SwapError>)
        requires
            old(self).wf(),
        ensures
            final(self).wf(),
            r is Err ==> final(self).entries@ == old(self).entries@,
            ({
                let from = currency_of_code(upper_of(trimmed(from_currency@)));
                let to = currency_of_code(upper_of(trimmed(to_currency@)));
                &&& (from is None || to is None) ==> r == Err::<SwapSlate, SwapError>(SwapError::UnsupportedCurrency)
                &&& from is Some && to is Some && has_swap(old(self).entries@, id) ==> r == Err::<SwapSlate, SwapError>(SwapError::DuplicateSwap)
                &&& from is Some && to is Some && !has_swap(old(self).entries@, id) ==> {
                    let s = SwapSlate {
                        id,
                        from_currency: from->0,
                        to_currency: to->0,
                        from_amount,
                        to_amount,
                        timeout_minutes,
                        phase: SwapPhase::Init,
                    };
                    &&& r == Ok::<SwapSlate, SwapError>(s)
                    &&& final(self).entries@.len() == old(self).entries@.len() + 1
                    &&& final(self).entries@.drop_last() == old(self).entries@
                    &&& final(self).entries@.last().slate == s
                    &&& final(self).entries@.last().private_half == Some(private_half)
                }
            }),
    {
        let from = match parse_currency(from_currency) {
            Ok(c) => c,
            Err(e) => return Err(e),
        };
        let to = match parse_currency(to_currency) {
            Ok(c) => c,
            Err(e) => return Err(e),
        };
        if self.contains(id) {
            return Err(SwapError::DuplicateSwap);
        }
        let slate = SwapSlate {
            id,
            from_currency: from,
            to_currency: to,
            from_amount,
            to_amount,
            timeout_minutes,
            phase: SwapPhase::Init,
        };
        let ghost before = self.entries@;
        self.add(StoredSwap { slate, private_half: Some(private_half) });
        assert(self.entries@.drop_last() =~= before);
        Ok(slate)
    }

    /// Files a public half received from the counterparty under `swap_id`,
    /// replacing an earlier public half of that swap and keeping any private
    /// half.
    pub fn import_public_slate(&mut self, swap_id: u64, slate: SwapSlate) -> (r: Result<SwapSlate, SwapError>)
        requires
            old(self).wf(),
        ensures
            final(self).wf(),
            r is Err ==> final(self).entries@ == old(self).entries@,
            slate.id != swap_id ==> r == Err::<SwapSlate, SwapError>(SwapError::IdMismatch),
            slate.id == swap_id ==> r == Ok::<SwapSlate, SwapError>(slate),
            r is Ok && has_swap(old(self).entries@, swap_id) ==> ({
                let k = swap_index(old(self).entries@, swap_id);
                &&& final(self).entries@.len() == old(self).entries@.len()
                &&& final(self).entries@[k].slate == slate
                &&& final(self).entries@[k].private_half == old(self).entries@[k].private_half
                &&& forall|j: int| 0 <= j < old(self).entries@.len() && j != k ==> #[trigger] final(self).entries@[j] == old(self).entries@[j]
            }),
            r is Ok && !has_swap(old(self).entries@, swap_id) ==> final(self).entries@ == old(self).entries@.push(
                StoredSwap { slate, private_half: None },
            ),
    {
        if slate.id != swap_id {
            return Err(SwapError::IdMismatch);
        }
        match self.find(swap_id) {
            None => {
                self.add(StoredSwap { slate, private_half: None });
            },
            Some(i) => {
                let ghost before = self.entries@;
                let mut e = self.entries.remove(i);
                e.slate = slate;
                self.entries.insert(i, e);
                proof {
                    let after = self.entries@;
                    assert forall|j: int| 0 <= j < before.len() && j != i implies #[trigger] after[j] == before[j] by {}
                    assert forall|a: int, b: int|
                        0 <= a < after.len() && 0 <= b < after.len() && a != b implies (#[trigger] after[a]).slate.id
                        != (#[trigger] after[b]).slate.id by {
                        assert(after[a].slate.id == before[a].slate.id);
                        assert(after[b].slate.id == before[b].slate.id);
                    }
                }
            },
        }
        Ok(slate)
    }

    /// Takes up a swap proposed by the counterparty, whose public half is
    /// already filed, by storing this party's private half for it.
    pub fn accept_swap(&mut self, id: u64, private_half: Vec<u8>) -> (r: Result<SwapSlate, SwapError>)
        requires
            old(self).wf(),
        ensures
            final(self).wf(),
            r is Err ==> final(self).entries@ == old(self).entries@,
            !has_swap(old(self).entries@, id) ==> r == Err::<SwapSlate, SwapError>(SwapError::UnknownSwap),
            has_swap(old(self).entries@, id) ==> ({
                let k = swap_index(old(self).entries@, id);
                &&& old(self).entries@[k].private_half is Some ==> r == Err::<SwapSlate, SwapError>(SwapError::AlreadyAccepted)
                &&& old(self).entries@[k].private_half is None ==> {
                    &&& r == Ok::<SwapSlate, SwapError>(old(self).entries@[k].slate)
                    &&& final(self).entries@ == old(self).entries@.update(k, StoredSwap {
                        slate: old(self).entries@[k].slate,
                        private_half: Some(private_half),
                    })
                }
            }),
    {
        match self.find(id) {
            None => Err(SwapError::UnknownSwap),
            Some(i) => {
                if self.entries[i].private_half.is_some() {
                    return Err(SwapError::AlreadyAccepted);
                }
                let ghost before = self.entries@;
                let slate = self.entries[i].slate;
                self.entries.set(i, StoredSwap { slate, private_half: Some(private_half) });
                proof {
                    let after = self.entries@;
                    assert forall|a: int, b: int|
                        0 <= a < after.len() && 0 <= b < after.len() && a != b implies (#[trigger] after[a]).slate.id
                        != (#[trigger] after[b]).slate.id by {
                        assert(after[a].slate.id == before[a].slate.id);
                        assert(after[b].slate.id == before[b].slate.id);
                    }
                }
                Ok(slate)
            },
        }
    }

    /// Locks swap `id` once the checksum recomputed from the stored public
    /// half (`computed`) agrees with the one the counterparty recorded.
    pub fn lock_swap(&mut self, id: u64, recorded: &str, computed: &str) -> (r: Result<SwapSlate, SwapError>)
        requires
            old(self).wf(),
        ensures
            final(self).wf(),
            r is Err ==> final(self).entries@ == old(self).entries@,
            (r is Ok <==> lock_decision(old(self).entries@, id, recorded@, computed@) is Ok),
            r is Err ==> r->Err_0 == lock_decision(old(self).entries@, id, recorded@, computed@)->Err_0,
            r is Ok ==> moved_to(old(self).entries@, final(self).entries@, id, SwapPhase::Locked)
                && r->Ok_0 == final(self).entries@[swap_index(old(self).entries@, id)].slate,
    {
        match self.find(id) {
            None => Err(SwapError::UnknownSwap),
            Some(i) => {
                if self.entries[i].slate.phase != SwapPhase::Init {
                    return Err(SwapError::WrongPhase);
                }
                if !checksums_match(recorded, computed) {
                    return Err(SwapError::ChecksumMismatch);
                }
                self.set_phase(i, SwapPhase::Locked);
                Ok(self.entries[i].slate)
            },
        }
    }

    /// Executes locked swap `id` once the checksum recomputed from the stored
    /// public half (`computed`) agrees with the one the counterparty recorded.
    /// Execution is final.
    pub fn execute_swap(&mut self, id: u64, recorded: &str, computed: &str) -> (r: Result<SwapSlate, SwapError>)
        requires
            old(self).wf(),
        ensures
            final(self).wf(),
            r is Err ==> final(self).entries@ == old(self).entries@,
            (r is Ok <==> execute_decision(old(self).entries@, id, recorded@, computed@) is Ok),
            r is Err ==> r->Err_0 == execute_decision(old(self).entries@, id, recorded@, computed@)->Err_0,
            r is Ok ==> moved_to(old(self).entries@, final(self).entries@, id, SwapPhase::Executed)
                && r->Ok_0 == final(self).entries@[swap_index(old(self).entries@, id)].slate,
    {
        match self.find(id) {
            None => Err(SwapError::UnknownSwap),
            Some(i) => {
                let p = self.entries[i].slate.phase;
                if p == SwapPhase::Executed {
                    return Err(SwapError::AlreadyExecuted);
                }
                if p == SwapPhase::Cancelled {
                    return Err(SwapError::AlreadyCancelled);
                }
                if p != SwapPhase::Locked {
                    return Err(SwapError::WrongPhase);
                }
                if !checksums_match(recorded, computed) {
                    return Err(SwapError::ChecksumMismatch);
                }
                self.set_phase(i, SwapPhase::Executed);
                Ok(self.entries[i].slate)
            },
        }
    }

    /// Cancels swap `id`, which releases collateral through the refund path.
    /// An executed or already cancelled swap is refused.
    pub fn cancel_swap(&mut self, id: u64) -> (r: Result<SwapSlate, SwapError>)
        requires
            old(self).wf(),
        ensures
            final(self).wf(),
            r is Err ==> final(self).entries@ == old(self).entries@,
            (r is Ok <==> cancel_decision(old(self).entries@, id) is Ok),
            r is Err ==> r->Err_0 == cancel_decision(old(self).entries@, id)->Err_0,
            r is Ok ==> moved_to(old(self).entries@, final(self).entries@, id, SwapPhase::Cancelled)
                && r->Ok_0 == final(self).entries@[swap_index(old(self).entries@, id)].slate,
    {
        match self.find(id) {
            None => Err(SwapError::UnknownSwap),
            Some(i) => {
                let p = self.entries[i].slate.phase;
                if p == SwapPhase::Executed {
                    return Err(SwapError::AlreadyExecuted);
                }
                if p == SwapPhase::Cancelled {
                    return Err(SwapError::AlreadyCancelled);
                }
                self.set_phase(i, SwapPhase::Cancelled);
                Ok(self.entries[i].slate)
            },
        }
    }

    /// Removes swap `id` and returns how many halves were removed.
    pub fn delete_swap(&mut self, id: u64) -> (r: Result<usize, SwapError>)
        requires
            old(self).wf(),
        ensures
            final(self).wf(),
            r is Err ==> final(self).entries@ == old(self).entries@,
            r is Err <==> !has_swap(old(self).entries@, id),
            r is Err ==> r->Err_0 == SwapError::UnknownSwap,
            r is Ok ==> ({
                let k = swap_index(old(self).entries@, id);
                &&& final(self).entries@ == old(self).entries@.remove(k)
                &&& r->Ok_0 == if old(self).entries@[k].private_half is Some { 2usize } else { 1usize }
                &&& !has_swap(final(self).entries@, id)
            }),
    {
        match self.find(id) {
            None => Err(SwapError::UnknownSwap),
            Some(i) => {
                let ghost before = self.entries@;
                let e = self.entries.remove(i);
                proof {
                    let after = self.entries@;
                    assert(after =~= before.remove(i as int));
                    assert forall|a: int, b: int|
                        0 <= a < after.len() && 0 <= b < after.len() && a != b implies (#[trigger] after[a]).slate.id
                        != (#[trigger] after[b]).slate.id by {
                        let a0 = if a < i { a } else { a + 1 };
                        let b0 = if b < i { b } else { b + 1 };
                        assert(after[a] == before[a0] && after[b] == before[b0]);
                    }
                    assert forall|k: int| 0 <= k < after.len() implies (#[trigger] after[k]).slate.id != id by {
                        let k0 = if k < i { k } else { k + 1 };
                        assert(after[k] == before[k0]);
                    }
                }
                if e.private_half.is_some() {
                    Ok(2)
                } else {
                    Ok(1)
                }
            },
        }
    }
}

} // verus!

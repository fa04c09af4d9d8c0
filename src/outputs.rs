//! Outputs owned by the wallet: confirmation depth, spendability, and the
//! reservation of outputs by in-flight slates.
use vstd::prelude::*;

verus! {

/// Confirmations an output needs before it can be spent.
pub const MIN_CONFIRMATIONS: u64 = 10;

/// Blocks a coinbase output needs beyond the generic minimum.
pub const COINBASE_MATURITY: u64 = 1440;

/// Where an output stands.
#[derive(Debug, Clone, Copy, PartialEq, Eq, Structural)]
pub enum OutputStatus {
    Unconfirmed,
    Unspent,
    Locked,
    Spent,
}

/// One spendable unit of value owned by the wallet.
#[derive(Debug, Clone, Copy)]
pub struct OutputRecord {
    /// The commitment, as the cryptography library encodes it.
    pub commit: [u8; 33],
    pub value: u64,
    pub status: OutputStatus,
    /// Block height at which the output was confirmed, zero while unconfirmed.
    pub height: u64,
    /// Height from which the output may be spent.
    pub lock_height: u64,
    pub is_coinbase: bool,
    /// Ledger entry that created the output.
    pub tx_log_id: Option<u32>,
    /// Slate that has reserved the output.
    pub locked_by: Option<u128>,
}

/// Confirmations of an output at `height` when the chain tip is `tip`: none
/// while unconfirmed or when the tip lags behind the output.
pub open spec fn confirmations_spec(height: u64, tip: u64) -> int {
    if height == 0 || height > tip {
        0
    } else {
        tip - height + 1
    }
}

/// Confirmations of an output at `height` when the chain tip is `tip`.
pub fn confirmations(height: u64, tip: u64) -> (r: u64)
    ensures
        r == confirmations_spec(height, tip),
{
    if height == 0 || height > tip {
        0
    } else {
        tip - height + 1
    }
}

/// Confirmations of a tracked output; an unconfirmed one has none.
pub open spec fn output_confirmations_spec(o: OutputRecord, tip: u64) -> int {
    if o.status == OutputStatus::Unconfirmed {
        0
    } else {
        confirmations_spec(o.height, tip)
    }
}

/// Reservation is recorded consistently: an output is `Locked` exactly when a
/// slate holds it.
pub open spec fn output_wf(o: OutputRecord) -> bool {
    (o.status == OutputStatus::Locked) == (o.locked_by is Some)
}

/// The output may be selected as an input at chain height `tip`.
pub open spec fn spendable_spec(o: OutputRecord, tip: u64, min_conf: u64) -> bool {
    &&& o.status == OutputStatus::Unspent
    &&& o.locked_by is None
    &&& o.lock_height <= tip
    &&& output_confirmations_spec(o, tip) >= min_conf
    &&& o.is_coinbase ==> output_confirmations_spec(o, tip) >= min_conf + COINBASE_MATURITY
}

impl OutputRecord {
    /// Confirmations of this output at chain height `tip`.
    pub fn num_confirmations(&self, tip: u64) -> (r: u64)
        ensures
            r == output_confirmations_spec(*self, tip),
    {
        if self.status == OutputStatus::Unconfirmed {
            0
        } else {
            confirmations(self.height, tip)
        }
    }

    /// Whether this output may be spent at chain height `tip` with at least
    /// `min_conf` confirmations.
    pub fn eligible_to_spend(&self, tip: u64, min_conf: u64) -> (r: bool)
        ensures
            r == spendable_spec(*self, tip, min_conf),
    {
        if self.status != OutputStatus::Unspent || self.locked_by.is_some() {
            return false;
        }
        if self.lock_height > tip {
            return false;
        }
        let c = self.num_confirmations(tip);
        if c < min_conf {
            return false;
        }
        if self.is_coinbase {
            c - min_conf >= COINBASE_MATURITY
        } else {
            true
        }
    }
}

/// Sum of the values of the outputs at the positions in `sel`.
pub open spec fn selected_value(outs: Seq<OutputRecord>, sel: Seq<usize>) -> int
    decreases sel.len(),
{
    if sel.len() == 0 {
        0
    } else {
        selected_value(outs, sel.drop_last()) + outs[sel.last() as int].value
    }
}

/// Sum of the values of the spendable outputs among the first `n`.
pub open spec fn spendable_total(outs: Seq<OutputRecord>, n: int, tip: u64, min_conf: u64) -> int
    decreases n,
{
    if n <= 0 {
        0
    } else {
        spendable_total(outs, n - 1, tip, min_conf) + if spendable_spec(outs[n - 1], tip, min_conf) {
            outs[n - 1].value as int
        } else {
            0
        }
    }
}

/// A selection is a strictly increasing list of positions of spendable outputs.
pub open spec fn valid_selection(outs: Seq<OutputRecord>, sel: Seq<usize>, tip: u64, min_conf: u64) -> bool {
    &&& forall|i: int| 0 <= i < sel.len() ==> sel[i] < outs.len()
    &&& forall|i: int, j: int| 0 <= i < j < sel.len() ==> sel[i] < sel[j]
    &&& forall|i: int| 0 <= i < sel.len() ==> spendable_spec(#[trigger] outs[sel[i] as int], tip, min_conf)
}

proof fn lemma_spendable_total_nonneg(outs: Seq<OutputRecord>, n: int, tip: u64, min_conf: u64)
    ensures
        spendable_total(outs, n, tip, min_conf) >= 0,
    decreases n,
{
    if n > 0 {
        lemma_spendable_total_nonneg(outs, n - 1, tip, min_conf);
    }
}

/// Chooses outputs, in the order they are held, until their value covers
/// `target`. Outputs that are locked, spent, unconfirmed or immature are never
/// chosen. `None` when all spendable outputs together fall short.
pub fn select_inputs(outs: &Vec<OutputRecord>, target: u128, tip: u64, min_conf: u64) -> (r: Option<Vec<usize>>)
    requires
        target <= 2 * (u64::MAX as u128),
    ensures
        r is Some <==> spendable_total(outs@, outs@.len() as int, tip, min_conf) >= target,
        r is Some ==> valid_selection(outs@, r->0@, tip, min_conf),
        r is Some ==> selected_value(outs@, r->0@) >= target,
        r is Some ==> r->0@.len() > 0 || target == 0,
{
    let mut sel: Vec<usize> = Vec::new();
    let mut acc: u128 = 0;
    if target == 0 {
        proof {
            lemma_spendable_total_nonneg(outs@, outs@.len() as int, tip, min_conf);
        }
        return Some(sel);
    }
    let mut i: usize = 0;
    while i < outs.len()
        invariant
            i <= outs@.len(),
            target > 0,
            acc == selected_value(outs@, sel@),
            acc == spendable_total(outs@, i as int, tip, min_conf),
            acc < target,
            target <= 2 * (u64::MAX as u128),
            valid_selection(outs@, sel@, tip, min_conf),
            forall|k: int| 0 <= k < sel@.len() ==> sel@[k] < i,
        decreases outs@.len() - i,
    {
        if outs[i].eligible_to_spend(tip, min_conf) {
            let ghost old_sel = sel@;
            sel.push(i);
            assert(sel@.drop_last() =~= old_sel);
            acc = acc + outs[i].value as u128;
            if acc >= target {
                assert(valid_selection(outs@, sel@, tip, min_conf));
                proof {
                    lemma_total_monotone(outs@, i as int + 1, outs@.len() as int, tip, min_conf);
                }
                return Some(sel);
            }
        }
        i = i + 1;
    }
    None
}

proof fn lemma_total_monotone(outs: Seq<OutputRecord>, a: int, b: int, tip: u64, min_conf: u64)
    requires
        0 <= a <= b,
    ensures
        spendable_total(outs, a, tip, min_conf) <= spendable_total(outs, b, tip, min_conf),
    decreases b - a,
{
    if a < b {
        lemma_total_monotone(outs, a, b - 1, tip, min_conf);
    }
}

/// `o` reserved by slate `slate_id`.
pub open spec fn locked_spec(o: OutputRecord, slate_id: u128) -> OutputRecord {
    OutputRecord { status: OutputStatus::Locked, locked_by: Some(slate_id), ..o }
}

/// `o` with its reservation released.
pub open spec fn released_spec(o: OutputRecord) -> OutputRecord {
    OutputRecord { status: OutputStatus::Unspent, locked_by: None, ..o }
}

/// Every output records its reservation consistently.
pub open spec fn outputs_wf(outs: Seq<OutputRecord>) -> bool {
    forall|i: int| 0 <= i < outs.len() ==> output_wf(#[trigger] outs[i])
}

/// Number of outputs among the first `n` reserved by slate `slate_id`.
pub open spec fn count_locked_by(outs: Seq<OutputRecord>, n: int, slate_id: u128) -> nat
    decreases n,
{
    if n <= 0 {
        0
    } else {
        count_locked_by(outs, n - 1, slate_id) + if outs[n - 1].locked_by == Some(slate_id) {
            1nat
        } else {
            0nat
        }
    }
}

/// Position `k` occurs among the first `n` entries of `sel`.
pub open spec fn selected_in(sel: Seq<usize>, n: int, k: int) -> bool {
    exists|w: int| 0 <= w < n && #[trigger] sel[w] as int == k
}

/// Reserves the selected outputs for slate `slate_id`; every other output is
/// left as it was.
pub fn lock_selected(outs: &mut Vec<OutputRecord>, sel: &Vec<usize>, slate_id: u128)
    requires
        forall|i: int| 0 <= i < sel@.len() ==> sel@[i] < old(outs)@.len(),
    ensures
        final(outs)@.len() == old(outs)@.len(),
        forall|k: int|
            0 <= k < old(outs)@.len() ==> #[trigger] final(outs)@[k] == if selected_in(sel@, sel@.len() as int, k) {
                locked_spec(old(outs)@[k], slate_id)
            } else {
                old(outs)@[k]
            },
{
    let ghost start = outs@;
    let mut j: usize = 0;
    while j < sel.len()
        invariant
            forall|i: int| 0 <= i < sel@.len() ==> sel@[i] < start.len(),
            outs@.len() == start.len(),
            j <= sel@.len(),
            forall|k: int|
                0 <= k < start.len() ==> #[trigger] outs@[k] == if selected_in(sel@, j as int, k) {
                    locked_spec(start[k], slate_id)
                } else {
                    start[k]
                },
        decreases sel@.len() - j,
    {
        let idx = sel[j];
        let mut o = outs[idx];
        o.status = OutputStatus::Locked;
        o.locked_by = Some(slate_id);
        outs.set(idx, o);
        proof {
            assert forall|k: int| 0 <= k < start.len() implies #[trigger] outs@[k] == if selected_in(sel@, j + 1, k) {
                locked_spec(start[k], slate_id)
            } else {
                start[k]
            } by {
                if k == idx as int {
                    assert(sel@[j as int] as int == k);
                    assert(selected_in(sel@, j + 1, k));
                } else {
                    if selected_in(sel@, j + 1, k) {
                        let w = choose|w: int| 0 <= w < j + 1 && #[trigger] sel@[w] as int == k;
                        assert(w != j);
                        assert(selected_in(sel@, j as int, k));
                    }
                    if selected_in(sel@, j as int, k) {
                        let w = choose|w: int| 0 <= w < j && #[trigger] sel@[w] as int == k;
                        assert(selected_in(sel@, j + 1, k));
                    }
                }
            }
        }
        j = j + 1;
    }
}

/// Releases every output reserved by slate `slate_id` and returns how many
/// there were; all other outputs are left as they were.
pub fn release_slate(outs: &mut Vec<OutputRecord>, slate_id: u128) -> (r: usize)
    ensures
        final(outs)@.len() == old(outs)@.len(),
        forall|k: int|
            0 <= k < old(outs)@.len() ==> #[trigger] final(outs)@[k] == if old(outs)@[k].locked_by == Some(slate_id) {
                released_spec(old(outs)@[k])
            } else {
                old(outs)@[k]
            },
        r == count_locked_by(old(outs)@, old(outs)@.len() as int, slate_id),
{
    let ghost start = outs@;
    let mut count: usize = 0;
    let mut i: usize = 0;
    while i < outs.len()
        invariant
            outs@.len() == start.len(),
            i <= start.len(),
            count == count_locked_by(start, i as int, slate_id),
            count <= i,
            forall|k: int|
                0 <= k < start.len() ==> #[trigger] outs@[k] == if k < i && start[k].locked_by == Some(slate_id) {
                    released_spec(start[k])
                } else {
                    start[k]
                },
        decreases start.len() - i,
    {
        let mut o = outs[i];
        if o.locked_by == Some(slate_id) {
            o.status = OutputStatus::Unspent;
            o.locked_by = None;
            outs.set(i, o);
            count = count + 1;
        }
        i = i + 1;
    }
    count
}

} // verus!

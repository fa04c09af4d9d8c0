//! The wallet session: node configuration, the opened wallet's outputs,
//! ledger and accounts, and the interactive slate negotiation on top of them.
use vstd::prelude::*;
use crate::config::{DEFAULT_NODE_URL, NodeConfig, UrlError, node_url_ok, str_eq};
use crate::ledger::{LedgerEntry, TxSummary, summary_spec, tx_confirmations, tx_confirmations_spec};
use crate::outputs::{
    MIN_CONFIRMATIONS, OutputRecord, OutputStatus, output_confirmations_spec, output_wf, outputs_wf,
    spendable_spec,
};
use crate::text::{trim_str, trimmed};

verus! {

/// Why a wallet operation was refused.
#[derive(Debug, Clone, Copy, PartialEq, Eq, Structural)]
pub enum WalletError {
    /// No wallet has been opened.
    NotInitialized,
    /// The wallet was opened under a node configuration that has since changed.
    StaleSession,
    EmptyPassphrase,
    ZeroAmount,
    InsufficientFunds,
    /// A slate with this id is already recorded.
    DuplicateSlate,
    /// The slate is not in the state this step expects.
    UnexpectedState,
    UnknownTransaction,
    AlreadyCancelled,
    AlreadyFinalized,
    NotFinalized,
    AlreadyConfirmed,
    EmptyLabel,
    DuplicateAccount,
    UnknownAccount,
    NoPaymentProof,
    /// Outputs or ledger entries handed in break the wallet's invariants.
    InconsistentData,
    /// A negotiation plan no longer matches the wallet's outputs.
    StalePlan,
    /// No further ledger id or account index is available.
    Exhausted,
    /// A total does not fit the ledger's amount fields.
    AmountTooLarge,
}

/// The four kinds of failure a caller can tell apart.
#[derive(Debug, Clone, Copy, PartialEq, Eq, Structural)]
pub enum ErrorCategory {
    /// Bad input, refused before any state was touched.
    Validation,
    /// The wallet or the slate is not in a state that allows the operation.
    Precondition,
    /// Data handed in by a collaborator is unusable.
    Collaborator,
}

impl WalletError {
    /// The category this failure belongs to.
    pub fn category(&self) -> (r: ErrorCategory)
        ensures
            r == ErrorCategory::Validation <==> (*self == WalletError::EmptyPassphrase
                || *self == WalletError::ZeroAmount || *self == WalletError::EmptyLabel),
            r == ErrorCategory::Collaborator <==> *self == WalletError::InconsistentData,
    {
        match self {
            WalletError::EmptyPassphrase | WalletError::ZeroAmount | WalletError::EmptyLabel => {
                ErrorCategory::Validation
            },
            WalletError::InconsistentData => ErrorCategory::Collaborator,
            _ => ErrorCategory::Precondition,
        }
    }
}

/// A named keychain derivation path.
#[derive(Debug, Clone)]
pub struct Account {
    pub label: String,
    /// Index of the account's path in the keychain.
    pub index: u32,
}

/// The state of an opened wallet.
pub struct WalletState {
    /// Node configuration generation the wallet was opened under.
    pub generation: u64,
    pub address: String,
    pub active_account: String,
    pub accounts: Vec<Account>,
    pub outputs: Vec<OutputRecord>,
    pub ledger: Vec<LedgerEntry>,
    /// Id the next ledger entry receives.
    pub next_tx_id: u32,
}

/// Label of the account every wallet starts with.
pub const DEFAULT_ACCOUNT: &'static str = "default";

/// No two ledger entries record the same slate.
pub open spec fn slate_ids_unique(ledger: Seq<LedgerEntry>) -> bool {
    forall|i: int, j: int|
        0 <= i < ledger.len() && 0 <= j < ledger.len() && i != j && (#[trigger] ledger[i]).slate_id
            is Some ==> ledger[i].slate_id != (#[trigger] ledger[j]).slate_id
}

/// No two accounts share a label.
pub open spec fn labels_unique(accounts: Seq<Account>) -> bool {
    forall|i: int, j: int|
        0 <= i < accounts.len() && 0 <= j < accounts.len() && i != j ==> (#[trigger] accounts[i]).label@
            != (#[trigger] accounts[j]).label@
}

/// An account labelled `label` exists.
pub open spec fn has_account(accounts: Seq<Account>, label: Seq<char>) -> bool {
    exists|i: int| 0 <= i < accounts.len() && (#[trigger] accounts[i]).label@ == label
}

/// Every ledger id lies below `next`.
pub open spec fn tx_ids_below(ledger: Seq<LedgerEntry>, next: u32) -> bool {
    forall|i: int| 0 <= i < ledger.len() ==> (#[trigger] ledger[i]).id < next
}

/// No two ledger entries share an id.
pub open spec fn tx_ids_unique(ledger: Seq<LedgerEntry>) -> bool {
    forall|i: int, j: int|
        0 <= i < ledger.len() && 0 <= j < ledger.len() && i != j ==> (#[trigger] ledger[i]).id
            != (#[trigger] ledger[j]).id
}

/// Some ledger entry has id `tx_id`.
pub open spec fn has_tx(ledger: Seq<LedgerEntry>, tx_id: u32) -> bool {
    exists|k: int| 0 <= k < ledger.len() && (#[trigger] ledger[k]).id == tx_id
}

/// The invariants of an opened wallet: reservations are recorded
/// consistently, ledger ids are unique and below the next id, no slate is
/// recorded twice, account labels are unique and the active account exists.
pub open spec fn state_wf(st: WalletState) -> bool {
    &&& outputs_wf(st.outputs@)
    &&& tx_ids_below(st.ledger@, st.next_tx_id)
    &&& tx_ids_unique(st.ledger@)
    &&& slate_ids_unique(st.ledger@)
    &&& labels_unique(st.accounts@)
    &&& has_account(st.accounts@, st.active_account@)
}

/// Which part of the balance an output counts towards.
#[derive(Debug, Clone, Copy, PartialEq, Eq, Structural)]
pub enum Bucket {
    Spendable,
    Awaiting,
    Locked,
    Spent,
}

/// The bucket output `o` counts towards at chain height `tip`.
pub open spec fn bucket_of(o: OutputRecord, tip: u64) -> Bucket {
    if o.status == OutputStatus::Spent {
        Bucket::Spent
    } else if o.status == OutputStatus::Locked {
        Bucket::Locked
    } else if spendable_spec(o, tip, MIN_CONFIRMATIONS) {
        Bucket::Spendable
    } else {
        Bucket::Awaiting
    }
}

/// Total value of the first `n` outputs that fall in bucket `b`.
pub open spec fn bucket_total(outs: Seq<OutputRecord>, n: int, tip: u64, b: Bucket) -> int
    decreases n,
{
    if n <= 0 {
        0
    } else {
        bucket_total(outs, n - 1, tip, b) + if bucket_of(outs[n - 1], tip) == b {
            outs[n - 1].value as int
        } else {
            0
        }
    }
}

/// The balance of an opened wallet.
#[derive(Debug, Clone)]
pub struct WalletSummary {
    pub total: u128,
    pub awaiting_confirmation: u128,
    pub locked: u128,
    pub spendable: u128,
    pub active_account: String,
}

/// An account as callers see it.
#[derive(Debug, Clone)]
pub struct AccountView {
    pub label: String,
    pub index: u32,
    pub is_active: bool,
}

/// A wallet session: the node configuration and, once opened, the wallet.
pub struct Wallet {
    pub config: NodeConfig,
    pub state: Option<WalletState>,
}

impl Wallet {
    /// An opened wallet keeps its invariants and was opened under this or an
    /// earlier configuration generation.
    pub open spec fn wf(&self) -> bool {
        self.state is Some ==> state_wf(self.state->0) && self.state->0.generation <= self.config.generation
    }

    /// A wallet is open under the current node configuration.
    pub open spec fn ready(&self) -> bool {
        self.state is Some && self.state->0.generation == self.config.generation
    }

    /// The error an operation on a wallet that is not ready reports.
    pub open spec fn not_ready_error(&self) -> WalletError {
        if self.state is None {
            WalletError::NotInitialized
        } else {
            WalletError::StaleSession
        }
    }

    /// A session with the default node configuration and no wallet opened.
    pub fn new() -> (r: Wallet)
        ensures
            r.config.url@ == DEFAULT_NODE_URL@,
            r.config.generation == 0,
            r.state is None,
            r.wf(),
    {
        Wallet { config: NodeConfig::new(), state: None }
    }

    /// Closes the opened wallet, if any.
    pub fn reset(&mut self)
        ensures
            final(self).state is None,
            final(self).config == old(self).config,
            final(self).wf(),
    {
        self.state = None;
    }

    /// Sets the node URL (see `NodeConfig::update_node_url`). A wallet opened
    /// under the previous URL becomes stale.
    pub fn update_node_url(&mut self, url: &str) -> (r: Result<(), UrlError>)
        requires
            old(self).wf(),
            old(self).config.generation < u64::MAX,
        ensures
            final(self).wf(),
            r is Ok <==> node_url_ok(trimmed(url@)),
            r is Err ==> final(self).config == old(self).config,
            r is Ok ==> final(self).config.url@ == trimmed(url@),
            r is Ok && old(self).config.url@ != trimmed(url@) ==> final(self).config.generation
                == old(self).config.generation + 1,
            r is Ok && old(self).config.url@ != trimmed(url@) && old(self).state is Some ==> !final(self).ready(),
            final(self).state == old(self).state,
    {
        self.config.update_node_url(url)
    }

    /// The node URL in use.
    pub fn current_node_url(&self) -> (r: String)
        ensures
            r@ == self.config.url@,
    {
        self.config.current_node_url()
    }

    /// Reports whether the wallet is ready, and why not.
    pub fn check_ready(&self) -> (r: Result<(), WalletError>)
        ensures
            r is Ok <==> self.ready(),
            r is Err ==> r == Err::<(), WalletError>(self.not_ready_error()),
    {
        match &self.state {
            None => Err(WalletError::NotInitialized),
            Some(st) => if st.generation == self.config.generation {
                Ok(())
            } else {
                Err(WalletError::StaleSession)
            },
        }
    }

    /// Opens a wallet under the current node configuration with the address the
    /// keychain derived for it. It starts with the default account active and
    /// no outputs or ledger entries; `sync` loads them.
    pub fn init_or_open(&mut self, passphrase: &str, address: String) -> (r: Result<(), WalletError>)
        ensures
            r is Err <==> passphrase@.len() == 0,
            r is Err ==> r == Err::<(), WalletError>(WalletError::EmptyPassphrase) && final(self).state
                == old(self).state,
            final(self).config == old(self).config,
            r is Ok ==> final(self).ready() && ({
                let st = final(self).state->0;
                &&& st.address@ == address@
                &&& st.active_account@ == DEFAULT_ACCOUNT@
                &&& st.accounts@.len() == 1
                &&& st.accounts@[0].label@ == DEFAULT_ACCOUNT@
                &&& st.accounts@[0].index == 0
                &&& st.outputs@.len() == 0
                &&& st.ledger@.len() == 0
                &&& st.next_tx_id == 0
            }),
            old(self).wf() ==> final(self).wf(),
    {
        if passphrase.unicode_len() == 0 {
            return Err(WalletError::EmptyPassphrase);
        }
        let mut accounts: Vec<Account> = Vec::new();
        accounts.push(Account { label: DEFAULT_ACCOUNT.to_owned(), index: 0 });
        let st = WalletState {
            generation: self.config.generation,
            address,
            active_account: DEFAULT_ACCOUNT.to_owned(),
            accounts,
            outputs: Vec::new(),
            ledger: Vec::new(),
            next_tx_id: 0,
        };
        assert(st.accounts@[0].label@ == st.active_account@);
        self.state = Some(st);
        Ok(())
    }

    /// The slatepack address of the opened wallet.
    pub fn slatepack_address(&self) -> (r: Result<String, WalletError>)
        ensures
            r is Ok <==> self.ready(),
            r is Ok ==> r->Ok_0@ == self.state->0.address@,
            r is Err ==> r->Err_0 == self.not_ready_error(),
    {
        match self.check_ready() {
            Err(e) => Err(e),
            Ok(()) => match &self.state {
                Some(st) => Ok(st.address.clone()),
                None => Err(WalletError::NotInitialized),
            },
        }
    }

    /// Label of the active account.
    pub fn active_account(&self) -> (r: Result<String, WalletError>)
        ensures
            r is Ok <==> self.ready(),
            r is Ok ==> r->Ok_0@ == self.state->0.active_account@,
            r is Err ==> r->Err_0 == self.not_ready_error(),
    {
        match self.check_ready() {
            Err(e) => Err(e),
            Ok(()) => match &self.state {
                Some(st) => Ok(st.active_account.clone()),
                None => Err(WalletError::NotInitialized),
            },
        }
    }
}

/// Whether every output records its reservation consistently.
pub fn check_outputs(outs: &Vec<OutputRecord>) -> (r: bool)
    ensures
        r == outputs_wf(outs@),
{
    let mut i: usize = 0;
    while i < outs.len()
        invariant
            i <= outs@.len(),
            forall|k: int| 0 <= k < i ==> output_wf(#[trigger] outs@[k]),
        decreases outs@.len() - i,
    {
        let is_locked = outs[i].status == OutputStatus::Locked;
        if is_locked != outs[i].locked_by.is_some() {
            assert(!output_wf(outs@[i as int]));
            return false;
        }
        i = i + 1;
    }
    true
}

/// Whether no two ledger entries share an id or record the same slate, and
/// every id lies below `next`.
pub fn check_ledger(ledger: &Vec<LedgerEntry>, next: u32) -> (r: bool)
    ensures
        r == (slate_ids_unique(ledger@) && tx_ids_below(ledger@, next) && tx_ids_unique(ledger@)),
{
    let n = ledger.len();
    let mut i: usize = 0;
    while i < n
        invariant
            n == ledger@.len(),
            i <= n,
            forall|a: int, b: int|
                0 <= a < i && 0 <= b < n && a != b ==> (#[trigger] ledger@[a]).id != (#[trigger] ledger@[b]).id,
        decreases n - i,
    {
        let mut j: usize = 0;
        while j < n
            invariant
                n == ledger@.len(),
                i < n,
                j <= n,
                forall|b: int| 0 <= b < j && b != i ==> ledger@[b].id != ledger@[i as int].id,
            decreases n - j,
        {
            if j != i && ledger[j].id == ledger[i].id {
                assert(!tx_ids_unique(ledger@)) by {
                    assert(ledger@[i as int].id == ledger@[j as int].id);
                }
                return false;
            }
            j = j + 1;
        }
        i = i + 1;
    }
    check_slates(ledger, next)
}

/// Whether no two ledger entries record the same slate and every id lies
/// below `next`.
fn check_slates(ledger: &Vec<LedgerEntry>, next: u32) -> (r: bool)
    ensures
        r == (slate_ids_unique(ledger@) && tx_ids_below(ledger@, next)),
{
    let n = ledger.len();
    let mut i: usize = 0;
    while i < n
        invariant
            n == ledger@.len(),
            i <= n,
            forall|a: int, b: int|
                0 <= a < i && 0 <= b < n && a != b && (#[trigger] ledger@[a]).slate_id is Some
                    ==> ledger@[a].slate_id != (#[trigger] ledger@[b]).slate_id,
            forall|a: int| 0 <= a < i ==> (#[trigger] ledger@[a]).id < next,
        decreases n - i,
    {
        if ledger[i].id >= next {
            return false;
        }
        if let Some(sid) = ledger[i].slate_id {
            let mut j: usize = 0;
            while j < n
                invariant
                    n == ledger@.len(),
                    i < n,
                    j <= n,
                    ledger@[i as int].slate_id == Some(sid),
                    forall|b: int| 0 <= b < j && b != i ==> ledger@[b].slate_id != Some(sid),
                decreases n - j,
            {
                if j != i && ledger[j].slate_id == Some(sid) {
                    assert(!slate_ids_unique(ledger@)) by {
                        assert(ledger@[i as int].slate_id == ledger@[j as int].slate_id);
                    }
                    return false;
                }
                j = j + 1;
            }
        }
        i = i + 1;
    }
    true
}

proof fn lemma_bucket_total_bounds(outs: Seq<OutputRecord>, n: int, tip: u64, b: Bucket)
    requires
        0 <= n,
    ensures
        0 <= bucket_total(outs, n, tip, b) <= n * (u64::MAX as int),
    decreases n,
{
    if n > 0 {
        lemma_bucket_total_bounds(outs, n - 1, tip, b);
    }
}

proof fn lemma_two_buckets_bound(outs: Seq<OutputRecord>, n: int, tip: u64, a: Bucket, b: Bucket)
    requires
        0 <= n,
        a != b,
    ensures
        bucket_total(outs, n, tip, a) + bucket_total(outs, n, tip, b) <= n * (u64::MAX as int),
    decreases n,
{
    if n > 0 {
        lemma_two_buckets_bound(outs, n - 1, tip, a, b);
    }
}

/// Total value of the outputs in bucket `b` at chain height `tip`.
pub fn bucket_sum(outs: &Vec<OutputRecord>, tip: u64, b: Bucket) -> (r: u128)
    ensures
        r == bucket_total(outs@, outs@.len() as int, tip, b),
{
    let mut acc: u128 = 0;
    let mut i: usize = 0;
    while i < outs.len()
        invariant
            i <= outs@.len(),
            acc == bucket_total(outs@, i as int, tip, b),
        decreases outs@.len() - i,
    {
        proof {
            lemma_bucket_total_bounds(outs@, i as int, tip, b);
            assert(i * (u64::MAX as int) + u64::MAX <= u64::MAX as int * u64::MAX as int + u64::MAX)
                by (nonlinear_arith)
                requires
                    i <= u64::MAX,
            ;
        }
        let o = outs[i];
        let in_bucket = if o.status == OutputStatus::Spent {
            b == Bucket::Spent
        } else if o.status == OutputStatus::Locked {
            b == Bucket::Locked
        } else if o.eligible_to_spend(tip, MIN_CONFIRMATIONS) {
            b == Bucket::Spendable
        } else {
            b == Bucket::Awaiting
        };
        if in_bucket {
            acc = acc + o.value as u128;
        }
        i = i + 1;
    }
    acc
}

/// Position of the first ledger entry with id `tx_id`.
pub fn find_tx(ledger: &Vec<LedgerEntry>, tx_id: u32) -> (r: Option<usize>)
    ensures
        r is Some ==> r->0 < ledger@.len() && ledger@[r->0 as int].id == tx_id,
        r is Some ==> forall|k: int| 0 <= k < r->0 ==> (#[trigger] ledger@[k]).id != tx_id,
        r is None ==> forall|k: int| 0 <= k < ledger@.len() ==> (#[trigger] ledger@[k]).id != tx_id,
{
    let mut i: usize = 0;
    while i < ledger.len()
        invariant
            i <= ledger@.len(),
            forall|k: int| 0 <= k < i ==> (#[trigger] ledger@[k]).id != tx_id,
        decreases ledger@.len() - i,
    {
        if ledger[i].id == tx_id {
            return Some(i);
        }
        i = i + 1;
    }
    None
}

/// Position of the account labelled `label`.
pub fn find_account(accounts: &Vec<Account>, label: &str) -> (r: Option<usize>)
    ensures
        r is Some ==> r->0 < accounts@.len() && accounts@[r->0 as int].label@ == label@,
        r is None <==> !has_account(accounts@, label@),
{
    let mut i: usize = 0;
    while i < accounts.len()
        invariant
            i <= accounts@.len(),
            forall|k: int| 0 <= k < i ==> (#[trigger] accounts@[k]).label@ != label@,
        decreases accounts@.len() - i,
    {
        if str_eq(accounts[i].label.as_str(), label) {
            return Some(i);
        }
        i = i + 1;
    }
    None
}

/// What callers are shown of an output.
#[derive(Debug, Clone, Copy)]
pub struct OutputSummary {
    pub record: OutputRecord,
    pub confirmations: u64,
    pub spendable: bool,
}

/// The summary of output `o` at chain height `tip`.
pub open spec fn output_summary_spec(o: OutputRecord, tip: u64) -> OutputSummary {
    OutputSummary {
        record: o,
        confirmations: output_confirmations_spec(o, tip) as u64,
        spendable: spendable_spec(o, tip, MIN_CONFIRMATIONS),
    }
}

/// Summaries of the first `n` outputs, spent ones only when `include_spent`.
pub open spec fn visible_outputs(outs: Seq<OutputRecord>, n: int, include_spent: bool, tip: u64) -> Seq<OutputSummary>
    decreases n,
{
    if n <= 0 {
        Seq::empty()
    } else {
        let rest = visible_outputs(outs, n - 1, include_spent, tip);
        if include_spent || outs[n - 1].status != OutputStatus::Spent {
            rest.push(output_summary_spec(outs[n - 1], tip))
        } else {
            rest
        }
    }
}

impl Wallet {
    /// Replaces the outputs and the ledger with what the keychain store and the
    /// node reported. Data that breaks the wallet's invariants is refused and
    /// nothing changes.
    pub fn sync(&mut self, outputs: Vec<OutputRecord>, ledger: Vec<LedgerEntry>, next_tx_id: u32) -> (r: Result<(), WalletError>)
        requires
            old(self).wf(),
        ensures
            final(self).wf(),
            final(self).config == old(self).config,
            !old(self).ready() ==> r == Err::<(), WalletError>(old(self).not_ready_error()),
            old(self).ready() ==> (r is Ok <==> outputs_wf(outputs@) && slate_ids_unique(ledger@)
                && tx_ids_below(ledger@, next_tx_id) && tx_ids_unique(ledger@)),
            old(self).ready() && r is Err ==> r == Err::<(), WalletError>(WalletError::InconsistentData),
            r is Err ==> final(self).state == old(self).state,
            r is Ok ==> final(self).ready() && ({
                let st = final(self).state->0;
                let st0 = old(self).state->0;
                &&& st.outputs@ == outputs@
                &&& st.ledger@ == ledger@
                &&& st.next_tx_id == next_tx_id
                &&& st.accounts@ == st0.accounts@
                &&& st.active_account@ == st0.active_account@
                &&& st.address@ == st0.address@
            }),
    {
        if let Err(e) = self.check_ready() {
            return Err(e);
        }
        if !check_outputs(&outputs) || !check_ledger(&ledger, next_tx_id) {
            return Err(WalletError::InconsistentData);
        }
        match &mut self.state {
            Some(st) => {
                st.outputs = outputs;
                st.ledger = ledger;
                st.next_tx_id = next_tx_id;
            },
            None => {},
        }
        Ok(())
    }

    /// Value that can be spent now, at chain height `tip`.
    pub fn balance(&self, tip: u64) -> (r: Result<u128, WalletError>)
        ensures
            r is Ok <==> self.ready(),
            r is Err ==> r->Err_0 == self.not_ready_error(),
            r is Ok ==> r->Ok_0 == bucket_total(self.state->0.outputs@, self.state->0.outputs@.len() as int, tip, Bucket::Spendable),
    {
        if let Err(e) = self.check_ready() {
            return Err(e);
        }
        match &self.state {
            Some(st) => Ok(bucket_sum(&st.outputs, tip, Bucket::Spendable)),
            None => Err(WalletError::NotInitialized),
        }
    }

    /// The balance broken down by bucket, and the active account.
    pub fn wallet_info(&self, tip: u64) -> (r: Result<WalletSummary, WalletError>)
        ensures
            r is Ok <==> self.ready(),
            r is Err ==> r->Err_0 == self.not_ready_error(),
            r is Ok ==> ({
                let outs = self.state->0.outputs@;
                let n = outs.len() as int;
                let s = r->Ok_0;
                &&& s.spendable == bucket_total(outs, n, tip, Bucket::Spendable)
                &&& s.awaiting_confirmation == bucket_total(outs, n, tip, Bucket::Awaiting)
                &&& s.locked == bucket_total(outs, n, tip, Bucket::Locked)
                &&& s.total == s.spendable + s.awaiting_confirmation
                &&& s.active_account@ == self.state->0.active_account@
            }),
    {
        if let Err(e) = self.check_ready() {
            return Err(e);
        }
        match &self.state {
            Some(st) => {
                let n = st.outputs.len();
                let spendable = bucket_sum(&st.outputs, tip, Bucket::Spendable);
                let awaiting = bucket_sum(&st.outputs, tip, Bucket::Awaiting);
                let locked = bucket_sum(&st.outputs, tip, Bucket::Locked);
                proof {
                    lemma_bucket_total_bounds(st.outputs@, n as int, tip, Bucket::Spendable);
                    lemma_bucket_total_bounds(st.outputs@, n as int, tip, Bucket::Awaiting);
                    lemma_two_buckets_bound(st.outputs@, n as int, tip, Bucket::Spendable, Bucket::Awaiting);
                    assert(n * (u64::MAX as int) <= u64::MAX as int * u64::MAX as int)
                        by (nonlinear_arith)
                        requires
                            n <= u64::MAX,
                    ;
                }
                Ok(WalletSummary {
                    total: spendable + awaiting,
                    awaiting_confirmation: awaiting,
                    locked,
                    spendable,
                    active_account: st.active_account.clone(),
                })
            },
            None => Err(WalletError::NotInitialized),
        }
    }

    /// Summaries of the outputs at chain height `tip`, spent ones only when
    /// `include_spent`.
    pub fn list_outputs(&self, include_spent: bool, tip: u64) -> (r: Result<Vec<OutputSummary>, WalletError>)
        ensures
            r is Ok <==> self.ready(),
            r is Err ==> r->Err_0 == self.not_ready_error(),
            r is Ok ==> r->Ok_0@ == visible_outputs(self.state->0.outputs@, self.state->0.outputs@.len() as int, include_spent, tip),
    {
        if let Err(e) = self.check_ready() {
            return Err(e);
        }
        match &self.state {
            Some(st) => {
                let outs = &st.outputs;
                let mut res: Vec<OutputSummary> = Vec::new();
                let mut i: usize = 0;
                while i < outs.len()
                    invariant
                        i <= outs@.len(),
                        res@ == visible_outputs(outs@, i as int, include_spent, tip),
                    decreases outs@.len() - i,
                {
                    let o = outs[i];
                    if include_spent || o.status != OutputStatus::Spent {
                        res.push(OutputSummary {
                            record: o,
                            confirmations: o.num_confirmations(tip),
                            spendable: o.eligible_to_spend(tip, MIN_CONFIRMATIONS),
                        });
                    }
                    i = i + 1;
                }
                Ok(res)
            },
            None => Err(WalletError::NotInitialized),
        }
    }

    /// Summaries of all ledger entries, each with its confirmations at chain
    /// height `tip`.
    pub fn list_transactions(&self, tip: u64) -> (r: Result<Vec<TxSummary>, WalletError>)
        ensures
            r is Ok <==> self.ready(),
            r is Err ==> r->Err_0 == self.not_ready_error(),
            r is Ok ==> ({
                let st = self.state->0;
                &&& r->Ok_0@.len() == st.ledger@.len()
                &&& forall|i: int| 0 <= i < st.ledger@.len() ==> #[trigger] r->Ok_0@[i] == summary_spec(
                    st.ledger@[i],
                    tx_confirmations_spec(st.outputs@, st.ledger@[i].id, tip) as u64,
                )
            }),
    {
        if let Err(e) = self.check_ready() {
            return Err(e);
        }
        match &self.state {
            Some(st) => {
                let mut res: Vec<TxSummary> = Vec::new();
                let mut i: usize = 0;
                while i < st.ledger.len()
                    invariant
                        i <= st.ledger@.len(),
                        res@.len() == i,
                        forall|k: int| 0 <= k < i ==> #[trigger] res@[k] == summary_spec(
                            st.ledger@[k],
                            tx_confirmations_spec(st.outputs@, st.ledger@[k].id, tip) as u64,
                        ),
                    decreases st.ledger@.len() - i,
                {
                    let c = tx_confirmations(&st.outputs, st.ledger[i].id, tip);
                    res.push(st.ledger[i].summary(c));
                    i = i + 1;
                }
                Ok(res)
            },
            None => Err(WalletError::NotInitialized),
        }
    }
}

impl Wallet {
    /// The accounts, marking the active one.
    pub fn list_accounts(&self) -> (r: Result<Vec<AccountView>, WalletError>)
        ensures
            r is Ok <==> self.ready(),
            r is Err ==> r->Err_0 == self.not_ready_error(),
            r is Ok ==> ({
                let st = self.state->0;
                &&& r->Ok_0@.len() == st.accounts@.len()
                &&& forall|i: int| 0 <= i < st.accounts@.len() ==> {
                    &&& (#[trigger] r->Ok_0@[i]).label@ == st.accounts@[i].label@
                    &&& r->Ok_0@[i].index == st.accounts@[i].index
                    &&& r->Ok_0@[i].is_active == (st.accounts@[i].label@ == st.active_account@)
                }
            }),
    {
        if let Err(e) = self.check_ready() {
            return Err(e);
        }
        match &self.state {
            Some(st) => {
                let mut res: Vec<AccountView> = Vec::new();
                let mut i: usize = 0;
                while i < st.accounts.len()
                    invariant
                        i <= st.accounts@.len(),
                        res@.len() == i,
                        forall|k: int| 0 <= k < i ==> {
                            &&& (#[trigger] res@[k]).label@ == st.accounts@[k].label@
                            &&& res@[k].index == st.accounts@[k].index
                            &&& res@[k].is_active == (st.accounts@[k].label@ == st.active_account@)
                        },
                    decreases st.accounts@.len() - i,
                {
                    let a = &st.accounts[i];
                    res.push(AccountView {
                        label: a.label.clone(),
                        index: a.index,
                        is_active: str_eq(a.label.as_str(), st.active_account.as_str()),
                    });
                    i = i + 1;
                }
                Ok(res)
            },
            None => Err(WalletError::NotInitialized),
        }
    }

    /// Adds an account labelled `label` without surrounding whitespace, at the
    /// next free index. The active account does not change.
    pub fn create_account(&mut self, label: &str) -> (r: Result<AccountView, WalletError>)
        requires
            old(self).wf(),
        ensures
            final(self).wf(),
            final(self).config == old(self).config,
            trimmed(label@).len() == 0 ==> r == Err::<AccountView, WalletError>(WalletError::EmptyLabel),
            trimmed(label@).len() > 0 && !old(self).ready() ==> r == Err::<AccountView, WalletError>(old(self).not_ready_error()),
            trimmed(label@).len() > 0 && old(self).ready() ==> {
                let st0 = old(self).state->0;
                &&& has_account(st0.accounts@, trimmed(label@)) ==> r == Err::<AccountView, WalletError>(WalletError::DuplicateAccount)
                &&& !has_account(st0.accounts@, trimmed(label@)) && st0.accounts@.len() >= u32::MAX ==> r == Err::<AccountView, WalletError>(WalletError::Exhausted)
                &&& !has_account(st0.accounts@, trimmed(label@)) && st0.accounts@.len() < u32::MAX ==> r is Ok
            },
            r is Err ==> final(self).state == old(self).state,
            r is Ok ==> final(self).ready() && ({
                let st = final(self).state->0;
                let st0 = old(self).state->0;
                let v = r->Ok_0;
                &&& v.label@ == trimmed(label@)
                &&& v.index == st0.accounts@.len()
                &&& !v.is_active
                &&& st.accounts@.len() == st0.accounts@.len() + 1
                &&& st.accounts@.drop_last() == st0.accounts@
                &&& st.accounts@.last().label@ == trimmed(label@)
                &&& st.accounts@.last().index == st0.accounts@.len()
                &&& st.active_account@ == st0.active_account@
                &&& st.outputs@ == st0.outputs@
                &&& st.ledger@ == st0.ledger@
            }),
    {
        let cleaned = trim_str(label);
        if cleaned.unicode_len() == 0 {
            return Err(WalletError::EmptyLabel);
        }
        if let Err(e) = self.check_ready() {
            return Err(e);
        }
        match &mut self.state {
            Some(st) => {
                if find_account(&st.accounts, cleaned).is_some() {
                    return Err(WalletError::DuplicateAccount);
                }
                let n = st.accounts.len();
                if n >= u32::MAX as usize {
                    return Err(WalletError::Exhausted);
                }
                let ghost before = st.accounts@;
                st.accounts.push(Account { label: cleaned.to_owned(), index: n as u32 });
                assert(st.accounts@.drop_last() =~= before);
                assert(has_account(st.accounts@, st.active_account@)) by {
                    let w = choose|w: int| 0 <= w < before.len() && (#[trigger] before[w]).label@ == st.active_account@;
                    assert(st.accounts@[w] == before[w]);
                }
                assert(labels_unique(st.accounts@)) by {
                    assert forall|i: int, j: int|
                        0 <= i < st.accounts@.len() && 0 <= j < st.accounts@.len() && i != j implies
                        (#[trigger] st.accounts@[i]).label@ != (#[trigger] st.accounts@[j]).label@ by {
                        if i < before.len() && j < before.len() {
                            assert(st.accounts@[i] == before[i]);
                            assert(st.accounts@[j] == before[j]);
                        } else if i < before.len() {
                            assert(st.accounts@[i] == before[i]);
                        } else {
                            assert(st.accounts@[j] == before[j]);
                        }
                    }
                }
                Ok(AccountView { label: cleaned.to_owned(), index: n as u32, is_active: false })
            },
            None => Err(WalletError::NotInitialized),
        }
    }

    /// Makes the account labelled `label`, without surrounding whitespace, the
    /// active one.
    pub fn set_active_account(&mut self, label: &str) -> (r: Result<AccountView, WalletError>)
        requires
            old(self).wf(),
        ensures
            final(self).wf(),
            final(self).config == old(self).config,
            trimmed(label@).len() == 0 ==> r == Err::<AccountView, WalletError>(WalletError::EmptyLabel),
            trimmed(label@).len() > 0 && !old(self).ready() ==> r == Err::<AccountView, WalletError>(old(self).not_ready_error()),
            trimmed(label@).len() > 0 && old(self).ready() ==> (r is Ok <==> has_account(old(self).state->0.accounts@, trimmed(label@))),
            trimmed(label@).len() > 0 && old(self).ready() && r is Err ==> r == Err::<AccountView, WalletError>(WalletError::UnknownAccount),
            r is Err ==> final(self).state == old(self).state,
            r is Ok ==> final(self).ready() && ({
                let st = final(self).state->0;
                let st0 = old(self).state->0;
                let v = r->Ok_0;
                &&& v.label@ == trimmed(label@)
                &&& v.is_active
                &&& exists|i: int| 0 <= i < st0.accounts@.len() && #[trigger] st0.accounts@[i].label@ == trimmed(label@)
                    && st0.accounts@[i].index == v.index
                &&& st.active_account@ == trimmed(label@)
                &&& st.accounts@ == st0.accounts@
                &&& st.outputs@ == st0.outputs@
                &&& st.ledger@ == st0.ledger@
            }),
    {
        let cleaned = trim_str(label);
        if cleaned.unicode_len() == 0 {
            return Err(WalletError::EmptyLabel);
        }
        if let Err(e) = self.check_ready() {
            return Err(e);
        }
        match &mut self.state {
            Some(st) => {
                match find_account(&st.accounts, cleaned) {
                    None => Err(WalletError::UnknownAccount),
                    Some(i) => {
                        let index = st.accounts[i].index;
                        st.active_account = cleaned.to_owned();
                        Ok(AccountView { label: cleaned.to_owned(), index, is_active: true })
                    },
                }
            },
            None => Err(WalletError::NotInitialized),
        }
    }

    /// The payment proof recorded for ledger entry `tx_id`.
    pub fn payment_proof(&self, tx_id: u32) -> (r: Result<Vec<u8>, WalletError>)
        requires
            self.wf(),
        ensures
            !self.ready() ==> r == Err::<Vec<u8>, WalletError>(self.not_ready_error()),
            self.ready() && !has_tx(self.state->0.ledger@, tx_id) ==> r == Err::<Vec<u8>, WalletError>(
                WalletError::UnknownTransaction,
            ),
            self.ready() ==> forall|k: int|
                0 <= k < self.state->0.ledger@.len() && (#[trigger] self.state->0.ledger@[k]).id == tx_id ==> {
                    let e = self.state->0.ledger@[k];
                    &&& e.payment_proof is None ==> r == Err::<Vec<u8>, WalletError>(WalletError::NoPaymentProof)
                    &&& e.payment_proof is Some ==> r is Ok && r->Ok_0@ == e.payment_proof->0@
                },
    {
        if let Err(e) = self.check_ready() {
            return Err(e);
        }
        match &self.state {
            Some(st) => match find_tx(&st.ledger, tx_id) {
                None => Err(WalletError::UnknownTransaction),
                Some(i) => match &st.ledger[i].payment_proof {
                    Some(p) => Ok(copy_bytes(p)),
                    None => Err(WalletError::NoPaymentProof),
                },
            },
            None => Err(WalletError::NotInitialized),
        }
    }
}

/// A copy of `b`.
pub fn copy_bytes(b: &Vec<u8>) -> (r: Vec<u8>)
    ensures
        r@ == b@,
{
    let mut r: Vec<u8> = Vec::new();
    let mut i: usize = 0;
    while i < b.len()
        invariant
            i <= b@.len(),
            r@ == b@.subrange(0, i as int),
        decreases b@.len() - i,
    {
        r.push(b[i]);
        assert(r@ =~= b@.subrange(0, i + 1));
        i = i + 1;
    }
    assert(r@ =~= b@);
    r
}

/// Relies on `std::time::SystemTime`: seconds since the Unix epoch, zero when
/// the clock stands before it.
#[verifier::external_body]
pub(crate) fn epoch_secs() -> (r: u64) {
    std::time::SystemTime::now().duration_since(std::time::UNIX_EPOCH).map(|d| d.as_secs()).unwrap_or(0)
}

/// What a rescan of the chain was asked to do, and when.
#[derive(Debug, Clone, Copy)]
pub struct ScanReport {
    pub delete_unconfirmed: bool,
    pub start_height: Option<u64>,
    pub backwards_from_tip: Option<u64>,
    pub performed_at_epoch_secs: u64,
}

impl Wallet {
    /// Records a rescan of the chain with the given options, stamped with the
    /// current time.
    pub fn scan(&self, delete_unconfirmed: bool, start_height: Option<u64>, backwards_from_tip: Option<u64>) -> (r: Result<ScanReport, WalletError>)
        ensures
            r is Ok <==> self.ready(),
            r is Err ==> r->Err_0 == self.not_ready_error(),
            r is Ok ==> r->Ok_0.delete_unconfirmed == delete_unconfirmed && r->Ok_0.start_height == start_height
                && r->Ok_0.backwards_from_tip == backwards_from_tip,
    {
        if let Err(e) = self.check_ready() {
            return Err(e);
        }
        Ok(ScanReport { delete_unconfirmed, start_height, backwards_from_tip, performed_at_epoch_secs: epoch_secs() })
    }
}

} // verus!

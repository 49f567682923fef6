use vstd::prelude::*;
use crate::decimal::{Decimal, DECIMAL_SCALE};
use crate::error::ContractError;
use crate::event::Event;
use crate::execution::{Execution, spec_total_sent};
use crate::pair::Pair;
use crate::trigger::{Trigger, TriggerConfiguration};
use crate::vault::{
    PositionType, Vault, spec_is_terminal, spec_receive_denom, spec_swap_denom,
    spec_interval_seconds,
};

verus! {

/// Administrative configuration fixed at instantiation.
#[derive(Debug)]
pub struct Config {
    pub admin: String,
    /// Recipient of escrow remainders not released to vault owners.
    pub fee_collector: String,
}

/// A scheduled future evaluation of a DCA+ vault's escrowed balance, keyed by
/// the vault's expected completion time.
#[derive(Debug, Clone, Copy, PartialEq, Eq, Structural)]
pub struct EscrowTask {
    pub vault_id: u64,
    /// The time from which the escrow may be claimed (seconds).
    pub due: u64,
}

/// Reverse lookup from a venue-assigned order index to the owning vault.
#[derive(Debug, Clone, Copy, PartialEq, Eq, Structural)]
pub struct LimitOrderRef {
    pub order_idx: u128,
    pub vault_id: u64,
}

/// Per-pair, per-direction multiplier applied when computing the DCA+
/// benchmark.
#[derive(Debug, Clone, Copy, PartialEq, Eq, Structural)]
pub struct SwapAdjustment {
    pub pool_id: u64,
    pub position_type: PositionType,
    pub value: Decimal,
}

/// The in-flight stage of a vault's execution saga.  It is persisted state,
/// not an in-memory continuation: after issuing a venue request the invocation
/// returns, and the confirmation arrives as a separate later invocation.
#[derive(Debug, Clone, Copy, PartialEq, Eq, Structural)]
pub enum SagaState {
    /// A swap request for this tranche has been issued and not yet confirmed.
    AwaitingSwapConfirmation { tranche: u128 },
    /// A limit-order submission has been issued; the venue's order index has
    /// not yet been reported back.
    AwaitingOrderSubmission {},
    /// A withdrawal of the filled part of the resting order has been issued;
    /// `consumed` is the offer-denomination amount the fill used up, and
    /// `partial` says whether part of the order remains resting.
    AwaitingWithdrawalConfirmation { consumed: u128, partial: bool },
}

/// The entire persisted state of the vault system.
#[derive(Debug)]
pub struct DcaState {
    pub config: Config,
    pub pairs: Vec<Pair>,
    /// Vault with identifier `i + 1` lives at index `i`.
    pub vaults: Vec<Vault>,
    /// Trigger of vault `i + 1`, if any; parallel to `vaults`.
    pub triggers: Vec<Option<Trigger>>,
    /// Saga stage of vault `i + 1`, if one is in flight; parallel to `vaults`.
    pub sagas: Vec<Option<SagaState>>,
    /// Event ledger of vault `i + 1`; parallel to `vaults`.
    pub events: Vec<Vec<Event>>,
    /// Execution ledger of vault `i + 1`; parallel to `vaults`.
    pub executions: Vec<Vec<Execution>>,
    pub escrow_tasks: Vec<EscrowTask>,
    pub limit_orders: Vec<LimitOrderRef>,
    pub swap_adjustments: Vec<SwapAdjustment>,
}

/// The mathematical model of a [`DcaState`].
#[verifier::ext_equal]
pub ghost struct StateView {
    pub admin: Seq<char>,
    pub fee_collector: Seq<char>,
    pub pairs: Seq<Pair>,
    pub vaults: Seq<Vault>,
    pub triggers: Seq<Option<Trigger>>,
    pub sagas: Seq<Option<SagaState>>,
    pub events: Seq<Seq<Event>>,
    pub executions: Seq<Seq<Execution>>,
    pub escrow_tasks: Seq<EscrowTask>,
    pub limit_orders: Seq<LimitOrderRef>,
    pub swap_adjustments: Seq<SwapAdjustment>,
}

impl View for DcaState {
    type V = StateView;

    open spec fn view(&self) -> StateView {
        StateView {
            admin: self.config.admin@,
            fee_collector: self.config.fee_collector@,
            pairs: self.pairs@,
            vaults: self.vaults@,
            triggers: self.triggers@,
            sagas: self.sagas@,
            events: self.events@.map_values(|ledger: Vec<Event>| ledger@),
            executions: self.executions@.map_values(|ledger: Vec<Execution>| ledger@),
            escrow_tasks: self.escrow_tasks@,
            limit_orders: self.limit_orders@,
            swap_adjustments: self.swap_adjustments@,
        }
    }
}

impl StateView {
    /// Whether `id` names an existing vault.
    pub open spec fn valid_vault_id(self, id: u64) -> bool {
        1 <= id <= self.vaults.len()
    }

    /// The parallel ledgers all cover exactly the existing vaults.
    pub open spec fn wf_lengths(self) -> bool {
        &&& self.triggers.len() == self.vaults.len()
        &&& self.sagas.len() == self.vaults.len()
        &&& self.events.len() == self.vaults.len()
        &&& self.executions.len() == self.vaults.len()
    }

    /// Per-vault invariants: the identifier matches the slot, the tranche
    /// size is positive, the interval is positive, a vault that may still
    /// execute has funds, a cancelled vault has none, the cumulative swapped
    /// amount is exactly what the recorded executions sent, and outside a
    /// cancellation the balance accounts exactly for deposits minus swaps.
    pub open spec fn wf_vault(self, i: int) -> bool {
        let v = self.vaults[i];
        &&& v.id == i + 1
        &&& v.swap_amount >= 1
        &&& spec_interval_seconds(v.time_interval) >= 1
        &&& (v.status is Active || v.status is Scheduled) ==> v.balance.amount >= 1
        &&& v.status is Cancelled ==> v.balance.amount == 0
        &&& v.balance.denom@ == spec_swap_denom(v)
        &&& v.swapped_amount == spec_total_sent(self.executions[i])
        &&& !(v.status is Cancelled) ==> v.deposited_amount == v.balance.amount
            + v.swapped_amount
        &&& match v.dca_plus_config {
            Some(c) => c.escrow_level.atomics <= DECIMAL_SCALE && c.escrowed_balance.denom@
                == spec_receive_denom(v),
            None => true,
        }
    }

    /// Per-trigger invariants: a trigger belongs to its slot's vault, only a
    /// non-terminal vault has one, and a resting limit order never offers
    /// more than the vault's remaining balance.
    pub open spec fn wf_trigger(self, i: int) -> bool {
        match self.triggers[i] {
            Some(t) => {
                &&& t.vault_id == i + 1
                &&& !spec_is_terminal(self.vaults[i].status)
                &&& match t.configuration {
                    TriggerConfiguration::Time { .. } => true,
                    TriggerConfiguration::FinLimitOrder { offer_amount, .. } => 0 < offer_amount
                        <= self.vaults[i].balance.amount,
                }
            },
            None => true,
        }
    }

    /// Per-saga invariants: a saga belongs to an active vault and its
    /// persisted amounts stay within the vault's balance, so settlement can
    /// always debit them.
    pub open spec fn wf_saga(self, i: int) -> bool {
        match self.sagas[i] {
            Some(s) => {
                &&& self.vaults[i].status is Active
                &&& match s {
                    SagaState::AwaitingSwapConfirmation { tranche } => {
                        &&& 0 < tranche <= self.vaults[i].balance.amount
                        &&& (self.triggers[i] matches Some(t) && t.configuration is Time)
                    },
                    SagaState::AwaitingOrderSubmission {} => self.triggers[i] matches Some(t)
                        && t.configuration matches TriggerConfiguration::FinLimitOrder {
                        order_idx: None,
                        ..
                    },
                    SagaState::AwaitingWithdrawalConfirmation { consumed, partial } => {
                        &&& (self.triggers[i] matches Some(t)
                            && t.configuration matches TriggerConfiguration::FinLimitOrder {
                            order_idx: Some(_),
                            offer_amount,
                            ..
                        } && 0 < consumed <= offer_amount && (partial ==> consumed < offer_amount))
                    },
                }
            },
            None => true,
        }
    }

    /// Ledger invariants: per-resource sequence numbers are contiguous from
    /// one, entries name their resource, and execution records carry amounts
    /// exactly when successful.
    pub open spec fn wf_ledgers(self, i: int) -> bool {
        &&& forall|j: int|
            0 <= j < self.events[i].len() ==> (#[trigger] self.events[i][j]).resource_id == i + 1
                && self.events[i][j].id == j + 1
        &&& forall|j: int|
            0 <= j < self.executions[i].len() ==> (#[trigger] self.executions[i][j]).vault_id == i
                + 1 && self.executions[i][j].sequence_number == j + 1 && (
            self.executions[i][j].execution_information is Some <==> self.executions[i][j].execution_result is Success)
    }

    /// A reverse-index entry points at an existing vault whose trigger is the
    /// resting limit order with that index.
    pub open spec fn order_entry_matches(self, k: int) -> bool {
        let e = self.limit_orders[k];
        &&& self.valid_vault_id(e.vault_id)
        &&& self.triggers[e.vault_id - 1] matches Some(t)
            && t.configuration matches TriggerConfiguration::FinLimitOrder {
            order_idx: Some(idx),
            ..
        } && idx == e.order_idx
    }

    /// Reverse-index invariants: every entry matches its vault's trigger and
    /// order indexes are unique.
    pub open spec fn wf_orders(self) -> bool {
        &&& forall|k: int| 0 <= k < self.limit_orders.len() ==> #[trigger] self.order_entry_matches(k)
        &&& forall|k1: int, k2: int|
            0 <= k1 < k2 < self.limit_orders.len() ==> (#[trigger] self.limit_orders[k1]).order_idx
                != (#[trigger] self.limit_orders[k2]).order_idx
    }

    /// Escrow-task invariants: each task names an existing terminal DCA+
    /// vault, and each vault has at most one task.
    pub open spec fn wf_tasks(self) -> bool {
        &&& forall|k: int|
            0 <= k < self.escrow_tasks.len() ==> self.valid_vault_id(
                (#[trigger] self.escrow_tasks[k]).vault_id,
            ) && spec_is_terminal(self.vaults[self.escrow_tasks[k].vault_id - 1].status)
                && self.vaults[self.escrow_tasks[k].vault_id - 1].dca_plus_config is Some
        &&& forall|k1: int, k2: int|
            0 <= k1 < k2 < self.escrow_tasks.len() ==> (#[trigger] self.escrow_tasks[k1]).vault_id
                != (#[trigger] self.escrow_tasks[k2]).vault_id
    }

    /// Swap-adjustment invariants: coefficients are positive and keys are
    /// unique.
    pub open spec fn wf_adjustments(self) -> bool {
        &&& forall|k: int|
            0 <= k < self.swap_adjustments.len() ==> (#[trigger] self.swap_adjustments[k]).value.atomics
                > 0
        &&& forall|k1: int, k2: int|
            0 <= k1 < k2 < self.swap_adjustments.len() ==> !((
            #[trigger] self.swap_adjustments[k1]).pool_id == (
            #[trigger] self.swap_adjustments[k2]).pool_id && self.swap_adjustments[k1].position_type
                == self.swap_adjustments[k2].position_type)
    }

    /// Well-formedness of the whole state: every operation of the library
    /// requires and preserves it.
    pub open spec fn wf(self) -> bool {
        &&& self.wf_lengths()
        &&& forall|i: int| 0 <= i < self.vaults.len() ==> #[trigger] self.wf_vault(i)
        &&& forall|i: int| 0 <= i < self.vaults.len() ==> #[trigger] self.wf_trigger(i)
        &&& forall|i: int| 0 <= i < self.vaults.len() ==> #[trigger] self.wf_saga(i)
        &&& forall|i: int| 0 <= i < self.vaults.len() ==> #[trigger] self.wf_ledgers(i)
        &&& self.wf_orders()
        &&& self.wf_tasks()
        &&& self.wf_adjustments()
    }
}

/// Index of the first pair at or past `j` registered under `address`.
pub open spec fn spec_find_pair_from(pairs: Seq<Pair>, address: Seq<char>, j: int) -> Option<int>
    decreases pairs.len() - j,
{
    if j < 0 || j >= pairs.len() {
        None
    } else if pairs[j].address@ == address {
        Some(j)
    } else {
        spec_find_pair_from(pairs, address, j + 1)
    }
}

/// Index of the first escrow task at or past `j` for vault `vault_id`.
pub open spec fn spec_find_task_from(tasks: Seq<EscrowTask>, vault_id: u64, j: int) -> Option<int>
    decreases tasks.len() - j,
{
    if j < 0 || j >= tasks.len() {
        None
    } else if tasks[j].vault_id == vault_id {
        Some(j)
    } else {
        spec_find_task_from(tasks, vault_id, j + 1)
    }
}

/// Index of the first reverse-index entry at or past `j` for order
/// `order_idx`.
pub open spec fn spec_find_order_from(orders: Seq<LimitOrderRef>, order_idx: u128, j: int) -> Option<
    int,
>
    decreases orders.len() - j,
{
    if j < 0 || j >= orders.len() {
        None
    } else if orders[j].order_idx == order_idx {
        Some(j)
    } else {
        spec_find_order_from(orders, order_idx, j + 1)
    }
}

/// Index of the first swap adjustment at or past `j` for the given pool and
/// direction.
pub open spec fn spec_find_adjustment_from(
    adjustments: Seq<SwapAdjustment>,
    pool_id: u64,
    position_type: PositionType,
    j: int,
) -> Option<int>
    decreases adjustments.len() - j,
{
    if j < 0 || j >= adjustments.len() {
        None
    } else if adjustments[j].pool_id == pool_id && adjustments[j].position_type == position_type {
        Some(j)
    } else {
        spec_find_adjustment_from(adjustments, pool_id, position_type, j + 1)
    }
}

/// A successful task search returns an in-range index whose entry names the
/// vault.
pub proof fn lemma_find_task_from_some(tasks: Seq<EscrowTask>, vault_id: u64, j: int)
    ensures
        spec_find_task_from(tasks, vault_id, j) matches Some(k) ==> j <= k < tasks.len()
            && tasks[k].vault_id == vault_id,
    decreases tasks.len() - j,
{
    if 0 <= j < tasks.len() && tasks[j].vault_id != vault_id {
        lemma_find_task_from_some(tasks, vault_id, j + 1);
    }
}

/// An unsuccessful task search means no task in range names the vault.
pub proof fn lemma_find_task_from_none(tasks: Seq<EscrowTask>, vault_id: u64, j: int)
    requires
        j >= 0,
        spec_find_task_from(tasks, vault_id, j) is None,
    ensures
        forall|k: int| j <= k < tasks.len() ==> (#[trigger] tasks[k]).vault_id != vault_id,
    decreases tasks.len() - j,
{
    if j < tasks.len() {
        lemma_find_task_from_none(tasks, vault_id, j + 1);
    }
}

/// A successful order search returns an in-range index whose entry carries
/// the order index.
pub proof fn lemma_find_order_from_some(orders: Seq<LimitOrderRef>, order_idx: u128, j: int)
    ensures
        spec_find_order_from(orders, order_idx, j) matches Some(k) ==> j <= k < orders.len()
            && orders[k].order_idx == order_idx,
    decreases orders.len() - j,
{
    if 0 <= j < orders.len() && orders[j].order_idx != order_idx {
        lemma_find_order_from_some(orders, order_idx, j + 1);
    }
}

/// An unsuccessful order search means no entry in range carries the order
/// index.
pub proof fn lemma_find_order_from_none(orders: Seq<LimitOrderRef>, order_idx: u128, j: int)
    requires
        j >= 0,
        spec_find_order_from(orders, order_idx, j) is None,
    ensures
        forall|k: int| j <= k < orders.len() ==> (#[trigger] orders[k]).order_idx != order_idx,
    decreases orders.len() - j,
{
    if j < orders.len() {
        lemma_find_order_from_none(orders, order_idx, j + 1);
    }
}

/// When no entry in range carries the order index, the search fails.
pub proof fn lemma_find_order_absent(orders: Seq<LimitOrderRef>, order_idx: u128, j: int)
    requires
        j >= 0,
        forall|k: int| j <= k < orders.len() ==> (#[trigger] orders[k]).order_idx != order_idx,
    ensures
        spec_find_order_from(orders, order_idx, j) is None,
    decreases orders.len() - j,
{
    if j < orders.len() {
        lemma_find_order_absent(orders, order_idx, j + 1);
    }
}

/// Every per-vault well-formedness clause survives an update that touches
/// only slot `i`.
pub(crate) proof fn lemma_wf_frame(s: StateView, s2: StateView, i: int)
    requires
        s.wf(),
        s2.wf_lengths(),
        s2.vaults.len() == s.vaults.len(),
        forall|j: int|
            0 <= j < s.vaults.len() && j != i ==> (#[trigger] s2.vaults[j]) == s.vaults[j],
        forall|j: int|
            0 <= j < s.vaults.len() && j != i ==> (#[trigger] s2.triggers[j]) == s.triggers[j],
        forall|j: int| 0 <= j < s.vaults.len() && j != i ==> (#[trigger] s2.sagas[j]) == s.sagas[j],
        forall|j: int| 0 <= j < s.vaults.len() && j != i ==> (#[trigger] s2.events[j]) == s.events[j],
        forall|j: int|
            0 <= j < s.vaults.len() && j != i ==> (#[trigger] s2.executions[j]) == s.executions[j],
    ensures
        forall|j: int| 0 <= j < s2.vaults.len() && j != i ==> #[trigger] s2.wf_vault(j),
        forall|j: int| 0 <= j < s2.vaults.len() && j != i ==> #[trigger] s2.wf_trigger(j),
        forall|j: int| 0 <= j < s2.vaults.len() && j != i ==> #[trigger] s2.wf_saga(j),
        forall|j: int| 0 <= j < s2.vaults.len() && j != i ==> #[trigger] s2.wf_ledgers(j),
{
    assert forall|j: int| 0 <= j < s2.vaults.len() && j != i implies #[trigger] s2.wf_vault(j) by {
        assert(s.wf_vault(j));
    }
    assert forall|j: int| 0 <= j < s2.vaults.len() && j != i implies #[trigger] s2.wf_trigger(j) by {
        assert(s.wf_trigger(j));
    }
    assert forall|j: int| 0 <= j < s2.vaults.len() && j != i implies #[trigger] s2.wf_saga(j) by {
        assert(s.wf_saga(j));
    }
    assert forall|j: int| 0 <= j < s2.vaults.len() && j != i implies #[trigger] s2.wf_ledgers(j) by {
        assert(s.wf_ledgers(j));
    }
}

/// The escrow tasks stay well-formed when they are untouched and only a
/// non-terminal vault's slot changes: no task can point at that slot.
pub(crate) proof fn lemma_tasks_wf_untouched(s: StateView, s2: StateView, i: int)
    requires
        s.wf(),
        0 <= i < s.vaults.len(),
        !spec_is_terminal(s.vaults[i].status),
        s2.escrow_tasks == s.escrow_tasks,
        s2.vaults.len() == s.vaults.len(),
        forall|j: int|
            0 <= j < s.vaults.len() && j != i ==> (#[trigger] s2.vaults[j]) == s.vaults[j],
    ensures
        s2.wf_tasks(),
{
    assert forall|k: int|
        0 <= k < s2.escrow_tasks.len() implies s2.valid_vault_id(
        (#[trigger] s2.escrow_tasks[k]).vault_id,
    ) && spec_is_terminal(s2.vaults[s2.escrow_tasks[k].vault_id - 1].status)
        && s2.vaults[s2.escrow_tasks[k].vault_id - 1].dca_plus_config is Some by {
        let t = s.escrow_tasks[k];
        assert(s2.escrow_tasks[k] == t);
        if t.vault_id == i + 1 {
            assert(spec_is_terminal(s.vaults[i].status));
            assert(false);
        }
        assert(s2.vaults[t.vault_id - 1] == s.vaults[t.vault_id - 1]);
    }
    assert forall|k1: int, k2: int|
        0 <= k1 < k2 < s2.escrow_tasks.len() implies (
    #[trigger] s2.escrow_tasks[k1]).vault_id != (#[trigger] s2.escrow_tasks[k2]).vault_id by {
        assert(s.escrow_tasks[k1].vault_id != s.escrow_tasks[k2].vault_id);
    }
}

/// The reverse index stays well-formed when it is untouched and the only
/// trigger that changes is a time trigger (or none): no entry can point at
/// such a slot.
pub(crate) proof fn lemma_orders_wf_time_update(s: StateView, s2: StateView, i: int)
    requires
        s.wf(),
        0 <= i < s.vaults.len(),
        s2.limit_orders == s.limit_orders,
        s2.vaults.len() == s.vaults.len(),
        match s.triggers[i] {
            Some(t) => t.configuration is Time,
            None => true,
        },
        forall|j: int|
            0 <= j < s.vaults.len() && j != i ==> (#[trigger] s2.triggers[j]) == s.triggers[j],
    ensures
        s2.wf_orders(),
{
    assert forall|k: int| 0 <= k < s2.limit_orders.len() implies #[trigger] s2.order_entry_matches(
        k,
    ) by {
        assert(s.order_entry_matches(k));
        let e = s.limit_orders[k];
        if e.vault_id == i + 1 {
            assert(false);
        }
        assert(s2.triggers[e.vault_id - 1] == s.triggers[e.vault_id - 1]);
    }
    assert forall|k1: int, k2: int|
        0 <= k1 < k2 < s2.limit_orders.len() implies (#[trigger] s2.limit_orders[k1]).order_idx != (
    #[trigger] s2.limit_orders[k2]).order_idx by {
        assert(s.limit_orders[k1].order_idx != s.limit_orders[k2].order_idx);
    }
}

/// Every well-formedness clause except the adjustment-table ones survives a
/// change that leaves the vaults, their ledgers, the reverse index and the
/// tasks untouched.
pub(crate) proof fn lemma_wf_unrelated(s: StateView, s2: StateView)
    requires
        s.wf(),
        s2.vaults == s.vaults,
        s2.triggers == s.triggers,
        s2.sagas == s.sagas,
        s2.events == s.events,
        s2.executions == s.executions,
        s2.limit_orders == s.limit_orders,
        s2.escrow_tasks == s.escrow_tasks,
    ensures
        s2.wf_lengths(),
        forall|i: int| 0 <= i < s2.vaults.len() ==> #[trigger] s2.wf_vault(i),
        forall|i: int| 0 <= i < s2.vaults.len() ==> #[trigger] s2.wf_trigger(i),
        forall|i: int| 0 <= i < s2.vaults.len() ==> #[trigger] s2.wf_saga(i),
        forall|i: int| 0 <= i < s2.vaults.len() ==> #[trigger] s2.wf_ledgers(i),
        s2.wf_orders(),
        s2.wf_tasks(),
{
    assert forall|i: int| 0 <= i < s2.vaults.len() implies #[trigger] s2.wf_vault(i) by {
        assert(s.wf_vault(i));
    }
    assert forall|i: int| 0 <= i < s2.vaults.len() implies #[trigger] s2.wf_trigger(i) by {
        assert(s.wf_trigger(i));
    }
    assert forall|i: int| 0 <= i < s2.vaults.len() implies #[trigger] s2.wf_saga(i) by {
        assert(s.wf_saga(i));
    }
    assert forall|i: int| 0 <= i < s2.vaults.len() implies #[trigger] s2.wf_ledgers(i) by {
        assert(s.wf_ledgers(i));
    }
    assert forall|k: int| 0 <= k < s2.limit_orders.len() implies #[trigger] s2.order_entry_matches(
        k,
    ) by {
        assert(s.order_entry_matches(k));
    }
    assert forall|k: int|
        0 <= k < s2.escrow_tasks.len() implies s2.valid_vault_id(
        (#[trigger] s2.escrow_tasks[k]).vault_id,
    ) && spec_is_terminal(s2.vaults[s2.escrow_tasks[k].vault_id - 1].status)
        && s2.vaults[s2.escrow_tasks[k].vault_id - 1].dca_plus_config is Some by {
        assert(s.wf_tasks());
        assert(s.escrow_tasks[k] == s2.escrow_tasks[k]);
    }
}

impl DcaState {
    /// Index of the pair registered under `address`, if any.
    pub(crate) fn find_pair_index(&self, address: &String) -> (r: Option<usize>)
        ensures
            match r {
                Some(k) => k < self@.pairs.len() && self@.pairs[k as int].address@ == address@
                    && spec_find_pair_from(self@.pairs, address@, 0) == Some(k as int),
                None => spec_find_pair_from(self@.pairs, address@, 0) is None,
            },
    {
        let mut j: usize = 0;
        while j < self.pairs.len()
            invariant
                j <= self.pairs.len(),
                spec_find_pair_from(self@.pairs, address@, 0) == spec_find_pair_from(
                    self@.pairs,
                    address@,
                    j as int,
                ),
            decreases self.pairs.len() - j,
        {
            if self.pairs[j].address == *address {
                return Some(j);
            }
            j = j + 1;
        }
        None
    }

    /// Index of the escrow task for `vault_id`, if any.
    pub(crate) fn find_task_index(&self, vault_id: u64) -> (r: Option<usize>)
        ensures
            match r {
                Some(k) => k < self@.escrow_tasks.len() && self@.escrow_tasks[k as int].vault_id
                    == vault_id && spec_find_task_from(self@.escrow_tasks, vault_id, 0) == Some(
                    k as int,
                ),
                None => spec_find_task_from(self@.escrow_tasks, vault_id, 0) is None,
            },
    {
        let mut j: usize = 0;
        while j < self.escrow_tasks.len()
            invariant
                j <= self.escrow_tasks.len(),
                spec_find_task_from(self@.escrow_tasks, vault_id, 0) == spec_find_task_from(
                    self@.escrow_tasks,
                    vault_id,
                    j as int,
                ),
            decreases self.escrow_tasks.len() - j,
        {
            if self.escrow_tasks[j].vault_id == vault_id {
                return Some(j);
            }
            j = j + 1;
        }
        None
    }

    /// Index of the reverse-index entry for `order_idx`, if any.
    pub(crate) fn find_order_index(&self, order_idx: u128) -> (r: Option<usize>)
        ensures
            match r {
                Some(k) => k < self@.limit_orders.len() && self@.limit_orders[k as int].order_idx
                    == order_idx && spec_find_order_from(self@.limit_orders, order_idx, 0) == Some(
                    k as int,
                ),
                None => spec_find_order_from(self@.limit_orders, order_idx, 0) is None,
            },
    {
        let mut j: usize = 0;
        while j < self.limit_orders.len()
            invariant
                j <= self.limit_orders.len(),
                spec_find_order_from(self@.limit_orders, order_idx, 0) == spec_find_order_from(
                    self@.limit_orders,
                    order_idx,
                    j as int,
                ),
            decreases self.limit_orders.len() - j,
        {
            if self.limit_orders[j].order_idx == order_idx {
                return Some(j);
            }
            j = j + 1;
        }
        None
    }

    /// Index of the swap adjustment for the given pool and direction, if any.
    pub(crate) fn find_adjustment_index(&self, pool_id: u64, position_type: PositionType) -> (r:
        Option<usize>)
        ensures
            match r {
                Some(k) => k < self@.swap_adjustments.len()
                    && self@.swap_adjustments[k as int].pool_id == pool_id
                    && self@.swap_adjustments[k as int].position_type == position_type
                    && spec_find_adjustment_from(
                    self@.swap_adjustments,
                    pool_id,
                    position_type,
                    0,
                ) == Some(k as int),
                None => spec_find_adjustment_from(
                    self@.swap_adjustments,
                    pool_id,
                    position_type,
                    0,
                ) is None,
            },
    {
        let mut j: usize = 0;
        while j < self.swap_adjustments.len()
            invariant
                j <= self.swap_adjustments.len(),
                spec_find_adjustment_from(self@.swap_adjustments, pool_id, position_type, 0)
                    == spec_find_adjustment_from(
                    self@.swap_adjustments,
                    pool_id,
                    position_type,
                    j as int,
                ),
            decreases self.swap_adjustments.len() - j,
        {
            if self.swap_adjustments[j].pool_id == pool_id && self.swap_adjustments[j].position_type
                == position_type {
                return Some(j);
            }
            j = j + 1;
        }
        None
    }

    /// Creates an empty system with the given administrator and fee
    /// recipient.
    pub fn instantiate(admin: String, fee_collector: String) -> (r: DcaState)
        ensures
            r@.wf(),
            r@.admin == admin@,
            r@.fee_collector == fee_collector@,
            r@.pairs.len() == 0,
            r@.vaults.len() == 0,
            r@.escrow_tasks.len() == 0,
            r@.limit_orders.len() == 0,
            r@.swap_adjustments.len() == 0,
    {
        let state = DcaState {
            config: Config { admin, fee_collector },
            pairs: Vec::new(),
            vaults: Vec::new(),
            triggers: Vec::new(),
            sagas: Vec::new(),
            events: Vec::new(),
            executions: Vec::new(),
            escrow_tasks: Vec::new(),
            limit_orders: Vec::new(),
            swap_adjustments: Vec::new(),
        };
        proof {
            assert(state@.events =~= Seq::<Seq<Event>>::empty());
            assert(state@.executions =~= Seq::<Seq<Execution>>::empty());
        }
        state
    }

    /// Looks a vault up by its identifier.
    pub fn get_vault(&self, vault_id: u64) -> (r: Result<&Vault, ContractError>)
        ensures
            match r {
                Ok(v) => self@.valid_vault_id(vault_id) && *v == self@.vaults[vault_id - 1],
                Err(e) => e == ContractError::NotFound && !self@.valid_vault_id(vault_id),
            },
    {
        if 1 <= vault_id && vault_id <= self.vaults.len() as u64 {
            Ok(&self.vaults[(vault_id - 1) as usize])
        } else {
            Err(ContractError::NotFound)
        }
    }

    /// Looks a vault's trigger up by the vault identifier.
    pub fn get_trigger(&self, vault_id: u64) -> (r: Result<&Option<Trigger>, ContractError>)
        requires
            self@.wf(),
        ensures
            match r {
                Ok(t) => self@.valid_vault_id(vault_id) && *t == self@.triggers[vault_id - 1],
                Err(e) => e == ContractError::NotFound && !self@.valid_vault_id(vault_id),
            },
    {
        if 1 <= vault_id && vault_id <= self.vaults.len() as u64 {
            Ok(&self.triggers[(vault_id - 1) as usize])
        } else {
            Err(ContractError::NotFound)
        }
    }

    /// The event ledger of a resource, oldest first.
    pub fn get_events_by_resource_id(&self, resource_id: u64) -> (r: Result<
        &Vec<Event>,
        ContractError,
    >)
        requires
            self@.wf(),
        ensures
            match r {
                Ok(ledger) => self@.valid_vault_id(resource_id) && ledger@ == self@.events[resource_id - 1],
                Err(e) => e == ContractError::NotFound && !self@.valid_vault_id(resource_id),
            },
    {
        if 1 <= resource_id && resource_id <= self.vaults.len() as u64 {
            Ok(&self.events[(resource_id - 1) as usize])
        } else {
            Err(ContractError::NotFound)
        }
    }

    /// The execution ledger of a vault, oldest first.
    pub fn get_executions_by_vault_id(&self, vault_id: u64) -> (r: Result<
        &Vec<Execution>,
        ContractError,
    >)
        requires
            self@.wf(),
        ensures
            match r {
                Ok(ledger) => self@.valid_vault_id(vault_id) && ledger@ == self@.executions[vault_id - 1],
                Err(e) => e == ContractError::NotFound && !self@.valid_vault_id(vault_id),
            },
    {
        if 1 <= vault_id && vault_id <= self.vaults.len() as u64 {
            Ok(&self.executions[(vault_id - 1) as usize])
        } else {
            Err(ContractError::NotFound)
        }
    }
}

} // verus!

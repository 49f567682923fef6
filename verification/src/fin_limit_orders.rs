use vstd::prelude::*;
use crate::decimal::{Decimal, lemma_mul_decimal_le, mul_decimal, spec_mul_decimal};
use crate::error::ContractError;
use crate::escrow::{lemma_tasks_wf_after_terminal, spec_upsert_task};
use crate::event::{BlockInfo, Event, EventData};
use crate::execution::{
    Execution, ExecutionInformation, ExecutionResult, lemma_total_sent_push,
};
use crate::after_fin_swap::{spec_receive_denom_string, spec_settled_vault};
use crate::response::{ExecuteOutcome, ExecuteResponse, Msg, OrderStatus, Response};
use crate::state::{
    DcaState, LimitOrderRef, SagaState, StateView, lemma_find_order_from_none,
    lemma_find_order_from_some, lemma_tasks_wf_untouched, lemma_wf_frame, spec_find_order_from,
};
use crate::trigger::{Trigger, TriggerConfiguration};
use crate::vault::{Coin, Vault, VaultStatus};

verus! {

/// The offer amount of the limit-order trigger at slot `i` (zero if there is
/// none).
pub open spec fn spec_limit_offer(s: StateView, i: int) -> u128 {
    match s.triggers[i] {
        Some(t) => match t.configuration {
            TriggerConfiguration::FinLimitOrder { offer_amount, .. } => offer_amount,
            _ => 0,
        },
        None => 0,
    }
}

/// The target price of the limit-order trigger at slot `i`.
pub open spec fn spec_limit_price(s: StateView, i: int) -> Decimal {
    match s.triggers[i] {
        Some(t) => match t.configuration {
            TriggerConfiguration::FinLimitOrder { target_price, .. } => target_price,
            _ => Decimal { atomics: 0 },
        },
        None => Decimal { atomics: 0 },
    }
}

/// The venue order index stored in the limit-order trigger at slot `i`.
pub open spec fn spec_limit_idx(s: StateView, i: int) -> Option<u128> {
    match s.triggers[i] {
        Some(t) => match t.configuration {
            TriggerConfiguration::FinLimitOrder { order_idx, .. } => order_idx,
            _ => None,
        },
        None => None,
    }
}

/// The amounts persisted by the pending withdrawal saga at slot `i`: the
/// offer amount the fill consumed, and whether part of the order stays
/// resting.
pub open spec fn spec_saga_withdrawal(s: StateView, i: int) -> (u128, bool) {
    match s.sagas[i] {
        Some(SagaState::AwaitingWithdrawalConfirmation { consumed, partial }) => (
            consumed,
            partial,
        ),
        _ => (0, false),
    }
}

/// Why storing a confirmed order index fails: the vault must exist with a
/// pending order submission (a replay finds none), and the venue-assigned
/// index must be fresh.
pub open spec fn spec_order_submitted_error(
    s: StateView,
    vault_id: u64,
    order_idx: u128,
) -> Option<ContractError> {
    if !s.valid_vault_id(vault_id) {
        Some(ContractError::NotFound)
    } else if !(s.sagas[vault_id - 1] matches Some(SagaState::AwaitingOrderSubmission {})) {
        Some(ContractError::NotFound)
    } else if spec_find_order_from(s.limit_orders, order_idx, 0) is Some {
        Some(ContractError::InvalidInput)
    } else {
        None
    }
}

/// The state after the venue's order index is stored: the trigger carries
/// the index, the reverse index maps it to the vault, and the saga clears.
pub open spec fn spec_order_submitted_apply(s: StateView, i: int, order_idx: u128) -> StateView {
    let t = s.triggers[i]->Some_0;
    let t2 = match t.configuration {
        TriggerConfiguration::FinLimitOrder { target_price, offer_amount, .. } => Trigger {
            vault_id: t.vault_id,
            configuration: TriggerConfiguration::FinLimitOrder {
                target_price,
                order_idx: Some(order_idx),
                offer_amount,
            },
        },
        _ => t,
    };
    StateView {
        triggers: s.triggers.update(i, Some(t2)),
        sagas: s.sagas.update(i, None),
        limit_orders: s.limit_orders.push(
            LimitOrderRef { order_idx, vault_id: (i + 1) as u64 },
        ),
        ..s
    }
}

/// Why initiating against a resting order fails: the vault and its
/// limit-order trigger must exist, no venue request may be unconfirmed, the
/// order index must have been stored, the venue's report must stay within
/// the resting offer, and some of the offer must have been consumed.
pub open spec fn spec_execute_price_error(
    s: StateView,
    vault_id: u64,
    order: OrderStatus,
) -> Option<ContractError> {
    if !s.valid_vault_id(vault_id) {
        Some(ContractError::NotFound)
    } else if s.triggers[vault_id - 1] is None {
        Some(ContractError::NotFound)
    } else if !(match s.triggers[vault_id - 1] {
        Some(t) => t.configuration is FinLimitOrder,
        None => false,
    }) {
        Some(ContractError::InvalidInput)
    } else if s.sagas[vault_id - 1] is Some {
        Some(ContractError::PendingConfirmation)
    } else if spec_limit_idx(s, vault_id - 1) is None {
        Some(ContractError::NotEligible)
    } else if order.remaining_amount > spec_limit_offer(s, vault_id - 1) {
        Some(ContractError::InvalidInput)
    } else if order.remaining_amount == spec_limit_offer(s, vault_id - 1) {
        Some(ContractError::NotEligible)
    } else {
        None
    }
}

/// The state after a withdrawal of the filled part was requested: the vault
/// is `Active` and the saga persists how much of the offer the fill
/// consumed, and whether the order partially survives.
pub open spec fn spec_execute_price_apply(s: StateView, i: int, order: OrderStatus) -> StateView {
    let v = s.vaults[i];
    StateView {
        vaults: s.vaults.update(i, Vault { status: VaultStatus::Active, ..v }),
        sagas: s.sagas.update(
            i,
            Some(
                SagaState::AwaitingWithdrawalConfirmation {
                    consumed: (spec_limit_offer(s, i) - order.remaining_amount) as u128,
                    partial: order.remaining_amount > 0,
                },
            ),
        ),
        ..s
    }
}

/// Why settling a withdrawal confirmation fails: the order index must still
/// be mapped (settlement deletes it, so a replay fails with `NotFound`), a
/// withdrawal must be pending, and the totals must stay representable.
pub open spec fn spec_withdrawn_error(
    s: StateView,
    order_idx: u128,
    received: u128,
) -> Option<ContractError> {
    match spec_find_order_from(s.limit_orders, order_idx, 0) {
        None => Some(ContractError::NotFound),
        Some(e) => {
            let i = s.limit_orders[e].vault_id - 1;
            let v = s.vaults[i];
            if !(s.sagas[i] matches Some(SagaState::AwaitingWithdrawalConfirmation { .. })) {
                Some(ContractError::NotFound)
            } else if s.events[i].len() >= u64::MAX {
                Some(ContractError::Overflow)
            } else if s.executions[i].len() >= u64::MAX {
                Some(ContractError::Overflow)
            } else if v.received_amount + received > u128::MAX {
                Some(ContractError::Overflow)
            } else {
                match v.dca_plus_config {
                    Some(c) => if received as int * c.escrow_level.atomics as int > u128::MAX {
                        Some(ContractError::Overflow)
                    } else if c.escrowed_balance.amount + spec_mul_decimal(received, c.escrow_level)
                        > u128::MAX {
                        Some(ContractError::Overflow)
                    } else {
                        None
                    },
                    None => None,
                }
            }
        },
    }
}

/// The next order's offer after a full settlement: the configured tranche,
/// capped to what is left.
pub open spec fn spec_rearm_offer(v2: Vault) -> u128 {
    if v2.swap_amount <= v2.balance.amount {
        v2.swap_amount
    } else {
        v2.balance.amount
    }
}

/// The state after a withdrawal confirmation settles.  The vault is debited
/// by the consumed offer and credited with the proceeds (escrow accruing its
/// part), and the success execution and its event are recorded.  A partially
/// filled order stays resting with its offer reduced; a fully consumed order
/// leaves the reverse index, and the vault either completes (scheduling the
/// escrow task if DCA+) or re-arms a fresh order for the next tranche.
pub open spec fn spec_withdrawn_apply(
    s: StateView,
    i: int,
    e: int,
    received: u128,
    block: BlockInfo,
) -> StateView {
    let v = s.vaults[i];
    let saga = spec_saga_withdrawal(s, i);
    let consumed = saga.0;
    let partial = saga.1;
    let v2 = spec_settled_vault(v, consumed, received);
    let completed = v2.status is Completed;
    let sent_coin = Coin { denom: v.balance.denom, amount: consumed };
    let received_coin = Coin { denom: spec_receive_denom_string(v), amount: received };
    let exec_rec = Execution {
        vault_id: v.id,
        block_height: block.height,
        sequence_number: (s.executions[i].len() + 1) as u64,
        execution_result: ExecutionResult::Success,
        execution_information: Some(
            ExecutionInformation { sent: sent_coin, received: received_coin },
        ),
    };
    let ev = Event {
        id: (s.events[i].len() + 1) as u64,
        resource_id: v.id,
        timestamp: block.time,
        block_height: block.height,
        data: EventData::DcaVaultExecutionCompleted { sent: sent_coin, received: received_coin },
    };
    let trig2 = if partial {
        Some(
            Trigger {
                vault_id: v.id,
                configuration: TriggerConfiguration::FinLimitOrder {
                    target_price: spec_limit_price(s, i),
                    order_idx: spec_limit_idx(s, i),
                    offer_amount: (spec_limit_offer(s, i) - consumed) as u128,
                },
            },
        )
    } else if completed {
        None
    } else {
        Some(
            Trigger {
                vault_id: v.id,
                configuration: TriggerConfiguration::FinLimitOrder {
                    target_price: spec_limit_price(s, i),
                    order_idx: None,
                    offer_amount: spec_rearm_offer(v2),
                },
            },
        )
    };
    StateView {
        vaults: s.vaults.update(i, v2),
        triggers: s.triggers.update(i, trig2),
        sagas: s.sagas.update(
            i,
            if !partial && !completed {
                Some(SagaState::AwaitingOrderSubmission {})
            } else {
                None
            },
        ),
        events: s.events.update(i, s.events[i].push(ev)),
        executions: s.executions.update(i, s.executions[i].push(exec_rec)),
        limit_orders: if partial {
            s.limit_orders
        } else {
            s.limit_orders.remove(e)
        },
        escrow_tasks: if completed && v.dca_plus_config is Some {
            spec_upsert_task(
                s.escrow_tasks,
                v.id,
                crate::vault::spec_expected_completion(v2, block.time) as u64,
            )
        } else {
            s.escrow_tasks
        },
        ..s
    }
}

/// What settling a withdrawal hands the host: the owner's payout net of the
/// escrowed part, and — when the vault re-arms — the next order submission.
pub open spec fn spec_withdrawn_msgs(s: StateView, i: int, received: u128, block: BlockInfo) -> Seq<
    Msg,
> {
    let v = s.vaults[i];
    let saga = spec_saga_withdrawal(s, i);
    let v2 = spec_settled_vault(v, saga.0, received);
    let payout = received - crate::after_fin_swap::spec_escrowed_part(v, received);
    let payout_msgs: Seq<Msg> = if payout > 0 {
        seq![
            Msg::BankSend {
                to_address: v.owner,
                amount: Coin { denom: spec_receive_denom_string(v), amount: payout as u128 },
            }
        ]
    } else {
        Seq::<Msg>::empty()
    };
    if !saga.1 && !(v2.status is Completed) {
        payout_msgs.push(
            Msg::FinSubmitOrder {
                pair_address: v.pair.address,
                price: spec_limit_price(s, i),
                offer: Coin { denom: v.balance.denom, amount: spec_rearm_offer(v2) },
            },
        )
    } else {
        payout_msgs
    }
}

impl DcaState {
    /// Stores the venue-assigned order index of a submitted limit order in
    /// the vault's trigger and indexes it for reverse lookup during the
    /// later confirmation callbacks.
    pub fn after_fin_limit_order_submitted(&mut self, vault_id: u64, order_idx: u128) -> (r:
        Result<(), ContractError>)
        requires
            old(self)@.wf(),
        ensures
            final(self)@.wf(),
            ({
                let s = old(self)@;
                match spec_order_submitted_error(s, vault_id, order_idx) {
                    Some(e) => r == Err::<(), ContractError>(e) && final(self)@ == s,
                    None => r is Ok && final(self)@ == spec_order_submitted_apply(
                        s,
                        vault_id - 1,
                        order_idx,
                    ),
                }
            }),
    {
        let ghost s = self@;
        if !(vault_id >= 1 && vault_id <= self.vaults.len() as u64) {
            return Err(ContractError::NotFound);
        }
        let i = (vault_id - 1) as usize;
        proof {
            assert(s.wf_trigger(i as int));
            assert(s.wf_saga(i as int));
        }
        let pending = match self.sagas[i] {
            Some(SagaState::AwaitingOrderSubmission {}) => true,
            _ => false,
        };
        if !pending {
            return Err(ContractError::NotFound);
        }
        if self.find_order_index(order_idx).is_some() {
            return Err(ContractError::InvalidInput);
        }
        let trigger = self.triggers[i];
        let new_trigger = match trigger {
            Some(t) => match t.configuration {
                TriggerConfiguration::FinLimitOrder { target_price, offer_amount, .. } => Trigger {
                    vault_id: t.vault_id,
                    configuration: TriggerConfiguration::FinLimitOrder {
                        target_price,
                        order_idx: Some(order_idx),
                        offer_amount,
                    },
                },
                _ => {
                    proof {
                        assert(false);
                    }
                    t
                },
            },
            None => {
                proof {
                    assert(false);
                }
                Trigger {
                    vault_id,
                    configuration: TriggerConfiguration::Time { target_time: 0 },
                }
            },
        };
        self.triggers[i] = Some(new_trigger);
        self.sagas[i] = None;
        self.limit_orders.push(LimitOrderRef { order_idx, vault_id });
        proof {
            let s2 = self@;
            assert(s2 =~= spec_order_submitted_apply(s, i as int, order_idx));
            lemma_wf_frame(s, s2, i as int);
            assert(s2.wf_vault(i as int)) by {
                assert(s.wf_vault(i as int));
            }
            assert(s2.wf_trigger(i as int));
            assert(s2.wf_saga(i as int));
            assert(s2.wf_ledgers(i as int)) by {
                assert(s.wf_ledgers(i as int));
            }
            lemma_find_order_from_none(s.limit_orders, order_idx, 0);
            assert forall|k: int| 0 <= k < s2.limit_orders.len() implies #[trigger] s2.order_entry_matches(
                k,
            ) by {
                if k < s.limit_orders.len() {
                    assert(s.order_entry_matches(k));
                    let entry = s.limit_orders[k];
                    if entry.vault_id == vault_id {
                        assert(false);
                    }
                    assert(s2.triggers[entry.vault_id - 1] == s.triggers[entry.vault_id - 1]);
                } else {
                    assert(s2.limit_orders[k] == (LimitOrderRef { order_idx, vault_id }));
                }
            }
            assert forall|k1: int, k2: int|
                0 <= k1 < k2 < s2.limit_orders.len() implies (
            #[trigger] s2.limit_orders[k1]).order_idx != (#[trigger] s2.limit_orders[k2]).order_idx by {
                if k2 < s.limit_orders.len() {
                    assert(s.limit_orders[k1].order_idx != s.limit_orders[k2].order_idx);
                }
            }
            lemma_tasks_wf_untouched(s, s2, i as int);
        }
        Ok(())
    }

    /// Initiates settlement of a resting limit order, given the venue's
    /// report of its fill state.  If any of the offer has been consumed, a
    /// withdrawal of the filled part is requested; its confirmation is
    /// delivered later to
    /// [`DcaState::after_fin_limit_order_withdrawn_for_execute_trigger`].
    pub fn execute_price_trigger(&mut self, vault_id: u64, order: OrderStatus) -> (r: Result<
        ExecuteResponse,
        ContractError,
    >)
        requires
            old(self)@.wf(),
        ensures
            final(self)@.wf(),
            ({
                let s = old(self)@;
                match spec_execute_price_error(s, vault_id, order) {
                    Some(e) => r matches Err(e2) && e2 == e && final(self)@ == s,
                    None => r matches Ok(resp) && resp.outcome is WithdrawalRequested
                        && resp.messages@ == seq![
                        Msg::FinWithdrawOrder {
                            pair_address: s.vaults[vault_id - 1].pair.address,
                            order_idx: spec_limit_idx(s, vault_id - 1)->Some_0,
                        },
                    ] && final(self)@ == spec_execute_price_apply(s, vault_id - 1, order),
                }
            }),
    {
        let ghost s = self@;
        if !(vault_id >= 1 && vault_id <= self.vaults.len() as u64) {
            return Err(ContractError::NotFound);
        }
        let i = (vault_id - 1) as usize;
        proof {
            assert(s.wf_vault(i as int));
            assert(s.wf_trigger(i as int));
        }
        let (idx_opt, offer_amount) = match self.triggers[i] {
            Some(t) => match t.configuration {
                TriggerConfiguration::FinLimitOrder { order_idx, offer_amount, .. } => (
                    order_idx,
                    offer_amount,
                ),
                _ => {
                    return Err(ContractError::InvalidInput);
                },
            },
            None => {
                return Err(ContractError::NotFound);
            },
        };
        if self.sagas[i].is_some() {
            return Err(ContractError::PendingConfirmation);
        }
        let idx = match idx_opt {
            Some(idx) => idx,
            None => {
                return Err(ContractError::NotEligible);
            },
        };
        if order.remaining_amount > offer_amount {
            return Err(ContractError::InvalidInput);
        }
        if order.remaining_amount == offer_amount {
            return Err(ContractError::NotEligible);
        }
        let consumed = offer_amount - order.remaining_amount;
        let partial = order.remaining_amount > 0;
        let mut messages: Vec<Msg> = Vec::new();
        messages.push(
            Msg::FinWithdrawOrder {
                pair_address: self.vaults[i].pair.address.clone(),
                order_idx: idx,
            },
        );
        let vault_ref = &mut self.vaults[i];
        vault_ref.status = VaultStatus::Active;
        self.sagas[i] = Some(SagaState::AwaitingWithdrawalConfirmation { consumed, partial });
        proof {
            let s2 = self@;
            assert(s2 =~= spec_execute_price_apply(s, i as int, order));
            lemma_wf_frame(s, s2, i as int);
            assert(s2.wf_vault(i as int));
            assert(s2.wf_trigger(i as int));
            assert(s2.wf_saga(i as int));
            assert(s2.wf_ledgers(i as int)) by {
                assert(s.wf_ledgers(i as int));
            }
            assert forall|k: int| 0 <= k < s2.limit_orders.len() implies #[trigger] s2.order_entry_matches(
                k,
            ) by {
                assert(s.order_entry_matches(k));
                let entry = s.limit_orders[k];
                assert(s2.triggers[entry.vault_id - 1] == s.triggers[entry.vault_id - 1]);
            }
            assert forall|k1: int, k2: int|
                0 <= k1 < k2 < s2.limit_orders.len() implies (
            #[trigger] s2.limit_orders[k1]).order_idx != (#[trigger] s2.limit_orders[k2]).order_idx by {
                assert(s.limit_orders[k1].order_idx != s.limit_orders[k2].order_idx);
            }
            lemma_tasks_wf_untouched(s, s2, i as int);
            assert(messages@ =~= seq![
                Msg::FinWithdrawOrder {
                    pair_address: s.vaults[i as int].pair.address,
                    order_idx: idx,
                },
            ]);
        }
        Ok(ExecuteResponse { outcome: ExecuteOutcome::WithdrawalRequested, messages })
    }

    /// Settles the venue's confirmation of an order withdrawal, looked up
    /// through the reverse index.  The vault is debited by exactly the
    /// consumed offer and credited with the withdrawn proceeds; a partial
    /// fill leaves the reduced order resting, a full fill removes the index
    /// entry and either completes the vault or re-arms a fresh order.
    /// Replaying the confirmation after a full settlement finds no index
    /// entry, and after a partial one no pending saga, and fails with
    /// `NotFound` either way.
    pub fn after_fin_limit_order_withdrawn_for_execute_trigger(
        &mut self,
        order_idx: u128,
        received: u128,
        block: BlockInfo,
    ) -> (r: Result<Response, ContractError>)
        requires
            old(self)@.wf(),
        ensures
            final(self)@.wf(),
            ({
                let s = old(self)@;
                match spec_withdrawn_error(s, order_idx, received) {
                    Some(e) => r matches Err(e2) && e2 == e && final(self)@ == s,
                    None => {
                        let e = spec_find_order_from(s.limit_orders, order_idx, 0)->Some_0;
                        let i = s.limit_orders[e].vault_id - 1;
                        &&& r matches Ok(resp) && resp.messages@ == spec_withdrawn_msgs(
                            s,
                            i,
                            received,
                            block,
                        )
                        &&& final(self)@ == spec_withdrawn_apply(s, i, e, received, block)
                    },
                }
            }),
    {
        let ghost s = self@;
        let e = match self.find_order_index(order_idx) {
            Some(e) => e,
            None => {
                return Err(ContractError::NotFound);
            },
        };
        proof {
            assert(s.order_entry_matches(e as int));
        }
        let vault_id = self.limit_orders[e].vault_id;
        if !(vault_id >= 1 && vault_id <= self.vaults.len() as u64) {
            proof {
                assert(false);
            }
            return Err(ContractError::NotFound);
        }
        let i = (vault_id - 1) as usize;
        proof {
            assert(s.wf_vault(i as int));
            assert(s.wf_trigger(i as int));
            assert(s.wf_saga(i as int));
        }
        let (consumed, partial) = match self.sagas[i] {
            Some(SagaState::AwaitingWithdrawalConfirmation { consumed, partial }) => (
                consumed,
                partial,
            ),
            _ => {
                return Err(ContractError::NotFound);
            },
        };
        if self.events[i].len() as u64 >= u64::MAX {
            return Err(ContractError::Overflow);
        }
        if self.executions[i].len() as u64 >= u64::MAX {
            return Err(ContractError::Overflow);
        }
        match self.vaults[i].received_amount.checked_add(received) {
            Some(_) => {},
            None => {
                return Err(ContractError::Overflow);
            },
        }
        let escrow_level = match &self.vaults[i].dca_plus_config {
            Some(c) => Some(c.escrow_level),
            None => None,
        };
        let mut escrow_amt: u128 = 0;
        if let Some(level) = escrow_level {
            match mul_decimal(received, level) {
                Some(a) => {
                    escrow_amt = a;
                },
                None => {
                    return Err(ContractError::Overflow);
                },
            }
            let escrowed_now = match &self.vaults[i].dca_plus_config {
                Some(c) => c.escrowed_balance.amount,
                None => 0,
            };
            match escrowed_now.checked_add(escrow_amt) {
                Some(_) => {},
                None => {
                    return Err(ContractError::Overflow);
                },
            }
        }
        proof {
            lemma_mul_decimal_le(received, match s.vaults[i as int].dca_plus_config {
                Some(c) => c.escrow_level,
                None => Decimal { atomics: 0 },
            });
        }
        let (target_price, offer_amount) = match self.triggers[i] {
            Some(t) => match t.configuration {
                TriggerConfiguration::FinLimitOrder { target_price, offer_amount, .. } => (
                    target_price,
                    offer_amount,
                ),
                _ => {
                    proof {
                        assert(false);
                    }
                    (Decimal { atomics: 0 }, 0u128)
                },
            },
            None => {
                proof {
                    assert(false);
                }
                (Decimal { atomics: 0 }, 0u128)
            },
        };
        let receive_denom = match self.vaults[i].position_type {
            crate::vault::PositionType::Enter => self.vaults[i].pair.base_denom.clone(),
            crate::vault::PositionType::Exit => self.vaults[i].pair.quote_denom.clone(),
        };
        let owner = self.vaults[i].owner.clone();
        let sent_coin = Coin { denom: self.vaults[i].balance.denom.clone(), amount: consumed };
        let received_coin = Coin { denom: receive_denom.clone(), amount: received };
        let payout = received - escrow_amt;
        let mut messages: Vec<Msg> = Vec::new();
        if payout > 0 {
            messages.push(
                Msg::BankSend {
                    to_address: owner,
                    amount: Coin { denom: receive_denom, amount: payout },
                },
            );
        }
        let new_balance = self.vaults[i].balance.amount - consumed;
        let completed = new_balance == 0;
        let next_exec_seq = self.executions[i].len() as u64 + 1;
        let next_event_id = self.events[i].len() as u64 + 1;
        let vault_ref = &mut self.vaults[i];
        vault_ref.status = if completed {
            VaultStatus::Completed
        } else {
            VaultStatus::Active
        };
        vault_ref.balance.amount = new_balance;
        vault_ref.swapped_amount = vault_ref.swapped_amount + consumed;
        vault_ref.received_amount = vault_ref.received_amount + received;
        if let Some(cfg) = &mut vault_ref.dca_plus_config {
            cfg.escrowed_balance.amount = cfg.escrowed_balance.amount + escrow_amt;
        }
        self.executions[i].push(
            Execution {
                vault_id,
                block_height: block.height,
                sequence_number: next_exec_seq,
                execution_result: ExecutionResult::Success,
                execution_information: Some(
                    ExecutionInformation {
                        sent: sent_coin.clone(),
                        received: received_coin.clone(),
                    },
                ),
            },
        );
        self.events[i].push(
            Event {
                id: next_event_id,
                resource_id: vault_id,
                timestamp: block.time,
                block_height: block.height,
                data: EventData::DcaVaultExecutionCompleted {
                    sent: sent_coin,
                    received: received_coin,
                },
            },
        );
        if partial {
            self.triggers[i] = Some(
                Trigger {
                    vault_id,
                    configuration: TriggerConfiguration::FinLimitOrder {
                        target_price,
                        order_idx: Some(order_idx),
                        offer_amount: offer_amount - consumed,
                    },
                },
            );
            self.sagas[i] = None;
        } else {
            self.limit_orders.remove(e);
            if completed {
                self.triggers[i] = None;
                self.sagas[i] = None;
                let has_dca_plus = self.vaults[i].dca_plus_config.is_some();
                if has_dca_plus {
                    let due = self.vaults[i].get_expected_execution_completed_date(block.time);
                    self.upsert_disburse_escrow_task(vault_id, due);
                }
            } else {
                let rearm_offer = if self.vaults[i].swap_amount <= self.vaults[i].balance.amount {
                    self.vaults[i].swap_amount
                } else {
                    self.vaults[i].balance.amount
                };
                self.triggers[i] = Some(
                    Trigger {
                        vault_id,
                        configuration: TriggerConfiguration::FinLimitOrder {
                            target_price,
                            order_idx: None,
                            offer_amount: rearm_offer,
                        },
                    },
                );
                self.sagas[i] = Some(SagaState::AwaitingOrderSubmission {});
                messages.push(
                    Msg::FinSubmitOrder {
                        pair_address: self.vaults[i].pair.address.clone(),
                        price: target_price,
                        offer: Coin {
                            denom: self.vaults[i].balance.denom.clone(),
                            amount: rearm_offer,
                        },
                    },
                );
            }
        }
        proof {
            let s2 = self@;
            let goal = spec_withdrawn_apply(s, i as int, e as int, received, block);
            lemma_find_order_from_some(s.limit_orders, order_idx, 0);
            lemma_total_sent_push(s.executions[i as int], goal.executions[i as int].last());
            assert(s2.events =~= goal.events);
            assert(s2.executions =~= goal.executions);
            assert(s2 =~= goal);
            lemma_wf_frame(s, s2, i as int);
            assert(s2.wf_vault(i as int));
            assert(s2.wf_trigger(i as int));
            assert(s2.wf_saga(i as int));
            assert(s2.wf_ledgers(i as int)) by {
                assert(s.wf_ledgers(i as int));
            }
            lemma_withdrawn_orders_wf(s, s2, i as int, e as int, partial);
            if completed && s.vaults[i as int].dca_plus_config is Some {
                lemma_tasks_wf_after_terminal(
                    s,
                    s2,
                    i as int,
                    crate::vault::spec_expected_completion(s2.vaults[i as int], block.time) as u64,
                );
            } else {
                lemma_tasks_wf_untouched(s, s2, i as int);
            }
            assert(messages@ =~= spec_withdrawn_msgs(s, i as int, received, block));
        }
        Ok(Response { messages })
    }
}

/// The reverse index is well-formed again after a withdrawal settles: a
/// partial settlement keeps the entry and the order index it matches, and a
/// full one removes the entry while the trigger stops carrying the index.
proof fn lemma_withdrawn_orders_wf(s: StateView, s2: StateView, i: int, e: int, partial: bool)
    requires
        s.wf(),
        0 <= i < s.vaults.len(),
        0 <= e < s.limit_orders.len(),
        s.limit_orders[e].vault_id == i + 1,
        s2.vaults.len() == s.vaults.len(),
        forall|j: int|
            0 <= j < s.vaults.len() && j != i ==> (#[trigger] s2.triggers[j]) == s.triggers[j],
        if partial {
            s2.limit_orders == s.limit_orders && (s2.triggers[i] matches Some(t)
                && t.configuration matches TriggerConfiguration::FinLimitOrder {
                order_idx: Some(idx),
                ..
            } && idx == s.limit_orders[e].order_idx)
        } else {
            s2.limit_orders == s.limit_orders.remove(e) && (match s2.triggers[i] {
                Some(t) => t.configuration matches TriggerConfiguration::FinLimitOrder {
                    order_idx: None,
                    ..
                },
                None => true,
            })
        },
    ensures
        s2.wf_orders(),
{
    if partial {
        assert forall|k: int| 0 <= k < s2.limit_orders.len() implies #[trigger] s2.order_entry_matches(
            k,
        ) by {
            assert(s.order_entry_matches(k));
            let entry = s.limit_orders[k];
            if entry.vault_id == i + 1 {
                if k != e {
                    if k < e {
                        assert(s.limit_orders[k].order_idx != s.limit_orders[e].order_idx);
                    } else {
                        assert(s.limit_orders[e].order_idx != s.limit_orders[k].order_idx);
                    }
                    assert(s.order_entry_matches(e));
                    assert(false);
                }
            } else {
                assert(s2.triggers[entry.vault_id - 1] == s.triggers[entry.vault_id - 1]);
            }
        }
        assert forall|k1: int, k2: int|
            0 <= k1 < k2 < s2.limit_orders.len() implies (
        #[trigger] s2.limit_orders[k1]).order_idx != (#[trigger] s2.limit_orders[k2]).order_idx by {
            assert(s.limit_orders[k1].order_idx != s.limit_orders[k2].order_idx);
        }
    } else {
        s.limit_orders.remove_ensures(e);
        assert forall|k: int| 0 <= k < s2.limit_orders.len() implies #[trigger] s2.order_entry_matches(
            k,
        ) by {
            let o = if k < e {
                k
            } else {
                k + 1
            };
            assert(s2.limit_orders[k] == s.limit_orders[o]);
            assert(s.order_entry_matches(o));
            let entry = s.limit_orders[o];
            if entry.vault_id == i + 1 {
                if o < e {
                    assert(s.limit_orders[o].order_idx != s.limit_orders[e].order_idx);
                } else {
                    assert(s.limit_orders[e].order_idx != s.limit_orders[o].order_idx);
                }
                assert(s.order_entry_matches(e));
                assert(false);
            }
            assert(s2.triggers[entry.vault_id - 1] == s.triggers[entry.vault_id - 1]);
        }
        assert forall|k1: int, k2: int|
            0 <= k1 < k2 < s2.limit_orders.len() implies (
        #[trigger] s2.limit_orders[k1]).order_idx != (#[trigger] s2.limit_orders[k2]).order_idx by {
            let o1 = if k1 < e {
                k1
            } else {
                k1 + 1
            };
            let o2 = if k2 < e {
                k2
            } else {
                k2 + 1
            };
            assert(s2.limit_orders[k1] == s.limit_orders[o1]);
            assert(s2.limit_orders[k2] == s.limit_orders[o2]);
            assert(s.limit_orders[o1].order_idx != s.limit_orders[o2].order_idx);
        }
    }
}

} // verus!

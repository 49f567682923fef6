use vstd::prelude::*;
use crate::decimal::{lemma_mul_decimal_le, mul_decimal, spec_mul_decimal};
use crate::error::ContractError;
use crate::escrow::{lemma_tasks_wf_after_terminal, spec_upsert_task};
use crate::event::{BlockInfo, Event, EventData, ExecutionSkippedReason};
use crate::execution::{
    Execution, ExecutionInformation, ExecutionResult, lemma_total_sent_push,
};
use crate::execute_trigger::{spec_saga_tranche, spec_time_target};
use crate::response::{Msg, Response, SwapResult};
use crate::state::{
    DcaState, SagaState, StateView, lemma_orders_wf_time_update, lemma_tasks_wf_untouched,
    lemma_wf_frame,
};
use crate::trigger::{Trigger, TriggerConfiguration, next_target_time, spec_next_target_time};
use crate::vault::{
    Coin, DcaPlusConfig, PositionType, Vault, VaultStatus, spec_expected_completion,
    spec_interval_seconds,
};

verus! {

/// Why settling a swap confirmation fails: the vault must exist and have a
/// pending swap saga (a replayed confirmation finds none and fails with
/// `NotFound`, making settlement exactly-once), the ledgers must have room,
/// the advanced trigger time must be representable, and — for a success —
/// the running totals must stay representable.  A failed settlement leaves
/// the pending saga in place, so the confirmation can be resubmitted.
pub open spec fn spec_after_swap_error(
    s: StateView,
    vault_id: u64,
    result: SwapResult,
    block: BlockInfo,
) -> Option<ContractError> {
    if !s.valid_vault_id(vault_id) {
        Some(ContractError::NotFound)
    } else if !(s.sagas[vault_id - 1] matches Some(SagaState::AwaitingSwapConfirmation { .. })) {
        Some(ContractError::NotFound)
    } else if s.events[vault_id - 1].len() >= u64::MAX {
        Some(ContractError::Overflow)
    } else if s.executions[vault_id - 1].len() >= u64::MAX {
        Some(ContractError::Overflow)
    } else if spec_next_target_time(
        spec_time_target(s, vault_id - 1),
        spec_interval_seconds(s.vaults[vault_id - 1].time_interval),
        block.time,
    ) > u64::MAX {
        Some(ContractError::Overflow)
    } else {
        match result {
            SwapResult::SlippageExceeded => None,
            SwapResult::Succeeded { received } => {
                let v = s.vaults[vault_id - 1];
                if v.received_amount + received > u128::MAX {
                    Some(ContractError::Overflow)
                } else {
                    match v.dca_plus_config {
                        Some(c) => if received as int * c.escrow_level.atomics as int > u128::MAX {
                            Some(ContractError::Overflow)
                        } else if c.escrowed_balance.amount + spec_mul_decimal(
                            received,
                            c.escrow_level,
                        ) > u128::MAX {
                            Some(ContractError::Overflow)
                        } else {
                            None
                        },
                        None => None,
                    }
                }
            },
        }
    }
}

/// The trigger after its schedule advances at `block`.
pub open spec fn spec_advanced_trigger(s: StateView, i: int, block: BlockInfo) -> Trigger {
    Trigger {
        vault_id: s.vaults[i].id,
        configuration: TriggerConfiguration::Time {
            target_time: spec_next_target_time(
                spec_time_target(s, i),
                spec_interval_seconds(s.vaults[i].time_interval),
                block.time,
            ) as u64,
        },
    }
}

/// The state after a slippage rejection settles: one skipped execution and
/// its event are recorded, the trigger advances (a skipped tranche consumes
/// its slot), and the saga clears; balance and totals stay untouched.
pub open spec fn spec_swap_skip_apply(s: StateView, i: int, block: BlockInfo) -> StateView {
    let v = s.vaults[i];
    let exec_rec = Execution {
        vault_id: v.id,
        block_height: block.height,
        sequence_number: (s.executions[i].len() + 1) as u64,
        execution_result: ExecutionResult::SlippageToleranceExceeded,
        execution_information: None,
    };
    let ev = Event {
        id: (s.events[i].len() + 1) as u64,
        resource_id: v.id,
        timestamp: block.time,
        block_height: block.height,
        data: EventData::DcaVaultExecutionSkipped {
            reason: ExecutionSkippedReason::SlippageToleranceExceeded,
        },
    };
    StateView {
        triggers: s.triggers.update(i, Some(spec_advanced_trigger(s, i, block))),
        sagas: s.sagas.update(i, None),
        events: s.events.update(i, s.events[i].push(ev)),
        executions: s.executions.update(i, s.executions[i].push(exec_rec)),
        ..s
    }
}

/// The escrowed part of a tranche's proceeds: the configured fraction of the
/// received amount, zero without a DCA+ overlay.
pub open spec fn spec_escrowed_part(v: Vault, received: u128) -> int {
    match v.dca_plus_config {
        Some(c) => spec_mul_decimal(received, c.escrow_level),
        None => 0,
    }
}

/// The receive-denomination string of a vault.
pub open spec fn spec_receive_denom_string(v: Vault) -> String {
    match v.position_type {
        PositionType::Enter => v.pair.base_denom,
        PositionType::Exit => v.pair.quote_denom,
    }
}

/// The vault after a successful tranche settles: the balance is debited by
/// exactly the tranche sent, the cumulative totals grow, the escrow accrues
/// its part of the proceeds, and the vault completes when the balance
/// reaches zero.
pub open spec fn spec_settled_vault(v: Vault, tranche: u128, received: u128) -> Vault {
    let new_balance = (v.balance.amount - tranche) as u128;
    Vault {
        status: if new_balance == 0 {
            VaultStatus::Completed
        } else {
            VaultStatus::Active
        },
        balance: Coin { denom: v.balance.denom, amount: new_balance },
        swapped_amount: (v.swapped_amount + tranche) as u128,
        received_amount: (v.received_amount + received) as u128,
        dca_plus_config: match v.dca_plus_config {
            Some(c) => Some(
                DcaPlusConfig {
                    escrow_level: c.escrow_level,
                    escrowed_balance: Coin {
                        denom: c.escrowed_balance.denom,
                        amount: (c.escrowed_balance.amount + spec_mul_decimal(
                            received,
                            c.escrow_level,
                        )) as u128,
                    },
                },
            ),
            None => None,
        },
        ..v
    }
}

/// The state after a successful swap confirmation settles: the vault is
/// debited and credited, a success execution with the next contiguous
/// sequence number and its event are recorded, the trigger advances (or is
/// deleted when the vault completes), the saga clears, and a completed DCA+
/// vault schedules its escrow-disbursement task.
pub open spec fn spec_swap_success_apply(
    s: StateView,
    i: int,
    received: u128,
    block: BlockInfo,
) -> StateView {
    let v = s.vaults[i];
    let tranche = spec_saga_tranche(s, i);
    let v2 = spec_settled_vault(v, tranche, received);
    let completed = v2.status is Completed;
    let sent_coin = Coin { denom: v.balance.denom, amount: tranche };
    let received_coin = Coin { denom: spec_receive_denom_string(v), amount: received };
    let exec_rec = Execution {
        vault_id: v.id,
        block_height: block.height,
        sequence_number: (s.executions[i].len() + 1) as u64,
        execution_result: ExecutionResult::Success,
        execution_information: Some(
            ExecutionInformation { sent: sent_coin, received: received_coin },
        ),
    };
    let ev = Event {
        id: (s.events[i].len() + 1) as u64,
        resource_id: v.id,
        timestamp: block.time,
        block_height: block.height,
        data: EventData::DcaVaultExecutionCompleted { sent: sent_coin, received: received_coin },
    };
    StateView {
        vaults: s.vaults.update(i, v2),
        triggers: s.triggers.update(
            i,
            if completed {
                None
            } else {
                Some(spec_advanced_trigger(s, i, block))
            },
        ),
        sagas: s.sagas.update(i, None),
        events: s.events.update(i, s.events[i].push(ev)),
        executions: s.executions.update(i, s.executions[i].push(exec_rec)),
        escrow_tasks: if completed && v.dca_plus_config is Some {
            spec_upsert_task(
                s.escrow_tasks,
                v.id,
                spec_expected_completion(spec_settled_vault(v, tranche, received), block.time) as u64,
            )
        } else {
            s.escrow_tasks
        },
        ..s
    }
}

/// What a successful settlement pays the owner: the proceeds net of the
/// escrowed part, when that is anything at all.
pub open spec fn spec_swap_success_msgs(s: StateView, i: int, received: u128) -> Seq<Msg> {
    let v = s.vaults[i];
    let payout = received - spec_escrowed_part(v, received);
    if payout > 0 {
        seq![
            Msg::BankSend {
                to_address: v.owner,
                amount: Coin { denom: spec_receive_denom_string(v), amount: payout as u128 },
            }
        ]
    } else {
        Seq::<Msg>::empty()
    }
}

impl DcaState {
    /// Settles the venue's answer to a previously issued swap request.  A
    /// slippage rejection records a skipped execution and advances the
    /// schedule without touching the balance; a success debits exactly the
    /// pending tranche, credits the proceeds (escrowing the configured part
    /// for DCA+ vaults), records the execution, advances or — on
    /// completion — deletes the trigger, and pays the owner.  Replaying a
    /// confirmation after settlement fails with `NotFound` and changes
    /// nothing.
    pub fn after_fin_swap(&mut self, vault_id: u64, result: SwapResult, block: BlockInfo) -> (r:
        Result<Response, ContractError>)
        requires
            old(self)@.wf(),
        ensures
            final(self)@.wf(),
            ({
                let s = old(self)@;
                match spec_after_swap_error(s, vault_id, result, block) {
                    Some(e) => r matches Err(e2) && e2 == e && final(self)@ == s,
                    None => match result {
                        SwapResult::SlippageExceeded => r matches Ok(resp) && resp.messages@
                            == Seq::<Msg>::empty() && final(self)@ == spec_swap_skip_apply(
                            s,
                            vault_id - 1,
                            block,
                        ),
                        SwapResult::Succeeded { received } => r matches Ok(resp) && resp.messages@
                            == spec_swap_success_msgs(s, vault_id - 1, received) && final(self)@
                            == spec_swap_success_apply(s, vault_id - 1, received, block),
                    },
                }
            }),
    {
        let ghost s = self@;
        if !(vault_id >= 1 && vault_id <= self.vaults.len() as u64) {
            return Err(ContractError::NotFound);
        }
        let i = (vault_id - 1) as usize;
        proof {
            assert(s.wf_vault(i as int));
            assert(s.wf_trigger(i as int));
            assert(s.wf_saga(i as int));
        }
        let tranche = match self.sagas[i] {
            Some(SagaState::AwaitingSwapConfirmation { tranche }) => tranche,
            _ => {
                return Err(ContractError::NotFound);
            },
        };
        if self.events[i].len() as u64 >= u64::MAX {
            return Err(ContractError::Overflow);
        }
        if self.executions[i].len() as u64 >= u64::MAX {
            return Err(ContractError::Overflow);
        }
        let target = match self.triggers[i] {
            Some(t) => match t.configuration {
                TriggerConfiguration::Time { target_time } => target_time,
                _ => {
                    proof {
                        assert(false);
                    }
                    0u64
                },
            },
            None => {
                proof {
                    assert(false);
                }
                0u64
            },
        };
        let next = match next_target_time(
            target,
            self.vaults[i].time_interval.seconds(),
            block.time,
        ) {
            Some(n) => n,
            None => {
                return Err(ContractError::Overflow);
            },
        };
        let next_exec_seq = self.executions[i].len() as u64 + 1;
        let next_event_id = self.events[i].len() as u64 + 1;
        match result {
            SwapResult::SlippageExceeded => {
                self.executions[i].push(
                    Execution {
                        vault_id,
                        block_height: block.height,
                        sequence_number: next_exec_seq,
                        execution_result: ExecutionResult::SlippageToleranceExceeded,
                        execution_information: None,
                    },
                );
                self.events[i].push(
                    Event {
                        id: next_event_id,
                        resource_id: vault_id,
                        timestamp: block.time,
                        block_height: block.height,
                        data: EventData::DcaVaultExecutionSkipped {
                            reason: ExecutionSkippedReason::SlippageToleranceExceeded,
                        },
                    },
                );
                self.triggers[i] = Some(
                    Trigger {
                        vault_id,
                        configuration: TriggerConfiguration::Time { target_time: next },
                    },
                );
                self.sagas[i] = None;
                proof {
                    let s2 = self@;
                    lemma_total_sent_push(
                        s.executions[i as int],
                        spec_swap_skip_apply(s, i as int, block).executions[i as int].last(),
                    );
                    assert(s2.events =~= spec_swap_skip_apply(s, i as int, block).events);
                    assert(s2.executions =~= spec_swap_skip_apply(s, i as int, block).executions);
                    assert(s2 =~= spec_swap_skip_apply(s, i as int, block));
                    lemma_wf_frame(s, s2, i as int);
                    assert(s2.wf_vault(i as int));
                    assert(s2.wf_trigger(i as int));
                    assert(s2.wf_saga(i as int));
                    assert(s2.wf_ledgers(i as int)) by {
                        assert(s.wf_ledgers(i as int));
                    }
                    lemma_orders_wf_time_update(s, s2, i as int);
                    lemma_tasks_wf_untouched(s, s2, i as int);
                }
                Ok(Response { messages: Vec::new() })
            },
            SwapResult::Succeeded { received } => {
                match self.vaults[i].received_amount.checked_add(received) {
                    Some(_) => {},
                    None => {
                        return Err(ContractError::Overflow);
                    },
                }
                let escrow_level = match &self.vaults[i].dca_plus_config {
                    Some(c) => Some(c.escrow_level),
                    None => None,
                };
                let mut escrow_amt: u128 = 0;
                if let Some(level) = escrow_level {
                    match mul_decimal(received, level) {
                        Some(a) => {
                            escrow_amt = a;
                        },
                        None => {
                            return Err(ContractError::Overflow);
                        },
                    }
                    let escrowed_now = match &self.vaults[i].dca_plus_config {
                        Some(c) => c.escrowed_balance.amount,
                        None => 0,
                    };
                    match escrowed_now.checked_add(escrow_amt) {
                        Some(_) => {},
                        None => {
                            return Err(ContractError::Overflow);
                        },
                    }
                }
                proof {
                    lemma_mul_decimal_le(received, match s.vaults[i as int].dca_plus_config {
                        Some(c) => c.escrow_level,
                        None => crate::decimal::Decimal { atomics: 0 },
                    });
                }
                let receive_denom = match self.vaults[i].position_type {
                    PositionType::Enter => self.vaults[i].pair.base_denom.clone(),
                    PositionType::Exit => self.vaults[i].pair.quote_denom.clone(),
                };
                let owner = self.vaults[i].owner.clone();
                let sent_coin = Coin { denom: self.vaults[i].balance.denom.clone(), amount: tranche };
                let received_coin = Coin { denom: receive_denom.clone(), amount: received };
                let payout = received - escrow_amt;
                let mut messages: Vec<Msg> = Vec::new();
                if payout > 0 {
                    messages.push(
                        Msg::BankSend {
                            to_address: owner,
                            amount: Coin { denom: receive_denom, amount: payout },
                        },
                    );
                }
                let new_balance = self.vaults[i].balance.amount - tranche;
                let completed = new_balance == 0;
                let vault_ref = &mut self.vaults[i];
                vault_ref.status = if completed {
                    VaultStatus::Completed
                } else {
                    VaultStatus::Active
                };
                vault_ref.balance.amount = new_balance;
                vault_ref.swapped_amount = vault_ref.swapped_amount + tranche;
                vault_ref.received_amount = vault_ref.received_amount + received;
                if let Some(cfg) = &mut vault_ref.dca_plus_config {
                    cfg.escrowed_balance.amount = cfg.escrowed_balance.amount + escrow_amt;
                }
                self.executions[i].push(
                    Execution {
                        vault_id,
                        block_height: block.height,
                        sequence_number: next_exec_seq,
                        execution_result: ExecutionResult::Success,
                        execution_information: Some(
                            ExecutionInformation {
                                sent: sent_coin.clone(),
                                received: received_coin.clone(),
                            },
                        ),
                    },
                );
                self.events[i].push(
                    Event {
                        id: next_event_id,
                        resource_id: vault_id,
                        timestamp: block.time,
                        block_height: block.height,
                        data: EventData::DcaVaultExecutionCompleted {
                            sent: sent_coin,
                            received: received_coin,
                        },
                    },
                );
                if completed {
                    self.triggers[i] = None;
                } else {
                    self.triggers[i] = Some(
                        Trigger {
                            vault_id,
                            configuration: TriggerConfiguration::Time { target_time: next },
                        },
                    );
                }
                self.sagas[i] = None;
                let has_dca_plus = self.vaults[i].dca_plus_config.is_some();
                if completed && has_dca_plus {
                    let due = self.vaults[i].get_expected_execution_completed_date(block.time);
                    self.upsert_disburse_escrow_task(vault_id, due);
                }
                proof {
                    let s2 = self@;
                    let goal = spec_swap_success_apply(s, i as int, received, block);
                    lemma_total_sent_push(
                        s.executions[i as int],
                        goal.executions[i as int].last(),
                    );
                    assert(s2.events =~= goal.events);
                    assert(s2.executions =~= goal.executions);
                    assert(s2 =~= goal);
                    lemma_wf_frame(s, s2, i as int);
                    assert(s2.wf_vault(i as int));
                    assert(s2.wf_trigger(i as int));
                    assert(s2.wf_saga(i as int));
                    assert(s2.wf_ledgers(i as int)) by {
                        assert(s.wf_ledgers(i as int));
                    }
                    lemma_orders_wf_time_update(s, s2, i as int);
                    if completed && s.vaults[i as int].dca_plus_config is Some {
                        lemma_tasks_wf_after_terminal(
                            s,
                            s2,
                            i as int,
                            spec_expected_completion(s2.vaults[i as int], block.time) as u64,
                        );
                    } else {
                        lemma_tasks_wf_untouched(s, s2, i as int);
                    }
                    assert(messages@ =~= spec_swap_success_msgs(s, i as int, received));
                }
                Ok(Response { messages })
            },
        }
    }
}

} // verus!

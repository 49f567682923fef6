use vstd::prelude::*;
use crate::decimal::{DECIMAL_SCALE, Decimal, div_decimal, spec_div_decimal};
use crate::error::ContractError;
use crate::event::{BlockInfo, Event, EventData};
use crate::response::{Msg, Response};
use crate::state::{
    DcaState, EscrowTask, StateView, SwapAdjustment, lemma_find_task_from_none,
    lemma_find_task_from_some, lemma_wf_frame, lemma_wf_unrelated, spec_find_adjustment_from,
    spec_find_task_from,
};
use crate::vault::{
    Coin, DcaPlusConfig, PositionType, Vault, spec_is_terminal, spec_receive_denom,
};

verus! {

/// The task list after scheduling a disbursement for `vault_id` at `due`: an
/// idempotent upsert keyed by the vault identifier.
pub open spec fn spec_upsert_task(tasks: Seq<EscrowTask>, vault_id: u64, due: u64) -> Seq<
    EscrowTask,
> {
    match spec_find_task_from(tasks, vault_id, 0) {
        Some(k) => tasks.update(k, EscrowTask { vault_id, due }),
        None => tasks.push(EscrowTask { vault_id, due }),
    }
}

/// The adjustment table after storing `value` for a pool and direction: an
/// upsert keyed by the pair.
pub open spec fn spec_upsert_adjustment(
    adjustments: Seq<SwapAdjustment>,
    pool_id: u64,
    position_type: PositionType,
    value: Decimal,
) -> Seq<SwapAdjustment> {
    let entry = SwapAdjustment { pool_id, position_type, value };
    match spec_find_adjustment_from(adjustments, pool_id, position_type, 0) {
        Some(k) => adjustments.update(k, entry),
        None => adjustments.push(entry),
    }
}

/// Why updating a swap adjustment fails: only the administrator may, and a
/// coefficient of zero would make the benchmark division meaningless.
pub open spec fn spec_update_adjustment_error(
    s: StateView,
    sender: Seq<char>,
    value: Decimal,
) -> Option<ContractError> {
    if sender != s.admin {
        Some(ContractError::Unauthorized)
    } else if value.atomics == 0 {
        Some(ContractError::InvalidInput)
    } else {
        None
    }
}

/// An unsuccessful adjustment search means no entry carries the key.
pub proof fn lemma_find_adjustment_from_none(
    adjustments: Seq<SwapAdjustment>,
    pool_id: u64,
    position_type: PositionType,
    j: int,
)
    requires
        j >= 0,
        spec_find_adjustment_from(adjustments, pool_id, position_type, j) is None,
    ensures
        forall|k: int|
            j <= k < adjustments.len() ==> !((#[trigger] adjustments[k]).pool_id == pool_id
                && adjustments[k].position_type == position_type),
    decreases adjustments.len() - j,
{
    if j < adjustments.len() {
        lemma_find_adjustment_from_none(adjustments, pool_id, position_type, j + 1);
    }
}

/// Why rescheduling a disbursement fails: only the administrator may, the
/// vault must exist, and only a terminal DCA+ vault is tracked for escrow.
pub open spec fn spec_save_task_error(
    s: StateView,
    sender: Seq<char>,
    vault_id: u64,
) -> Option<ContractError> {
    if sender != s.admin {
        Some(ContractError::Unauthorized)
    } else if !s.valid_vault_id(vault_id) {
        Some(ContractError::NotFound)
    } else if !(spec_is_terminal(s.vaults[vault_id - 1].status) && s.vaults[vault_id
        - 1].dca_plus_config is Some) {
        Some(ContractError::NotEligible)
    } else {
        None
    }
}

/// The swap-adjustment coefficient for a pool and position direction; one
/// when none has been stored.
pub open spec fn spec_swap_adjustment(s: StateView, pool_id: u64, position_type: PositionType) -> Decimal {
    match spec_find_adjustment_from(s.swap_adjustments, pool_id, position_type, 0) {
        Some(k) => s.swap_adjustments[k].value,
        None => Decimal { atomics: DECIMAL_SCALE },
    }
}

/// Why claiming escrowed funds fails: the vault must exist and carry a DCA+
/// overlay, its disbursement task must exist (the vault is terminal and
/// tracked) and be due, and the computations must stay representable.
pub open spec fn spec_claim_error(s: StateView, vault_id: u64, block: BlockInfo) -> Option<
    ContractError,
> {
    if !s.valid_vault_id(vault_id) {
        Some(ContractError::NotFound)
    } else if s.vaults[vault_id - 1].dca_plus_config is None {
        Some(ContractError::NotEligible)
    } else if spec_find_task_from(s.escrow_tasks, vault_id, 0) is None {
        Some(ContractError::NotEligible)
    } else if s.escrow_tasks[spec_find_task_from(s.escrow_tasks, vault_id, 0)->Some_0].due
        > block.time {
        Some(ContractError::NotEligible)
    } else if s.events[vault_id - 1].len() >= u64::MAX {
        Some(ContractError::Overflow)
    } else if s.vaults[vault_id - 1].received_amount as int * DECIMAL_SCALE as int > u128::MAX {
        Some(ContractError::Overflow)
    } else {
        None
    }
}

/// What a claim releases: the benchmark value of the vault's proceeds is its
/// cumulative receipts divided by the pair's swap-adjustment coefficient;
/// the escrow covers the shortfall of the actual receipts against that
/// benchmark, up to the escrowed balance, and the rest is remitted to the
/// protocol fee recipient.
pub open spec fn spec_claim_amounts(s: StateView, i: int) -> (int, int) {
    let v = s.vaults[i];
    let c = v.dca_plus_config->Some_0;
    let coeff = spec_swap_adjustment(s, v.pair.pool_id, v.position_type);
    let benchmark = spec_div_decimal(v.received_amount, coeff);
    let escrow = c.escrowed_balance.amount as int;
    let shortfall: int = if benchmark > v.received_amount {
        benchmark - v.received_amount
    } else {
        0
    };
    let released: int = if escrow <= shortfall {
        escrow
    } else {
        shortfall
    };
    (released, escrow - released)
}

/// The state a successful claim leaves: the escrowed balance is zeroed, the
/// disbursement task is gone, and the disbursement event is appended.
pub open spec fn spec_claim_apply(s: StateView, i: int, block: BlockInfo) -> StateView {
    let v = s.vaults[i];
    let c = v.dca_plus_config->Some_0;
    let amounts = spec_claim_amounts(s, i);
    let v2 = Vault {
        dca_plus_config: Some(
            DcaPlusConfig {
                escrow_level: c.escrow_level,
                escrowed_balance: Coin { denom: c.escrowed_balance.denom, amount: 0 },
            },
        ),
        ..v
    };
    let ev = Event {
        id: (s.events[i].len() + 1) as u64,
        resource_id: v.id,
        timestamp: block.time,
        block_height: block.height,
        data: EventData::DcaVaultEscrowDisbursed {
            amount_disbursed: Coin { denom: c.escrowed_balance.denom, amount: amounts.0 as u128 },
            amount_remitted: Coin { denom: c.escrowed_balance.denom, amount: amounts.1 as u128 },
        },
    };
    StateView {
        vaults: s.vaults.update(i, v2),
        events: s.events.update(i, s.events[i].push(ev)),
        escrow_tasks: s.escrow_tasks.remove(
            spec_find_task_from(s.escrow_tasks, v.id, 0)->Some_0,
        ),
        ..s
    }
}

/// The escrow tasks are well-formed again after a previously non-terminal
/// DCA+ vault turns terminal and its disbursement task is scheduled.
pub(crate) proof fn lemma_tasks_wf_after_terminal(s: StateView, s2: StateView, i: int, due: u64)
    requires
        s.wf(),
        0 <= i < s.vaults.len(),
        !spec_is_terminal(s.vaults[i].status),
        s2.vaults.len() == s.vaults.len(),
        forall|j: int|
            0 <= j < s.vaults.len() && j != i ==> (#[trigger] s2.vaults[j]) == s.vaults[j],
        spec_is_terminal(s2.vaults[i].status),
        s2.vaults[i].dca_plus_config is Some,
        s.vaults[i].id == i + 1,
        s2.escrow_tasks == spec_upsert_task(s.escrow_tasks, (i + 1) as u64, due),
    ensures
        s2.wf_tasks(),
{
    lemma_find_task_from_some(s.escrow_tasks, (i + 1) as u64, 0);
    match spec_find_task_from(s.escrow_tasks, (i + 1) as u64, 0) {
        Some(k) => {
            assert(spec_is_terminal(s.vaults[s.escrow_tasks[k].vault_id - 1].status));
            assert(false);
        },
        None => {},
    }
    assert forall|k: int|
        0 <= k < s2.escrow_tasks.len() implies s2.valid_vault_id(
        (#[trigger] s2.escrow_tasks[k]).vault_id,
    ) && spec_is_terminal(s2.vaults[s2.escrow_tasks[k].vault_id - 1].status)
        && s2.vaults[s2.escrow_tasks[k].vault_id - 1].dca_plus_config is Some by {
        if k < s.escrow_tasks.len() {
            assert(s.escrow_tasks[k] == s2.escrow_tasks[k]);
            let t = s.escrow_tasks[k];
            if t.vault_id == i + 1 {
                assert(spec_is_terminal(s.vaults[i].status));
                assert(false);
            }
            assert(s2.vaults[t.vault_id - 1] == s.vaults[t.vault_id - 1]);
        }
    }
    assert forall|k1: int, k2: int|
        0 <= k1 < k2 < s2.escrow_tasks.len() implies (
    #[trigger] s2.escrow_tasks[k1]).vault_id != (#[trigger] s2.escrow_tasks[k2]).vault_id by {
        if k2 < s.escrow_tasks.len() {
            assert(s.escrow_tasks[k1].vault_id != s.escrow_tasks[k2].vault_id);
        } else {
            let t1 = s.escrow_tasks[k1];
            if t1.vault_id == i + 1 {
                assert(spec_is_terminal(s.vaults[i].status));
                assert(false);
            }
        }
    }
}

impl DcaState {
    /// Schedules (or reschedules) the escrow-disbursement task of a vault.
    pub(crate) fn upsert_disburse_escrow_task(&mut self, vault_id: u64, due: u64)
        ensures
            final(self)@ == (StateView {
                escrow_tasks: spec_upsert_task(old(self)@.escrow_tasks, vault_id, due),
                ..old(self)@
            }),
    {
        let task = EscrowTask { vault_id, due };
        match self.find_task_index(vault_id) {
            Some(k) => {
                self.escrow_tasks[k] = task;
            },
            None => {
                self.escrow_tasks.push(task);
            },
        }
        proof {
            assert(self@ =~= (StateView {
                escrow_tasks: spec_upsert_task(old(self)@.escrow_tasks, vault_id, due),
                ..old(self)@
            }));
        }
    }

    /// Stores the swap-adjustment coefficient for a pool and position
    /// direction; administrator only.  The coefficient feeds the DCA+
    /// benchmark when escrow is claimed.
    pub fn update_swap_adjustments_handler(
        &mut self,
        sender: &String,
        pool_id: u64,
        position_type: PositionType,
        value: Decimal,
    ) -> (r: Result<(), ContractError>)
        requires
            old(self)@.wf(),
        ensures
            final(self)@.wf(),
            match spec_update_adjustment_error(old(self)@, sender@, value) {
                Some(e) => r == Err::<(), ContractError>(e) && final(self)@ == old(self)@,
                None => r is Ok && final(self)@ == (StateView {
                    swap_adjustments: spec_upsert_adjustment(
                        old(self)@.swap_adjustments,
                        pool_id,
                        position_type,
                        value,
                    ),
                    ..old(self)@
                }),
            },
    {
        if !(*sender == self.config.admin) {
            return Err(ContractError::Unauthorized);
        }
        if value.atomics == 0 {
            return Err(ContractError::InvalidInput);
        }
        let ghost s = self@;
        let entry = SwapAdjustment { pool_id, position_type, value };
        let found = self.find_adjustment_index(pool_id, position_type);
        match found {
            Some(k) => {
                self.swap_adjustments[k] = entry;
            },
            None => {
                self.swap_adjustments.push(entry);
            },
        }
        proof {
            let s2 = self@;
            lemma_wf_unrelated(s, s2);
            assert forall|k: int|
                0 <= k < s2.swap_adjustments.len() implies (
            #[trigger] s2.swap_adjustments[k]).value.atomics > 0 by {
                if s2.swap_adjustments[k] != entry {
                    assert(s2.swap_adjustments[k] == s.swap_adjustments[k]);
                }
            }
            assert forall|k1: int, k2: int|
                0 <= k1 < k2 < s2.swap_adjustments.len() implies !((
            #[trigger] s2.swap_adjustments[k1]).pool_id == (
            #[trigger] s2.swap_adjustments[k2]).pool_id && s2.swap_adjustments[k1].position_type
                == s2.swap_adjustments[k2].position_type) by {
                match found {
                    Some(kf) => {

                        if k1 != kf && k2 != kf {
                            assert(s2.swap_adjustments[k1] == s.swap_adjustments[k1]);
                            assert(s2.swap_adjustments[k2] == s.swap_adjustments[k2]);
                        } else if k1 == kf {
                            assert(s2.swap_adjustments[k2] == s.swap_adjustments[k2]);
                            assert(s.swap_adjustments[kf as int].pool_id == pool_id
                                && s.swap_adjustments[kf as int].position_type == position_type);
                        } else {
                            assert(s2.swap_adjustments[k1] == s.swap_adjustments[k1]);
                            assert(s.swap_adjustments[kf as int].pool_id == pool_id
                                && s.swap_adjustments[kf as int].position_type == position_type);
                        }
                    },
                    None => {
                        lemma_find_adjustment_from_none(
                            s.swap_adjustments,
                            pool_id,
                            position_type,
                            0,
                        );
                        if k2 < s.swap_adjustments.len() {
                            assert(s2.swap_adjustments[k1] == s.swap_adjustments[k1]);
                            assert(s2.swap_adjustments[k2] == s.swap_adjustments[k2]);
                        } else {
                            assert(s2.swap_adjustments[k1] == s.swap_adjustments[k1]);
                        }
                    },
                }
            }
        }
        Ok(())
    }

    /// Schedules the escrow disbursement of a terminal DCA+ vault at the
    /// given expected completion time: an idempotent upsert keyed by the
    /// vault identifier, restricted to the administrator.  (The cancel and
    /// completion paths schedule their tasks themselves; this operation
    /// reschedules one.)
    pub fn save_disburse_escrow_task(
        &mut self,
        sender: &String,
        vault_id: u64,
        expected_completion_time: u64,
    ) -> (r: Result<(), ContractError>)
        requires
            old(self)@.wf(),
        ensures
            final(self)@.wf(),
            ({
                let s = old(self)@;
                match spec_save_task_error(s, sender@, vault_id) {
                    Some(e) => r == Err::<(), ContractError>(e) && final(self)@ == s,
                    None => r is Ok && final(self)@ == (StateView {
                        escrow_tasks: spec_upsert_task(
                            s.escrow_tasks,
                            vault_id,
                            expected_completion_time,
                        ),
                        ..s
                    }),
                }
            }),
    {
        let ghost s = self@;
        if !(*sender == self.config.admin) {
            return Err(ContractError::Unauthorized);
        }
        if !(vault_id >= 1 && vault_id <= self.vaults.len() as u64) {
            return Err(ContractError::NotFound);
        }
        let i = (vault_id - 1) as usize;
        let eligible = self.vaults[i].is_terminal() && self.vaults[i].dca_plus_config.is_some();
        if !eligible {
            return Err(ContractError::NotEligible);
        }
        self.upsert_disburse_escrow_task(vault_id, expected_completion_time);
        proof {
            let s2 = self@;
            assert forall|q: int| 0 <= q < s2.vaults.len() implies #[trigger] s2.wf_vault(q) by {
                assert(s.wf_vault(q));
            }
            assert forall|q: int| 0 <= q < s2.vaults.len() implies #[trigger] s2.wf_trigger(q) by {
                assert(s.wf_trigger(q));
            }
            assert forall|q: int| 0 <= q < s2.vaults.len() implies #[trigger] s2.wf_saga(q) by {
                assert(s.wf_saga(q));
            }
            assert forall|q: int| 0 <= q < s2.vaults.len() implies #[trigger] s2.wf_ledgers(q) by {
                assert(s.wf_ledgers(q));
            }
            assert forall|q: int| 0 <= q < s2.limit_orders.len() implies #[trigger] s2.order_entry_matches(
                q,
            ) by {
                assert(s.order_entry_matches(q));
            }
            lemma_find_task_from_some(s.escrow_tasks, vault_id, 0);
            assert forall|k: int|
                0 <= k < s2.escrow_tasks.len() implies s2.valid_vault_id(
                (#[trigger] s2.escrow_tasks[k]).vault_id,
            ) && spec_is_terminal(s2.vaults[s2.escrow_tasks[k].vault_id - 1].status)
                && s2.vaults[s2.escrow_tasks[k].vault_id - 1].dca_plus_config is Some by {
                if k < s.escrow_tasks.len() && s2.escrow_tasks[k] == s.escrow_tasks[k] {
                    assert(s.wf_tasks());
                } else {
                    assert(s2.escrow_tasks[k].vault_id == vault_id);
                }
            }
            assert forall|k1: int, k2: int|
                0 <= k1 < k2 < s2.escrow_tasks.len() implies (
            #[trigger] s2.escrow_tasks[k1]).vault_id != (#[trigger] s2.escrow_tasks[k2]).vault_id by {
                match spec_find_task_from(s.escrow_tasks, vault_id, 0) {
                    Some(kf) => {
                        if k1 != kf && k2 != kf {
                            assert(s2.escrow_tasks[k1] == s.escrow_tasks[k1]);
                            assert(s2.escrow_tasks[k2] == s.escrow_tasks[k2]);
                            assert(s.escrow_tasks[k1].vault_id != s.escrow_tasks[k2].vault_id);
                        } else if k1 == kf {
                            assert(s2.escrow_tasks[k2] == s.escrow_tasks[k2]);
                            assert(s.escrow_tasks[kf].vault_id == vault_id);
                            assert(s.escrow_tasks[kf].vault_id != s.escrow_tasks[k2].vault_id);
                        } else {
                            assert(s2.escrow_tasks[k1] == s.escrow_tasks[k1]);
                            assert(s.escrow_tasks[kf].vault_id == vault_id);
                            assert(s.escrow_tasks[k1].vault_id != s.escrow_tasks[kf].vault_id);
                        }
                    },
                    None => {
                        lemma_find_task_from_none(s.escrow_tasks, vault_id, 0);
                        if k2 < s.escrow_tasks.len() {
                            assert(s2.escrow_tasks[k1] == s.escrow_tasks[k1]);
                            assert(s2.escrow_tasks[k2] == s.escrow_tasks[k2]);
                            assert(s.escrow_tasks[k1].vault_id != s.escrow_tasks[k2].vault_id);
                        } else {
                            assert(s2.escrow_tasks[k1] == s.escrow_tasks[k1]);
                        }
                    },
                }
            }
        }
        Ok(())
    }

    /// Evaluates a terminal DCA+ vault's escrow once its disbursement task is
    /// due: releases to the owner the shortfall of the actual proceeds
    /// against the coefficient-adjusted benchmark, capped at the escrowed
    /// balance, remits the remainder to the fee recipient, zeroes the
    /// escrow, deletes the task and appends the disbursement event.
    pub fn claim_escrowed_funds(&mut self, vault_id: u64, block: BlockInfo) -> (r: Result<
        Response,
        ContractError,
    >)
        requires
            old(self)@.wf(),
        ensures
            final(self)@.wf(),
            ({
                let s = old(self)@;
                match spec_claim_error(s, vault_id, block) {
                    Some(e) => r matches Err(e2) && e2 == e && final(self)@ == s,
                    None => {
                        let amounts = spec_claim_amounts(s, vault_id - 1);
                        let v = s.vaults[vault_id - 1];
                        &&& r matches Ok(resp) && resp.messages@.len() == (
                        if amounts.0 > 0 {
                            1int
                        } else {
                            0int
                        }) + (
                        if amounts.1 > 0 {
                            1int
                        } else {
                            0int
                        }) && (amounts.0 > 0 ==> (resp.messages@[0] matches Msg::BankSend {
                            to_address,
                            amount,
                        } && to_address == v.owner && amount.denom@ == spec_receive_denom(v)
                            && amount.amount == amounts.0)) && (amounts.1 > 0 ==> (
                        resp.messages@[resp.messages@.len() - 1] matches Msg::BankSend {
                            to_address,
                            amount,
                        } && to_address@ == s.fee_collector && amount.denom@ == spec_receive_denom(
                            v,
                        ) && amount.amount == amounts.1))
                        &&& final(self)@ == spec_claim_apply(s, vault_id - 1, block)
                    },
                }
            }),
    {
        let ghost s = self@;
        if !(vault_id >= 1 && vault_id <= self.vaults.len() as u64) {
            return Err(ContractError::NotFound);
        }
        let i = (vault_id - 1) as usize;
        proof {
            assert(s.wf_vault(i as int));
        }
        if !self.vaults[i].dca_plus_config.is_some() {
            return Err(ContractError::NotEligible);
        }
        let k = match self.find_task_index(vault_id) {
            Some(k) => k,
            None => {
                return Err(ContractError::NotEligible);
            },
        };
        if self.escrow_tasks[k].due > block.time {
            return Err(ContractError::NotEligible);
        }
        if self.events[i].len() as u64 >= u64::MAX {
            return Err(ContractError::Overflow);
        }
        let found_adjustment = self.find_adjustment_index(
            self.vaults[i].pair.pool_id,
            self.vaults[i].position_type,
        );
        let coeff = match found_adjustment {
            Some(a) => {
                proof {
                    assert(s.swap_adjustments[a as int].value.atomics > 0);
                }
                self.swap_adjustments[a].value
            },
            None => Decimal::one(),
        };
        let received = self.vaults[i].received_amount;
        let benchmark = match div_decimal(received, coeff) {
            Some(b) => b,
            None => {
                return Err(ContractError::Overflow);
            },
        };
        let shortfall: u128 = if benchmark > received {
            benchmark - received
        } else {
            0
        };
        let escrow = match &self.vaults[i].dca_plus_config {
            Some(c) => c.escrowed_balance.amount,
            None => 0,
        };
        let released: u128 = if escrow <= shortfall {
            escrow
        } else {
            shortfall
        };
        let remainder: u128 = escrow - released;
        let escrow_denom = match &self.vaults[i].dca_plus_config {
            Some(c) => c.escrowed_balance.denom.clone(),
            None => String::new(),
        };
        let owner = self.vaults[i].owner.clone();
        let fee_collector = self.config.fee_collector.clone();
        let mut messages: Vec<Msg> = Vec::new();
        if released > 0 {
            messages.push(
                Msg::BankSend {
                    to_address: owner,
                    amount: Coin { denom: escrow_denom.clone(), amount: released },
                },
            );
        }
        if remainder > 0 {
            messages.push(
                Msg::BankSend {
                    to_address: fee_collector,
                    amount: Coin { denom: escrow_denom.clone(), amount: remainder },
                },
            );
        }
        let next_event_id = self.events[i].len() as u64 + 1;
        let vault_ref = &mut self.vaults[i];
        if let Some(cfg) = &mut vault_ref.dca_plus_config {
            cfg.escrowed_balance.amount = 0;
        }
        self.events[i].push(
            Event {
                id: next_event_id,
                resource_id: vault_id,
                timestamp: block.time,
                block_height: block.height,
                data: EventData::DcaVaultEscrowDisbursed {
                    amount_disbursed: Coin { denom: escrow_denom.clone(), amount: released },
                    amount_remitted: Coin { denom: escrow_denom, amount: remainder },
                },
            },
        );
        self.escrow_tasks.remove(k);
        proof {
            let s2 = self@;
            let goal = spec_claim_apply(s, i as int, block);
            assert(s2.events =~= goal.events);
            assert(s2 =~= goal);
            lemma_wf_frame(s, s2, i as int);
            assert(s2.wf_vault(i as int));
            assert(s2.wf_trigger(i as int)) by {
                assert(s.wf_trigger(i as int));
            }
            assert(s2.wf_saga(i as int)) by {
                assert(s.wf_saga(i as int));
            }
            assert(s2.wf_ledgers(i as int)) by {
                assert(s.wf_ledgers(i as int));
            }
            assert forall|q: int| 0 <= q < s2.limit_orders.len() implies #[trigger] s2.order_entry_matches(
                q,
            ) by {
                assert(s.order_entry_matches(q));
            }
            lemma_find_task_from_some(s.escrow_tasks, vault_id, 0);
            s.escrow_tasks.remove_ensures(k as int);
            assert forall|q: int|
                0 <= q < s2.escrow_tasks.len() implies s2.valid_vault_id(
                (#[trigger] s2.escrow_tasks[q]).vault_id,
            ) && spec_is_terminal(s2.vaults[s2.escrow_tasks[q].vault_id - 1].status)
                && s2.vaults[s2.escrow_tasks[q].vault_id - 1].dca_plus_config is Some by {
                let o = if q < k {
                    q
                } else {
                    q + 1
                };
                assert(s2.escrow_tasks[q] == s.escrow_tasks[o]);
                let t = s.escrow_tasks[o];
                if t.vault_id == vault_id {
                    if o < k as int {
                        assert(s.escrow_tasks[o].vault_id != s.escrow_tasks[k as int].vault_id);
                    } else {
                        assert(s.escrow_tasks[k as int].vault_id != s.escrow_tasks[o].vault_id);
                    }
                    assert(false);
                }
                assert(s2.vaults[t.vault_id - 1] == s.vaults[t.vault_id - 1]);
            }
            assert forall|q1: int, q2: int|
                0 <= q1 < q2 < s2.escrow_tasks.len() implies (
            #[trigger] s2.escrow_tasks[q1]).vault_id != (#[trigger] s2.escrow_tasks[q2]).vault_id by {
                let o1 = if q1 < k {
                    q1
                } else {
                    q1 + 1
                };
                let o2 = if q2 < k {
                    q2
                } else {
                    q2 + 1
                };
                assert(s2.escrow_tasks[q1] == s.escrow_tasks[o1]);
                assert(s2.escrow_tasks[q2] == s.escrow_tasks[o2]);
                assert(s.escrow_tasks[o1].vault_id != s.escrow_tasks[o2].vault_id);
            }
        }
        Ok(Response { messages })
    }
}

} // verus!

use vstd::prelude::*;
use crate::decimal::Decimal;
use crate::error::ContractError;
use crate::event::BlockInfo;
use crate::response::{ExecuteOutcome, ExecuteResponse, Msg};
use crate::state::{
    DcaState, SagaState, StateView, lemma_orders_wf_time_update, lemma_tasks_wf_untouched,
    lemma_wf_frame,
};
use crate::trigger::TriggerConfiguration;
use crate::vault::{Coin, PositionType, Vault, VaultStatus};

verus! {

/// The target time of the time trigger at slot `i` (zero if none is there).
pub open spec fn spec_time_target(s: StateView, i: int) -> u64 {
    match s.triggers[i] {
        Some(t) => match t.configuration {
            TriggerConfiguration::Time { target_time } => target_time,
            _ => 0,
        },
        None => 0,
    }
}

/// The tranche amount persisted by the pending swap saga at slot `i` (zero if
/// none is pending).
pub open spec fn spec_saga_tranche(s: StateView, i: int) -> u128 {
    match s.sagas[i] {
        Some(SagaState::AwaitingSwapConfirmation { tranche }) => tranche,
        _ => 0,
    }
}

/// The tranche one execution of vault `v` swaps: the configured amount,
/// capped to the remaining balance.
pub open spec fn spec_tranche(v: Vault) -> u128 {
    if v.swap_amount <= v.balance.amount {
        v.swap_amount
    } else {
        v.balance.amount
    }
}

/// Whether the venue price satisfies the vault's fixed target price for its
/// position direction: entering requires the price at or below the target,
/// exiting at or above.  A vault without a target price always passes.
pub open spec fn spec_price_condition_met(v: Vault, current_price: Option<Decimal>) -> bool {
    match v.target_price {
        Some(target) => match current_price {
            Some(p) => match v.position_type {
                PositionType::Enter => p.atomics <= target.atomics,
                PositionType::Exit => p.atomics >= target.atomics,
            },
            None => false,
        },
        None => true,
    }
}

/// Why initiating an execution fails: the vault and its trigger must exist,
/// the trigger must be a time trigger that is due, no earlier venue request
/// may still be unconfirmed, and a vault with a fixed target price needs the
/// current venue price supplied.
pub open spec fn spec_execute_trigger_error(
    s: StateView,
    vault_id: u64,
    current_price: Option<Decimal>,
    block: BlockInfo,
) -> Option<ContractError> {
    if !s.valid_vault_id(vault_id) {
        Some(ContractError::NotFound)
    } else if s.triggers[vault_id - 1] is None {
        Some(ContractError::NotFound)
    } else if !(match s.triggers[vault_id - 1] {
        Some(t) => t.configuration is Time,
        None => false,
    }) {
        Some(ContractError::InvalidInput)
    } else if spec_time_target(s, vault_id - 1) > block.time {
        Some(ContractError::NotEligible)
    } else if s.sagas[vault_id - 1] is Some {
        Some(ContractError::PendingConfirmation)
    } else if s.vaults[vault_id - 1].target_price is Some && current_price is None {
        Some(ContractError::InvalidInput)
    } else {
        None
    }
}

/// The state after a swap request was issued for slot `i`: the vault is
/// `Active` and the saga persists the pending tranche across the
/// call/response boundary.  Balance, trigger and ledgers move only when the
/// confirmation settles.
pub open spec fn spec_execute_apply(s: StateView, i: int) -> StateView {
    let v = s.vaults[i];
    StateView {
        vaults: s.vaults.update(i, Vault { status: VaultStatus::Active, ..v }),
        sagas: s.sagas.update(
            i,
            Some(SagaState::AwaitingSwapConfirmation { tranche: spec_tranche(v) }),
        ),
        ..s
    }
}

/// The swap request an initiating execution issues to the venue.
pub open spec fn spec_execute_msgs(s: StateView, i: int) -> Seq<Msg> {
    let v = s.vaults[i];
    seq![
        Msg::FinSwap {
            pair_address: v.pair.address,
            offer: Coin { denom: v.balance.denom, amount: spec_tranche(v) },
            slippage_tolerance: v.slippage_tolerance,
        }
    ]
}

impl DcaState {
    /// Initiates one tranche of a time-triggered vault.  If the vault's
    /// fixed target price is not satisfied by the current venue price, the
    /// call reports `PriceConditionNotMet` and changes nothing.  Otherwise it
    /// issues a swap request for the tranche (the configured amount, capped
    /// to the remaining balance) and persists the pending saga; the venue's
    /// answer is delivered later to [`DcaState::after_fin_swap`].  A
    /// `Scheduled` vault whose trigger is due has reached its start
    /// condition, so executing it makes it `Active`.
    pub fn execute_trigger(
        &mut self,
        vault_id: u64,
        current_price: Option<Decimal>,
        block: BlockInfo,
    ) -> (r: Result<ExecuteResponse, ContractError>)
        requires
            old(self)@.wf(),
        ensures
            final(self)@.wf(),
            ({
                let s = old(self)@;
                match spec_execute_trigger_error(s, vault_id, current_price, block) {
                    Some(e) => r matches Err(e2) && e2 == e && final(self)@ == s,
                    None => if !spec_price_condition_met(s.vaults[vault_id - 1], current_price) {
                        r matches Ok(resp) && resp.outcome is PriceConditionNotMet
                            && resp.messages@ == Seq::<Msg>::empty() && final(self)@ == s
                    } else {
                        r matches Ok(resp) && resp.outcome is SwapRequested && resp.messages@
                            == spec_execute_msgs(s, vault_id - 1) && final(self)@
                            == spec_execute_apply(s, vault_id - 1)
                    },
                }
            }),
    {
        let ghost s = self@;
        if !(vault_id >= 1 && vault_id <= self.vaults.len() as u64) {
            return Err(ContractError::NotFound);
        }
        let i = (vault_id - 1) as usize;
        proof {
            assert(s.wf_vault(i as int));
            assert(s.wf_trigger(i as int));
        }
        let target = match self.triggers[i] {
            Some(t) => match t.configuration {
                TriggerConfiguration::Time { target_time } => target_time,
                _ => {
                    return Err(ContractError::InvalidInput);
                },
            },
            None => {
                return Err(ContractError::NotFound);
            },
        };
        if target > block.time {
            return Err(ContractError::NotEligible);
        }
        if self.sagas[i].is_some() {
            return Err(ContractError::PendingConfirmation);
        }
        if self.vaults[i].target_price.is_some() && current_price.is_none() {
            return Err(ContractError::InvalidInput);
        }
        let condition_met = match self.vaults[i].target_price {
            Some(t) => match current_price {
                Some(p) => match self.vaults[i].position_type {
                    PositionType::Enter => p.atomics <= t.atomics,
                    PositionType::Exit => p.atomics >= t.atomics,
                },
                None => false,
            },
            None => true,
        };
        if !condition_met {
            return Ok(
                ExecuteResponse { outcome: ExecuteOutcome::PriceConditionNotMet, messages: Vec::new() },
            );
        }
        let tranche = if self.vaults[i].swap_amount <= self.vaults[i].balance.amount {
            self.vaults[i].swap_amount
        } else {
            self.vaults[i].balance.amount
        };
        let mut messages: Vec<Msg> = Vec::new();
        messages.push(
            Msg::FinSwap {
                pair_address: self.vaults[i].pair.address.clone(),
                offer: Coin { denom: self.vaults[i].balance.denom.clone(), amount: tranche },
                slippage_tolerance: self.vaults[i].slippage_tolerance,
            },
        );
        let vault_ref = &mut self.vaults[i];
        vault_ref.status = VaultStatus::Active;
        self.sagas[i] = Some(SagaState::AwaitingSwapConfirmation { tranche });
        proof {
            let s2 = self@;
            assert(s2 =~= spec_execute_apply(s, i as int));
            lemma_wf_frame(s, s2, i as int);
            assert(s2.wf_vault(i as int));
            assert(s2.wf_trigger(i as int));
            assert(s2.wf_saga(i as int));
            assert(s2.wf_ledgers(i as int)) by {
                assert(s.wf_ledgers(i as int));
            }
            lemma_orders_wf_time_update(s, s2, i as int);
            lemma_tasks_wf_untouched(s, s2, i as int);
            assert(messages@ =~= spec_execute_msgs(s, i as int));
        }
        Ok(ExecuteResponse { outcome: ExecuteOutcome::SwapRequested, messages })
    }
}

} // verus!

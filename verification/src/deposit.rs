use vstd::prelude::*;
use crate::error::ContractError;
use crate::event::{BlockInfo, Event, EventData};
use crate::state::{DcaState, StateView, lemma_wf_frame};
use crate::vault::{Coin, Vault, VaultStatus};

verus! {

/// Why a deposit fails: the funding must be exactly one asset, the vault must
/// exist, the named owner must be the stored owner, the vault must not be
/// cancelled, the denomination must match the balance, and the running totals
/// must stay representable.
pub open spec fn spec_deposit_error(
    s: StateView,
    address: Seq<char>,
    vault_id: u64,
    funds: Seq<Coin>,
) -> Option<ContractError> {
    if funds.len() != 1 {
        Some(ContractError::InvalidInput)
    } else if !s.valid_vault_id(vault_id) {
        Some(ContractError::NotFound)
    } else if address != s.vaults[vault_id - 1].owner@ {
        Some(ContractError::Unauthorized)
    } else if s.vaults[vault_id - 1].status is Cancelled {
        Some(ContractError::AlreadyTerminal)
    } else if funds[0].denom@ != s.vaults[vault_id - 1].balance.denom@ {
        Some(ContractError::DenomMismatch)
    } else if s.vaults[vault_id - 1].deposited_amount + funds[0].amount > u128::MAX {
        Some(ContractError::Overflow)
    } else if s.events[vault_id - 1].len() >= u64::MAX {
        Some(ContractError::Overflow)
    } else {
        None
    }
}

/// Whether a deposit at `block` moves a `Scheduled` vault (whose start
/// condition has passed) back to `Active`.
pub open spec fn spec_deposit_activates(v: Vault, block: BlockInfo) -> bool {
    v.status is Scheduled && match v.started_at {
        Some(t) => t <= block.time,
        None => true,
    }
}

/// The state a successful deposit of `amount` into vault slot `i` leaves.
pub open spec fn spec_deposit_apply(
    s: StateView,
    i: int,
    amount: Coin,
    block: BlockInfo,
) -> StateView {
    let v = s.vaults[i];
    let v2 = Vault {
        status: if spec_deposit_activates(v, block) {
            VaultStatus::Active
        } else {
            v.status
        },
        balance: Coin {
            denom: v.balance.denom,
            amount: (v.balance.amount + amount.amount) as u128,
        },
        deposited_amount: (v.deposited_amount + amount.amount) as u128,
        ..v
    };
    let ev = Event {
        id: (s.events[i].len() + 1) as u64,
        resource_id: v.id,
        timestamp: block.time,
        block_height: block.height,
        data: EventData::DcaVaultFundsDeposited { amount },
    };
    StateView {
        vaults: s.vaults.update(i, v2),
        events: s.events.update(i, s.events[i].push(ev)),
        ..s
    }
}

impl DcaState {
    /// Deposits additional funds into a vault on behalf of its owner.  On
    /// success the balance grows by the deposited amount, a `Scheduled` vault
    /// whose start condition has passed becomes `Active`, and a deposit event
    /// is appended; nothing else changes.
    pub fn deposit(
        &mut self,
        address: &String,
        vault_id: u64,
        funds: Vec<Coin>,
        block: BlockInfo,
    ) -> (r: Result<(), ContractError>)
        requires
            old(self)@.wf(),
        ensures
            final(self)@.wf(),
            ({
                let s = old(self)@;
                match spec_deposit_error(s, address@, vault_id, funds@) {
                    Some(e) => r == Err::<(), ContractError>(e) && final(self)@ == s,
                    None => r is Ok && final(self)@ == spec_deposit_apply(
                        s,
                        vault_id - 1,
                        funds@[0],
                        block,
                    ),
                }
            }),
    {
        let ghost s = self@;
        let ghost gfunds = funds@;
        let mut funds = funds;
        if funds.len() != 1 {
            return Err(ContractError::InvalidInput);
        }
        let f = funds.remove(0);
        if !(vault_id >= 1 && vault_id <= self.vaults.len() as u64) {
            return Err(ContractError::NotFound);
        }
        let i = (vault_id - 1) as usize;
        proof {
            assert(s.wf_vault(i as int));
        }
        if !(*address == self.vaults[i].owner) {
            return Err(ContractError::Unauthorized);
        }
        let cancelled = match self.vaults[i].status {
            VaultStatus::Cancelled => true,
            _ => false,
        };
        if cancelled {
            return Err(ContractError::AlreadyTerminal);
        }
        if !(f.denom == self.vaults[i].balance.denom) {
            return Err(ContractError::DenomMismatch);
        }
        match self.vaults[i].deposited_amount.checked_add(f.amount) {
            Some(_) => {},
            None => {
                return Err(ContractError::Overflow);
            },
        }
        if self.events[i].len() as u64 >= u64::MAX {
            return Err(ContractError::Overflow);
        }
        let amount = f.amount;
        let activates = match self.vaults[i].status {
            VaultStatus::Scheduled => match self.vaults[i].started_at {
                Some(t) => t <= block.time,
                None => true,
            },
            _ => false,
        };
        let next_event_id = self.events[i].len() as u64 + 1;
        let vault_ref = &mut self.vaults[i];
        vault_ref.balance.amount = vault_ref.balance.amount + amount;
        vault_ref.deposited_amount = vault_ref.deposited_amount + amount;
        if activates {
            vault_ref.status = VaultStatus::Active;
        }
        let ev = Event {
            id: next_event_id,
            resource_id: vault_id,
            timestamp: block.time,
            block_height: block.height,
            data: EventData::DcaVaultFundsDeposited { amount: f },
        };
        self.events[i].push(ev);
        proof {
            let s2 = self@;
            assert(s2.events =~= s.events.update(
                i as int,
                s.events[i as int].push(
                    Event {
                        id: (s.events[i as int].len() + 1) as u64,
                        resource_id: s.vaults[i as int].id,
                        timestamp: block.time,
                        block_height: block.height,
                        data: EventData::DcaVaultFundsDeposited { amount: gfunds[0] },
                    },
                ),
            ));
            assert(s2 =~= spec_deposit_apply(s, i as int, gfunds[0], block));
            lemma_wf_frame(s, s2, i as int);
            assert(s2.wf_vault(i as int));
            assert(s2.wf_trigger(i as int)) by {
                assert(s.wf_trigger(i as int));
            }
            assert(s2.wf_saga(i as int)) by {
                assert(s.wf_saga(i as int));
            }
            assert(s2.wf_ledgers(i as int)) by {
                assert(s.wf_ledgers(i as int));
            }
            assert forall|k: int| 0 <= k < s2.limit_orders.len() implies #[trigger] s2.order_entry_matches(
                k,
            ) by {
                assert(s.order_entry_matches(k));
            }
            assert(s2.wf_tasks()) by {
                assert forall|k: int|
                    0 <= k < s2.escrow_tasks.len() implies s2.valid_vault_id(
                    (#[trigger] s2.escrow_tasks[k]).vault_id,
                ) && crate::vault::spec_is_terminal(
                    s2.vaults[s2.escrow_tasks[k].vault_id - 1].status,
                ) && s2.vaults[s2.escrow_tasks[k].vault_id - 1].dca_plus_config is Some by {
                    assert(s.wf_tasks());
                    assert(s.escrow_tasks[k] == s2.escrow_tasks[k]);
                }
            }
        }
        Ok(())
    }
}

} // verus!

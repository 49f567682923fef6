use vstd::prelude::*;
use crate::error::ContractError;
use crate::escrow::spec_upsert_task;
use crate::event::{BlockInfo, Event, EventData};
use crate::response::{Msg, Response};
use crate::state::{
    DcaState, StateView, lemma_find_order_from_none, lemma_find_order_from_some,
    lemma_find_task_from_some, lemma_wf_frame, spec_find_order_from, spec_find_task_from,
};
use crate::trigger::TriggerConfiguration;
use crate::vault::{Coin, Vault, VaultStatus, spec_expected_completion, spec_is_terminal};

verus! {

/// Why cancelling fails: the vault must exist, the sender must be the owner
/// or the administrator, the vault must not already be terminal, no venue
/// confirmation may be in flight (an issued swap is a durable obligation that
/// must settle first), and the event ledger must have room.
pub open spec fn spec_cancel_error(
    s: StateView,
    sender: Seq<char>,
    vault_id: u64,
) -> Option<ContractError> {
    if !s.valid_vault_id(vault_id) {
        Some(ContractError::NotFound)
    } else if sender != s.vaults[vault_id - 1].owner@ && sender != s.admin {
        Some(ContractError::Unauthorized)
    } else if spec_is_terminal(s.vaults[vault_id - 1].status) {
        Some(ContractError::AlreadyTerminal)
    } else if s.sagas[vault_id - 1] is Some {
        Some(ContractError::PendingConfirmation)
    } else if s.events[vault_id - 1].len() >= u64::MAX {
        Some(ContractError::Overflow)
    } else {
        None
    }
}

/// The refund a cancellation pays: the whole remaining balance back to the
/// owner, or nothing if the balance is already empty.
pub open spec fn spec_cancel_refund(v: Vault) -> Seq<Msg> {
    if v.balance.amount > 0 {
        seq![Msg::BankSend { to_address: v.owner, amount: v.balance }]
    } else {
        Seq::<Msg>::empty()
    }
}

/// The reverse-index slot that cancelling vault slot `i` deletes: the entry
/// of the vault's resting limit order, if the trigger carries one that is
/// indexed.
pub open spec fn spec_cancelled_order_entry(s: StateView, i: int) -> Option<int> {
    match s.triggers[i] {
        Some(t) => match t.configuration {
            TriggerConfiguration::FinLimitOrder { order_idx: Some(idx), .. } =>
                spec_find_order_from(s.limit_orders, idx, 0),
            _ => None,
        },
        None => None,
    }
}

/// The state a successful cancellation of vault slot `i` leaves: status
/// `Cancelled`, balance zeroed, cancellation event appended, the trigger and
/// its reverse-index entry gone, and — for a DCA+ vault — a disbursement
/// task scheduled at the expected completion time.
pub open spec fn spec_cancel_apply(s: StateView, i: int, block: BlockInfo) -> StateView {
    let v = s.vaults[i];
    let v2 = Vault {
        status: VaultStatus::Cancelled,
        balance: Coin { denom: v.balance.denom, amount: 0 },
        ..v
    };
    let ev = Event {
        id: (s.events[i].len() + 1) as u64,
        resource_id: v.id,
        timestamp: block.time,
        block_height: block.height,
        data: EventData::DcaVaultCancelled {},
    };
    let tasks2 = match v.dca_plus_config {
        Some(_) => spec_upsert_task(
            s.escrow_tasks,
            v.id,
            spec_expected_completion(v, block.time) as u64,
        ),
        None => s.escrow_tasks,
    };
    let orders2 = match spec_cancelled_order_entry(s, i) {
        Some(k) => s.limit_orders.remove(k),
        None => s.limit_orders,
    };
    StateView {
        vaults: s.vaults.update(i, v2),
        triggers: s.triggers.update(i, None),
        events: s.events.update(i, s.events[i].push(ev)),
        escrow_tasks: tasks2,
        limit_orders: orders2,
        ..s
    }
}

impl DcaState {
    /// Cancels a vault on behalf of its owner or an administrator.  On
    /// success the operation is atomic from the caller's point of view: it
    /// appends the cancellation event, schedules the escrow-disbursement
    /// task if the vault carries a DCA+ overlay, refunds the whole remaining
    /// balance to the owner, zeroes the balance, sets the status to
    /// `Cancelled`, and deletes the trigger together with its reverse-index
    /// entry.  A vault whose venue request is still unconfirmed cannot be
    /// cancelled (the issued request is a durable obligation that must
    /// settle first); a merely resting limit order does not block
    /// cancellation — the core forgets it, and retracting it at the venue
    /// is the host's concern.
    pub fn cancel_vault_handler(
        &mut self,
        sender: &String,
        vault_id: u64,
        block: BlockInfo,
    ) -> (r: Result<Response, ContractError>)
        requires
            old(self)@.wf(),
        ensures
            final(self)@.wf(),
            ({
                let s = old(self)@;
                match spec_cancel_error(s, sender@, vault_id) {
                    Some(e) => r matches Err(e2) && e2 == e && final(self)@ == s,
                    None => r matches Ok(resp) && resp.messages@ == spec_cancel_refund(
                        s.vaults[vault_id - 1],
                    ) && final(self)@ == spec_cancel_apply(s, vault_id - 1, block),
                }
            }),
    {
        let ghost s = self@;
        if !(vault_id >= 1 && vault_id <= self.vaults.len() as u64) {
            return Err(ContractError::NotFound);
        }
        let i = (vault_id - 1) as usize;
        proof {
            assert(s.wf_vault(i as int));
            assert(s.wf_trigger(i as int));
        }
        if !(*sender == self.vaults[i].owner) && !(*sender == self.config.admin) {
            return Err(ContractError::Unauthorized);
        }
        if self.vaults[i].is_terminal() {
            return Err(ContractError::AlreadyTerminal);
        }
        if self.sagas[i].is_some() {
            return Err(ContractError::PendingConfirmation);
        }
        if self.events[i].len() as u64 >= u64::MAX {
            return Err(ContractError::Overflow);
        }
        let next_event_id = self.events[i].len() as u64 + 1;
        let ev = Event {
            id: next_event_id,
            resource_id: vault_id,
            timestamp: block.time,
            block_height: block.height,
            data: EventData::DcaVaultCancelled {},
        };
        self.events[i].push(ev);
        if self.vaults[i].dca_plus_config.is_some() {
            let due = self.vaults[i].get_expected_execution_completed_date(block.time);
            self.upsert_disburse_escrow_task(vault_id, due);
        }
        let mut messages: Vec<Msg> = Vec::new();
        if self.vaults[i].balance.amount > 0 {
            messages.push(
                Msg::BankSend {
                    to_address: self.vaults[i].owner.clone(),
                    amount: self.vaults[i].balance.clone(),
                },
            );
        }
        let vault_ref = &mut self.vaults[i];
        vault_ref.status = VaultStatus::Cancelled;
        vault_ref.balance.amount = 0;
        let trig = self.triggers[i];
        self.triggers[i] = None;
        if let Some(t) = trig {
            if let TriggerConfiguration::FinLimitOrder { order_idx: Some(idx), .. } =
                t.configuration {
                match self.find_order_index(idx) {
                    Some(k) => {
                        self.limit_orders.remove(k);
                    },
                    None => {},
                }
            }
        }
        proof {
            let s2 = self@;
            assert(s2.events =~= s.events.update(
                i as int,
                s.events[i as int].push(
                    Event {
                        id: (s.events[i as int].len() + 1) as u64,
                        resource_id: s.vaults[i as int].id,
                        timestamp: block.time,
                        block_height: block.height,
                        data: EventData::DcaVaultCancelled {},
                    },
                ),
            ));
            assert(s2 =~= spec_cancel_apply(s, i as int, block));
            lemma_wf_frame(s, s2, i as int);
            assert(s2.wf_vault(i as int));
            assert(s2.wf_trigger(i as int));
            assert(s2.wf_saga(i as int)) by {
                assert(s.wf_saga(i as int));
            }
            assert(s2.wf_ledgers(i as int)) by {
                assert(s.wf_ledgers(i as int));
            }
            lemma_cancel_orders_wf(s, s2, i as int);
            lemma_cancel_tasks_wf(s, s2, i as int, block);
        }
        Ok(Response { messages })
    }
}

/// After a cancellation, the reverse index is still well-formed: the entry of
/// the cancelled vault's order (if any) is gone, and every remaining entry
/// still matches its vault's trigger.
proof fn lemma_cancel_orders_wf(s: StateView, s2: StateView, i: int)
    requires
        s.wf(),
        0 <= i < s.vaults.len(),
        !spec_is_terminal(s.vaults[i].status),
        s2.vaults.len() == s.vaults.len(),
        s2.triggers =~= s.triggers.update(i, None),
        s2.limit_orders == (match spec_cancelled_order_entry(s, i) {
            Some(k) => s.limit_orders.remove(k),
            None => s.limit_orders,
        }),
    ensures
        s2.wf_orders(),
{
    match spec_cancelled_order_entry(s, i) {
        Some(kr) => {
            let idx = s.limit_orders[kr].order_idx;
            match s.triggers[i] {
                Some(t) => match t.configuration {
                    TriggerConfiguration::FinLimitOrder { order_idx: Some(tidx), .. } => {
                        lemma_find_order_from_some(s.limit_orders, tidx, 0);
                        assert(idx == tidx);
                    },
                    _ => {
                        assert(false);
                    },
                },
                None => {
                    assert(false);
                },
            }
            s.limit_orders.remove_ensures(kr);
            assert forall|k: int|
                0 <= k < s2.limit_orders.len() implies #[trigger] s2.order_entry_matches(k) by {
                let o = if k < kr {
                    k
                } else {
                    k + 1
                };
                assert(s2.limit_orders[k] == s.limit_orders[o]);
                assert(s.order_entry_matches(o));
                let e = s.limit_orders[o];
                if e.vault_id == i + 1 {
                    assert(e.order_idx == idx);
                    if o < kr {
                        assert(s.limit_orders[o].order_idx != s.limit_orders[kr].order_idx);
                    } else {
                        assert(s.limit_orders[kr].order_idx != s.limit_orders[o].order_idx);
                    }
                    assert(false);
                }
                assert(s2.triggers[e.vault_id - 1] == s.triggers[e.vault_id - 1]);
            }
            assert forall|k1: int, k2: int|
                0 <= k1 < k2 < s2.limit_orders.len() implies (
            #[trigger] s2.limit_orders[k1]).order_idx != (
            #[trigger] s2.limit_orders[k2]).order_idx by {
                let o1 = if k1 < kr {
                    k1
                } else {
                    k1 + 1
                };
                let o2 = if k2 < kr {
                    k2
                } else {
                    k2 + 1
                };
                assert(s2.limit_orders[k1] == s.limit_orders[o1]);
                assert(s2.limit_orders[k2] == s.limit_orders[o2]);
                assert(s.limit_orders[o1].order_idx != s.limit_orders[o2].order_idx);
            }
        },
        None => {
            assert(s2.limit_orders == s.limit_orders);
            assert forall|k: int|
                0 <= k < s2.limit_orders.len() implies #[trigger] s2.order_entry_matches(k) by {
                assert(s.order_entry_matches(k));
                let e = s.limit_orders[k];
                if e.vault_id == i + 1 {
                    match s.triggers[i] {
                        Some(t) => match t.configuration {
                            TriggerConfiguration::FinLimitOrder { order_idx: Some(tidx), .. } => {
                                lemma_find_order_from_none(s.limit_orders, tidx, 0);
                                assert(false);
                            },
                            _ => {
                                assert(false);
                            },
                        },
                        None => {
                            assert(false);
                        },
                    }
                }
                assert(s2.triggers[e.vault_id - 1] == s.triggers[e.vault_id - 1]);
            }
            assert forall|k1: int, k2: int|
                0 <= k1 < k2 < s2.limit_orders.len() implies (
            #[trigger] s2.limit_orders[k1]).order_idx != (
            #[trigger] s2.limit_orders[k2]).order_idx by {
                assert(s.limit_orders[k1].order_idx != s.limit_orders[k2].order_idx);
            }
        },
    }
}

/// After a cancellation, the escrow tasks are still well-formed: the possibly
/// added task names the now-terminal cancelled vault, and every other task is
/// untouched.
proof fn lemma_cancel_tasks_wf(s: StateView, s2: StateView, i: int, block: BlockInfo)
    requires
        s.wf(),
        0 <= i < s.vaults.len(),
        !spec_is_terminal(s.vaults[i].status),
        s2.vaults.len() == s.vaults.len(),
        s2.vaults =~= s.vaults.update(
            i,
            Vault {
                status: VaultStatus::Cancelled,
                balance: Coin { denom: s.vaults[i].balance.denom, amount: 0 },
                ..s.vaults[i]
            },
        ),
        s2.escrow_tasks == (match s.vaults[i].dca_plus_config {
            Some(_) => spec_upsert_task(
                s.escrow_tasks,
                s.vaults[i].id,
                spec_expected_completion(s.vaults[i], block.time) as u64,
            ),
            None => s.escrow_tasks,
        }),
        s.vaults[i].id == i + 1,
    ensures
        s2.wf_tasks(),
{
    lemma_find_task_from_some(s.escrow_tasks, s.vaults[i].id, 0);
    match spec_find_task_from(s.escrow_tasks, s.vaults[i].id, 0) {
        Some(k) => {
            assert(spec_is_terminal(s.vaults[s.escrow_tasks[k].vault_id - 1].status));
            assert(false);
        },
        None => {},
    }
    assert forall|k: int|
        0 <= k < s2.escrow_tasks.len() implies s2.valid_vault_id(
        (#[trigger] s2.escrow_tasks[k]).vault_id,
    ) && spec_is_terminal(s2.vaults[s2.escrow_tasks[k].vault_id - 1].status)
        && s2.vaults[s2.escrow_tasks[k].vault_id - 1].dca_plus_config is Some by {
        if k < s.escrow_tasks.len() {
            assert(s.escrow_tasks[k] == s2.escrow_tasks[k]);
            let t = s.escrow_tasks[k];
            if t.vault_id == i + 1 {
                assert(spec_is_terminal(s.vaults[i].status));
                assert(false);
            }
            assert(s2.vaults[t.vault_id - 1] == s.vaults[t.vault_id - 1]);
        }
    }
    assert forall|k1: int, k2: int|
        0 <= k1 < k2 < s2.escrow_tasks.len() implies (
    #[trigger] s2.escrow_tasks[k1]).vault_id != (#[trigger] s2.escrow_tasks[k2]).vault_id by {
        if k2 < s.escrow_tasks.len() {
            assert(s.escrow_tasks[k1].vault_id != s.escrow_tasks[k2].vault_id);
        } else {
            let t1 = s.escrow_tasks[k1];
            if t1.vault_id == i + 1 {
                assert(spec_is_terminal(s.vaults[i].status));
                assert(false);
            }
        }
    }
}

} // verus!

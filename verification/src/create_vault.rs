use vstd::prelude::*;
use crate::decimal::{Decimal, DECIMAL_SCALE};
use crate::error::ContractError;
use crate::event::{BlockInfo, Event, EventData};
use crate::execution::Execution;
use crate::pair::Pair;
use crate::response::{Msg, Response};
use crate::state::{DcaState, SagaState, StateView, spec_find_pair_from};
use crate::trigger::{Trigger, TriggerConfiguration};
use crate::vault::{
    Coin, DcaPlusConfig, PositionType, TimeInterval, Vault, VaultStatus, spec_interval_seconds,
    spec_position_swap_denom,
};

verus! {

/// Why registering a pair fails: only the administrator may register, and a
/// venue address is registered at most once.
pub open spec fn spec_create_pair_error(
    s: StateView,
    sender: Seq<char>,
    address: Seq<char>,
) -> Option<ContractError> {
    if sender != s.admin {
        Some(ContractError::Unauthorized)
    } else if spec_find_pair_from(s.pairs, address, 0) is Some {
        Some(ContractError::InvalidInput)
    } else {
        None
    }
}

/// Why creating a vault fails: the funding must be exactly one non-empty
/// asset, the tranche size positive and within the funding, the interval
/// positive, the escrow level at most one, the pair registered, and the
/// funding denomination the pair's input denomination for the position
/// direction.
pub open spec fn spec_create_vault_error(
    s: StateView,
    pair_address: Seq<char>,
    position_type: PositionType,
    swap_amount: u128,
    time_interval: TimeInterval,
    funds: Seq<Coin>,
    dca_plus_escrow_level: Option<Decimal>,
) -> Option<ContractError> {
    if funds.len() != 1 {
        Some(ContractError::InvalidInput)
    } else if funds[0].amount < 1 {
        Some(ContractError::InvalidInput)
    } else if swap_amount < 1 {
        Some(ContractError::InvalidInput)
    } else if spec_interval_seconds(time_interval) < 1 {
        Some(ContractError::InvalidInput)
    } else if swap_amount > funds[0].amount {
        Some(ContractError::InvalidInput)
    } else if dca_plus_escrow_level matches Some(level) && level.atomics > DECIMAL_SCALE {
        Some(ContractError::InvalidInput)
    } else if spec_find_pair_from(s.pairs, pair_address, 0) is None {
        Some(ContractError::NotFound)
    } else if funds[0].denom@ != spec_position_swap_denom(
        s.pairs[spec_find_pair_from(s.pairs, pair_address, 0)->Some_0],
        position_type,
    ) {
        Some(ContractError::InvalidInput)
    } else if s.vaults.len() >= u64::MAX {
        Some(ContractError::Overflow)
    } else {
        None
    }
}

/// The vault a successful creation adds, before its trigger is attached.
pub open spec fn spec_new_vault(
    id: u64,
    owner: String,
    pair: Pair,
    position_type: PositionType,
    status: VaultStatus,
    funds: Coin,
    swap_amount: u128,
    time_interval: TimeInterval,
    slippage_tolerance: Option<Decimal>,
    target_price: Option<Decimal>,
    started_at: Option<u64>,
    dca_plus_escrow_level: Option<Decimal>,
) -> Vault {
    Vault {
        id,
        owner,
        pair,
        position_type,
        status,
        balance: funds,
        swap_amount,
        time_interval,
        slippage_tolerance,
        target_price,
        started_at,
        deposited_amount: funds.amount,
        swapped_amount: 0,
        received_amount: 0,
        dca_plus_config: match dca_plus_escrow_level {
            Some(level) => Some(
                DcaPlusConfig {
                    escrow_level: level,
                    escrowed_balance: Coin {
                        denom: match position_type {
                            PositionType::Enter => pair.base_denom,
                            PositionType::Exit => pair.quote_denom,
                        },
                        amount: 0,
                    },
                },
            ),
            None => None,
        },
    }
}

/// The state after a vault and its trigger are appended, together with the
/// creation event.
pub open spec fn spec_push_vault(
    s: StateView,
    v: Vault,
    trigger: TriggerConfiguration,
    saga: Option<SagaState>,
    block: BlockInfo,
) -> StateView {
    StateView {
        vaults: s.vaults.push(v),
        triggers: s.triggers.push(
            Some(Trigger { vault_id: v.id, configuration: trigger }),
        ),
        sagas: s.sagas.push(saga),
        events: s.events.push(
            seq![
                Event {
                    id: 1,
                    resource_id: v.id,
                    timestamp: block.time,
                    block_height: block.height,
                    data: EventData::DcaVaultCreated {},
                }
            ],
        ),
        executions: s.executions.push(Seq::<Execution>::empty()),
        ..s
    }
}

impl DcaState {
    /// Registers a trading pair; administrator only.
    pub fn create_pair(
        &mut self,
        sender: &String,
        address: String,
        base_denom: String,
        quote_denom: String,
        pool_id: u64,
    ) -> (r: Result<(), ContractError>)
        requires
            old(self)@.wf(),
        ensures
            final(self)@.wf(),
            match spec_create_pair_error(old(self)@, sender@, address@) {
                Some(e) => r == Err::<(), ContractError>(e) && final(self)@ == old(self)@,
                None => r is Ok && final(self)@ == (StateView {
                    pairs: old(self)@.pairs.push(
                        Pair { address, base_denom, quote_denom, pool_id },
                    ),
                    ..old(self)@
                }),
            },
    {
        if !(*sender == self.config.admin) {
            return Err(ContractError::Unauthorized);
        }
        if self.find_pair_index(&address).is_some() {
            return Err(ContractError::InvalidInput);
        }
        let ghost s = self@;
        self.pairs.push(Pair { address, base_denom, quote_denom, pool_id });
        proof {
            let s2 = self@;
            assert forall|i: int| 0 <= i < s2.vaults.len() implies #[trigger] s2.wf_vault(i) by {
                assert(s.wf_vault(i));
            }
            assert forall|i: int| 0 <= i < s2.vaults.len() implies #[trigger] s2.wf_trigger(i) by {
                assert(s.wf_trigger(i));
            }
            assert forall|i: int| 0 <= i < s2.vaults.len() implies #[trigger] s2.wf_saga(i) by {
                assert(s.wf_saga(i));
            }
            assert forall|i: int| 0 <= i < s2.vaults.len() implies #[trigger] s2.wf_ledgers(i) by {
                assert(s.wf_ledgers(i));
            }
            assert forall|k: int| 0 <= k < s2.limit_orders.len() implies #[trigger] s2.order_entry_matches(
                k,
            ) by {
                assert(s.order_entry_matches(k));
            }
        }
        Ok(())
    }

    /// Creates a vault that executes one tranche each interval, starting at
    /// the given start time (or immediately).  The vault starts `Scheduled`
    /// when the start time lies in the future, `Active` otherwise.  An
    /// optional fixed target price gates every execution on the venue price.
    pub fn create_vault_with_time_trigger(
        &mut self,
        owner: String,
        pair_address: &String,
        position_type: PositionType,
        swap_amount: u128,
        time_interval: TimeInterval,
        funds: Vec<Coin>,
        slippage_tolerance: Option<Decimal>,
        target_price: Option<Decimal>,
        target_start_time_utc_seconds: Option<u64>,
        dca_plus_escrow_level: Option<Decimal>,
        block: BlockInfo,
    ) -> (r: Result<u64, ContractError>)
        requires
            old(self)@.wf(),
        ensures
            final(self)@.wf(),
            ({
                let s = old(self)@;
                match spec_create_vault_error(
                    s,
                    pair_address@,
                    position_type,
                    swap_amount,
                    time_interval,
                    funds@,
                    dca_plus_escrow_level,
                ) {
                    Some(e) => r == Err::<u64, ContractError>(e) && final(self)@ == s,
                    None => {
                        let k = spec_find_pair_from(s.pairs, pair_address@, 0)->Some_0;
                        let start = match target_start_time_utc_seconds {
                            Some(t) => t,
                            None => block.time,
                        };
                        let status = if start > block.time {
                            VaultStatus::Scheduled
                        } else {
                            VaultStatus::Active
                        };
                        let v = spec_new_vault(
                            (s.vaults.len() + 1) as u64,
                            owner,
                            s.pairs[k],
                            position_type,
                            status,
                            funds@[0],
                            swap_amount,
                            time_interval,
                            slippage_tolerance,
                            target_price,
                            Some(start),
                            dca_plus_escrow_level,
                        );
                        &&& r == Ok::<u64, ContractError>(v.id)
                        &&& final(self)@ == spec_push_vault(
                            s,
                            v,
                            TriggerConfiguration::Time { target_time: start },
                            None,
                            block,
                        )
                    },
                }
            }),
    {
        let ghost gfunds = funds@;
        let mut funds = funds;
        if funds.len() != 1 {
            return Err(ContractError::InvalidInput);
        }
        let f = funds.remove(0);
        if f.amount < 1 {
            return Err(ContractError::InvalidInput);
        }
        if swap_amount < 1 {
            return Err(ContractError::InvalidInput);
        }
        if time_interval.seconds() < 1 {
            return Err(ContractError::InvalidInput);
        }
        if swap_amount > f.amount {
            return Err(ContractError::InvalidInput);
        }
        if let Some(level) = dca_plus_escrow_level {
            if level.atomics > DECIMAL_SCALE {
                return Err(ContractError::InvalidInput);
            }
        }
        let k = match self.find_pair_index(pair_address) {
            Some(k) => k,
            None => {
                return Err(ContractError::NotFound);
            },
        };
        let pair = self.pairs[k].clone();
        let input_denom = match position_type {
            PositionType::Enter => &pair.quote_denom,
            PositionType::Exit => &pair.base_denom,
        };
        if !(f.denom == *input_denom) {
            return Err(ContractError::InvalidInput);
        }
        if self.vaults.len() as u64 >= u64::MAX {
            return Err(ContractError::Overflow);
        }
        let start = match target_start_time_utc_seconds {
            Some(t) => t,
            None => block.time,
        };
        let status = if start > block.time {
            VaultStatus::Scheduled
        } else {
            VaultStatus::Active
        };
        let id = self.vaults.len() as u64 + 1;
        let dca_plus_config = match dca_plus_escrow_level {
            Some(level) => Some(
                DcaPlusConfig {
                    escrow_level: level,
                    escrowed_balance: Coin {
                        denom: match position_type {
                            PositionType::Enter => pair.base_denom.clone(),
                            PositionType::Exit => pair.quote_denom.clone(),
                        },
                        amount: 0,
                    },
                },
            ),
            None => None,
        };
        let deposited: u128 = f.amount;
        let vault = Vault {
            id,
            owner,
            pair,
            position_type,
            status,
            balance: f,
            swap_amount,
            time_interval,
            slippage_tolerance,
            target_price,
            started_at: Some(start),
            deposited_amount: deposited,
            swapped_amount: 0,
            received_amount: 0,
            dca_plus_config,
        };
        let ghost s = self@;
        let ghost gv = vault;
        self.vaults.push(vault);
        self.triggers.push(
            Some(
                Trigger {
                    vault_id: id,
                    configuration: TriggerConfiguration::Time { target_time: start },
                },
            ),
        );
        self.sagas.push(None);
        let mut ledger: Vec<Event> = Vec::new();
        ledger.push(
            Event {
                id: 1,
                resource_id: id,
                timestamp: block.time,
                block_height: block.height,
                data: EventData::DcaVaultCreated {},
            },
        );
        self.events.push(ledger);
        let executions: Vec<Execution> = Vec::new();
        self.executions.push(executions);
        proof {
            assert(self@.events =~= s.events.push(
                seq![
                    Event {
                        id: 1,
                        resource_id: id,
                        timestamp: block.time,
                        block_height: block.height,
                        data: EventData::DcaVaultCreated {},
                    }
                ],
            ));
            assert(self@.executions =~= s.executions.push(Seq::<Execution>::empty()));
            assert(self@ =~= spec_push_vault(
                s,
                gv,
                TriggerConfiguration::Time { target_time: start },
                None,
                block,
            ));
            assert(gv == spec_new_vault(
                (s.vaults.len() + 1) as u64,
                owner,
                s.pairs[spec_find_pair_from(s.pairs, pair_address@, 0)->Some_0],
                position_type,
                status,
                gfunds[0],
                swap_amount,
                time_interval,
                slippage_tolerance,
                target_price,
                Some(start),
                dca_plus_escrow_level,
            ));
            lemma_push_vault_wf(
                s,
                self@,
                gv,
                TriggerConfiguration::Time { target_time: start },
                None,
                block,
            );
        }
        Ok(id)
    }
}

impl DcaState {
    /// Creates a vault driven by a limit order resting at the target price:
    /// the order for the first tranche is submitted right away, and the
    /// venue's order index is reported back later to
    /// [`DcaState::after_fin_limit_order_submitted`].
    pub fn create_vault_with_fin_limit_order_trigger(
        &mut self,
        owner: String,
        pair_address: &String,
        position_type: PositionType,
        swap_amount: u128,
        time_interval: TimeInterval,
        funds: Vec<Coin>,
        slippage_tolerance: Option<Decimal>,
        target_price: Decimal,
        dca_plus_escrow_level: Option<Decimal>,
        block: BlockInfo,
    ) -> (r: Result<(u64, Response), ContractError>)
        requires
            old(self)@.wf(),
        ensures
            final(self)@.wf(),
            ({
                let s = old(self)@;
                let err = if target_price.atomics == 0 {
                    Some(ContractError::InvalidInput)
                } else {
                    spec_create_vault_error(
                        s,
                        pair_address@,
                        position_type,
                        swap_amount,
                        time_interval,
                        funds@,
                        dca_plus_escrow_level,
                    )
                };
                match err {
                    Some(e) => r matches Err(e2) && e2 == e && final(self)@ == s,
                    None => {
                        let k = spec_find_pair_from(s.pairs, pair_address@, 0)->Some_0;
                        let v = spec_new_vault(
                            (s.vaults.len() + 1) as u64,
                            owner,
                            s.pairs[k],
                            position_type,
                            VaultStatus::Active,
                            funds@[0],
                            swap_amount,
                            time_interval,
                            slippage_tolerance,
                            None,
                            None,
                            dca_plus_escrow_level,
                        );
                        &&& r matches Ok(res) && res.0 == v.id && res.1.messages@ == seq![
                            Msg::FinSubmitOrder {
                                pair_address: s.pairs[k].address,
                                price: target_price,
                                offer: Coin { denom: v.balance.denom, amount: swap_amount },
                            },
                        ]
                        &&& final(self)@ == spec_push_vault(
                            s,
                            v,
                            TriggerConfiguration::FinLimitOrder {
                                target_price,
                                order_idx: None,
                                offer_amount: swap_amount,
                            },
                            Some(SagaState::AwaitingOrderSubmission {}),
                            block,
                        )
                    },
                }
            }),
    {
        if target_price.atomics == 0 {
            return Err(ContractError::InvalidInput);
        }
        let ghost gfunds = funds@;
        let mut funds = funds;
        if funds.len() != 1 {
            return Err(ContractError::InvalidInput);
        }
        let f = funds.remove(0);
        if f.amount < 1 {
            return Err(ContractError::InvalidInput);
        }
        if swap_amount < 1 {
            return Err(ContractError::InvalidInput);
        }
        if time_interval.seconds() < 1 {
            return Err(ContractError::InvalidInput);
        }
        if swap_amount > f.amount {
            return Err(ContractError::InvalidInput);
        }
        if let Some(level) = dca_plus_escrow_level {
            if level.atomics > DECIMAL_SCALE {
                return Err(ContractError::InvalidInput);
            }
        }
        let k = match self.find_pair_index(pair_address) {
            Some(k) => k,
            None => {
                return Err(ContractError::NotFound);
            },
        };
        let pair = self.pairs[k].clone();
        let input_denom = match position_type {
            PositionType::Enter => &pair.quote_denom,
            PositionType::Exit => &pair.base_denom,
        };
        if !(f.denom == *input_denom) {
            return Err(ContractError::InvalidInput);
        }
        if self.vaults.len() as u64 >= u64::MAX {
            return Err(ContractError::Overflow);
        }
        let id = self.vaults.len() as u64 + 1;
        let dca_plus_config = match dca_plus_escrow_level {
            Some(level) => Some(
                DcaPlusConfig {
                    escrow_level: level,
                    escrowed_balance: Coin {
                        denom: match position_type {
                            PositionType::Enter => pair.base_denom.clone(),
                            PositionType::Exit => pair.quote_denom.clone(),
                        },
                        amount: 0,
                    },
                },
            ),
            None => None,
        };
        let mut messages: Vec<Msg> = Vec::new();
        messages.push(
            Msg::FinSubmitOrder {
                pair_address: pair.address.clone(),
                price: target_price,
                offer: Coin { denom: f.denom.clone(), amount: swap_amount },
            },
        );
        let deposited: u128 = f.amount;
        let vault = Vault {
            id,
            owner,
            pair,
            position_type,
            status: VaultStatus::Active,
            balance: f,
            swap_amount,
            time_interval,
            slippage_tolerance,
            target_price: None,
            started_at: None,
            deposited_amount: deposited,
            swapped_amount: 0,
            received_amount: 0,
            dca_plus_config,
        };
        let ghost s = self@;
        let ghost gv = vault;
        self.vaults.push(vault);
        self.triggers.push(
            Some(
                Trigger {
                    vault_id: id,
                    configuration: TriggerConfiguration::FinLimitOrder {
                        target_price,
                        order_idx: None,
                        offer_amount: swap_amount,
                    },
                },
            ),
        );
        self.sagas.push(Some(SagaState::AwaitingOrderSubmission {}));
        let mut ledger: Vec<Event> = Vec::new();
        ledger.push(
            Event {
                id: 1,
                resource_id: id,
                timestamp: block.time,
                block_height: block.height,
                data: EventData::DcaVaultCreated {},
            },
        );
        self.events.push(ledger);
        let executions: Vec<Execution> = Vec::new();
        self.executions.push(executions);
        proof {
            assert(self@.events =~= s.events.push(
                seq![
                    Event {
                        id: 1,
                        resource_id: id,
                        timestamp: block.time,
                        block_height: block.height,
                        data: EventData::DcaVaultCreated {},
                    }
                ],
            ));
            assert(self@.executions =~= s.executions.push(Seq::<Execution>::empty()));
            assert(self@ =~= spec_push_vault(
                s,
                gv,
                TriggerConfiguration::FinLimitOrder {
                    target_price,
                    order_idx: None,
                    offer_amount: swap_amount,
                },
                Some(SagaState::AwaitingOrderSubmission {}),
                block,
            ));
            assert(gv == spec_new_vault(
                (s.vaults.len() + 1) as u64,
                owner,
                s.pairs[spec_find_pair_from(s.pairs, pair_address@, 0)->Some_0],
                position_type,
                VaultStatus::Active,
                gfunds[0],
                swap_amount,
                time_interval,
                slippage_tolerance,
                None,
                None,
                dca_plus_escrow_level,
            ));
            lemma_push_vault_wf(
                s,
                self@,
                gv,
                TriggerConfiguration::FinLimitOrder {
                    target_price,
                    order_idx: None,
                    offer_amount: swap_amount,
                },
                Some(SagaState::AwaitingOrderSubmission {}),
                block,
            );
        }
        Ok((id, Response { messages }))
    }
}

/// After appending a well-formed vault with its trigger, saga and fresh
/// ledgers, the state is well-formed again.
proof fn lemma_push_vault_wf(
    s: StateView,
    s2: StateView,
    v: Vault,
    trigger: TriggerConfiguration,
    saga: Option<SagaState>,
    block: BlockInfo,
)
    requires
        s.wf(),
        s2 == spec_push_vault(s, v, trigger, saga, block),
        v.id == s.vaults.len() + 1,
        v.swap_amount >= 1,
        spec_interval_seconds(v.time_interval) >= 1,
        (v.status is Active || v.status is Scheduled) && v.balance.amount >= 1,
        v.balance.denom@ == crate::vault::spec_swap_denom(v),
        v.swapped_amount == 0,
        v.deposited_amount == v.balance.amount,
        match v.dca_plus_config {
            Some(c) => c.escrow_level.atomics <= DECIMAL_SCALE && c.escrowed_balance.denom@
                == crate::vault::spec_receive_denom(v),
            None => true,
        },
        match trigger {
            TriggerConfiguration::Time { .. } => true,
            TriggerConfiguration::FinLimitOrder { offer_amount, order_idx, .. } => 0 < offer_amount
                <= v.balance.amount,
        },
        match saga {
            Some(g) => v.status is Active && (g matches SagaState::AwaitingOrderSubmission {})
                && (trigger matches TriggerConfiguration::FinLimitOrder { order_idx: None, .. }),
            None => true,
        },
    ensures
        s2.wf(),
{
    let n = s.vaults.len() as int;
    assert(s2.wf_lengths());
    assert forall|i: int| 0 <= i < s2.vaults.len() implies #[trigger] s2.wf_vault(i) by {
        if i < n {
            assert(s.wf_vault(i));
            assert(s2.vaults[i] == s.vaults[i]);
            assert(s2.executions[i] == s.executions[i]);
        } else {
            assert(s2.executions[i] =~= Seq::<Execution>::empty());
        }
    }
    assert forall|i: int| 0 <= i < s2.vaults.len() implies #[trigger] s2.wf_trigger(i) by {
        if i < n {
            assert(s.wf_trigger(i));
            assert(s2.triggers[i] == s.triggers[i]);
            assert(s2.vaults[i] == s.vaults[i]);
        }
    }
    assert forall|i: int| 0 <= i < s2.vaults.len() implies #[trigger] s2.wf_saga(i) by {
        if i < n {
            assert(s.wf_saga(i));
            assert(s2.sagas[i] == s.sagas[i]);
            assert(s2.triggers[i] == s.triggers[i]);
            assert(s2.vaults[i] == s.vaults[i]);
        }
    }
    assert forall|i: int| 0 <= i < s2.vaults.len() implies #[trigger] s2.wf_ledgers(i) by {
        if i < n {
            assert(s.wf_ledgers(i));
            assert(s2.events[i] == s.events[i]);
            assert(s2.executions[i] == s.executions[i]);
        }
    }
    assert forall|k: int| 0 <= k < s2.limit_orders.len() implies #[trigger] s2.order_entry_matches(
        k,
    ) by {
        assert(s.order_entry_matches(k));
        let e = s2.limit_orders[k];
        assert(s2.triggers[e.vault_id - 1] == s.triggers[e.vault_id - 1]);
    }
    assert forall|k: int| 0 <= k < s2.escrow_tasks.len() implies s2.valid_vault_id(
        (#[trigger] s2.escrow_tasks[k]).vault_id,
    ) && crate::vault::spec_is_terminal(s2.vaults[s2.escrow_tasks[k].vault_id - 1].status)
        && s2.vaults[s2.escrow_tasks[k].vault_id - 1].dca_plus_config is Some by {
        assert(s.wf_tasks());
        let t = s2.escrow_tasks[k];
        assert(s.escrow_tasks[k] == t);
        assert(s2.vaults[t.vault_id - 1] == s.vaults[t.vault_id - 1]);
    }
}

} // verus!

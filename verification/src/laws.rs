use vstd::prelude::*;
use crate::after_fin_swap::{spec_after_swap_error, spec_swap_skip_apply, spec_swap_success_apply};
use crate::cancel_vault::{spec_cancel_apply, spec_cancel_error};
use crate::error::ContractError;
use crate::event::BlockInfo;
use crate::execution::spec_total_sent;
use crate::fin_limit_orders::{spec_withdrawn_apply, spec_withdrawn_error};
use crate::response::SwapResult;
use crate::state::{
    StateView, lemma_find_order_absent, lemma_find_order_from_some, spec_find_order_from,
};
use crate::trigger::spec_next_target_time;

verus! {

/// For every vault that has not been cancelled, the remaining balance is
/// exactly the funds the owner put in minus the sum of what its successful
/// tranches sent to the venue — so the balance decreases only by exactly the
/// amounts actually sent.
pub proof fn lemma_balance_accounting(s: StateView, vault_id: u64)
    requires
        s.wf(),
        s.valid_vault_id(vault_id),
        !(s.vaults[vault_id - 1].status is Cancelled),
    ensures
        s.vaults[vault_id - 1].balance.amount == s.vaults[vault_id - 1].deposited_amount
            - spec_total_sent(s.executions[vault_id - 1]),
{
    assert(s.wf_vault(vault_id - 1));
}

/// A slippage-skipped tranche settles without touching any vault: balances
/// and cumulative totals are exactly what they were.
pub proof fn lemma_skip_preserves_vaults(s: StateView, i: int, block: BlockInfo)
    ensures
        crate::after_fin_swap::spec_swap_skip_apply(s, i, block).vaults == s.vaults,
{
}

/// Execution and event sequence numbers of every vault are contiguous
/// integers starting at one, strictly increasing with no gaps or duplicates.
/// (A retried confirmation cannot disturb this: replaying one finds no
/// pending saga and fails with `NotFound`, changing nothing.)
pub proof fn lemma_sequence_numbers_contiguous(s: StateView, vault_id: u64)
    requires
        s.wf(),
        s.valid_vault_id(vault_id),
    ensures
        forall|j: int|
            0 <= j < s.executions[vault_id - 1].len() ==> (#[trigger] s.executions[vault_id
                - 1][j]).sequence_number == j + 1,
        forall|j: int|
            0 <= j < s.events[vault_id - 1].len() ==> (#[trigger] s.events[vault_id - 1][j]).id == j
                + 1,
{
    assert(s.wf_ledgers(vault_id - 1));
}

/// Cancelling a vault is idempotent by rejection: once a cancellation has
/// succeeded, any further attempt by the owner or an administrator fails
/// with `AlreadyTerminal` — and a failed cancellation leaves the state,
/// including the event ledger, untouched (that is the handler's contract on
/// every error).
pub proof fn lemma_cancel_idempotent(
    s: StateView,
    sender1: Seq<char>,
    sender2: Seq<char>,
    vault_id: u64,
    block: BlockInfo,
)
    requires
        s.wf(),
        spec_cancel_error(s, sender1, vault_id) is None,
        sender2 == s.vaults[vault_id - 1].owner@ || sender2 == s.admin,
    ensures
        spec_cancel_error(spec_cancel_apply(s, vault_id - 1, block), sender2, vault_id) == Some(
            ContractError::AlreadyTerminal,
        ),
{
}

/// Settling a swap confirmation is exactly-once: once one has settled (as a
/// success or a slippage skip), the saga is cleared, so replaying any
/// confirmation for the same vault fails with `NotFound` — and a failed
/// confirmation leaves the state untouched (the handler's contract on every
/// error), so no economic effect can be applied twice.
pub proof fn lemma_swap_confirmation_replay_rejected(
    s: StateView,
    vault_id: u64,
    result: SwapResult,
    result2: SwapResult,
    block: BlockInfo,
    block2: BlockInfo,
)
    requires
        s.wf(),
        spec_after_swap_error(s, vault_id, result, block) is None,
    ensures
        spec_after_swap_error(
            match result {
                SwapResult::SlippageExceeded => spec_swap_skip_apply(s, vault_id - 1, block),
                SwapResult::Succeeded { received } => spec_swap_success_apply(
                    s,
                    vault_id - 1,
                    received,
                    block,
                ),
            },
            vault_id,
            result2,
            block2,
        ) == Some(ContractError::NotFound),
{
}

/// Settling an order withdrawal is exactly-once: a full settlement deletes
/// the reverse-index entry in the same step, and a partial one clears the
/// pending saga, so replaying the confirmation fails with `NotFound` either
/// way.
pub proof fn lemma_withdrawal_replay_rejected(
    s: StateView,
    order_idx: u128,
    received: u128,
    received2: u128,
    block: BlockInfo,
)
    requires
        s.wf(),
        spec_withdrawn_error(s, order_idx, received) is None,
    ensures
        ({
            let e = spec_find_order_from(s.limit_orders, order_idx, 0)->Some_0;
            let i = s.limit_orders[e].vault_id - 1;
            spec_withdrawn_error(
                spec_withdrawn_apply(s, i, e, received, block),
                order_idx,
                received2,
            ) == Some(ContractError::NotFound)
        }),
{
    lemma_find_order_from_some(s.limit_orders, order_idx, 0);
    let e = spec_find_order_from(s.limit_orders, order_idx, 0)->Some_0;
    let i = s.limit_orders[e].vault_id - 1;
    assert(s.order_entry_matches(e));
    let s2 = spec_withdrawn_apply(s, i, e, received, block);
    match s.sagas[i] {
        Some(crate::state::SagaState::AwaitingWithdrawalConfirmation { consumed, partial }) => {
            if partial {
                assert(s2.limit_orders == s.limit_orders);
                assert(s2.sagas[i] is None);
            } else {
                s.limit_orders.remove_ensures(e);
                assert forall|k: int|
                    0 <= k < s2.limit_orders.len() implies (
                #[trigger] s2.limit_orders[k]).order_idx != order_idx by {
                    let o = if k < e {
                        k
                    } else {
                        k + 1
                    };
                    assert(s2.limit_orders[k] == s.limit_orders[o]);
                    if o < e {
                        assert(s.limit_orders[o].order_idx != s.limit_orders[e].order_idx);
                    } else {
                        assert(s.limit_orders[e].order_idx != s.limit_orders[o].order_idx);
                    }
                }
                lemma_find_order_absent(s2.limit_orders, order_idx, 0);
            }
        },
        _ => {
            assert(false);
        },
    }
}

/// A trigger's scheduled time only ever moves forward: one advance lands
/// strictly past the previous target, and advancing again from that result
/// never yields a time at or below it.
pub proof fn lemma_trigger_advance_monotonic(
    target: u64,
    interval_seconds: u64,
    now1: u64,
    now2: u64,
)
    requires
        interval_seconds >= 1,
    ensures
        spec_next_target_time(target, interval_seconds, now1) > target,
        spec_next_target_time(target, interval_seconds, now1) <= u64::MAX
            ==> spec_next_target_time(
            spec_next_target_time(target, interval_seconds, now1) as u64,
            interval_seconds,
            now2,
        ) > spec_next_target_time(target, interval_seconds, now1),
{
}

} // verus!

use dca::decimal::Decimal;
use dca::error::ContractError;
use dca::event::BlockInfo;
use dca::execution::ExecutionResult;
use dca::response::{ExecuteOutcome, Msg, OrderStatus};
use dca::state::DcaState;
use dca::trigger::TriggerConfiguration;
use dca::vault::{Coin, PositionType, TimeInterval, VaultStatus};

const USER: &str = "user";
const ADMIN: &str = "admin";
const DENOM_UKUJI: &str = "ukuji";
const DENOM_UTEST: &str = "utest";

fn mock_block() -> BlockInfo {
    BlockInfo { height: 12345, time: 1_571_797_419 }
}

fn mock_app() -> DcaState {
    let mut state = DcaState::instantiate(String::from(ADMIN), String::from("fee_collector"));
    state
        .create_pair(
            &String::from(ADMIN),
            String::from("fin"),
            String::from(DENOM_UTEST),
            String::from(DENOM_UKUJI),
            0,
        )
        .unwrap();
    state
}

fn create_limit_order_vault(state: &mut DcaState, funds: u128, swap_amount: u128) -> u64 {
    let (vault_id, response) = state
        .create_vault_with_fin_limit_order_trigger(
            String::from(USER),
            &String::from("fin"),
            PositionType::Enter,
            swap_amount,
            TimeInterval::Hourly,
            vec![Coin::new(funds, String::from(DENOM_UKUJI))],
            None,
            Decimal::one(),
            None,
            mock_block(),
        )
        .unwrap();
    assert!(response.messages.contains(&Msg::FinSubmitOrder {
        pair_address: String::from("fin"),
        price: Decimal::one(),
        offer: Coin::new(swap_amount, String::from(DENOM_UKUJI)),
    }));
    vault_id
}

#[test]
fn should_fetch_existing_trigger_id_by_order_idx() {
    let mut state = mock_app();
    let vault_id = create_limit_order_vault(&mut state, 100, 10);

    state.after_fin_limit_order_submitted(vault_id, 1).unwrap();

    let trigger_id = state.get_trigger_id_by_fin_limit_order_idx(1).unwrap();
    assert_eq!(trigger_id, vault_id);
}

#[test]
fn unknown_order_idx_lookup_should_fail() {
    let state = mock_app();
    let err = state.get_trigger_id_by_fin_limit_order_idx(7).unwrap_err();
    assert_eq!(err, ContractError::NotFound);
}

#[test]
fn fully_filled_order_settles_and_completes_the_vault() {
    let mut state = mock_app();
    let vault_id = create_limit_order_vault(&mut state, 10, 10);
    state.after_fin_limit_order_submitted(vault_id, 1).unwrap();

    let response = state
        .execute_price_trigger(
            vault_id,
            OrderStatus { remaining_amount: 0, filled_amount: 10 },
        )
        .unwrap();
    assert_eq!(response.outcome, ExecuteOutcome::WithdrawalRequested);
    assert!(response.messages.contains(&Msg::FinWithdrawOrder {
        pair_address: String::from("fin"),
        order_idx: 1,
    }));

    let settle = state
        .after_fin_limit_order_withdrawn_for_execute_trigger(1, 10, mock_block())
        .unwrap();
    assert!(settle.messages.contains(&Msg::BankSend {
        to_address: String::from(USER),
        amount: Coin::new(10, String::from(DENOM_UTEST)),
    }));

    let vault = state.get_vault(vault_id).unwrap();
    assert_eq!(vault.status, VaultStatus::Completed);
    assert_eq!(vault.balance.amount, 0);
    assert_eq!(vault.swapped_amount, 10);
    assert_eq!(vault.received_amount, 10);
    assert!(state.get_trigger(vault_id).unwrap().is_none());

    let executions = state.get_executions_by_vault_id(vault_id).unwrap();
    assert_eq!(executions.len(), 1);
    assert_eq!(executions[0].sequence_number, 1);
    assert_eq!(executions[0].execution_result, ExecutionResult::Success);
}

#[test]
fn replayed_withdrawal_confirmation_fails_with_not_found() {
    let mut state = mock_app();
    let vault_id = create_limit_order_vault(&mut state, 10, 10);
    state.after_fin_limit_order_submitted(vault_id, 1).unwrap();
    state
        .execute_price_trigger(
            vault_id,
            OrderStatus { remaining_amount: 0, filled_amount: 10 },
        )
        .unwrap();
    state
        .after_fin_limit_order_withdrawn_for_execute_trigger(1, 10, mock_block())
        .unwrap();

    // Settlement deleted the reverse-index entry: the duplicate confirmation
    // finds no matching vault and fails harmlessly.
    let err = state
        .after_fin_limit_order_withdrawn_for_execute_trigger(1, 10, mock_block())
        .unwrap_err();
    assert_eq!(err, ContractError::NotFound);
    assert_eq!(state.get_vault(vault_id).unwrap().received_amount, 10);
}

#[test]
fn partially_filled_order_settles_the_filled_part_and_keeps_the_order() {
    let mut state = mock_app();
    let vault_id = create_limit_order_vault(&mut state, 10, 10);
    state.after_fin_limit_order_submitted(vault_id, 1).unwrap();

    state
        .execute_price_trigger(
            vault_id,
            OrderStatus { remaining_amount: 5, filled_amount: 5 },
        )
        .unwrap();
    state
        .after_fin_limit_order_withdrawn_for_execute_trigger(1, 5, mock_block())
        .unwrap();

    let vault = state.get_vault(vault_id).unwrap();
    assert_eq!(vault.status, VaultStatus::Active);
    assert_eq!(vault.balance.amount, 5);
    assert_eq!(vault.swapped_amount, 5);
    assert_eq!(vault.received_amount, 5);

    // The reduced order is still resting under the same index.
    match state.get_trigger(vault_id).unwrap() {
        Some(trigger) => match trigger.configuration {
            TriggerConfiguration::FinLimitOrder { order_idx, offer_amount, .. } => {
                assert_eq!(order_idx, Some(1));
                assert_eq!(offer_amount, 5);
            },
            _ => panic!("expected a limit-order trigger"),
        },
        None => panic!("expected the trigger to survive a partial fill"),
    }
    assert_eq!(state.get_trigger_id_by_fin_limit_order_idx(1).unwrap(), vault_id);
}

#[test]
fn full_fill_with_remaining_balance_rearms_a_fresh_order() {
    let mut state = mock_app();
    let vault_id = create_limit_order_vault(&mut state, 20, 10);
    state.after_fin_limit_order_submitted(vault_id, 1).unwrap();

    state
        .execute_price_trigger(
            vault_id,
            OrderStatus { remaining_amount: 0, filled_amount: 10 },
        )
        .unwrap();
    let settle = state
        .after_fin_limit_order_withdrawn_for_execute_trigger(1, 10, mock_block())
        .unwrap();

    assert!(settle.messages.contains(&Msg::FinSubmitOrder {
        pair_address: String::from("fin"),
        price: Decimal::one(),
        offer: Coin::new(10, String::from(DENOM_UKUJI)),
    }));

    let vault = state.get_vault(vault_id).unwrap();
    assert_eq!(vault.status, VaultStatus::Active);
    assert_eq!(vault.balance.amount, 10);

    // The old index is gone until the new submission is confirmed.
    assert_eq!(
        state.get_trigger_id_by_fin_limit_order_idx(1).unwrap_err(),
        ContractError::NotFound,
    );
    state.after_fin_limit_order_submitted(vault_id, 2).unwrap();
    assert_eq!(state.get_trigger_id_by_fin_limit_order_idx(2).unwrap(), vault_id);
}

#[test]
fn unfilled_order_is_not_eligible_for_execution() {
    let mut state = mock_app();
    let vault_id = create_limit_order_vault(&mut state, 10, 10);
    state.after_fin_limit_order_submitted(vault_id, 1).unwrap();

    let err = state
        .execute_price_trigger(
            vault_id,
            OrderStatus { remaining_amount: 10, filled_amount: 0 },
        )
        .unwrap_err();
    assert_eq!(err, ContractError::NotEligible);
}

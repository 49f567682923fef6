use dca::decimal::Decimal;
use dca::error::ContractError;
use dca::event::BlockInfo;
use dca::execution::ExecutionResult;
use dca::response::{ExecuteOutcome, Msg, SwapResult};
use dca::state::DcaState;
use dca::vault::{Coin, PositionType, TimeInterval, VaultStatus};

const USER: &str = "user";
const ADMIN: &str = "admin";
const DENOM_UKUJI: &str = "ukuji";
const DENOM_UTEST: &str = "utest";

fn mock_block() -> BlockInfo {
    BlockInfo { height: 12345, time: 1_571_797_419 }
}

fn elapse_time(block: BlockInfo, seconds: u64) -> BlockInfo {
    let seconds_per_block = 5u64;
    BlockInfo { height: block.height + seconds / seconds_per_block, time: block.time + seconds }
}

fn mock_app() -> DcaState {
    let mut state = DcaState::instantiate(String::from(ADMIN), String::from("fee_collector"));
    state
        .create_pair(
            &String::from(ADMIN),
            String::from("fin"),
            String::from(DENOM_UKUJI),
            String::from(DENOM_UTEST),
            0,
        )
        .unwrap();
    state
}

fn create_vault(
    state: &mut DcaState,
    funds: u128,
    swap_amount: u128,
    slippage_tolerance: Option<Decimal>,
    block: BlockInfo,
) -> u64 {
    state
        .create_vault_with_time_trigger(
            String::from(USER),
            &String::from("fin"),
            PositionType::Enter,
            swap_amount,
            TimeInterval::Hourly,
            vec![Coin::new(funds, String::from(DENOM_UTEST))],
            slippage_tolerance,
            None,
            None,
            None,
            block,
        )
        .unwrap()
}

#[test]
fn execute_vault_by_address_and_id_should_succeed() {
    let mut state = mock_app();
    let block = mock_block();
    let vault_id = create_vault(&mut state, 100, 100, None, block);

    let execute_response = state.execute_trigger(vault_id, None, block).unwrap();
    assert_eq!(execute_response.outcome, ExecuteOutcome::SwapRequested);

    let response = state
        .after_fin_swap(vault_id, SwapResult::Succeeded { received: 100 }, block)
        .unwrap();

    assert!(response.messages.contains(&Msg::BankSend {
        to_address: String::from(USER),
        amount: Coin::new(100, String::from(DENOM_UKUJI)),
    }));

    let vault = state.get_vault(vault_id).unwrap();
    assert_eq!(vault.balance.amount, 0);
    assert_eq!(vault.status, VaultStatus::Completed);

    let executions = state.get_executions_by_vault_id(vault_id).unwrap();
    assert_eq!(executions.len(), 1);
    assert_eq!(executions[0].vault_id, vault_id);
    assert_eq!(executions[0].execution_result, ExecutionResult::Success);
    assert_eq!(executions[0].block_height, block.height);
    assert_eq!(executions[0].sequence_number, 1);
    let info = executions[0].execution_information.as_ref().unwrap();
    assert_eq!(info.sent, Coin::new(100, String::from(DENOM_UTEST)));
    assert_eq!(info.received, Coin::new(100, String::from(DENOM_UKUJI)));
}

#[test]
fn execute_vault_by_address_and_id_multiple_times_should_succeed() {
    let mut state = mock_app();
    let first_block = mock_block();
    let vault_id = create_vault(&mut state, 200, 100, None, first_block);

    state.execute_trigger(vault_id, None, first_block).unwrap();
    state
        .after_fin_swap(vault_id, SwapResult::Succeeded { received: 100 }, first_block)
        .unwrap();

    let second_block = elapse_time(first_block, 3600);

    state.execute_trigger(vault_id, None, second_block).unwrap();
    state
        .after_fin_swap(vault_id, SwapResult::Succeeded { received: 100 }, second_block)
        .unwrap();

    let vault = state.get_vault(vault_id).unwrap();
    assert_eq!(vault.balance.amount, 0);
    assert_eq!(vault.status, VaultStatus::Completed);

    let executions = state.get_executions_by_vault_id(vault_id).unwrap();
    assert_eq!(executions.len(), 2);
    assert_eq!(executions[0].vault_id, vault_id);
    assert_eq!(executions[1].vault_id, vault_id);
    assert_eq!(executions[0].block_height, first_block.height);
    assert_eq!(executions[1].block_height, second_block.height);
    assert!(executions[0].block_height < executions[1].block_height);
    assert_eq!(executions[0].sequence_number, 1);
    assert_eq!(executions[1].sequence_number, 2);
    assert_eq!(executions[0].execution_result, ExecutionResult::Success);
    assert_eq!(executions[1].execution_result, ExecutionResult::Success);
}

#[test]
fn execute_vault_by_address_and_id_exceed_slippage_should_skip_execution() {
    let mut state = mock_app();
    let block = mock_block();
    let vault_id = create_vault(&mut state, 100, 100, Some(Decimal::percent(50)), block);

    state.execute_trigger(vault_id, None, block).unwrap();
    let response = state
        .after_fin_swap(vault_id, SwapResult::SlippageExceeded, block)
        .unwrap();

    assert!(response.messages.is_empty());

    let vault = state.get_vault(vault_id).unwrap();
    assert_eq!(vault.balance.amount, 100);
    assert_eq!(vault.status, VaultStatus::Active);

    let trigger = state.get_trigger(vault_id).unwrap();
    assert!(trigger.is_some());

    let executions = state.get_executions_by_vault_id(vault_id).unwrap();
    assert_eq!(executions.len(), 1);
    assert_eq!(executions[0].vault_id, vault_id);
    assert_eq!(executions[0].execution_result, ExecutionResult::SlippageToleranceExceeded);
    assert_eq!(executions[0].block_height, block.height);
    assert_eq!(executions[0].sequence_number, 1);
    assert!(executions[0].execution_information.is_none());
}

#[test]
fn skipped_execution_advances_the_trigger() {
    let mut state = mock_app();
    let block = mock_block();
    let vault_id = create_vault(&mut state, 100, 100, Some(Decimal::percent(50)), block);

    state.execute_trigger(vault_id, None, block).unwrap();
    state
        .after_fin_swap(vault_id, SwapResult::SlippageExceeded, block)
        .unwrap();

    // The skipped tranche consumed its slot: the trigger is due again only
    // one interval later.
    let err = state.execute_trigger(vault_id, None, block).unwrap_err();
    assert_eq!(err, ContractError::NotEligible);

    let later = elapse_time(block, 3600);
    let response = state.execute_trigger(vault_id, None, later).unwrap();
    assert_eq!(response.outcome, ExecuteOutcome::SwapRequested);
}

#[test]
fn replayed_confirmation_should_fail_with_not_found() {
    let mut state = mock_app();
    let block = mock_block();
    let vault_id = create_vault(&mut state, 200, 100, None, block);

    state.execute_trigger(vault_id, None, block).unwrap();
    state
        .after_fin_swap(vault_id, SwapResult::Succeeded { received: 100 }, block)
        .unwrap();

    let err = state
        .after_fin_swap(vault_id, SwapResult::Succeeded { received: 100 }, block)
        .unwrap_err();
    assert_eq!(err, ContractError::NotFound);

    // No double-credit: exactly one execution and one debit happened.
    let vault = state.get_vault(vault_id).unwrap();
    assert_eq!(vault.balance.amount, 100);
    assert_eq!(vault.received_amount, 100);
    assert_eq!(state.get_executions_by_vault_id(vault_id).unwrap().len(), 1);
}

#[test]
fn execute_trigger_before_due_time_should_fail() {
    let mut state = mock_app();
    let block = mock_block();
    let vault_id = state
        .create_vault_with_time_trigger(
            String::from(USER),
            &String::from("fin"),
            PositionType::Enter,
            100,
            TimeInterval::Hourly,
            vec![Coin::new(100, String::from(DENOM_UTEST))],
            None,
            None,
            Some(block.time + 60),
            None,
            block,
        )
        .unwrap();

    assert_eq!(state.get_vault(vault_id).unwrap().status, VaultStatus::Scheduled);
    let err = state.execute_trigger(vault_id, None, block).unwrap_err();
    assert_eq!(err, ContractError::NotEligible);
}

#[test]
fn execute_trigger_with_unmet_price_condition_should_skip_without_side_effects() {
    let mut state = mock_app();
    let block = mock_block();
    let vault_id = state
        .create_vault_with_time_trigger(
            String::from(USER),
            &String::from("fin"),
            PositionType::Enter,
            100,
            TimeInterval::Hourly,
            vec![Coin::new(100, String::from(DENOM_UTEST))],
            None,
            Some(Decimal::one()),
            None,
            None,
            block,
        )
        .unwrap();

    // Entering requires the venue price at or below the target; 1.5 > 1.
    let response = state
        .execute_trigger(vault_id, Some(Decimal::percent(150)), block)
        .unwrap();
    assert_eq!(response.outcome, ExecuteOutcome::PriceConditionNotMet);
    assert!(response.messages.is_empty());
    assert!(state.get_executions_by_vault_id(vault_id).unwrap().is_empty());
    assert!(state.get_trigger(vault_id).unwrap().is_some());

    // At the target the condition holds.
    let response = state
        .execute_trigger(vault_id, Some(Decimal::one()), block)
        .unwrap();
    assert_eq!(response.outcome, ExecuteOutcome::SwapRequested);
}

#[test]
fn pending_confirmation_blocks_a_second_initiation() {
    let mut state = mock_app();
    let block = mock_block();
    let vault_id = create_vault(&mut state, 200, 100, None, block);

    state.execute_trigger(vault_id, None, block).unwrap();
    let err = state.execute_trigger(vault_id, None, block).unwrap_err();
    assert_eq!(err, ContractError::PendingConfirmation);
}

#[test]
fn time_triggers_are_returned_oldest_first_and_capped() {
    let mut state = mock_app();
    let block = mock_block();
    for start_offset in [40u64, 20u64, 30u64, 10u64] {
        state
            .create_vault_with_time_trigger(
                String::from(USER),
                &String::from("fin"),
                PositionType::Enter,
                10,
                TimeInterval::Hourly,
                vec![Coin::new(100, String::from(DENOM_UTEST))],
                None,
                None,
                Some(block.time + start_offset),
                None,
                block,
            )
            .unwrap();
    }

    let later = BlockInfo { height: block.height + 10, time: block.time + 25 };
    let due = state.get_time_trigger_ids(later.time, None, None);
    assert_eq!(due, vec![4, 2]);

    let capped = state.get_time_trigger_ids(block.time + 100, None, Some(3));
    assert_eq!(capped, vec![4, 2, 3]);

    // A paged walk restarts from the key of the last returned trigger.
    let first_page = state.get_time_trigger_ids(block.time + 100, None, Some(2));
    assert_eq!(first_page, vec![4, 2]);
    let second_page =
        state.get_time_trigger_ids(block.time + 100, Some((block.time + 20, 2)), Some(2));
    assert_eq!(second_page, vec![3, 1]);
}

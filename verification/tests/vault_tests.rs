use dca::decimal::{DECIMAL_SCALE, Decimal};
use dca::error::ContractError;
use dca::event::{BlockInfo, EventBuilder, EventData};
use dca::response::{Msg, SwapResult};
use dca::state::DcaState;
use dca::vault::{Coin, PositionType, TimeInterval, VaultStatus};

const USER: &str = "user";
const ADMIN: &str = "admin";
const FEE_COLLECTOR: &str = "fee_collector";
const DENOM_UKUJI: &str = "ukuji";
const DENOM_UTEST: &str = "utest";

fn mock_block() -> BlockInfo {
    BlockInfo { height: 12345, time: 1_571_797_419 }
}

fn mock_app() -> DcaState {
    let mut state = DcaState::instantiate(String::from(ADMIN), String::from(FEE_COLLECTOR));
    state
        .create_pair(
            &String::from(ADMIN),
            String::from("fin"),
            String::from(DENOM_UKUJI),
            String::from(DENOM_UTEST),
            0,
        )
        .unwrap();
    state
}

fn create_vault(state: &mut DcaState, funds: u128, swap_amount: u128, dca_plus: Option<Decimal>) -> u64 {
    state
        .create_vault_with_time_trigger(
            String::from(USER),
            &String::from("fin"),
            PositionType::Enter,
            swap_amount,
            TimeInterval::Hourly,
            vec![Coin::new(funds, String::from(DENOM_UTEST))],
            None,
            None,
            None,
            dca_plus,
            mock_block(),
        )
        .unwrap()
}

#[test]
fn create_vault_with_mismatched_denom_should_fail() {
    let mut state = mock_app();
    let err = state
        .create_vault_with_time_trigger(
            String::from(USER),
            &String::from("fin"),
            PositionType::Enter,
            10,
            TimeInterval::Hourly,
            vec![Coin::new(100, String::from(DENOM_UKUJI))],
            None,
            None,
            None,
            None,
            mock_block(),
        )
        .unwrap_err();
    assert_eq!(err, ContractError::InvalidInput);
}

#[test]
fn create_vault_with_swap_amount_above_funds_should_fail() {
    let mut state = mock_app();
    let err = state
        .create_vault_with_time_trigger(
            String::from(USER),
            &String::from("fin"),
            PositionType::Enter,
            101,
            TimeInterval::Hourly,
            vec![Coin::new(100, String::from(DENOM_UTEST))],
            None,
            None,
            None,
            None,
            mock_block(),
        )
        .unwrap_err();
    assert_eq!(err, ContractError::InvalidInput);
}

#[test]
fn create_vault_with_two_funding_assets_should_fail() {
    let mut state = mock_app();
    let err = state
        .create_vault_with_time_trigger(
            String::from(USER),
            &String::from("fin"),
            PositionType::Enter,
            10,
            TimeInterval::Hourly,
            vec![
                Coin::new(100, String::from(DENOM_UTEST)),
                Coin::new(100, String::from(DENOM_UKUJI)),
            ],
            None,
            None,
            None,
            None,
            mock_block(),
        )
        .unwrap_err();
    assert_eq!(err, ContractError::InvalidInput);
}

#[test]
fn create_vault_with_unknown_pair_should_fail() {
    let mut state = mock_app();
    let err = state
        .create_vault_with_time_trigger(
            String::from(USER),
            &String::from("unknown"),
            PositionType::Enter,
            10,
            TimeInterval::Hourly,
            vec![Coin::new(100, String::from(DENOM_UTEST))],
            None,
            None,
            None,
            None,
            mock_block(),
        )
        .unwrap_err();
    assert_eq!(err, ContractError::NotFound);
}

#[test]
fn create_pair_by_non_admin_should_fail() {
    let mut state = mock_app();
    let err = state
        .create_pair(
            &String::from(USER),
            String::from("fin2"),
            String::from(DENOM_UKUJI),
            String::from(DENOM_UTEST),
            1,
        )
        .unwrap_err();
    assert_eq!(err, ContractError::Unauthorized);
}

#[test]
fn deposit_should_increase_balance_and_record_event() {
    let mut state = mock_app();
    let vault_id = create_vault(&mut state, 100, 10, None);

    state
        .deposit(
            &String::from(USER),
            vault_id,
            vec![Coin::new(50, String::from(DENOM_UTEST))],
            mock_block(),
        )
        .unwrap();

    let vault = state.get_vault(vault_id).unwrap();
    assert_eq!(vault.balance.amount, 150);
    assert_eq!(vault.deposited_amount, 150);

    let events = state.get_events_by_resource_id(vault_id).unwrap();
    assert!(events.contains(
        &EventBuilder::new(
            vault_id,
            mock_block(),
            EventData::DcaVaultFundsDeposited {
                amount: Coin::new(50, String::from(DENOM_UTEST)),
            },
        )
            .build(2)
    ));
}

#[test]
fn deposit_with_wrong_owner_should_fail() {
    let mut state = mock_app();
    let vault_id = create_vault(&mut state, 100, 10, None);
    let err = state
        .deposit(
            &String::from("not-the-owner"),
            vault_id,
            vec![Coin::new(50, String::from(DENOM_UTEST))],
            mock_block(),
        )
        .unwrap_err();
    assert_eq!(err, ContractError::Unauthorized);
}

#[test]
fn deposit_with_wrong_denom_should_fail() {
    let mut state = mock_app();
    let vault_id = create_vault(&mut state, 100, 10, None);
    let err = state
        .deposit(
            &String::from(USER),
            vault_id,
            vec![Coin::new(50, String::from(DENOM_UKUJI))],
            mock_block(),
        )
        .unwrap_err();
    assert_eq!(err, ContractError::DenomMismatch);
}

#[test]
fn deposit_into_cancelled_vault_should_fail() {
    let mut state = mock_app();
    let vault_id = create_vault(&mut state, 100, 10, None);
    state
        .cancel_vault_handler(&String::from(ADMIN), vault_id, mock_block())
        .unwrap();
    let err = state
        .deposit(
            &String::from(USER),
            vault_id,
            vec![Coin::new(50, String::from(DENOM_UTEST))],
            mock_block(),
        )
        .unwrap_err();
    assert_eq!(err, ContractError::AlreadyTerminal);
}

#[test]
fn deposit_overflowing_the_running_total_should_fail() {
    let mut state = mock_app();
    let vault_id = create_vault(&mut state, u128::MAX, 10, None);
    let err = state
        .deposit(
            &String::from(USER),
            vault_id,
            vec![Coin::new(1, String::from(DENOM_UTEST))],
            mock_block(),
        )
        .unwrap_err();
    assert_eq!(err, ContractError::Overflow);
    assert_eq!(state.get_vault(vault_id).unwrap().balance.amount, u128::MAX);
}

#[test]
fn deposit_reactivates_a_scheduled_vault_past_its_start() {
    let mut state = mock_app();
    let block = mock_block();
    let vault_id = state
        .create_vault_with_time_trigger(
            String::from(USER),
            &String::from("fin"),
            PositionType::Enter,
            10,
            TimeInterval::Hourly,
            vec![Coin::new(100, String::from(DENOM_UTEST))],
            None,
            None,
            Some(block.time + 60),
            None,
            block,
        )
        .unwrap();
    assert_eq!(state.get_vault(vault_id).unwrap().status, VaultStatus::Scheduled);

    let later = BlockInfo { height: block.height + 20, time: block.time + 100 };
    state
        .deposit(
            &String::from(USER),
            vault_id,
            vec![Coin::new(50, String::from(DENOM_UTEST))],
            later,
        )
        .unwrap();
    assert_eq!(state.get_vault(vault_id).unwrap().status, VaultStatus::Active);
}

#[test]
fn expected_completion_date_counts_remaining_tranches() {
    let mut state = mock_app();
    let block = mock_block();
    let vault_id = create_vault(&mut state, 100, 10, None);
    let vault = state.get_vault(vault_id).unwrap();
    assert_eq!(
        vault.get_expected_execution_completed_date(block.time),
        block.time + 10 * 3600,
    );

    let vault_id = create_vault(&mut state, 95, 10, None);
    let vault = state.get_vault(vault_id).unwrap();
    assert_eq!(
        vault.get_expected_execution_completed_date(block.time),
        block.time + 10 * 3600,
    );
}

#[test]
fn decimal_percent_scales_to_atomics() {
    assert_eq!(Decimal::percent(50).atomics, DECIMAL_SCALE / 2);
    assert_eq!(Decimal::one().atomics, DECIMAL_SCALE);
}

#[test]
fn successful_execution_escrows_the_configured_part() {
    let mut state = mock_app();
    let block = mock_block();
    let vault_id = create_vault(&mut state, 100, 100, Some(Decimal::percent(5)));

    state.execute_trigger(vault_id, None, block).unwrap();
    let response = state
        .after_fin_swap(vault_id, SwapResult::Succeeded { received: 100 }, block)
        .unwrap();

    // 5% of the proceeds stays escrowed; the owner receives the rest.
    assert!(response.messages.contains(&Msg::BankSend {
        to_address: String::from(USER),
        amount: Coin::new(95, String::from(DENOM_UKUJI)),
    }));
    let vault = state.get_vault(vault_id).unwrap();
    let config = vault.dca_plus_config.as_ref().unwrap();
    assert_eq!(config.escrowed_balance.amount, 5);
    assert_eq!(vault.status, VaultStatus::Completed);
}

#[test]
fn completed_dca_plus_vault_schedules_an_immediate_disbursement_task() {
    let mut state = mock_app();
    let block = mock_block();
    let vault_id = create_vault(&mut state, 100, 100, Some(Decimal::percent(5)));

    state.execute_trigger(vault_id, None, block).unwrap();
    state
        .after_fin_swap(vault_id, SwapResult::Succeeded { received: 100 }, block)
        .unwrap();

    let tasks = state.get_disburse_escrow_tasks(block.time, Some(100));
    assert_eq!(tasks, vec![vault_id]);
}

#[test]
fn claim_with_shortfall_releases_escrow_to_the_owner() {
    let mut state = mock_app();
    let block = mock_block();
    let vault_id = create_vault(&mut state, 100, 100, Some(Decimal::percent(5)));

    // A coefficient below one raises the benchmark above the actual
    // proceeds: 100 / 0.9 = 111, a shortfall of 11, which more than covers
    // the 5 escrowed.
    state
        .update_swap_adjustments_handler(
            &String::from(ADMIN),
            0,
            PositionType::Enter,
            Decimal::percent(90),
        )
        .unwrap();
    state.execute_trigger(vault_id, None, block).unwrap();
    state
        .after_fin_swap(vault_id, SwapResult::Succeeded { received: 100 }, block)
        .unwrap();

    let response = state.claim_escrowed_funds(vault_id, block).unwrap();
    assert_eq!(
        response.messages,
        vec![Msg::BankSend {
            to_address: String::from(USER),
            amount: Coin::new(5, String::from(DENOM_UKUJI)),
        }],
    );
    let vault = state.get_vault(vault_id).unwrap();
    assert_eq!(vault.dca_plus_config.as_ref().unwrap().escrowed_balance.amount, 0);
    assert!(state.get_disburse_escrow_tasks(block.time, Some(100)).is_empty());
}

#[test]
fn claim_without_shortfall_remits_escrow_to_the_fee_collector() {
    let mut state = mock_app();
    let block = mock_block();
    let vault_id = create_vault(&mut state, 100, 100, Some(Decimal::percent(5)));

    state.execute_trigger(vault_id, None, block).unwrap();
    state
        .after_fin_swap(vault_id, SwapResult::Succeeded { received: 100 }, block)
        .unwrap();

    // With the default coefficient of one the benchmark equals the actual
    // proceeds: nothing is owed to the owner.
    let response = state.claim_escrowed_funds(vault_id, block).unwrap();
    assert_eq!(
        response.messages,
        vec![Msg::BankSend {
            to_address: String::from(FEE_COLLECTOR),
            amount: Coin::new(5, String::from(DENOM_UKUJI)),
        }],
    );
}

#[test]
fn claim_before_due_time_should_fail() {
    let mut state = mock_app();
    let block = mock_block();
    let vault_id = create_vault(&mut state, 100, 10, Some(Decimal::percent(5)));

    state
        .cancel_vault_handler(&String::from(ADMIN), vault_id, block)
        .unwrap();

    // The task is keyed at the expected completion time, ten tranches ahead.
    let err = state.claim_escrowed_funds(vault_id, block).unwrap_err();
    assert_eq!(err, ContractError::NotEligible);
}

#[test]
fn claim_without_dca_plus_should_fail() {
    let mut state = mock_app();
    let vault_id = create_vault(&mut state, 100, 10, None);
    let err = state.claim_escrowed_funds(vault_id, mock_block()).unwrap_err();
    assert_eq!(err, ContractError::NotEligible);
}

#[test]
fn save_disburse_escrow_task_reschedules_the_existing_task() {
    let mut state = mock_app();
    let block = mock_block();
    let vault_id = create_vault(&mut state, 100, 10, Some(Decimal::percent(5)));
    state
        .cancel_vault_handler(&String::from(ADMIN), vault_id, block)
        .unwrap();

    state
        .save_disburse_escrow_task(&String::from(ADMIN), vault_id, block.time + 7)
        .unwrap();

    let tasks = state.get_disburse_escrow_tasks(block.time + 7, Some(100));
    assert_eq!(tasks, vec![vault_id]);
}

#[test]
fn save_disburse_escrow_task_for_live_vault_should_fail() {
    let mut state = mock_app();
    let vault_id = create_vault(&mut state, 100, 10, Some(Decimal::percent(5)));
    let err = state
        .save_disburse_escrow_task(&String::from(ADMIN), vault_id, mock_block().time)
        .unwrap_err();
    assert_eq!(err, ContractError::NotEligible);
}

#[test]
fn update_swap_adjustments_by_non_admin_should_fail() {
    let mut state = mock_app();
    let err = state
        .update_swap_adjustments_handler(
            &String::from(USER),
            0,
            PositionType::Enter,
            Decimal::percent(90),
        )
        .unwrap_err();
    assert_eq!(err, ContractError::Unauthorized);
}

#[test]
fn balance_is_deposits_minus_successful_sends() {
    let mut state = mock_app();
    let block = mock_block();
    let vault_id = create_vault(&mut state, 200, 100, None);

    state.execute_trigger(vault_id, None, block).unwrap();
    state
        .after_fin_swap(vault_id, SwapResult::Succeeded { received: 98 }, block)
        .unwrap();

    let vault = state.get_vault(vault_id).unwrap();
    assert_eq!(vault.deposited_amount, 200);
    assert_eq!(vault.swapped_amount, 100);
    assert_eq!(vault.balance.amount, vault.deposited_amount - vault.swapped_amount);
}

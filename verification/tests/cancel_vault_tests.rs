use dca::decimal::Decimal;
use dca::error::ContractError;
use dca::event::{BlockInfo, EventBuilder, EventData};
use dca::response::Msg;
use dca::state::DcaState;
use dca::vault::{Coin, PositionType, TimeInterval, VaultStatus};

const ADMIN: &str = "admin";
const FEE_COLLECTOR: &str = "fee_collector";
const USER: &str = "user";
const DENOM_UKUJI: &str = "ukuji";
const DENOM_UTEST: &str = "utest";

fn mock_block() -> BlockInfo {
    BlockInfo { height: 12345, time: 1_571_797_419 }
}

fn instantiate_contract() -> DcaState {
    let mut state = DcaState::instantiate(String::from(ADMIN), String::from(FEE_COLLECTOR));
    state
        .create_pair(
            &String::from(ADMIN),
            String::from("fin"),
            String::from(DENOM_UKUJI),
            String::from(DENOM_UTEST),
            0,
        )
        .unwrap();
    state
}

fn setup_new_vault(state: &mut DcaState, dca_plus: Option<Decimal>) -> u64 {
    state
        .create_vault_with_time_trigger(
            String::from(USER),
            &String::from("fin"),
            PositionType::Enter,
            10,
            TimeInterval::Hourly,
            vec![Coin::new(100, String::from(DENOM_UTEST))],
            None,
            None,
            None,
            dca_plus,
            mock_block(),
        )
        .unwrap()
}

#[test]
fn should_return_balance_to_owner() {
    let mut state = instantiate_contract();
    let vault_id = setup_new_vault(&mut state, None);
    let balance = state.get_vault(vault_id).unwrap().balance.clone();
    let owner = state.get_vault(vault_id).unwrap().owner.clone();

    let response = state
        .cancel_vault_handler(&String::from(ADMIN), vault_id, mock_block())
        .unwrap();

    assert!(response.messages.contains(&Msg::BankSend { to_address: owner, amount: balance }));
}

#[test]
fn should_publish_vault_cancelled_event() {
    let mut state = instantiate_contract();
    let vault_id = setup_new_vault(&mut state, None);

    state
        .cancel_vault_handler(&String::from(ADMIN), vault_id, mock_block())
        .unwrap();

    let events = state.get_events_by_resource_id(vault_id).unwrap();
    assert!(events.contains(
        &EventBuilder::new(vault_id, mock_block(), EventData::DcaVaultCancelled {}).build(2)
    ));
}

#[test]
fn when_vault_has_time_trigger_should_cancel_vault() {
    let mut state = instantiate_contract();
    let vault_id = setup_new_vault(&mut state, None);
    let status_before = state.get_vault(vault_id).unwrap().status;

    state
        .cancel_vault_handler(&String::from(ADMIN), vault_id, mock_block())
        .unwrap();

    let status_after = state.get_vault(vault_id).unwrap().status;
    assert_eq!(status_before, VaultStatus::Active);
    assert_eq!(status_after, VaultStatus::Cancelled);
}

#[test]
fn should_empty_vault_balance() {
    let mut state = instantiate_contract();
    let vault_id = setup_new_vault(&mut state, None);
    let balance_before = state.get_vault(vault_id).unwrap().balance.amount;

    state
        .cancel_vault_handler(&String::from(ADMIN), vault_id, mock_block())
        .unwrap();

    let balance_after = state.get_vault(vault_id).unwrap().balance.amount;
    assert!(balance_before > 0);
    assert_eq!(balance_after, 0);
}

#[test]
fn on_already_cancelled_vault_should_fail() {
    let mut state = instantiate_contract();
    let vault_id = setup_new_vault(&mut state, None);

    state
        .cancel_vault_handler(&String::from(ADMIN), vault_id, mock_block())
        .unwrap();
    let err = state
        .cancel_vault_handler(&String::from(ADMIN), vault_id, mock_block())
        .unwrap_err();

    assert_eq!(err.message(), "Error: vault is already cancelled");
}

#[test]
fn on_already_cancelled_vault_should_leave_balance_zeroed() {
    let mut state = instantiate_contract();
    let vault_id = setup_new_vault(&mut state, None);

    state
        .cancel_vault_handler(&String::from(ADMIN), vault_id, mock_block())
        .unwrap();
    let err = state
        .cancel_vault_handler(&String::from(ADMIN), vault_id, mock_block())
        .unwrap_err();

    assert_eq!(err, ContractError::AlreadyTerminal);
    assert_eq!(state.get_vault(vault_id).unwrap().balance.amount, 0);
}

#[test]
fn for_vault_with_different_owner_should_fail() {
    let mut state = instantiate_contract();
    let vault_id = setup_new_vault(&mut state, None);

    let err = state
        .cancel_vault_handler(&String::from("not-the-owner"), vault_id, mock_block())
        .unwrap_err();

    assert_eq!(err.message(), "Unauthorized");
}

#[test]
fn should_delete_the_trigger() {
    let mut state = instantiate_contract();
    let vault_id = setup_new_vault(&mut state, None);
    let trigger_before = state.get_trigger(vault_id).unwrap().clone();

    state
        .cancel_vault_handler(&String::from(ADMIN), vault_id, mock_block())
        .unwrap();

    let trigger_after = state.get_trigger(vault_id).unwrap().clone();
    assert_ne!(trigger_before, None);
    assert_eq!(trigger_after, None);
}

#[test]
fn with_dca_plus_should_save_disburse_escrow_task() {
    let mut state = instantiate_contract();
    let vault_id = setup_new_vault(&mut state, Some(Decimal::percent(5)));
    let expected_completion = state
        .get_vault(vault_id)
        .unwrap()
        .get_expected_execution_completed_date(mock_block().time);

    state
        .cancel_vault_handler(&String::from(ADMIN), vault_id, mock_block())
        .unwrap();

    let disburse_escrow_tasks_before =
        state.get_disburse_escrow_tasks(expected_completion - 10, Some(100));
    assert!(disburse_escrow_tasks_before.is_empty());

    let disburse_escrow_tasks_after =
        state.get_disburse_escrow_tasks(expected_completion + 10, Some(100));
    assert!(disburse_escrow_tasks_after.contains(&vault_id));
    assert_eq!(disburse_escrow_tasks_after.len(), 1);
}

#[test]
fn cancel_with_pending_swap_confirmation_should_fail() {
    let mut state = instantiate_contract();
    let vault_id = setup_new_vault(&mut state, None);
    state.execute_trigger(vault_id, None, mock_block()).unwrap();

    let err = state
        .cancel_vault_handler(&String::from(ADMIN), vault_id, mock_block())
        .unwrap_err();

    assert_eq!(err, ContractError::PendingConfirmation);
}

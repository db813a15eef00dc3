use asset_ledger::decimal::Amount;
use asset_ledger::error::{Error, Invalid};
use asset_ledger::model::account::AccountModel;
use asset_ledger::model::account_log::AccountLogModel;
use asset_ledger::model::action_type::{ActionTypeModel, Change};
use asset_ledger::model::asset_type::AssetTypeModel;
use asset_ledger::request::{AccountActionRequest, AccountRequest};
use asset_ledger::service::account::AccountService;
use asset_ledger::service::action_type::ActionTypeService;
use asset_ledger::service::asset_type::AssetTypeService;
use asset_ledger::store::Ledger;

const DEPOSIT: i32 = 1;
const WITHDRAW: i32 = 2;
const FREEZE: i32 = 3;
const REFUND: i32 = 4;

fn asset_types() -> AssetTypeService {
    AssetTypeService::init(vec![AssetTypeModel {
        id: 1,
        name: "points".to_string(),
        description: String::new(),
        is_active: true,
        created_at: 0,
        updated_at: 0,
    }])
}

fn action(id: i32, available: Change, frozen: Change, income: Change, expense: Change) -> ActionTypeModel {
    ActionTypeModel {
        id,
        name: format!("action {}", id),
        description: String::new(),
        available_balance_change: available,
        frozen_balance_change: frozen,
        total_income_change: income,
        total_expense_change: expense,
        is_active: true,
        created_at: 0,
        updated_at: 0,
    }
}

fn action_types() -> ActionTypeService {
    ActionTypeService::init(vec![
        action(DEPOSIT, Change::Inc, Change::Unchanged, Change::Inc, Change::Unchanged),
        action(WITHDRAW, Change::Dec, Change::Unchanged, Change::Unchanged, Change::Inc),
        action(FREEZE, Change::Dec, Change::Inc, Change::Unchanged, Change::Unchanged),
        action(REFUND, Change::Inc, Change::Unchanged, Change::Unchanged, Change::Dec),
    ])
}

fn order(c: char) -> String {
    std::iter::repeat(c).take(32).collect()
}

fn units(n: i128) -> Amount {
    Amount::new(n * 1_000_000, 6).unwrap()
}

fn request(action_type_id: i32, amount: Amount, order_number: String) -> AccountActionRequest {
    AccountActionRequest {
        user_id: 1,
        asset_type_id: 1,
        action_type_id,
        amount,
        order_number,
        description: "test".to_string(),
    }
}

fn ledger_with_account() -> Ledger {
    let mut ledger = Ledger::new();
    AccountService::create(&mut ledger, &asset_types(), &AccountRequest { user_id: 1, asset_type_id: 1 }, 0)
        .unwrap();
    ledger
}

fn row(available: i128, frozen: i128, is_active: bool) -> AccountModel {
    AccountModel {
        id: 1,
        user_id: 1,
        asset_type_id: 1,
        available_balance: available,
        frozen_balance: frozen,
        total_income: 0,
        total_expense: 0,
        is_active,
        created_at: 0,
        updated_at: 0,
    }
}

fn apply(ledger: &mut Ledger, requests: Vec<AccountActionRequest>, now: i64) -> Result<(), Error> {
    AccountService::actions(ledger, &asset_types(), &action_types(), &requests, now)
}

fn snapshot(ledger: &Ledger) -> (Vec<AccountModel>, Vec<(i64, i32, i32, String)>) {
    (
        ledger.accounts().clone(),
        ledger
            .logs()
            .iter()
            .map(|l| (l.id, l.account_id, l.action_type_id, l.order_number.clone()))
            .collect(),
    )
}

#[test]
fn a_credit_moves_the_balance_and_is_logged() {
    let mut ledger = ledger_with_account();
    assert_eq!(apply(&mut ledger, vec![request(DEPOSIT, units(100), order('A'))], 11), Ok(()));
    let account = ledger.accounts()[0];
    assert_eq!(account.available_balance, 100_000_000);
    assert_eq!(account.frozen_balance, 0);
    assert_eq!(account.total_income, 100_000_000);
    assert_eq!(account.total_expense, 0);
    assert_eq!(account.updated_at, 11);
    assert_eq!(account.created_at, 0);
    assert_eq!(ledger.logs().len(), 1);
    let log: &AccountLogModel = &ledger.logs()[0];
    assert_eq!(log.id, 1);
    assert_eq!(log.account_id, account.id);
    assert_eq!(log.action_type_id, DEPOSIT);
    assert_eq!(log.amount_available_balance, 100_000_000);
    assert_eq!(log.amount_frozen_balance, 0);
    assert_eq!(log.amount_total_income, 100_000_000);
    assert_eq!(log.amount_total_expense, 0);
    assert_eq!(log.available_balance_after, 100_000_000);
    assert_eq!(log.frozen_balance_after, 0);
    assert_eq!(log.total_income_after, 100_000_000);
    assert_eq!(log.total_expense_after, 0);
    assert_eq!(log.order_number, order('A'));
    assert_eq!(log.description, "test");
    assert_eq!(log.created_at, 11);
}

#[test]
fn resubmitting_an_applied_action_is_a_conflict_and_changes_nothing() {
    let mut ledger = ledger_with_account();
    apply(&mut ledger, vec![request(DEPOSIT, units(100), order('A'))], 11).unwrap();
    let before = snapshot(&ledger);
    assert_eq!(
        apply(&mut ledger, vec![request(DEPOSIT, units(100), order('A'))], 12),
        Err(Error::Conflict)
    );
    assert_eq!(snapshot(&ledger), before);
    assert_eq!(ledger.accounts()[0].available_balance, 100_000_000);
    assert_eq!(ledger.logs().len(), 1);
}

#[test]
fn an_order_number_stays_used_after_later_batches() {
    let mut ledger = ledger_with_account();
    apply(&mut ledger, vec![request(DEPOSIT, units(100), order('A'))], 1).unwrap();
    apply(&mut ledger, vec![request(DEPOSIT, units(1), order('B')), request(WITHDRAW, units(2), order('C'))], 2)
        .unwrap();
    assert_eq!(
        apply(&mut ledger, vec![request(DEPOSIT, units(100), order('A'))], 3),
        Err(Error::Conflict)
    );
    assert_eq!(ledger.accounts()[0].available_balance, 99_000_000);
}

#[test]
fn the_same_order_number_under_another_action_type_is_fresh() {
    let mut ledger = ledger_with_account();
    apply(&mut ledger, vec![request(DEPOSIT, units(100), order('A'))], 1).unwrap();
    assert_eq!(apply(&mut ledger, vec![request(WITHDRAW, units(40), order('A'))], 2), Ok(()));
    assert_eq!(ledger.accounts()[0].available_balance, 60_000_000);
    assert_eq!(ledger.accounts()[0].total_expense, 40_000_000);
}

#[test]
fn a_debit_beyond_the_balance_is_refused_and_changes_nothing() {
    let mut ledger = ledger_with_account();
    apply(&mut ledger, vec![request(DEPOSIT, units(100), order('A'))], 1).unwrap();
    let before = snapshot(&ledger);
    assert_eq!(
        apply(&mut ledger, vec![request(WITHDRAW, units(150), order('B'))], 2),
        Err(Error::InsufficientFunds)
    );
    assert_eq!(snapshot(&ledger), before);
    assert_eq!(ledger.accounts()[0].available_balance, 100_000_000);
    assert_eq!(ledger.logs().len(), 1);
}

#[test]
fn a_debit_of_the_whole_balance_leaves_zero() {
    let mut ledger = ledger_with_account();
    apply(&mut ledger, vec![request(DEPOSIT, units(100), order('A'))], 1).unwrap();
    assert_eq!(apply(&mut ledger, vec![request(WITHDRAW, units(100), order('B'))], 2), Ok(()));
    assert_eq!(ledger.accounts()[0].available_balance, 0);
    assert_eq!(ledger.logs()[1].available_balance_after, 0);
    assert_eq!(ledger.logs()[1].amount_available_balance, -100_000_000);
}

#[test]
fn resubmitting_a_debit_that_is_no_longer_covered_reports_the_shortage() {
    let mut ledger = ledger_with_account();
    apply(&mut ledger, vec![request(DEPOSIT, units(100), order('A'))], 1).unwrap();
    apply(&mut ledger, vec![request(WITHDRAW, units(100), order('B'))], 2).unwrap();
    assert_eq!(
        apply(&mut ledger, vec![request(WITHDRAW, units(100), order('B'))], 3),
        Err(Error::InsufficientFunds)
    );
    assert_eq!(ledger.accounts()[0].available_balance, 0);
    assert_eq!(ledger.logs().len(), 2);
}

#[test]
fn a_failing_action_rolls_the_whole_batch_back() {
    let mut ledger = ledger_with_account();
    apply(&mut ledger, vec![request(DEPOSIT, units(100), order('A'))], 1).unwrap();
    apply(&mut ledger, vec![request(WITHDRAW, units(10), order('Y'))], 2).unwrap();
    let before = snapshot(&ledger);
    let batch = vec![request(DEPOSIT, units(5), order('Z')), request(WITHDRAW, units(10), order('Y'))];
    assert_eq!(apply(&mut ledger, batch, 3), Err(Error::Conflict));
    assert_eq!(snapshot(&ledger), before);
    assert_eq!(ledger.accounts()[0].available_balance, 90_000_000);
    assert_eq!(ledger.accounts()[0].updated_at, 2);
    // the order number of the credit that was rolled back is still fresh
    assert_eq!(apply(&mut ledger, vec![request(DEPOSIT, units(5), order('Z'))], 4), Ok(()));
    assert_eq!(ledger.logs()[2].id, 3);
}

#[test]
fn a_batch_that_repeats_an_order_number_is_rolled_back() {
    let mut ledger = ledger_with_account();
    let batch = vec![request(DEPOSIT, units(5), order('Z')), request(DEPOSIT, units(5), order('Z'))];
    assert_eq!(apply(&mut ledger, batch, 3), Err(Error::Conflict));
    assert_eq!(ledger.accounts()[0].available_balance, 0);
    assert!(ledger.logs().is_empty());
}

#[test]
fn a_batch_applies_its_actions_in_order() {
    let mut ledger = ledger_with_account();
    let batch = vec![
        request(DEPOSIT, units(100), order('A')),
        request(WITHDRAW, units(30), order('B')),
        request(FREEZE, units(50), order('C')),
        request(REFUND, units(10), order('D')),
    ];
    assert_eq!(apply(&mut ledger, batch, 5), Ok(()));
    let account = ledger.accounts()[0];
    assert_eq!(account.available_balance, 30_000_000);
    assert_eq!(account.frozen_balance, 50_000_000);
    assert_eq!(account.total_income, 100_000_000);
    assert_eq!(account.total_expense, 20_000_000);
    let after: Vec<i128> = ledger.logs().iter().map(|l| l.available_balance_after).collect();
    assert_eq!(after, vec![100_000_000, 70_000_000, 20_000_000, 30_000_000]);
    let ids: Vec<i64> = ledger.logs().iter().map(|l| l.id).collect();
    assert_eq!(ids, vec![1, 2, 3, 4]);
}

#[test]
fn a_debit_that_only_an_earlier_action_of_the_batch_covers_succeeds() {
    let mut ledger = ledger_with_account();
    let batch = vec![request(DEPOSIT, units(10), order('A')), request(WITHDRAW, units(10), order('B'))];
    assert_eq!(apply(&mut ledger, batch, 5), Ok(()));
    let reversed = vec![request(WITHDRAW, units(10), order('C')), request(DEPOSIT, units(10), order('D'))];
    assert_eq!(apply(&mut ledger, reversed, 6), Err(Error::InsufficientFunds));
    assert_eq!(ledger.logs().len(), 2);
}

#[test]
fn two_batches_in_sequence_come_to_the_one_batch_of_both() {
    let first = || vec![request(DEPOSIT, units(100), order('A')), request(FREEZE, units(20), order('B'))];
    let second = || vec![request(WITHDRAW, units(30), order('C')), request(DEPOSIT, units(1), order('D'))];
    let mut one_by_one = ledger_with_account();
    apply(&mut one_by_one, first(), 5).unwrap();
    apply(&mut one_by_one, second(), 5).unwrap();
    let mut at_once = ledger_with_account();
    let mut both = first();
    both.extend(second());
    apply(&mut at_once, both, 5).unwrap();
    assert_eq!(snapshot(&one_by_one), snapshot(&at_once));
    assert_eq!(one_by_one.accounts()[0].available_balance, 51_000_000);
    let logged: i128 = one_by_one.logs().iter().map(|l| l.amount_available_balance).sum();
    assert_eq!(logged, 51_000_000);
}

#[test]
fn an_empty_batch_succeeds_and_changes_nothing() {
    let mut ledger = ledger_with_account();
    let before = snapshot(&ledger);
    assert_eq!(apply(&mut ledger, Vec::new(), 5), Ok(()));
    assert_eq!(snapshot(&ledger), before);
}

#[test]
fn an_action_on_a_missing_account_is_not_found() {
    let mut ledger = Ledger::new();
    assert_eq!(
        apply(&mut ledger, vec![request(DEPOSIT, units(1), order('A'))], 5),
        Err(Error::NotFound)
    );
}

#[test]
fn an_action_on_an_inactive_account_is_forbidden() {
    let mut ledger = Ledger::from_rows(vec![row(100_000_000, 0, false)], Vec::new()).unwrap();
    assert_eq!(
        apply(&mut ledger, vec![request(DEPOSIT, units(1), order('A'))], 5),
        Err(Error::Forbidden)
    );
    assert_eq!(
        apply(&mut ledger, vec![request(WITHDRAW, units(1000), order('A'))], 5),
        Err(Error::Forbidden)
    );
    assert_eq!(ledger.accounts()[0], row(100_000_000, 0, false));
}

#[test]
fn a_negative_balance_does_not_block_a_credit_but_blocks_a_debit() {
    let mut ledger = Ledger::from_rows(vec![row(-50_000_000, 0, true)], Vec::new()).unwrap();
    assert_eq!(apply(&mut ledger, vec![request(DEPOSIT, units(20), order('A'))], 5), Ok(()));
    assert_eq!(ledger.accounts()[0].available_balance, -30_000_000);
    assert_eq!(ledger.logs()[0].available_balance_after, -30_000_000);
    assert_eq!(
        apply(&mut ledger, vec![request(WITHDRAW, Amount::new(1, 6).unwrap(), order('B'))], 6),
        Err(Error::InsufficientFunds)
    );
}

#[test]
fn a_debit_of_the_frozen_balance_is_checked_too() {
    let unfreeze = 9;
    let types = ActionTypeService::init(vec![action(unfreeze, Change::Inc, Change::Dec, Change::Unchanged, Change::Unchanged)]);
    let mut ledger = Ledger::from_rows(vec![row(0, 5_000_000, true)], Vec::new()).unwrap();
    let too_much = vec![request(unfreeze, units(6), order('A'))];
    assert_eq!(
        AccountService::actions(&mut ledger, &asset_types(), &types, &too_much, 1),
        Err(Error::InsufficientFunds)
    );
    let enough = vec![request(unfreeze, units(5), order('A'))];
    assert_eq!(AccountService::actions(&mut ledger, &asset_types(), &types, &enough, 1), Ok(()));
    assert_eq!(ledger.accounts()[0], AccountModel { available_balance: 5_000_000, frozen_balance: 0, updated_at: 1, ..row(0, 0, true) });
}

#[test]
fn a_rule_that_debits_a_total_is_not_checked() {
    let mut ledger = ledger_with_account();
    assert_eq!(apply(&mut ledger, vec![request(REFUND, units(5), order('A'))], 1), Ok(()));
    assert_eq!(ledger.accounts()[0].total_expense, -5_000_000);
    assert_eq!(ledger.accounts()[0].available_balance, 5_000_000);
}

#[test]
fn every_request_is_validated_before_anything_is_applied() {
    let mut ledger = ledger_with_account();
    let mut bad = request(DEPOSIT, units(1), order('B'));
    bad.order_number = "short".to_string();
    let batch = vec![request(DEPOSIT, units(100), order('A')), bad];
    assert_eq!(apply(&mut ledger, batch, 1), Err(Error::Validation(Invalid::OrderNumber)));
    assert!(ledger.logs().is_empty());
    assert_eq!(ledger.accounts()[0].available_balance, 0);
}

#[test]
fn the_first_objection_of_the_batch_is_reported() {
    let mut ledger = Ledger::new();
    let mut no_user = request(DEPOSIT, units(1), order('A'));
    no_user.user_id = 0;
    let mut no_action = request(77, units(1), order('B'));
    no_action.description = String::new();
    assert_eq!(
        apply(&mut ledger, vec![no_action, no_user], 1),
        Err(Error::NotFound)
    );
    let mut no_user = request(DEPOSIT, units(1), order('A'));
    no_user.user_id = 0;
    no_user.asset_type_id = 5;
    assert_eq!(apply(&mut ledger, vec![no_user], 1), Err(Error::Validation(Invalid::UserId)));
}

#[test]
fn a_balance_beyond_what_the_store_holds_is_out_of_range() {
    let max: i128 = 0xFFFF_FFFF_FFFF_FFFF_FFFF_FFFF;
    let mut ledger = Ledger::from_rows(vec![row(max, 0, true)], Vec::new()).unwrap();
    assert_eq!(
        apply(&mut ledger, vec![request(DEPOSIT, Amount::new(1, 6).unwrap(), order('A'))], 1),
        Err(Error::OutOfRange)
    );
    assert_eq!(ledger.accounts()[0], row(max, 0, true));
    assert!(ledger.logs().is_empty());
    assert_eq!(
        apply(&mut ledger, vec![request(WITHDRAW, Amount::new(1, 6).unwrap(), order('A'))], 1),
        Ok(())
    );
    assert_eq!(ledger.accounts()[0].available_balance, max - 1);
}

#[test]
fn the_amount_is_cut_to_six_digits_before_it_is_applied() {
    // validation refuses a seventh digit, so the cut is seen on the checks themselves
    let deposit = action(DEPOSIT, Change::Inc, Change::Unchanged, Change::Inc, Change::Unchanged);
    let account = row(1_234_567, 0, true);
    let withdraw = action(WITHDRAW, Change::Dec, Change::Unchanged, Change::Unchanged, Change::Inc);
    let amount = Amount::new(12_345_678, 7).unwrap();
    assert_eq!(deposit.available_balance_change.calculate_change(amount), 1_234_567);
    assert_eq!(
        AccountService::check_balance_before_update(&withdraw, &account, amount.magnitude()),
        Ok(())
    );
    assert_eq!(
        AccountService::check_balance_before_update(&withdraw, &account, 1_234_568),
        Err(Error::InsufficientFunds)
    );
    assert_eq!(AccountService::check_balance_before_update(&deposit, &account, 9_999_999), Ok(()));
}

#[test]
fn the_check_after_the_move_looks_at_debited_balances_only() {
    let deposit = action(DEPOSIT, Change::Inc, Change::Unchanged, Change::Inc, Change::Unchanged);
    let withdraw = action(WITHDRAW, Change::Dec, Change::Unchanged, Change::Unchanged, Change::Inc);
    let freeze = action(FREEZE, Change::Inc, Change::Dec, Change::Unchanged, Change::Unchanged);
    assert_eq!(AccountService::check_balance_after_update(&deposit, &row(-1, -1, true)), Ok(()));
    assert_eq!(
        AccountService::check_balance_after_update(&withdraw, &row(-1, 0, true)),
        Err(Error::InsufficientFunds)
    );
    assert_eq!(AccountService::check_balance_after_update(&withdraw, &row(0, -1, true)), Ok(()));
    assert_eq!(
        AccountService::check_balance_after_update(&freeze, &row(0, -1, true)),
        Err(Error::InsufficientFunds)
    );
    assert_eq!(AccountService::check_balance_after_update(&freeze, &row(-1, 0, true)), Ok(()));
}

#[test]
fn the_idempotency_probe_reads_the_log() {
    let mut ledger = ledger_with_account();
    assert_eq!(AccountService::check_account_log_exists(&ledger, 1, DEPOSIT, &order('A')), Ok(()));
    apply(&mut ledger, vec![request(DEPOSIT, units(100), order('A'))], 1).unwrap();
    assert_eq!(
        AccountService::check_account_log_exists(&ledger, 1, DEPOSIT, &order('A')),
        Err(Error::Conflict)
    );
    assert_eq!(AccountService::check_account_log_exists(&ledger, 2, DEPOSIT, &order('A')), Ok(()));
    assert_eq!(AccountService::check_account_log_exists(&ledger, 1, WITHDRAW, &order('A')), Ok(()));
    assert_eq!(AccountService::check_account_log_exists(&ledger, 1, DEPOSIT, &order('B')), Ok(()));
    assert!(AccountLogModel::is_exists(&ledger, 1, DEPOSIT, &order('A')));
}

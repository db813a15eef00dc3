use asset_ledger::constant::{MAX_PAGE_SIZE, MIN_PAGE, MIN_PAGE_SIZE};
use asset_ledger::decimal::Amount;
use asset_ledger::error::{Error, Invalid};
use asset_ledger::model::action_type::{ActionTypeModel, Change};
use asset_ledger::model::asset_type::AssetTypeModel;
use asset_ledger::request::{
    validate_action_type_id, validate_amount, validate_asset_type_id, validate_date_format,
    validate_time_range, AccountActionRequest, AccountLogRequest, AccountRequest, AccountsRequest,
};
use asset_ledger::service::action_type::ActionTypeService;
use asset_ledger::service::asset_type::AssetTypeService;

fn assets() -> AssetTypeService {
    AssetTypeService::init(vec![AssetTypeModel {
        id: 1,
        name: "points".to_string(),
        description: String::new(),
        is_active: true,
        created_at: 0,
        updated_at: 0,
    }])
}

fn actions() -> ActionTypeService {
    ActionTypeService::init(vec![ActionTypeModel {
        id: 4,
        name: "deposit".to_string(),
        description: String::new(),
        available_balance_change: Change::Inc,
        frozen_balance_change: Change::Unchanged,
        total_income_change: Change::Unchanged,
        total_expense_change: Change::Unchanged,
        is_active: true,
        created_at: 0,
        updated_at: 0,
    }])
}

fn good_action() -> AccountActionRequest {
    AccountActionRequest {
        user_id: 1,
        asset_type_id: 1,
        action_type_id: 4,
        amount: Amount::new(1, 6).unwrap(),
        order_number: "0123456789abcdef0123456789abcdef".to_string(),
        description: "d".to_string(),
    }
}

fn good_log() -> AccountLogRequest {
    AccountLogRequest {
        user_id: 1,
        asset_type_id: 1,
        action_type_id: None,
        start_time: None,
        end_time: None,
        page: 1,
        page_size: 1,
    }
}

#[test]
fn an_amount_needs_at_most_six_digits_and_at_least_a_millionth() {
    assert_eq!(validate_amount(&Amount::new(1, 6).unwrap()), Ok(()));
    assert_eq!(validate_amount(&Amount::new(1, 0).unwrap()), Ok(()));
    assert_eq!(validate_amount(&Amount::new(123_456_789, 3).unwrap()), Ok(()));
    assert_eq!(
        validate_amount(&Amount::new(10, 7).unwrap()),
        Err(Error::Validation(Invalid::AmountScale))
    );
    assert_eq!(
        validate_amount(&Amount::new(0, 6).unwrap()),
        Err(Error::Validation(Invalid::AmountTooSmall))
    );
    assert_eq!(
        validate_amount(&Amount::new(-5, 0).unwrap()),
        Err(Error::Validation(Invalid::AmountTooSmall))
    );
    assert_eq!(
        validate_amount(&Amount::new(-5, 9).unwrap()),
        Err(Error::Validation(Invalid::AmountScale))
    );
}

#[test]
fn reference_ids_must_be_in_force() {
    assert_eq!(validate_asset_type_id(&assets(), 1), Ok(()));
    assert_eq!(validate_asset_type_id(&assets(), 4), Err(Error::NotFound));
    assert_eq!(validate_action_type_id(&actions(), 4), Ok(()));
    assert_eq!(validate_action_type_id(&actions(), 1), Err(Error::NotFound));
}

#[test]
fn an_account_request_is_checked_field_by_field() {
    assert_eq!(AccountRequest { user_id: 1, asset_type_id: 1 }.validate(&assets()), Ok(()));
    assert_eq!(
        AccountRequest { user_id: 0, asset_type_id: 9 }.validate(&assets()),
        Err(Error::Validation(Invalid::UserId))
    );
    assert_eq!(
        AccountRequest { user_id: 1, asset_type_id: 9 }.validate(&assets()),
        Err(Error::NotFound)
    );
    assert_eq!(AccountsRequest { user_id: 1 }.validate(), Ok(()));
    assert_eq!(
        AccountsRequest { user_id: i32::MIN }.validate(),
        Err(Error::Validation(Invalid::UserId))
    );
}

#[test]
fn an_action_request_is_checked_field_by_field() {
    assert_eq!(good_action().validate(&assets(), &actions()), Ok(()));
    let check = |change: &dyn Fn(&mut AccountActionRequest), expected: Error| {
        let mut request = good_action();
        change(&mut request);
        assert_eq!(request.validate(&assets(), &actions()), Err(expected));
    };
    check(&|r| r.user_id = 0, Error::Validation(Invalid::UserId));
    check(&|r| r.asset_type_id = 2, Error::NotFound);
    check(&|r| r.action_type_id = 1, Error::NotFound);
    check(&|r| r.amount = Amount::new(1, 7).unwrap(), Error::Validation(Invalid::AmountScale));
    check(&|r| r.amount = Amount::new(0, 0).unwrap(), Error::Validation(Invalid::AmountTooSmall));
    check(&|r| r.order_number.truncate(31), Error::Validation(Invalid::OrderNumber));
    check(&|r| r.description.clear(), Error::Validation(Invalid::Description));
    check(
        &|r| {
            r.description.clear();
            r.order_number.clear();
        },
        Error::Validation(Invalid::OrderNumber),
    );
}

#[test]
fn an_order_number_is_measured_in_characters() {
    let mut request = good_action();
    request.order_number = "é".repeat(32);
    assert_eq!(request.validate(&assets(), &actions()), Ok(()));
    request.order_number = "é".repeat(31);
    assert_eq!(
        request.validate(&assets(), &actions()),
        Err(Error::Validation(Invalid::OrderNumber))
    );
}

#[test]
fn a_day_is_written_year_month_day() {
    assert_eq!(validate_date_format("2024-02-29"), Ok(()));
    assert_eq!(validate_date_format("2023-02-29"), Err(Error::Validation(Invalid::DateFormat)));
    assert_eq!(validate_date_format("2024/02/29"), Err(Error::Validation(Invalid::DateFormat)));
    assert_eq!(validate_date_format("2024-13-01"), Err(Error::Validation(Invalid::DateFormat)));
    assert_eq!(validate_date_format(""), Err(Error::Validation(Invalid::DateFormat)));
    assert_eq!(validate_date_format("yesterday"), Err(Error::Validation(Invalid::DateFormat)));
}

#[test]
fn the_start_day_must_not_come_after_the_end_day() {
    let range = |start: Option<&str>, end: Option<&str>| {
        let mut request = good_log();
        request.start_time = start.map(|s| s.to_string());
        request.end_time = end.map(|s| s.to_string());
        validate_time_range(&request)
    };
    assert_eq!(range(Some("2024-01-01"), Some("2024-01-01")), Ok(()));
    assert_eq!(range(Some("2024-01-01"), Some("2024-12-31")), Ok(()));
    assert_eq!(range(Some("2024-01-02"), Some("2024-01-01")), Err(Error::Validation(Invalid::TimeRange)));
    assert_eq!(range(Some("2024-02-01"), Some("2024-01-31")), Err(Error::Validation(Invalid::TimeRange)));
    assert_eq!(range(Some("2025-01-01"), Some("2024-12-31")), Err(Error::Validation(Invalid::TimeRange)));
    assert_eq!(range(Some("2025-01-01"), None), Ok(()));
    assert_eq!(range(None, Some("2024-12-31")), Ok(()));
    assert_eq!(range(None, None), Ok(()));
    assert_eq!(range(Some("nonsense"), Some("2024-12-31")), Ok(()));
}

#[test]
fn a_log_request_is_checked_field_by_field() {
    assert_eq!((MIN_PAGE, MIN_PAGE_SIZE, MAX_PAGE_SIZE), (1, 1, 100));
    assert_eq!(good_log().validate(&assets(), &actions()), Ok(()));
    let check = |change: &dyn Fn(&mut AccountLogRequest), expected: Result<(), Error>| {
        let mut request = good_log();
        change(&mut request);
        assert_eq!(request.validate(&assets(), &actions()), expected);
    };
    check(&|r| r.user_id = 0, Err(Error::Validation(Invalid::UserId)));
    check(&|r| r.asset_type_id = 2, Err(Error::NotFound));
    check(&|r| r.action_type_id = Some(4), Ok(()));
    check(&|r| r.action_type_id = Some(5), Err(Error::NotFound));
    check(&|r| r.start_time = Some("2024-1-1x".to_string()), Err(Error::Validation(Invalid::DateFormat)));
    check(&|r| r.end_time = Some("soon".to_string()), Err(Error::Validation(Invalid::DateFormat)));
    check(&|r| r.page = 0, Err(Error::Validation(Invalid::Page)));
    check(&|r| r.page = i32::MAX, Ok(()));
    check(&|r| r.page_size = 0, Err(Error::Validation(Invalid::PageSize)));
    check(&|r| r.page_size = 100, Ok(()));
    check(&|r| r.page_size = 101, Err(Error::Validation(Invalid::PageSize)));
    check(
        &|r| {
            r.start_time = Some("2024-03-02".to_string());
            r.end_time = Some("2024-03-01".to_string());
        },
        Err(Error::Validation(Invalid::TimeRange)),
    );
    check(
        &|r| {
            r.start_time = Some("2024-03-02".to_string());
            r.end_time = Some("2024-03-01".to_string());
            r.page = 0;
        },
        Err(Error::Validation(Invalid::Page)),
    );
}

//! The requests the ledger takes, and the rules their fields must meet.

use crate::constant::{MAX_PAGE_SIZE, MIN_PAGE, MIN_PAGE_SIZE};
use crate::decimal::{lemma_pow10_values, pow10, Amount, DecimalValue, MONEY_SCALE};
use crate::error::{Error, Invalid};
use crate::model::action_type::ActionTypeModel;
use crate::model::asset_type::AssetTypeModel;
use crate::service::action_type::{lists_action, ActionTypeService};
use crate::service::asset_type::{lists_asset, AssetTypeService};
use crate::utils::{day_format, parse_date, parsed_day};
use vstd::prelude::*;
use vstd::string::StrSliceExecFns;

verus! {

/// The least number of characters in an order number.
pub const MIN_ORDER_NUMBER_LENGTH: usize = 32;

/// Names one account.
#[derive(Clone, Copy, Debug)]
pub struct AccountRequest {
    pub user_id: i32,
    pub asset_type_id: i32,
}

/// Names the accounts of one user.
#[derive(Clone, Copy, Debug)]
pub struct AccountsRequest {
    pub user_id: i32,
}

/// Asks for one action on one account.
#[derive(Debug)]
pub struct AccountActionRequest {
    pub user_id: i32,
    pub asset_type_id: i32,
    pub action_type_id: i32,
    pub amount: Amount,
    pub order_number: String,
    pub description: String,
}

/// Asks for one page of the log of one account.
#[derive(Debug)]
pub struct AccountLogRequest {
    pub user_id: i32,
    pub asset_type_id: i32,
    pub action_type_id: Option<i32>,
    /// The first day to report, written year-month-day.
    pub start_time: Option<String>,
    /// The last day to report, written year-month-day.
    pub end_time: Option<String>,
    pub page: i32,
    pub page_size: i32,
}

/// `Ok` where nothing is objected to, else the objection.
pub open spec fn verdict(objection: Option<Error>) -> Result<(), Error> {
    match objection {
        Some(e) => Err(e),
        None => Ok(()),
    }
}

/// What is wrong with a user id, if anything: it must be positive.
pub open spec fn user_id_objection(user_id: i32) -> Option<Error> {
    if user_id < 1 {
        Some(Error::Validation(Invalid::UserId))
    } else {
        None
    }
}

/// What is wrong with an asset type id, if anything: it must name an asset
/// type in force.
pub open spec fn asset_type_id_objection(assets: Seq<AssetTypeModel>, id: i32) -> Option<Error> {
    if lists_asset(assets, id) {
        None
    } else {
        Some(Error::NotFound)
    }
}

/// What is wrong with an action type id, if anything: it must name an action
/// type in force.
pub open spec fn action_type_id_objection(actions: Seq<ActionTypeModel>, id: i32) -> Option<
    Error,
> {
    if lists_action(actions, id) {
        None
    } else {
        Some(Error::NotFound)
    }
}

/// What is wrong with an amount, if anything: it must carry at most six
/// fractional digits and be at least one millionth.
pub open spec fn amount_objection(amount: DecimalValue) -> Option<Error> {
    if amount.scale > MONEY_SCALE {
        Some(Error::Validation(Invalid::AmountScale))
    } else if amount.mantissa * 1_000_000 < pow10(amount.scale) {
        Some(Error::Validation(Invalid::AmountTooSmall))
    } else {
        None
    }
}

/// What is wrong with a day as written, if anything: it must read as a day.
pub open spec fn date_objection(date: Seq<char>) -> Option<Error> {
    if parsed_day(date, day_format()) is None {
        Some(Error::Validation(Invalid::DateFormat))
    } else {
        None
    }
}

/// What is wrong with a range of days, if anything: where both ends read as
/// days, the start must not come after the end.
pub open spec fn time_range_objection(start: Option<Seq<char>>, end: Option<Seq<char>>) -> Option<
    Error,
> {
    if start matches Some(s) && end matches Some(e) && parsed_day(s, day_format()) matches Some(
        first,
    ) && parsed_day(e, day_format()) matches Some(last) && first.is_after(last) {
        Some(Error::Validation(Invalid::TimeRange))
    } else {
        None
    }
}

/// The text of an optional string.
pub open spec fn text_of(s: Option<String>) -> Option<Seq<char>> {
    match s {
        Some(s) => Some(s@),
        None => None,
    }
}

/// `Ok` where `date` reads as a day written year-month-day.
pub fn validate_date_format(date: &str) -> (r: Result<(), Error>)
    ensures
        r == verdict(date_objection(date@)),
{
    if parse_date(date).is_none() {
        return Err(Error::Validation(Invalid::DateFormat));
    }
    Ok(())
}

/// `Ok` unless both days of the request read as days and the start comes
/// after the end.
pub fn validate_time_range(request: &AccountLogRequest) -> (r: Result<(), Error>)
    ensures
        r == verdict(time_range_objection(text_of(request.start_time), text_of(request.end_time))),
{
    if let (Some(start_time), Some(end_time)) = (&request.start_time, &request.end_time) {
        let start = parse_date(start_time.as_str());
        let end = parse_date(end_time.as_str());
        if let (Some(start), Some(end)) = (start, end) {
            if start.comes_after(&end) {
                return Err(Error::Validation(Invalid::TimeRange));
            }
        }
    }
    Ok(())
}

fn validate_user_id(user_id: i32) -> (r: Result<(), Error>)
    ensures
        r == verdict(user_id_objection(user_id)),
{
    if user_id < 1 {
        Err(Error::Validation(Invalid::UserId))
    } else {
        Ok(())
    }
}

/// `Ok` where `id` names an asset type in force, else `NotFound`.
pub fn validate_asset_type_id(asset_types: &AssetTypeService, id: i32) -> (r: Result<(), Error>)
    ensures
        r == verdict(asset_type_id_objection(asset_types@, id)),
{
    if !asset_types.is_active(id) {
        return Err(Error::NotFound);
    }
    Ok(())
}

/// `Ok` where `id` names an action type in force, else `NotFound`.
pub fn validate_action_type_id(action_types: &ActionTypeService, id: i32) -> (r: Result<
    (),
    Error,
>)
    ensures
        r == verdict(action_type_id_objection(action_types@, id)),
{
    if !action_types.is_active(id) {
        return Err(Error::NotFound);
    }
    Ok(())
}

/// `Ok` where the amount carries at most six fractional digits and is at
/// least one millionth.
pub fn validate_amount(amount: &Amount) -> (r: Result<(), Error>)
    ensures
        r == verdict(amount_objection(amount@)),
{
    if amount.scale() > MONEY_SCALE {
        return Err(Error::Validation(Invalid::AmountScale));
    }
    proof {
        lemma_pow10_values();
        assert(1 <= pow10(amount@.scale) <= 1_000_000);
    }
    if amount.mantissa() < 1 {
        return Err(Error::Validation(Invalid::AmountTooSmall));
    }
    Ok(())
}

impl AccountRequest {
    /// The first objection to this request, in the order of its fields.
    pub open spec fn objection(&self, assets: Seq<AssetTypeModel>) -> Option<Error> {
        if user_id_objection(self.user_id) is Some {
            user_id_objection(self.user_id)
        } else {
            asset_type_id_objection(assets, self.asset_type_id)
        }
    }

    /// `Ok` where there is no objection to the request, else the first
    /// objection.
    pub fn validate(&self, asset_types: &AssetTypeService) -> (r: Result<(), Error>)
        ensures
            r == verdict(self.objection(asset_types@)),
    {
        validate_user_id(self.user_id)?;
        validate_asset_type_id(asset_types, self.asset_type_id)
    }
}

impl AccountsRequest {
    /// The objection to this request, if any.
    pub open spec fn objection(&self) -> Option<Error> {
        user_id_objection(self.user_id)
    }

    /// `Ok` where there is no objection to the request, else the first
    /// objection.
    pub fn validate(&self) -> (r: Result<(), Error>)
        ensures
            r == verdict(self.objection()),
    {
        validate_user_id(self.user_id)
    }
}

impl AccountLogRequest {
    /// The first objection to this request: to its fields in their order,
    /// then to the range of days as a whole.
    pub open spec fn objection(
        &self,
        assets: Seq<AssetTypeModel>,
        actions: Seq<ActionTypeModel>,
    ) -> Option<Error> {
        if user_id_objection(self.user_id) is Some {
            user_id_objection(self.user_id)
        } else if asset_type_id_objection(assets, self.asset_type_id) is Some {
            asset_type_id_objection(assets, self.asset_type_id)
        } else if self.action_type_id matches Some(id) && action_type_id_objection(actions, id)
            is Some {
            Some(Error::NotFound)
        } else if self.start_time matches Some(day) && date_objection(day@) is Some {
            date_objection(self.start_time->Some_0@)
        } else if self.end_time matches Some(day) && date_objection(day@) is Some {
            date_objection(self.end_time->Some_0@)
        } else if self.page < MIN_PAGE {
            Some(Error::Validation(Invalid::Page))
        } else if self.page_size < MIN_PAGE_SIZE || self.page_size > MAX_PAGE_SIZE {
            Some(Error::Validation(Invalid::PageSize))
        } else {
            time_range_objection(text_of(self.start_time), text_of(self.end_time))
        }
    }

    /// `Ok` where there is no objection to the request, else the first
    /// objection.
    pub fn validate(&self, asset_types: &AssetTypeService, action_types: &ActionTypeService) -> (r:
        Result<(), Error>)
        ensures
            r == verdict(self.objection(asset_types@, action_types@)),
    {
        validate_user_id(self.user_id)?;
        validate_asset_type_id(asset_types, self.asset_type_id)?;
        if let Some(id) = self.action_type_id {
            validate_action_type_id(action_types, id)?;
        }
        if let Some(day) = &self.start_time {
            validate_date_format(day.as_str())?;
        }
        if let Some(day) = &self.end_time {
            validate_date_format(day.as_str())?;
        }
        if self.page < MIN_PAGE {
            return Err(Error::Validation(Invalid::Page));
        }
        if self.page_size < MIN_PAGE_SIZE || self.page_size > MAX_PAGE_SIZE {
            return Err(Error::Validation(Invalid::PageSize));
        }
        validate_time_range(self)
    }
}

impl AccountActionRequest {
    /// The first objection to this request, in the order of its fields.
    pub open spec fn objection(
        &self,
        assets: Seq<AssetTypeModel>,
        actions: Seq<ActionTypeModel>,
    ) -> Option<Error> {
        if user_id_objection(self.user_id) is Some {
            user_id_objection(self.user_id)
        } else if asset_type_id_objection(assets, self.asset_type_id) is Some {
            asset_type_id_objection(assets, self.asset_type_id)
        } else if action_type_id_objection(actions, self.action_type_id) is Some {
            action_type_id_objection(actions, self.action_type_id)
        } else if amount_objection(self.amount@) is Some {
            amount_objection(self.amount@)
        } else if self.order_number@.len() < MIN_ORDER_NUMBER_LENGTH {
            Some(Error::Validation(Invalid::OrderNumber))
        } else if self.description@.len() < 1 {
            Some(Error::Validation(Invalid::Description))
        } else {
            None
        }
    }

    /// `Ok` where there is no objection to the request, else the first
    /// objection.
    pub fn validate(&self, asset_types: &AssetTypeService, action_types: &ActionTypeService) -> (r:
        Result<(), Error>)
        ensures
            r == verdict(self.objection(asset_types@, action_types@)),
    {
        validate_user_id(self.user_id)?;
        validate_asset_type_id(asset_types, self.asset_type_id)?;
        validate_action_type_id(action_types, self.action_type_id)?;
        validate_amount(&self.amount)?;
        if self.order_number.as_str().unicode_len() < MIN_ORDER_NUMBER_LENGTH {
            return Err(Error::Validation(Invalid::OrderNumber));
        }
        if self.description.as_str().unicode_len() < 1 {
            return Err(Error::Validation(Invalid::Description));
        }
        Ok(())
    }
}

} // verus!

//! Action types: named operations with a fixed direction per balance field.

use crate::decimal::{Amount, MAX_MANTISSA};
use crate::model::account::{AccountModel, Deltas};
use vstd::prelude::*;

verus! {

/// The direction in which a balance field moves under an action type.
#[derive(Clone, Copy, PartialEq, Eq, Structural, Debug)]
pub enum Change {
    /// Add the magnitude.
    Inc,
    /// Subtract the magnitude.
    Dec,
    /// Leave the field as it is.
    Unchanged,
}

impl Change {
    /// The signed delta for a magnitude given in millionths.
    pub open spec fn signed(self, magnitude: int) -> int {
        match self {
            Change::Inc => magnitude,
            Change::Dec => -magnitude,
            Change::Unchanged => 0,
        }
    }

    /// The signed delta, in millionths, that this rule makes of `amount`: its
    /// magnitude cut to six fractional digits, added under `Inc`, subtracted
    /// under `Dec`, and nothing under `Unchanged`.
    pub fn calculate_change(&self, amount: Amount) -> (delta: i128)
        ensures
            delta == self.signed(amount@.magnitude_micros()),
            -MAX_MANTISSA * 1_000_000 <= delta <= MAX_MANTISSA * 1_000_000,
    {
        let magnitude = amount.magnitude();
        match self {
            Change::Inc => magnitude,
            Change::Dec => -magnitude,
            Change::Unchanged => 0,
        }
    }
}

/// One row of the action type table.
#[derive(Debug)]
pub struct ActionTypeModel {
    pub id: i32,
    pub name: String,
    pub description: String,
    pub available_balance_change: Change,
    pub frozen_balance_change: Change,
    pub total_income_change: Change,
    pub total_expense_change: Change,
    pub is_active: bool,
    /// Microseconds since the Unix epoch.
    pub created_at: i64,
    /// Microseconds since the Unix epoch.
    pub updated_at: i64,
}

/// The four rules of an action type, one per balance field.
#[derive(Clone, Copy, PartialEq, Eq, Structural, Debug)]
pub struct Rules {
    pub available_balance: Change,
    pub frozen_balance: Change,
    pub total_income: Change,
    pub total_expense: Change,
}

impl Rules {
    /// The four signed deltas that these rules make of a magnitude given in
    /// millionths.
    pub open spec fn deltas(self, magnitude: int) -> Deltas {
        Deltas {
            available_balance: self.available_balance.signed(magnitude) as i128,
            frozen_balance: self.frozen_balance.signed(magnitude) as i128,
            total_income: self.total_income.signed(magnitude) as i128,
            total_expense: self.total_expense.signed(magnitude) as i128,
        }
    }

    /// Whether a debit of `magnitude` finds too little on the available or
    /// the frozen balance of `account`.
    pub open spec fn short_of(self, account: AccountModel, magnitude: int) -> bool {
        ||| self.available_balance == Change::Dec && account.available_balance < magnitude
        ||| self.frozen_balance == Change::Dec && account.frozen_balance < magnitude
    }

    /// Whether a balance of `account` that these rules debit is negative.
    pub open spec fn overdrawn(self, account: AccountModel) -> bool {
        ||| self.available_balance == Change::Dec && account.available_balance < 0
        ||| self.frozen_balance == Change::Dec && account.frozen_balance < 0
    }
}

impl ActionTypeModel {
    /// A copy of the row.
    pub fn duplicate(&self) -> (copy: ActionTypeModel)
        ensures
            copy == *self,
    {
        ActionTypeModel {
            id: self.id,
            name: self.name.clone(),
            description: self.description.clone(),
            available_balance_change: self.available_balance_change,
            frozen_balance_change: self.frozen_balance_change,
            total_income_change: self.total_income_change,
            total_expense_change: self.total_expense_change,
            is_active: self.is_active,
            created_at: self.created_at,
            updated_at: self.updated_at,
        }
    }

    /// The four rules of this action type.
    pub open spec fn spec_rules(&self) -> Rules {
        Rules {
            available_balance: self.available_balance_change,
            frozen_balance: self.frozen_balance_change,
            total_income: self.total_income_change,
            total_expense: self.total_expense_change,
        }
    }

    /// The four rules of this action type.
    #[verifier::when_used_as_spec(spec_rules)]
    pub fn rules(&self) -> (r: Rules)
        ensures
            r == self.spec_rules(),
    {
        Rules {
            available_balance: self.available_balance_change,
            frozen_balance: self.frozen_balance_change,
            total_income: self.total_income_change,
            total_expense: self.total_expense_change,
        }
    }
}

} // verus!

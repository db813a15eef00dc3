//! Accounts: the four balances of one user in one asset type.

use crate::decimal::MAX_MANTISSA;
use crate::error::Error;
use crate::store::Ledger;
use vstd::prelude::*;

verus! {

/// One row of the account table. Balances are counted in millionths.
#[derive(Clone, Copy, PartialEq, Eq, Structural, Debug)]
pub struct AccountModel {
    pub id: i32,
    pub user_id: i32,
    pub asset_type_id: i32,
    pub available_balance: i128,
    pub frozen_balance: i128,
    pub total_income: i128,
    pub total_expense: i128,
    pub is_active: bool,
    /// Microseconds since the Unix epoch.
    pub created_at: i64,
    /// Microseconds since the Unix epoch.
    pub updated_at: i64,
}

/// Four signed deltas, one per balance field, in millionths.
#[derive(Clone, Copy, PartialEq, Eq, Structural, Debug)]
pub struct Deltas {
    pub available_balance: i128,
    pub frozen_balance: i128,
    pub total_income: i128,
    pub total_expense: i128,
}

/// Whether a balance is one that the store can hold: a 96-bit decimal with six
/// fractional digits.
pub open spec fn storable(balance: int) -> bool {
    -MAX_MANTISSA <= balance <= MAX_MANTISSA
}

impl AccountModel {
    /// Whether this is the account of `user_id` in `asset_type_id`.
    pub open spec fn is_for(self, user_id: i32, asset_type_id: i32) -> bool {
        self.user_id == user_id && self.asset_type_id == asset_type_id
    }

    /// All four balances are ones the store can hold.
    pub open spec fn in_range(self) -> bool {
        &&& storable(self.available_balance as int)
        &&& storable(self.frozen_balance as int)
        &&& storable(self.total_income as int)
        &&& storable(self.total_expense as int)
    }

    /// Whether the store can hold the balances that `deltas` lead to.
    pub open spec fn accepts(self, deltas: Deltas) -> bool {
        &&& storable(self.available_balance + deltas.available_balance)
        &&& storable(self.frozen_balance + deltas.frozen_balance)
        &&& storable(self.total_income + deltas.total_income)
        &&& storable(self.total_expense + deltas.total_expense)
    }

    /// The row after `deltas` were added to its balances at time `now`.
    pub open spec fn moved_by(self, deltas: Deltas, now: i64) -> AccountModel {
        AccountModel {
            available_balance: (self.available_balance + deltas.available_balance) as i128,
            frozen_balance: (self.frozen_balance + deltas.frozen_balance) as i128,
            total_income: (self.total_income + deltas.total_income) as i128,
            total_expense: (self.total_expense + deltas.total_expense) as i128,
            updated_at: now,
            ..self
        }
    }

    /// A fresh account: zero balances, active.
    pub open spec fn opened(id: i32, user_id: i32, asset_type_id: i32, now: i64) -> AccountModel {
        AccountModel {
            id,
            user_id,
            asset_type_id,
            available_balance: 0,
            frozen_balance: 0,
            total_income: 0,
            total_expense: 0,
            is_active: true,
            created_at: now,
            updated_at: now,
        }
    }
}

/// The position of the account of `user_id` in `asset_type_id` among
/// `accounts`, searched from `start` on.
pub open spec fn position_from(
    accounts: Seq<AccountModel>,
    user_id: i32,
    asset_type_id: i32,
    start: int,
) -> Option<int>
    decreases accounts.len() - start,
{
    if start < 0 || start >= accounts.len() {
        None
    } else if accounts[start].is_for(user_id, asset_type_id) {
        Some(start)
    } else {
        position_from(accounts, user_id, asset_type_id, start + 1)
    }
}

/// The position of the first account of `user_id` in `asset_type_id`.
pub open spec fn position(accounts: Seq<AccountModel>, user_id: i32, asset_type_id: i32) -> Option<
    int,
> {
    position_from(accounts, user_id, asset_type_id, 0)
}

/// `position` finds an account exactly where one with that key exists, and
/// then the first such.
pub proof fn lemma_position(
    accounts: Seq<AccountModel>,
    user_id: i32,
    asset_type_id: i32,
    start: int,
)
    requires
        0 <= start,
    ensures
        match position_from(accounts, user_id, asset_type_id, start) {
            Some(i) => {
                &&& start <= i < accounts.len()
                &&& accounts[i].is_for(user_id, asset_type_id)
                &&& forall|j: int|
                    start <= j < i ==> !(#[trigger] accounts[j]).is_for(user_id, asset_type_id)
            },
            None => forall|j: int|
                start <= j < accounts.len() ==> !(#[trigger] accounts[j]).is_for(
                    user_id,
                    asset_type_id,
                ),
        },
    decreases accounts.len() - start,
{
    if start < accounts.len() && !accounts[start].is_for(user_id, asset_type_id) {
        lemma_position(accounts, user_id, asset_type_id, start + 1);
    }
}

/// Replacing an account by a row with the same key leaves every account
/// where it was.
pub proof fn lemma_position_after_update(
    accounts: Seq<AccountModel>,
    user_id: i32,
    asset_type_id: i32,
    i: int,
    row: AccountModel,
)
    requires
        0 <= i < accounts.len(),
        row.user_id == accounts[i].user_id,
        row.asset_type_id == accounts[i].asset_type_id,
    ensures
        position(accounts.update(i, row), user_id, asset_type_id) == position(
            accounts,
            user_id,
            asset_type_id,
        ),
{
    lemma_position_from_after_update(accounts, user_id, asset_type_id, i, row, 0);
}

proof fn lemma_position_from_after_update(
    accounts: Seq<AccountModel>,
    user_id: i32,
    asset_type_id: i32,
    i: int,
    row: AccountModel,
    start: int,
)
    requires
        0 <= i < accounts.len(),
        0 <= start,
        row.user_id == accounts[i].user_id,
        row.asset_type_id == accounts[i].asset_type_id,
    ensures
        position_from(accounts.update(i, row), user_id, asset_type_id, start) == position_from(
            accounts,
            user_id,
            asset_type_id,
            start,
        ),
    decreases accounts.len() - start,
{
    if start < accounts.len() {
        lemma_position_from_after_update(accounts, user_id, asset_type_id, i, row, start + 1);
    }
}

/// The index of the first account of `user_id` in `asset_type_id`.
pub(crate) fn find_index(accounts: &Vec<AccountModel>, user_id: i32, asset_type_id: i32) -> (r:
    Option<usize>)
    ensures
        r is Some <==> position(accounts@, user_id, asset_type_id) is Some,
        r matches Some(k) ==> position(accounts@, user_id, asset_type_id) == Some(k as int) && k
            < accounts@.len(),
{
    let mut i: usize = 0;
    while i < accounts.len()
        invariant
            i <= accounts@.len(),
            position(accounts@, user_id, asset_type_id) == position_from(
                accounts@,
                user_id,
                asset_type_id,
                i as int,
            ),
        decreases accounts@.len() - i,
    {
        if accounts[i].user_id == user_id && accounts[i].asset_type_id == asset_type_id {
            return Some(i);
        }
        i += 1;
    }
    None
}

/// The accounts of `user_id` among `accounts` whose asset type is one of
/// `asset_type_ids`, in order.
pub open spec fn held_in(accounts: Seq<AccountModel>, user_id: i32, asset_type_ids: Seq<i32>) -> Seq<
    AccountModel,
> {
    accounts.filter(
        |account: AccountModel|
            account.user_id == user_id && asset_type_ids.contains(account.asset_type_id),
    )
}

fn contains_id(ids: &Vec<i32>, id: i32) -> (found: bool)
    ensures
        found == ids@.contains(id),
{
    let mut i: usize = 0;
    while i < ids.len()
        invariant
            i <= ids@.len(),
            forall|j: int| 0 <= j < i ==> ids@[j] != id,
        decreases ids@.len() - i,
    {
        if ids[i] == id {
            return true;
        }
        i += 1;
    }
    false
}

/// `a + b` where the store can hold it.
fn storable_sum(a: i128, b: i128) -> (r: Option<i128>)
    ensures
        r is Some <==> storable(a + b),
        r matches Some(c) ==> c == a + b,
{
    match a.checked_add(b) {
        Some(c) => if -MAX_MANTISSA <= c && c <= MAX_MANTISSA {
            Some(c)
        } else {
            None
        },
        None => None,
    }
}

impl AccountModel {
    /// Whether `user_id` has an account in `asset_type_id`.
    pub fn is_exists(ledger: &Ledger, user_id: i32, asset_type_id: i32) -> (found: bool)
        ensures
            found == ledger@.account(user_id, asset_type_id).is_some(),
    {
        find_index(ledger.accounts(), user_id, asset_type_id).is_some()
    }

    /// The account of `user_id` in `asset_type_id`; `NotFound` where there is
    /// none.
    pub fn find(ledger: &Ledger, user_id: i32, asset_type_id: i32) -> (r: Result<
        AccountModel,
        Error,
    >)
        ensures
            r == match ledger@.account(user_id, asset_type_id) {
                Some(account) => Ok::<AccountModel, Error>(account),
                None => Err(Error::NotFound),
            },
            r matches Ok(account) ==> account.in_range(),
    {
        let accounts = ledger.accounts();
        match find_index(accounts, user_id, asset_type_id) {
            Some(i) => Ok(accounts[i]),
            None => Err(Error::NotFound),
        }
    }

    /// As `find`, for a caller that is about to change the account: the
    /// exclusive borrow of the store stands for the row lock.
    pub fn find_for_update(ledger: &mut Ledger, user_id: i32, asset_type_id: i32) -> (r: Result<
        AccountModel,
        Error,
    >)
        ensures
            final(ledger)@ == old(ledger)@,
            r == match old(ledger)@.account(user_id, asset_type_id) {
                Some(account) => Ok::<AccountModel, Error>(account),
                None => Err(Error::NotFound),
            },
            r matches Ok(account) ==> account.in_range(),
    {
        AccountModel::find(ledger, user_id, asset_type_id)
    }

    /// Inserts a fresh account for `user_id` in `asset_type_id` under the next
    /// account id: zero balances, active, stamped with `now`. `Conflict`
    /// where the pair has an account already, `OutOfRange` where no account
    /// id is left; the store is then unchanged.
    pub fn create(ledger: &mut Ledger, user_id: i32, asset_type_id: i32, now: i64) -> (r: Result<
        AccountModel,
        Error,
    >)
        ensures
            ({
                let before = old(ledger)@;
                let row = AccountModel::opened(
                    (before.last_account_id + 1) as i32,
                    user_id,
                    asset_type_id,
                    now,
                );
                if before.account(user_id, asset_type_id) is Some {
                    r == Err::<AccountModel, Error>(Error::Conflict) && final(ledger)@ == before
                } else if before.last_account_id == i32::MAX {
                    r == Err::<AccountModel, Error>(Error::OutOfRange) && final(ledger)@ == before
                } else {
                    r == Ok::<AccountModel, Error>(row) && final(ledger)@ == before.with_account(
                        row,
                    )
                }
            }),
    {
        if AccountModel::is_exists(ledger, user_id, asset_type_id) {
            return Err(Error::Conflict);
        }
        let last = ledger.last_account_id();
        if last == i32::MAX {
            return Err(Error::OutOfRange);
        }
        let row = AccountModel {
            id: last + 1,
            user_id,
            asset_type_id,
            available_balance: 0,
            frozen_balance: 0,
            total_income: 0,
            total_expense: 0,
            is_active: true,
            created_at: now,
            updated_at: now,
        };
        ledger.push_account(row);
        Ok(row)
    }

    /// The accounts of `user_id` in the asset types given, in the order of
    /// the account table.
    pub fn find_multiple(ledger: &Ledger, user_id: i32, asset_type_ids: Vec<i32>) -> (rows: Vec<
        AccountModel,
    >)
        ensures
            rows@ == held_in(ledger@.accounts, user_id, asset_type_ids@),
    {
        let accounts = ledger.accounts();
        let mut rows: Vec<AccountModel> = Vec::new();
        let mut i: usize = 0;
        proof {
            reveal(Seq::filter);
            assert(accounts@.take(0) =~= Seq::empty());
        }
        while i < accounts.len()
            invariant
                i <= accounts@.len(),
                rows@ == held_in(accounts@.take(i as int), user_id, asset_type_ids@),
            decreases accounts@.len() - i,
        {
            proof {
                assert(accounts@.take(i + 1) =~= accounts@.take(i as int).push(accounts@[i as int]));
                accounts@.take(i as int).lemma_filter_push(
                    accounts@[i as int],
                    |account: AccountModel|
                        account.user_id == user_id && asset_type_ids@.contains(
                            account.asset_type_id,
                        ),
                );
            }
            if accounts[i].user_id == user_id && contains_id(
                &asset_type_ids,
                accounts[i].asset_type_id,
            ) {
                rows.push(accounts[i]);
            }
            i += 1;
        }
        proof {
            assert(accounts@.take(i as int) =~= accounts@);
        }
        rows
    }

    /// Puts `row` back in the place of the account with its user and asset
    /// type, which must carry the same id.
    pub(crate) fn put_back(ledger: &mut Ledger, row: AccountModel)
        requires
            row.in_range(),
            old(ledger)@.account(row.user_id, row.asset_type_id) matches Some(current)
                && current.id == row.id,
        ensures
            final(ledger)@ == (crate::store::LedgerState {
                accounts: old(ledger)@.accounts.update(
                    position(old(ledger)@.accounts, row.user_id, row.asset_type_id).unwrap(),
                    row,
                ),
                ..old(ledger)@
            }),
    {
        proof {
            lemma_position(ledger@.accounts, row.user_id, row.asset_type_id, 0);
        }
        if let Some(i) = find_index(ledger.accounts(), row.user_id, row.asset_type_id) {
            ledger.set_account(i, row);
        }
    }

    /// Adds the four deltas to the balances of the account of `user_id` in
    /// `asset_type_id`, stamps it with `now`, and returns the row as it then
    /// stands. `NotFound` where there is no such account, `OutOfRange` where
    /// the store cannot hold one of the new balances; the store is then
    /// unchanged.
    pub fn update_balance(
        ledger: &mut Ledger,
        user_id: i32,
        asset_type_id: i32,
        amount_available_balance: i128,
        amount_frozen_balance: i128,
        amount_total_income: i128,
        amount_total_expense: i128,
        now: i64,
    ) -> (r: Result<AccountModel, Error>)
        ensures
            ({
                let deltas = Deltas {
                    available_balance: amount_available_balance,
                    frozen_balance: amount_frozen_balance,
                    total_income: amount_total_income,
                    total_expense: amount_total_expense,
                };
                let before = old(ledger)@;
                match position(before.accounts, user_id, asset_type_id) {
                    None => r == Err::<AccountModel, Error>(Error::NotFound) && final(ledger)@
                        == before,
                    Some(i) => if before.accounts[i].accepts(deltas) {
                        &&& r == Ok::<AccountModel, Error>(before.accounts[i].moved_by(deltas, now))
                        &&& final(ledger)@ == before.with_balances_moved(i, deltas, now)
                    } else {
                        r == Err::<AccountModel, Error>(Error::OutOfRange) && final(ledger)@
                            == before
                    },
                }
            }),
    {
        let i = match find_index(ledger.accounts(), user_id, asset_type_id) {
            Some(i) => i,
            None => { return Err(Error::NotFound); },
        };
        let account = ledger.accounts()[i];
        let available_balance = match storable_sum(
            account.available_balance,
            amount_available_balance,
        ) {
            Some(v) => v,
            None => { return Err(Error::OutOfRange); },
        };
        let frozen_balance = match storable_sum(account.frozen_balance, amount_frozen_balance) {
            Some(v) => v,
            None => { return Err(Error::OutOfRange); },
        };
        let total_income = match storable_sum(account.total_income, amount_total_income) {
            Some(v) => v,
            None => { return Err(Error::OutOfRange); },
        };
        let total_expense = match storable_sum(account.total_expense, amount_total_expense) {
            Some(v) => v,
            None => { return Err(Error::OutOfRange); },
        };
        let updated = AccountModel {
            available_balance,
            frozen_balance,
            total_income,
            total_expense,
            updated_at: now,
            ..account
        };
        ledger.set_account(i, updated);
        Ok(updated)
    }
}

} // verus!

//! Accounts and the mutation of their balances.
//!
//! A batch of actions is applied as one unit: every action takes effect, or
//! none does. One action on one account checks that the account is active,
//! that a debit finds enough, and that the order number is fresh; it then
//! moves the balances as the action type's rules say and appends a log entry
//! that records the deltas and the balances they led to.

use crate::decimal::{lemma_pow10_positive, pow10, DecimalValue, MAX_MANTISSA};
use crate::error::Error;
use crate::model::account::{held_in, position, AccountModel, Deltas};
use crate::model::account_log::{
    entries, newest_first, page_of, recorded, AccountLogModel, LogEntry, LogFilter,
};
use crate::model::action_type::{ActionTypeModel, Change, Rules};
use crate::model::asset_type::AssetTypeModel;
use crate::request::{
    verdict, AccountActionRequest, AccountLogRequest, AccountRequest, AccountsRequest,
};
use crate::utils::{day_boundary, parse_day_boundary, DayBoundary};
use crate::service::action_type::{rule_of, ActionTypeService};
use crate::service::asset_type::AssetTypeService;
use crate::store::{Ledger, LedgerState};
use vstd::prelude::*;

verus! {

/// The log entry that records `request` under `action_type_id`, with the
/// deltas applied and the account as it stands after them.
pub open spec fn entry_of(
    id: i64,
    after: AccountModel,
    action_type_id: i32,
    deltas: Deltas,
    request: AccountActionRequest,
    now: i64,
) -> LogEntry {
    LogEntry {
        id,
        account_id: after.id,
        action_type_id,
        amount_available_balance: deltas.available_balance,
        amount_frozen_balance: deltas.frozen_balance,
        amount_total_income: deltas.total_income,
        amount_total_expense: deltas.total_expense,
        available_balance_after: after.available_balance,
        frozen_balance_after: after.frozen_balance,
        total_income_after: after.total_income,
        total_expense_after: after.total_expense,
        order_number: request.order_number@,
        description: request.description@,
        created_at: now,
    }
}

/// The store after the account at position `i` was moved by `deltas` and the
/// move was logged for `request`.
pub open spec fn committed(
    s: LedgerState,
    i: int,
    action_type_id: i32,
    deltas: Deltas,
    request: AccountActionRequest,
    now: i64,
) -> LedgerState {
    let after = s.accounts[i].moved_by(deltas, now);
    s.with_balances_moved(i, deltas, now).with_entry(
        entry_of((s.last_log_id + 1) as i64, after, action_type_id, deltas, request, now),
    )
}

/// What moving the balances and logging the move comes to, without the checks
/// that go before it: the account must exist, the store must be able to hold
/// the new balances, no debited balance may end negative, the order number
/// must be fresh, and a log id must be left.
pub open spec fn settled(
    s: LedgerState,
    action_type: ActionTypeModel,
    request: AccountActionRequest,
    now: i64,
) -> Result<LedgerState, Error> {
    let deltas = action_type.rules().deltas(request.amount@.magnitude_micros());
    match position(s.accounts, request.user_id, request.asset_type_id) {
        None => Err(Error::NotFound),
        Some(i) => {
            let after = s.accounts[i].moved_by(deltas, now);
            if !s.accounts[i].accepts(deltas) {
                Err(Error::OutOfRange)
            } else if action_type.rules().overdrawn(after) {
                Err(Error::InsufficientFunds)
            } else if recorded(s.logs, after.id, action_type.id, request.order_number@) {
                Err(Error::Conflict)
            } else if s.last_log_id == i64::MAX {
                Err(Error::OutOfRange)
            } else {
                Ok(committed(s, i, action_type.id, deltas, request, now))
            }
        },
    }
}

/// What one action comes to on the store `s`: the store after it, or the
/// reason for which it is refused.
pub open spec fn applied(
    s: LedgerState,
    actions: Seq<ActionTypeModel>,
    request: AccountActionRequest,
    now: i64,
) -> Result<LedgerState, Error> {
    match position(s.accounts, request.user_id, request.asset_type_id) {
        None => Err(Error::NotFound),
        Some(i) => {
            let account = s.accounts[i];
            if !account.is_active {
                Err(Error::Forbidden)
            } else {
                match rule_of(actions, request.action_type_id) {
                    None => Err(Error::NotFound),
                    Some(action_type) => {
                        let magnitude = request.amount@.magnitude_micros();
                        let deltas = action_type.rules().deltas(magnitude);
                        if action_type.rules().short_of(account, magnitude) {
                            Err(Error::InsufficientFunds)
                        } else if recorded(
                            s.logs,
                            account.id,
                            action_type.id,
                            request.order_number@,
                        ) {
                            Err(Error::Conflict)
                        } else if !account.accepts(deltas) || s.last_log_id == i64::MAX {
                            Err(Error::OutOfRange)
                        } else {
                            Ok(committed(s, i, action_type.id, deltas, request, now))
                        }
                    },
                }
            }
        },
    }
}

/// What a sequence of actions comes to on the store `s`, each applied to what
/// the one before it left: the store after the last, or the reason for which
/// the first refused action is refused.
pub open spec fn applied_all(
    s: LedgerState,
    actions: Seq<ActionTypeModel>,
    requests: Seq<AccountActionRequest>,
    now: i64,
) -> Result<LedgerState, Error>
    decreases requests.len(),
{
    if requests.len() == 0 {
        Ok(s)
    } else {
        match applied_all(s, actions, requests.drop_last(), now) {
            Err(e) => Err(e),
            Ok(before_last) => applied(before_last, actions, requests.last(), now),
        }
    }
}

/// The first objection to a request of the batch, in the order of the batch.
pub open spec fn batch_objection(
    assets: Seq<AssetTypeModel>,
    actions: Seq<ActionTypeModel>,
    requests: Seq<AccountActionRequest>,
) -> Option<Error>
    decreases requests.len(),
{
    if requests.len() == 0 {
        None
    } else {
        match batch_objection(assets, actions, requests.drop_last()) {
            Some(e) => Some(e),
            None => requests.last().objection(assets, actions),
        }
    }
}

/// What a batch comes to: every request is validated before the store is
/// touched, then the actions are applied in order.
pub open spec fn batch_outcome(
    s: LedgerState,
    assets: Seq<AssetTypeModel>,
    actions: Seq<ActionTypeModel>,
    requests: Seq<AccountActionRequest>,
    now: i64,
) -> Result<LedgerState, Error> {
    match batch_objection(assets, actions, requests) {
        Some(e) => Err(e),
        None => applied_all(s, actions, requests, now),
    }
}

/// The boundary of an optional day in the zone `zone`.
pub open spec fn optional_boundary(day: Option<String>, zone: Seq<char>, boundary: DayBoundary) -> Result<
    Option<i64>,
    Error,
> {
    match day {
        None => Ok(None),
        Some(text) => match day_boundary(text@, zone, boundary) {
            Ok(instant) => Ok(Some(instant)),
            Err(e) => Err(e),
        },
    }
}

/// The page of the log that `request` asks for, with the days of the request
/// read in the zone `zone`.
pub open spec fn reported(
    s: LedgerState,
    assets: Seq<AssetTypeModel>,
    actions: Seq<ActionTypeModel>,
    request: AccountLogRequest,
    zone: Seq<char>,
) -> Result<Seq<LogEntry>, Error> {
    if let Some(e) = request.objection(assets, actions) {
        Err(e)
    } else {
        match s.account(request.user_id, request.asset_type_id) {
            None => Err(Error::NotFound),
            Some(account) => match optional_boundary(
                request.start_time,
                zone,
                DayBoundary::Start,
            ) {
                Err(e) => Err(e),
                Ok(start_time) => match optional_boundary(
                    request.end_time,
                    zone,
                    DayBoundary::End,
                ) {
                    Err(e) => Err(e),
                    Ok(end_time) => Ok(
                        page_of(
                            newest_first(
                                (LogFilter {
                                    account_id: account.id,
                                    action_type_id: request.action_type_id,
                                    start_time,
                                    end_time,
                                }).selected(s.logs),
                            ),
                            request.page,
                            request.page_size,
                        ),
                    ),
                },
            },
        }
    }
}

/// The magnitude of a representable amount is at most the largest mantissa,
/// counted in millionths.
pub proof fn lemma_magnitude_bounded(amount: DecimalValue)
    requires
        amount.representable(),
    ensures
        0 <= amount.magnitude_micros() <= MAX_MANTISSA * 1_000_000,
{
    let m = if amount.mantissa < 0 {
        -amount.mantissa
    } else {
        amount.mantissa
    };
    let p = pow10(amount.scale) as int;
    lemma_pow10_positive(amount.scale);
    vstd::arithmetic::div_mod::lemma_div_pos_is_pos(m * 1_000_000, p);
    vstd::arithmetic::div_mod::lemma_div_is_ordered_by_denominator(m * 1_000_000, 1, p);
    vstd::arithmetic::div_mod::lemma_div_basics(m * 1_000_000);
}

/// A debit that finds enough leaves nothing negative: where the check before
/// the move passes, the check after it passes too.
pub proof fn lemma_covered_debit_stays_nonnegative(
    rules: Rules,
    account: AccountModel,
    amount: DecimalValue,
    now: i64,
)
    requires
        amount.representable(),
        !rules.short_of(account, amount.magnitude_micros()),
    ensures
        !rules.overdrawn(account.moved_by(rules.deltas(amount.magnitude_micros()), now)),
{
    lemma_magnitude_bounded(amount);
}

/// On a prefix of the batch that is refused, the whole batch is refused for
/// the same reason.
pub proof fn lemma_refused_prefix(
    s: LedgerState,
    actions: Seq<ActionTypeModel>,
    requests: Seq<AccountActionRequest>,
    k: int,
    now: i64,
)
    requires
        0 <= k <= requests.len(),
        applied_all(s, actions, requests.take(k), now) is Err,
    ensures
        applied_all(s, actions, requests, now) == applied_all(s, actions, requests.take(k), now),
    decreases requests.len(),
{
    if k == requests.len() {
        assert(requests.take(k) =~= requests);
    } else {
        assert(requests.drop_last().take(k) =~= requests.take(k));
        lemma_refused_prefix(s, actions, requests.drop_last(), k, now);
    }
}

/// On a prefix of the batch to which there is an objection, that objection is
/// the objection to the whole batch.
pub proof fn lemma_objection_prefix(
    assets: Seq<AssetTypeModel>,
    actions: Seq<ActionTypeModel>,
    requests: Seq<AccountActionRequest>,
    k: int,
)
    requires
        0 <= k <= requests.len(),
        batch_objection(assets, actions, requests.take(k)) is Some,
    ensures
        batch_objection(assets, actions, requests) == batch_objection(
            assets,
            actions,
            requests.take(k),
        ),
    decreases requests.len(),
{
    if k == requests.len() {
        assert(requests.take(k) =~= requests);
    } else {
        assert(requests.drop_last().take(k) =~= requests.take(k));
        lemma_objection_prefix(assets, actions, requests.drop_last(), k);
    }
}

/// A copy of the account table.
fn copy_accounts(accounts: &Vec<AccountModel>) -> (copy: Vec<AccountModel>)
    ensures
        copy@ == accounts@,
{
    let mut copy: Vec<AccountModel> = Vec::new();
    let mut i: usize = 0;
    while i < accounts.len()
        invariant
            i <= accounts@.len(),
            copy@ == accounts@.take(i as int),
        decreases accounts@.len() - i,
    {
        copy.push(accounts[i]);
        i += 1;
        assert(copy@ =~= accounts@.take(i as int));
    }
    assert(accounts@.take(i as int) =~= accounts@);
    copy
}

/// The operations on accounts.
pub struct AccountService;

impl AccountService {
    /// The check before a move: `InsufficientFunds` where the action type
    /// debits the available or the frozen balance and `amount`, a magnitude in
    /// millionths, exceeds it.
    pub fn check_balance_before_update(
        action_type: &ActionTypeModel,
        account: &AccountModel,
        amount: i128,
    ) -> (r: Result<(), Error>)
        ensures
            r == verdict(
                if action_type.rules().short_of(*account, amount as int) {
                    Some(Error::InsufficientFunds)
                } else {
                    None
                },
            ),
    {
        if (action_type.available_balance_change == Change::Dec && account.available_balance
            < amount) || (action_type.frozen_balance_change == Change::Dec
            && account.frozen_balance < amount) {
            return Err(Error::InsufficientFunds);
        }
        Ok(())
    }

    /// The check after a move: `InsufficientFunds` where the action type
    /// debits the available or the frozen balance and that balance is
    /// negative. A balance that the action type credits is not looked at.
    pub fn check_balance_after_update(action_type: &ActionTypeModel, account: &AccountModel) -> (r:
        Result<(), Error>)
        ensures
            r == verdict(
                if action_type.rules().overdrawn(*account) {
                    Some(Error::InsufficientFunds)
                } else {
                    None
                },
            ),
    {
        if (action_type.available_balance_change == Change::Dec && account.available_balance < 0)
            || (action_type.frozen_balance_change == Change::Dec && account.frozen_balance < 0) {
            return Err(Error::InsufficientFunds);
        }
        Ok(())
    }

    /// The idempotency check: `Conflict` where the log holds an entry for
    /// this account, action type and order number.
    pub fn check_account_log_exists(
        ledger: &Ledger,
        account_id: i32,
        action_type_id: i32,
        order_number: &str,
    ) -> (r: Result<(), Error>)
        ensures
            r == verdict(
                if recorded(ledger@.logs, account_id, action_type_id, order_number@) {
                    Some(Error::Conflict)
                } else {
                    None
                },
            ),
    {
        if AccountLogModel::is_exists(ledger, account_id, action_type_id, order_number) {
            return Err(Error::Conflict);
        }
        Ok(())
    }

    /// Opens the account that `request` names: zero balances, active.
    /// The request is validated first; `Conflict` where the user has an
    /// account in the asset type already, and the store is then unchanged.
    pub fn create(
        ledger: &mut Ledger,
        asset_types: &AssetTypeService,
        request: &AccountRequest,
        now: i64,
    ) -> (r: Result<AccountModel, Error>)
        ensures
            ({
                let before = old(ledger)@;
                let row = AccountModel::opened(
                    (before.last_account_id + 1) as i32,
                    request.user_id,
                    request.asset_type_id,
                    now,
                );
                if let Some(e) = request.objection(asset_types@) {
                    r == Err::<AccountModel, Error>(e) && final(ledger)@ == before
                } else if before.account(request.user_id, request.asset_type_id) is Some {
                    r == Err::<AccountModel, Error>(Error::Conflict) && final(ledger)@ == before
                } else if before.last_account_id == i32::MAX {
                    r == Err::<AccountModel, Error>(Error::OutOfRange) && final(ledger)@ == before
                } else {
                    r == Ok::<AccountModel, Error>(row) && final(ledger)@ == before.with_account(
                        row,
                    )
                }
            }),
    {
        request.validate(asset_types)?;
        if AccountModel::is_exists(ledger, request.user_id, request.asset_type_id) {
            return Err(Error::Conflict);
        }
        AccountModel::create(ledger, request.user_id, request.asset_type_id, now)
    }

    /// The account that `request` names. The request is validated first;
    /// `NotFound` where there is no such account.
    pub fn info(ledger: &Ledger, asset_types: &AssetTypeService, request: &AccountRequest) -> (r:
        Result<AccountModel, Error>)
        ensures
            r == if let Some(e) = request.objection(asset_types@) {
                Err::<AccountModel, Error>(e)
            } else {
                match ledger@.account(request.user_id, request.asset_type_id) {
                    Some(account) => Ok::<AccountModel, Error>(account),
                    None => Err(Error::NotFound),
                }
            },
    {
        request.validate(asset_types)?;
        AccountModel::find(ledger, request.user_id, request.asset_type_id)
    }

    /// The accounts of the user that `request` names, one per asset type in
    /// force in which the user has one, in the order of the account table.
    pub fn infos(ledger: &Ledger, asset_types: &AssetTypeService, request: &AccountsRequest) -> (rows:
        Vec<AccountModel>)
        ensures
            rows@ == held_in(
                ledger@.accounts,
                request.user_id,
                asset_types@.map_values(|row: AssetTypeModel| row.id),
            ),
    {
        AccountModel::find_multiple(ledger, request.user_id, asset_types.ids())
    }

    /// Applies a batch of actions as one unit. Every request is validated
    /// before the store is touched; the actions are then applied in order,
    /// each to what the one before it left. Where one is refused, the batch
    /// fails for that reason and the store is as it was before the batch.
    pub fn actions(
        ledger: &mut Ledger,
        asset_types: &AssetTypeService,
        action_types: &ActionTypeService,
        requests: &Vec<AccountActionRequest>,
        now: i64,
    ) -> (r: Result<(), Error>)
        ensures
            match batch_outcome(old(ledger)@, asset_types@, action_types@, requests@, now) {
                Ok(after) => r == Ok::<(), Error>(()) && final(ledger)@ == after,
                Err(e) => r == Err::<(), Error>(e) && final(ledger)@ == old(ledger)@,
            },
    {
        let ghost before = ledger@;
        let mut i: usize = 0;
        proof {
            assert(requests@.take(0) =~= Seq::empty());
        }
        while i < requests.len()
            invariant
                i <= requests@.len(),
                ledger@ == before,
                batch_objection(asset_types@, action_types@, requests@.take(i as int)) is None,
            decreases requests@.len() - i,
        {
            proof {
                assert(requests@.take(i + 1).drop_last() =~= requests@.take(i as int));
            }
            match requests[i].validate(asset_types, action_types) {
                Ok(()) => {},
                Err(e) => {
                    proof {
                        lemma_objection_prefix(asset_types@, action_types@, requests@, i + 1);
                    }
                    return Err(e);
                },
            }
            i += 1;
        }
        proof {
            assert(requests@.take(i as int) =~= requests@);
        }
        let saved_accounts = copy_accounts(ledger.accounts());
        let saved_logs = ledger.logs().len();
        let saved_log_id = ledger.last_log_id();
        proof {
            assert(before.logs.take(before.logs.len() as int) =~= before.logs);
        }
        let mut i: usize = 0;
        while i < requests.len()
            invariant
                i <= requests@.len(),
                before.wf(),
                before == old(ledger)@,
                batch_objection(asset_types@, action_types@, requests@) is None,
                saved_accounts@ == before.accounts,
                saved_logs == before.logs.len(),
                saved_log_id == before.last_log_id,
                saved_logs <= ledger@.logs.len(),
                before.logs == ledger@.logs.take(saved_logs as int),
                before.last_account_id == ledger@.last_account_id,
                applied_all(before, action_types@, requests@.take(i as int), now) == Ok::<
                    LedgerState,
                    Error,
                >(ledger@),
            decreases requests@.len() - i,
        {
            let ghost current = ledger@;
            proof {
                assert(requests@.take(i + 1).drop_last() =~= requests@.take(i as int));
            }
            match AccountService::apply(ledger, action_types, &requests[i], now) {
                Ok(()) => {
                    proof {
                        assert(ledger@.logs.take(saved_logs as int) =~= current.logs.take(
                            saved_logs as int,
                        ));
                    }
                },
                Err(e) => {
                    proof {
                        lemma_refused_prefix(before, action_types@, requests@, i + 1, now);
                    }
                    ledger.restore(saved_accounts, saved_logs, saved_log_id, Ghost(before));
                    return Err(e);
                },
            }
            i += 1;
        }
        proof {
            assert(requests@.take(i as int) =~= requests@);
        }
        Ok(())
    }

    /// One page of the log of the account that `request` names, newest entry
    /// first. The request is validated first; `NotFound` where there is no
    /// such account. The start day counts from its first instant and the end
    /// day to its last microsecond, both in the time zone named `tz`.
    pub fn logs(
        ledger: &Ledger,
        asset_types: &AssetTypeService,
        action_types: &ActionTypeService,
        request: &AccountLogRequest,
        tz: &str,
    ) -> (r: Result<Vec<AccountLogModel>, Error>)
        ensures
            match reported(ledger@, asset_types@, action_types@, *request, tz@) {
                Ok(page) => r matches Ok(rows) && entries(rows@) == page,
                Err(e) => r matches Err(refusal) && refusal == e,
            },
    {
        request.validate(asset_types, action_types)?;
        let account = AccountModel::find(ledger, request.user_id, request.asset_type_id)?;
        let start_time = match &request.start_time {
            None => None,
            Some(day) => Some(parse_day_boundary(day.as_str(), tz, DayBoundary::Start)?),
        };
        let end_time = match &request.end_time {
            None => None,
            Some(day) => Some(parse_day_boundary(day.as_str(), tz, DayBoundary::End)?),
        };
        AccountLogModel::query_with_pagination(
            ledger,
            account.id,
            request.action_type_id,
            start_time,
            end_time,
            request.page,
            request.page_size,
        )
    }

    /// Applies one action: finds the account, checks that it is active, that
    /// a debit finds enough and that the order number is fresh, then moves the
    /// balances and logs the move. Where it fails, the store is as it was.
    fn apply(
        ledger: &mut Ledger,
        action_types: &ActionTypeService,
        request: &AccountActionRequest,
        now: i64,
    ) -> (r: Result<(), Error>)
        ensures
            match applied(old(ledger)@, action_types@, *request, now) {
                Ok(after) => r == Ok::<(), Error>(()) && final(ledger)@ == after,
                Err(e) => r == Err::<(), Error>(e) && final(ledger)@ == old(ledger)@,
            },
    {
        let account = AccountModel::find_for_update(
            ledger,
            request.user_id,
            request.asset_type_id,
        )?;
        if !account.is_active {
            return Err(Error::Forbidden);
        }
        let action_type = match action_types.by_id(request.action_type_id) {
            Some(action_type) => action_type,
            None => { return Err(Error::NotFound); },
        };
        AccountService::check_balance_before_update(
            action_type,
            &account,
            request.amount.magnitude(),
        )?;
        AccountService::check_account_log_exists(
            ledger,
            account.id,
            action_type.id,
            request.order_number.as_str(),
        )?;
        proof {
            lemma_covered_debit_stays_nonnegative(
                action_type.rules(),
                account,
                request.amount@,
                now,
            );
        }
        AccountService::update_balance(ledger, request, action_type, now)
    }

    /// Moves the balances of the account that `request` names as the rules of
    /// `action_type` say, and logs the move. Where it fails, the store is as
    /// it was.
    fn update_balance(
        ledger: &mut Ledger,
        request: &AccountActionRequest,
        action_type: &ActionTypeModel,
        now: i64,
    ) -> (r: Result<(), Error>)
        ensures
            match settled(old(ledger)@, *action_type, *request, now) {
                Ok(after) => r == Ok::<(), Error>(()) && final(ledger)@ == after,
                Err(e) => r == Err::<(), Error>(e) && final(ledger)@ == old(ledger)@,
            },
    {
        let ghost before = ledger@;
        let amount_available_balance = action_type.available_balance_change.calculate_change(
            request.amount,
        );
        let amount_frozen_balance = action_type.frozen_balance_change.calculate_change(
            request.amount,
        );
        let amount_total_income = action_type.total_income_change.calculate_change(request.amount);
        let amount_total_expense = action_type.total_expense_change.calculate_change(
            request.amount,
        );
        let previous = match AccountModel::find(ledger, request.user_id, request.asset_type_id) {
            Ok(account) => account,
            Err(e) => { return Err(e); },
        };
        let account = match AccountModel::update_balance(
            ledger,
            request.user_id,
            request.asset_type_id,
            amount_available_balance,
            amount_frozen_balance,
            amount_total_income,
            amount_total_expense,
            now,
        ) {
            Ok(account) => account,
            Err(e) => { return Err(e); },
        };
        let ghost i = position(before.accounts, request.user_id, request.asset_type_id).unwrap();
        let ghost deltas = action_type.rules().deltas(request.amount@.magnitude_micros());
        proof {
            crate::model::account::lemma_position(
                before.accounts,
                request.user_id,
                request.asset_type_id,
                0,
            );
            assert(ledger@.accounts =~= before.accounts.update(i, account));
        }
        let logged = match AccountService::check_balance_after_update(action_type, &account) {
            Err(e) => Err(e),
            Ok(()) => AccountLogModel::create(
                ledger,
                account.id,
                action_type.id,
                amount_available_balance,
                amount_frozen_balance,
                amount_total_income,
                amount_total_expense,
                account.available_balance,
                account.frozen_balance,
                account.total_income,
                account.total_expense,
                request.order_number.as_str(),
                request.description.as_str(),
                now,
            ),
        };
        if logged.is_err() {
            proof {
                crate::model::account::lemma_position_after_update(
                    before.accounts,
                    request.user_id,
                    request.asset_type_id,
                    i,
                    account,
                );
            }
            AccountModel::put_back(ledger, previous);
            proof {
                assert(ledger@.accounts =~= before.accounts);
            }
        }
        logged
    }
}

} // verus!

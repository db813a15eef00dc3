//! What holds of the ledger whatever the store and the requests are.

use crate::error::Error;
use crate::model::account::{lemma_position, lemma_position_after_update, position, AccountModel};
use crate::model::account_log::{recorded, LogEntry};
use crate::model::action_type::{ActionTypeModel, Change};
use crate::request::AccountActionRequest;
use crate::service::account::{applied, applied_all, lemma_magnitude_bounded};
use crate::service::action_type::rule_of;
use crate::store::{accounts_distinct, LedgerState};
use vstd::prelude::*;

verus! {

/// An action that was applied leaves its idempotency key in the log, and the
/// account it moved where it was.
pub proof fn lemma_applied_is_recorded(
    s: LedgerState,
    actions: Seq<ActionTypeModel>,
    request: AccountActionRequest,
    now: i64,
)
    requires
        applied(s, actions, request, now) is Ok,
    ensures
        ({
            let after = applied(s, actions, request, now)->Ok_0;
            let i = position(s.accounts, request.user_id, request.asset_type_id)->Some_0;
            let action_type = rule_of(actions, request.action_type_id)->Some_0;
            &&& position(after.accounts, request.user_id, request.asset_type_id) == Some(i)
            &&& after.accounts.len() == s.accounts.len()
            &&& after.accounts[i].id == s.accounts[i].id
            &&& after.accounts[i].is_active
            &&& recorded(after.logs, s.accounts[i].id, action_type.id, request.order_number@)
        }),
{
    let after = applied(s, actions, request, now)->Ok_0;
    let i = position(s.accounts, request.user_id, request.asset_type_id)->Some_0;
    let action_type = rule_of(actions, request.action_type_id)->Some_0;
    lemma_position(s.accounts, request.user_id, request.asset_type_id, 0);
    lemma_position_after_update(
        s.accounts,
        request.user_id,
        request.asset_type_id,
        i,
        after.accounts[i],
    );
    assert(after.accounts =~= s.accounts.update(i, after.accounts[i]));
    assert(after.logs[after.logs.len() - 1].has_key(
        s.accounts[i].id,
        action_type.id,
        request.order_number@,
    ));
}

/// Idempotency. An action whose key is in the log is never applied again: on
/// an account that is active and that covers the debit it is refused as a
/// `Conflict`; on an inactive account it is refused as `Forbidden`, and where
/// the debit is no longer covered as `InsufficientFunds`, because those checks
/// come first.
pub proof fn lemma_recorded_action_is_refused(
    s: LedgerState,
    actions: Seq<ActionTypeModel>,
    request: AccountActionRequest,
    now: i64,
)
    requires
        s.account(request.user_id, request.asset_type_id) is Some,
        rule_of(actions, request.action_type_id) is Some,
        recorded(
            s.logs,
            s.account(request.user_id, request.asset_type_id)->Some_0.id,
            rule_of(actions, request.action_type_id)->Some_0.id,
            request.order_number@,
        ),
    ensures
        ({
            let account = s.account(request.user_id, request.asset_type_id)->Some_0;
            let rules = rule_of(actions, request.action_type_id)->Some_0.rules();
            applied(s, actions, request, now) == Err::<LedgerState, Error>(
                if !account.is_active {
                    Error::Forbidden
                } else if rules.short_of(account, request.amount@.magnitude_micros()) {
                    Error::InsufficientFunds
                } else {
                    Error::Conflict
                },
            )
        }),
{
}

/// Idempotency, right after the commit. Submitting an applied action again
/// is refused, so the balances stay as the first application left them; the
/// refusal is a `Conflict` unless the debit is no longer covered.
pub proof fn lemma_resubmission_is_refused(
    s: LedgerState,
    actions: Seq<ActionTypeModel>,
    request: AccountActionRequest,
    now: i64,
    again: i64,
)
    requires
        applied(s, actions, request, now) is Ok,
    ensures
        ({
            let after = applied(s, actions, request, now)->Ok_0;
            let account = after.account(request.user_id, request.asset_type_id)->Some_0;
            let rules = rule_of(actions, request.action_type_id)->Some_0.rules();
            applied(after, actions, request, again) == Err::<LedgerState, Error>(
                if rules.short_of(account, request.amount@.magnitude_micros()) {
                    Error::InsufficientFunds
                } else {
                    Error::Conflict
                },
            )
        }),
{
    lemma_applied_is_recorded(s, actions, request, now);
    let after = applied(s, actions, request, now)->Ok_0;
    lemma_recorded_action_is_refused(after, actions, request, again);
}

/// The log only grows: a key that is in the log is still there after any
/// action, and every account keeps its place, its id and its owner.
pub proof fn lemma_applied_keeps_records(
    s: LedgerState,
    actions: Seq<ActionTypeModel>,
    request: AccountActionRequest,
    now: i64,
    user_id: i32,
    asset_type_id: i32,
    account_id: i32,
    action_type_id: i32,
    order_number: Seq<char>,
)
    requires
        applied(s, actions, request, now) is Ok,
    ensures
        ({
            let after = applied(s, actions, request, now)->Ok_0;
            &&& position(after.accounts, user_id, asset_type_id) == position(
                s.accounts,
                user_id,
                asset_type_id,
            )
            &&& s.account(user_id, asset_type_id) matches Some(account) ==> {
                &&& after.account(user_id, asset_type_id)->Some_0.id == account.id
                &&& after.account(user_id, asset_type_id)->Some_0.is_active == account.is_active
            }
            &&& recorded(s.logs, account_id, action_type_id, order_number) ==> recorded(
                after.logs,
                account_id,
                action_type_id,
                order_number,
            )
        }),
{
    let after = applied(s, actions, request, now)->Ok_0;
    let i = position(s.accounts, request.user_id, request.asset_type_id)->Some_0;
    lemma_position(s.accounts, request.user_id, request.asset_type_id, 0);
    lemma_position(s.accounts, user_id, asset_type_id, 0);
    lemma_position_after_update(s.accounts, user_id, asset_type_id, i, after.accounts[i]);
    assert(after.accounts =~= s.accounts.update(i, after.accounts[i]));
    if recorded(s.logs, account_id, action_type_id, order_number) {
        let j = choose|j: int|
            0 <= j < s.logs.len() && (#[trigger] s.logs[j]).has_key(
                account_id,
                action_type_id,
                order_number,
            );
        assert(after.logs[j].has_key(account_id, action_type_id, order_number));
    }
}

/// Idempotency across batches. An action whose key is in the log stays
/// refused however many batches are committed after it.
pub proof fn lemma_batch_keeps_records(
    s: LedgerState,
    actions: Seq<ActionTypeModel>,
    requests: Seq<AccountActionRequest>,
    now: i64,
    user_id: i32,
    asset_type_id: i32,
    action_type_id: i32,
    order_number: Seq<char>,
)
    requires
        applied_all(s, actions, requests, now) is Ok,
        s.account(user_id, asset_type_id) is Some,
        recorded(
            s.logs,
            s.account(user_id, asset_type_id)->Some_0.id,
            action_type_id,
            order_number,
        ),
    ensures
        ({
            let after = applied_all(s, actions, requests, now)->Ok_0;
            &&& after.account(user_id, asset_type_id) is Some
            &&& after.account(user_id, asset_type_id)->Some_0.id == s.account(
                user_id,
                asset_type_id,
            )->Some_0.id
            &&& after.account(user_id, asset_type_id)->Some_0.is_active == s.account(
                user_id,
                asset_type_id,
            )->Some_0.is_active
            &&& recorded(
                after.logs,
                after.account(user_id, asset_type_id)->Some_0.id,
                action_type_id,
                order_number,
            )
        }),
    decreases requests.len(),
{
    if requests.len() > 0 {
        lemma_batch_keeps_records(
            s,
            actions,
            requests.drop_last(),
            now,
            user_id,
            asset_type_id,
            action_type_id,
            order_number,
        );
        let middle = applied_all(s, actions, requests.drop_last(), now)->Ok_0;
        lemma_applied_keeps_records(
            middle,
            actions,
            requests.last(),
            now,
            user_id,
            asset_type_id,
            middle.account(user_id, asset_type_id)->Some_0.id,
            action_type_id,
            order_number,
        );
    }
}

/// Idempotency of a committed batch. Every action of a batch that was
/// committed is refused when it is submitted again, so the balances stay as
/// the batch left them: as a `Conflict`, unless the debit is no longer
/// covered.
pub proof fn lemma_committed_action_is_refused_again(
    s: LedgerState,
    actions: Seq<ActionTypeModel>,
    requests: Seq<AccountActionRequest>,
    now: i64,
    k: int,
    again: i64,
)
    requires
        applied_all(s, actions, requests, now) is Ok,
        0 <= k < requests.len(),
    ensures
        ({
            let after = applied_all(s, actions, requests, now)->Ok_0;
            let request = requests[k];
            let account = after.account(request.user_id, request.asset_type_id)->Some_0;
            let rules = rule_of(actions, request.action_type_id)->Some_0.rules();
            applied(after, actions, request, again) == Err::<LedgerState, Error>(
                if rules.short_of(account, request.amount@.magnitude_micros()) {
                    Error::InsufficientFunds
                } else {
                    Error::Conflict
                },
            )
        }),
{
    let request = requests[k];
    let head = requests.take(k + 1);
    let tail = requests.skip(k + 1);
    assert(requests =~= head + tail);
    lemma_batches_compose(s, actions, head, tail, now);
    assert(head.drop_last() =~= requests.take(k));
    assert(head.last() == request);
    let before = applied_all(s, actions, requests.take(k), now)->Ok_0;
    let middle = applied_all(s, actions, head, now)->Ok_0;
    let after = applied_all(s, actions, requests, now)->Ok_0;
    lemma_applied_is_recorded(before, actions, request, now);
    lemma_batch_keeps_records(
        middle,
        actions,
        tail,
        now,
        request.user_id,
        request.asset_type_id,
        rule_of(actions, request.action_type_id)->Some_0.id,
        request.order_number@,
    );
    lemma_recorded_action_is_refused(after, actions, request, again);
}

/// Non-negativity under debit. Where an action is applied and its action
/// type debits the available or the frozen balance, that balance is not
/// negative afterwards, and the log entry records it so.
pub proof fn lemma_debited_balance_is_nonnegative(
    s: LedgerState,
    actions: Seq<ActionTypeModel>,
    request: AccountActionRequest,
    now: i64,
)
    requires
        request.amount@.representable(),
        applied(s, actions, request, now) is Ok,
    ensures
        ({
            let after = applied(s, actions, request, now)->Ok_0;
            let account = after.account(request.user_id, request.asset_type_id)->Some_0;
            let rules = rule_of(actions, request.action_type_id)->Some_0.rules();
            let entry = after.logs.last();
            &&& rules.available_balance == Change::Dec ==> account.available_balance >= 0
                && entry.available_balance_after >= 0
            &&& rules.frozen_balance == Change::Dec ==> account.frozen_balance >= 0
                && entry.frozen_balance_after >= 0
        }),
{
    lemma_applied_is_recorded(s, actions, request, now);
    lemma_magnitude_bounded(request.amount@);
    lemma_position(s.accounts, request.user_id, request.asset_type_id, 0);
    let after = applied(s, actions, request, now)->Ok_0;
    let i = position(s.accounts, request.user_id, request.asset_type_id)->Some_0;
    let rules = rule_of(actions, request.action_type_id)->Some_0.rules();
    let deltas = rules.deltas(request.amount@.magnitude_micros());
    assert(after.accounts[i] == s.accounts[i].moved_by(deltas, now));
    assert(after.logs.last().available_balance_after == after.accounts[i].available_balance);
}

/// A balance that is not negative stays so under every action that is
/// applied, whichever account the action moves.
pub proof fn lemma_applied_keeps_nonnegative(
    s: LedgerState,
    actions: Seq<ActionTypeModel>,
    request: AccountActionRequest,
    now: i64,
    user_id: i32,
    asset_type_id: i32,
)
    requires
        request.amount@.representable(),
        applied(s, actions, request, now) is Ok,
        s.account(user_id, asset_type_id) is Some,
    ensures
        ({
            let after = applied(s, actions, request, now)->Ok_0;
            let before = s.account(user_id, asset_type_id)->Some_0;
            &&& after.account(user_id, asset_type_id) is Some
            &&& before.available_balance >= 0 ==> after.account(
                user_id,
                asset_type_id,
            )->Some_0.available_balance >= 0
            &&& before.frozen_balance >= 0 ==> after.account(
                user_id,
                asset_type_id,
            )->Some_0.frozen_balance >= 0
        }),
{
    let after = applied(s, actions, request, now)->Ok_0;
    let i = position(s.accounts, request.user_id, request.asset_type_id)->Some_0;
    lemma_position(s.accounts, request.user_id, request.asset_type_id, 0);
    lemma_position(s.accounts, user_id, asset_type_id, 0);
    lemma_position_after_update(s.accounts, user_id, asset_type_id, i, after.accounts[i]);
    assert(after.accounts =~= s.accounts.update(i, after.accounts[i]));
    lemma_magnitude_bounded(request.amount@);
}

/// Every amount of the batch is one that a request can carry.
pub open spec fn amounts_representable(requests: Seq<AccountActionRequest>) -> bool {
    forall|k: int| 0 <= k < requests.len() ==> (#[trigger] requests[k]).amount@.representable()
}

/// Non-negativity under debit, for a batch. Where a batch is committed and
/// the action type of one of its actions debits the available or the frozen
/// balance, that balance of the account it names is not negative at the
/// commit.
pub proof fn lemma_batch_debits_end_nonnegative(
    s: LedgerState,
    actions: Seq<ActionTypeModel>,
    requests: Seq<AccountActionRequest>,
    now: i64,
    k: int,
)
    requires
        amounts_representable(requests),
        applied_all(s, actions, requests, now) is Ok,
        0 <= k < requests.len(),
    ensures
        ({
            let after = applied_all(s, actions, requests, now)->Ok_0;
            let account = after.account(requests[k].user_id, requests[k].asset_type_id);
            let action_type = rule_of(actions, requests[k].action_type_id);
            &&& account is Some
            &&& action_type is Some
            &&& action_type->Some_0.rules().available_balance == Change::Dec
                ==> account->Some_0.available_balance >= 0
            &&& action_type->Some_0.rules().frozen_balance == Change::Dec
                ==> account->Some_0.frozen_balance >= 0
        }),
    decreases requests.len(),
{
    let middle = applied_all(s, actions, requests.drop_last(), now)->Ok_0;
    if k == requests.len() - 1 {
        lemma_debited_balance_is_nonnegative(middle, actions, requests.last(), now);
        lemma_applied_is_recorded(middle, actions, requests.last(), now);
    } else {
        assert(amounts_representable(requests.drop_last())) by {
            assert forall|j: int| 0 <= j < requests.drop_last().len() implies (
            #[trigger] requests.drop_last()[j]).amount@.representable() by {
                assert(requests.drop_last()[j] == requests[j]);
            }
        }
        lemma_batch_debits_end_nonnegative(s, actions, requests.drop_last(), now, k);
        assert(requests.drop_last()[k] == requests[k]);
        lemma_applied_keeps_nonnegative(
            middle,
            actions,
            requests.last(),
            now,
            requests[k].user_id,
            requests[k].asset_type_id,
        );
    }
}

/// Serialization. Two batches committed one after the other come to what the
/// one batch made of the first followed by the second comes to: every action
/// takes effect once, in an order that keeps the order within each batch.
pub proof fn lemma_batches_compose(
    s: LedgerState,
    actions: Seq<ActionTypeModel>,
    first: Seq<AccountActionRequest>,
    second: Seq<AccountActionRequest>,
    now: i64,
)
    ensures
        applied_all(s, actions, first + second, now) == match applied_all(s, actions, first, now) {
            Ok(middle) => applied_all(middle, actions, second, now),
            Err(e) => Err(e),
        },
    decreases second.len(),
{
    if second.len() == 0 {
        assert(first + second =~= first);
    } else {
        assert((first + second).drop_last() =~= first + second.drop_last());
        assert((first + second).last() == second.last());
        lemma_batches_compose(s, actions, first, second.drop_last(), now);
    }
}

/// The constraints of the schema hold after every action that is applied: no
/// two accounts share a user and asset type, no two log entries share an
/// idempotency key, and every balance is one that the store can hold.
pub proof fn lemma_applied_keeps_the_schema(
    s: LedgerState,
    actions: Seq<ActionTypeModel>,
    request: AccountActionRequest,
    now: i64,
)
    requires
        s.wf(),
        applied(s, actions, request, now) is Ok,
    ensures
        applied(s, actions, request, now)->Ok_0.wf(),
{
    let after = applied(s, actions, request, now)->Ok_0;
    let i = position(s.accounts, request.user_id, request.asset_type_id)->Some_0;
    lemma_position(s.accounts, request.user_id, request.asset_type_id, 0);
    lemma_applied_appends_one_entry(s, actions, request, now);
    assert(after.accounts =~= s.accounts.update(i, after.accounts[i]));
    assert forall|a: int, b: int| 0 <= a < b < after.logs.len() implies !(
    #[trigger] after.logs[a]).has_key(
        (#[trigger] after.logs[b]).account_id,
        after.logs[b].action_type_id,
        after.logs[b].order_number,
    ) by {
        if b < s.logs.len() {
            assert(after.logs[a] == s.logs[a] && after.logs[b] == s.logs[b]);
        } else {
            assert(after.logs[a] == s.logs[a]);
        }
    }
}

/// The constraints of the schema hold after every batch that is committed.
pub proof fn lemma_batch_keeps_the_schema(
    s: LedgerState,
    actions: Seq<ActionTypeModel>,
    requests: Seq<AccountActionRequest>,
    now: i64,
)
    requires
        s.wf(),
        applied_all(s, actions, requests, now) is Ok,
    ensures
        applied_all(s, actions, requests, now)->Ok_0.wf(),
    decreases requests.len(),
{
    if requests.len() > 0 {
        lemma_batch_keeps_the_schema(s, actions, requests.drop_last(), now);
        lemma_applied_keeps_the_schema(
            applied_all(s, actions, requests.drop_last(), now)->Ok_0,
            actions,
            requests.last(),
            now,
        );
    }
}

/// Four sums, one per balance field.
pub struct Totals {
    pub available_balance: int,
    pub frozen_balance: int,
    pub total_income: int,
    pub total_expense: int,
}

/// The sums of the deltas that `logs` records for the account `account_id`.
pub open spec fn logged_for(logs: Seq<LogEntry>, account_id: i32) -> Totals
    decreases logs.len(),
{
    if logs.len() == 0 {
        Totals { available_balance: 0, frozen_balance: 0, total_income: 0, total_expense: 0 }
    } else {
        let rest = logged_for(logs.drop_last(), account_id);
        let last = logs.last();
        if last.account_id == account_id {
            Totals {
                available_balance: rest.available_balance + last.amount_available_balance,
                frozen_balance: rest.frozen_balance + last.amount_frozen_balance,
                total_income: rest.total_income + last.amount_total_income,
                total_expense: rest.total_expense + last.amount_total_expense,
            }
        } else {
            rest
        }
    }
}

/// An action that is applied keeps the accounts distinct and appends exactly
/// one entry to the log.
pub proof fn lemma_applied_appends_one_entry(
    s: LedgerState,
    actions: Seq<ActionTypeModel>,
    request: AccountActionRequest,
    now: i64,
)
    requires
        accounts_distinct(s.accounts),
        applied(s, actions, request, now) is Ok,
    ensures
        ({
            let after = applied(s, actions, request, now)->Ok_0;
            &&& accounts_distinct(after.accounts)
            &&& after.logs.len() == s.logs.len() + 1
            &&& after.logs.drop_last() == s.logs
        }),
{
    let after = applied(s, actions, request, now)->Ok_0;
    let i = position(s.accounts, request.user_id, request.asset_type_id)->Some_0;
    lemma_position(s.accounts, request.user_id, request.asset_type_id, 0);
    assert(after.accounts =~= s.accounts.update(i, after.accounts[i]));
    assert(after.logs.drop_last() =~= s.logs);
    assert forall|a: int, b: int| 0 <= a < b < after.accounts.len() implies {
        &&& !(#[trigger] after.accounts[a]).is_for(
            (#[trigger] after.accounts[b]).user_id,
            after.accounts[b].asset_type_id,
        )
        &&& after.accounts[a].id != after.accounts[b].id
    } by {
        assert(s.accounts[a].is_for(s.accounts[a].user_id, s.accounts[a].asset_type_id));
        assert(s.accounts[b].is_for(s.accounts[b].user_id, s.accounts[b].asset_type_id));
    }
}

/// No lost update. After a batch is committed, every balance of every
/// account is what it was before the batch plus the deltas that the batch
/// logged for the account: each action of the batch took effect once.
pub proof fn lemma_balances_follow_the_log(
    s: LedgerState,
    actions: Seq<ActionTypeModel>,
    requests: Seq<AccountActionRequest>,
    now: i64,
    user_id: i32,
    asset_type_id: i32,
)
    requires
        accounts_distinct(s.accounts),
        applied_all(s, actions, requests, now) is Ok,
        s.account(user_id, asset_type_id) is Some,
    ensures
        ({
            let after = applied_all(s, actions, requests, now)->Ok_0;
            let before = s.account(user_id, asset_type_id)->Some_0;
            let account = after.account(user_id, asset_type_id);
            let logged = logged_for(after.logs.skip(s.logs.len() as int), before.id);
            &&& accounts_distinct(after.accounts)
            &&& after.logs.len() == s.logs.len() + requests.len()
            &&& after.logs.take(s.logs.len() as int) == s.logs
            &&& account is Some
            &&& account->Some_0.id == before.id
            &&& account->Some_0.available_balance == before.available_balance
                + logged.available_balance
            &&& account->Some_0.frozen_balance == before.frozen_balance + logged.frozen_balance
            &&& account->Some_0.total_income == before.total_income + logged.total_income
            &&& account->Some_0.total_expense == before.total_expense + logged.total_expense
        }),
    decreases requests.len(),
{
    let n = s.logs.len() as int;
    if requests.len() == 0 {
        assert(s.logs.skip(n) =~= Seq::empty());
        assert(s.logs.take(n) =~= s.logs);
    } else {
        lemma_balances_follow_the_log(
            s,
            actions,
            requests.drop_last(),
            now,
            user_id,
            asset_type_id,
        );
        let middle = applied_all(s, actions, requests.drop_last(), now)->Ok_0;
        let request = requests.last();
        let after = applied(middle, actions, request, now)->Ok_0;
        lemma_applied_appends_one_entry(middle, actions, request, now);
        let i = position(middle.accounts, request.user_id, request.asset_type_id)->Some_0;
        let j = position(middle.accounts, user_id, asset_type_id)->Some_0;
        lemma_position(middle.accounts, request.user_id, request.asset_type_id, 0);
        lemma_position(middle.accounts, user_id, asset_type_id, 0);
        lemma_position_after_update(middle.accounts, user_id, asset_type_id, i, after.accounts[i]);
        assert(after.accounts =~= middle.accounts.update(i, after.accounts[i]));
        assert(after.logs.skip(n).drop_last() =~= middle.logs.skip(n));
        assert(after.logs.skip(n).last() == after.logs.last());
        assert(after.logs.take(n) =~= middle.logs.take(n));
        if i != j {
            assert(middle.accounts[i].id != middle.accounts[j].id) by {
                if i < j {
                    assert(middle.accounts[i].is_for(
                        middle.accounts[i].user_id,
                        middle.accounts[i].asset_type_id,
                    ));
                } else {
                    assert(middle.accounts[j].is_for(
                        middle.accounts[j].user_id,
                        middle.accounts[j].asset_type_id,
                    ));
                }
            }
        }
    }
}

} // verus!

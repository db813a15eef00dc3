//! The store: the account table and the append-only log, held in memory with
//! the uniqueness constraints of the relational schema as its invariant.

use crate::model::account::{position, AccountModel, Deltas};
use crate::model::account_log::{entries, recorded, AccountLogModel, LogEntry};
use vstd::prelude::*;

verus! {

/// The content of the store.
pub struct LedgerState {
    pub accounts: Seq<AccountModel>,
    pub logs: Seq<LogEntry>,
    /// The last account id handed out.
    pub last_account_id: i32,
    /// The last log id handed out.
    pub last_log_id: i64,
}

/// No two accounts share a user and asset type, nor an id.
pub open spec fn accounts_distinct(accounts: Seq<AccountModel>) -> bool {
    forall|i: int, j: int|
        0 <= i < j < accounts.len() ==> {
            &&& !(#[trigger] accounts[i]).is_for(
                (#[trigger] accounts[j]).user_id,
                accounts[j].asset_type_id,
            )
            &&& accounts[i].id != accounts[j].id
        }
}

/// Every account has balances that the store can hold.
pub open spec fn accounts_in_range(accounts: Seq<AccountModel>) -> bool {
    forall|i: int| 0 <= i < accounts.len() ==> (#[trigger] accounts[i]).in_range()
}

/// Every account has an id that was handed out.
pub open spec fn accounts_numbered(accounts: Seq<AccountModel>, last: i32) -> bool {
    forall|i: int| 0 <= i < accounts.len() ==> (#[trigger] accounts[i]).id <= last
}

/// No two log entries share an idempotency key.
pub open spec fn logs_distinct(logs: Seq<LogEntry>) -> bool {
    forall|i: int, j: int|
        0 <= i < j < logs.len() ==> !(#[trigger] logs[i]).has_key(
            (#[trigger] logs[j]).account_id,
            logs[j].action_type_id,
            logs[j].order_number,
        )
}

/// Every log entry has an id that was handed out.
pub open spec fn logs_numbered(logs: Seq<LogEntry>, last: i64) -> bool {
    forall|i: int| 0 <= i < logs.len() ==> (#[trigger] logs[i]).id <= last
}

impl LedgerState {
    /// The constraints of the schema.
    pub open spec fn wf(self) -> bool {
        &&& accounts_distinct(self.accounts)
        &&& accounts_in_range(self.accounts)
        &&& accounts_numbered(self.accounts, self.last_account_id)
        &&& logs_distinct(self.logs)
        &&& logs_numbered(self.logs, self.last_log_id)
        &&& 0 <= self.last_account_id
        &&& 0 <= self.last_log_id
    }

    /// The account of `user_id` in `asset_type_id`, if there is one.
    pub open spec fn account(self, user_id: i32, asset_type_id: i32) -> Option<AccountModel> {
        match position(self.accounts, user_id, asset_type_id) {
            Some(i) => Some(self.accounts[i]),
            None => None,
        }
    }

    /// The store after `deltas` were added to the balances of the account at
    /// position `i` at time `now`.
    pub open spec fn with_balances_moved(self, i: int, deltas: Deltas, now: i64) -> LedgerState {
        LedgerState { accounts: self.accounts.update(i, self.accounts[i].moved_by(deltas, now)), ..self }
    }

    /// The store after `entry` was appended to the log under the next log id.
    pub open spec fn with_entry(self, entry: LogEntry) -> LedgerState {
        LedgerState { logs: self.logs.push(entry), last_log_id: entry.id, ..self }
    }

    /// The store after `account` was inserted under the next account id.
    pub open spec fn with_account(self, account: AccountModel) -> LedgerState {
        LedgerState {
            accounts: self.accounts.push(account),
            last_account_id: account.id,
            ..self
        }
    }

    /// The store with nothing in it.
    pub open spec fn empty() -> LedgerState {
        LedgerState {
            accounts: Seq::empty(),
            logs: Seq::empty(),
            last_account_id: 0,
            last_log_id: 0,
        }
    }
}

/// The highest id among `accounts`, and zero where there is none above it.
pub open spec fn highest_account_id(accounts: Seq<AccountModel>) -> i32
    decreases accounts.len(),
{
    if accounts.len() == 0 {
        0
    } else {
        let rest = highest_account_id(accounts.drop_last());
        if accounts.last().id > rest {
            accounts.last().id
        } else {
            rest
        }
    }
}

/// The highest id among `logs`, and zero where there is none above it.
pub open spec fn highest_log_id(logs: Seq<LogEntry>) -> i64
    decreases logs.len(),
{
    if logs.len() == 0 {
        0
    } else {
        let rest = highest_log_id(logs.drop_last());
        if logs.last().id > rest {
            logs.last().id
        } else {
            rest
        }
    }
}

/// The store that holds the rows given, with the highest ids as the last
/// ones handed out.
pub open spec fn loaded(accounts: Seq<AccountModel>, logs: Seq<LogEntry>) -> LedgerState {
    LedgerState {
        accounts,
        logs,
        last_account_id: highest_account_id(accounts),
        last_log_id: highest_log_id(logs),
    }
}

proof fn lemma_highest_account_id(accounts: Seq<AccountModel>)
    ensures
        0 <= highest_account_id(accounts),
        forall|i: int|
            0 <= i < accounts.len() ==> (#[trigger] accounts[i]).id <= highest_account_id(accounts),
    decreases accounts.len(),
{
    if accounts.len() > 0 {
        lemma_highest_account_id(accounts.drop_last());
        assert forall|i: int| 0 <= i < accounts.len() implies (#[trigger] accounts[i]).id
            <= highest_account_id(accounts) by {
            if i < accounts.len() - 1 {
                assert(accounts.drop_last()[i] == accounts[i]);
            }
        }
    }
}

proof fn lemma_highest_log_id(logs: Seq<LogEntry>)
    ensures
        0 <= highest_log_id(logs),
        forall|i: int| 0 <= i < logs.len() ==> (#[trigger] logs[i]).id <= highest_log_id(logs),
    decreases logs.len(),
{
    if logs.len() > 0 {
        lemma_highest_log_id(logs.drop_last());
        assert forall|i: int| 0 <= i < logs.len() implies (#[trigger] logs[i]).id
            <= highest_log_id(logs) by {
            if i < logs.len() - 1 {
                assert(logs.drop_last()[i] == logs[i]);
            }
        }
    }
}

/// Whether no two of `accounts` share a user and asset type, nor an id, and
/// each has balances that the store can hold.
fn accounts_consistent(accounts: &Vec<AccountModel>) -> (ok: bool)
    ensures
        ok == (accounts_distinct(accounts@) && accounts_in_range(accounts@)),
{
    let mut j: usize = 0;
    while j < accounts.len()
        invariant
            j <= accounts@.len(),
            forall|a: int| 0 <= a < j ==> (#[trigger] accounts@[a]).in_range(),
            forall|a: int, b: int|
                0 <= a < b < j ==> {
                    &&& !(#[trigger] accounts@[a]).is_for(
                        (#[trigger] accounts@[b]).user_id,
                        accounts@[b].asset_type_id,
                    )
                    &&& accounts@[a].id != accounts@[b].id
                },
        decreases accounts@.len() - j,
    {
        let row = accounts[j];
        if !balance_storable(row.available_balance) || !balance_storable(row.frozen_balance)
            || !balance_storable(row.total_income) || !balance_storable(row.total_expense) {
            assert(!accounts@[j as int].in_range());
            return false;
        }
        let mut i: usize = 0;
        while i < j
            invariant
                i <= j < accounts@.len(),
                row == accounts@[j as int],
                    forall|a: int|
                    0 <= a < i ==> {
                        &&& !(#[trigger] accounts@[a]).is_for(row.user_id, row.asset_type_id)
                        &&& accounts@[a].id != row.id
                    },
            decreases j - i,
        {
            let other = accounts[i];
            if (other.user_id == row.user_id && other.asset_type_id == row.asset_type_id)
                || other.id == row.id {
                assert(!accounts_distinct(accounts@)) by {
                    assert(accounts@[i as int] == other && accounts@[j as int] == row);
                }
                return false;
            }
            i += 1;
        }
        j += 1;
    }
    true
}

fn balance_storable(balance: i128) -> (ok: bool)
    ensures
        ok == crate::model::account::storable(balance as int),
{
    -crate::decimal::MAX_MANTISSA <= balance && balance <= crate::decimal::MAX_MANTISSA
}

/// Whether no two of `logs` share an idempotency key.
fn logs_consistent(logs: &Vec<AccountLogModel>) -> (ok: bool)
    ensures
        ok == logs_distinct(entries(logs@)),
{
    let ghost s = entries(logs@);
    let mut j: usize = 0;
    while j < logs.len()
        invariant
            j <= logs@.len(),
            s == entries(logs@),
            forall|a: int, b: int|
                0 <= a < b < j ==> !(#[trigger] s[a]).has_key(
                    (#[trigger] s[b]).account_id,
                    s[b].action_type_id,
                    s[b].order_number,
                ),
        decreases logs@.len() - j,
    {
        let mut i: usize = 0;
        while i < j
            invariant
                i <= j < logs@.len(),
                s == entries(logs@),
                forall|a: int|
                    0 <= a < i ==> !(#[trigger] s[a]).has_key(
                        s[j as int].account_id,
                        s[j as int].action_type_id,
                        s[j as int].order_number,
                    ),
            decreases j - i,
        {
            assert(s[i as int] == logs@[i as int]@);
            assert(s[j as int] == logs@[j as int]@);
            if logs[i].account_id == logs[j].account_id && logs[i].action_type_id
                == logs[j].action_type_id && logs[i].order_number == logs[j].order_number {
                assert(!logs_distinct(s));
                return false;
            }
            i += 1;
        }
        j += 1;
    }
    true
}

/// The account table and the log.
pub struct Ledger {
    pub(crate) accounts: Vec<AccountModel>,
    pub(crate) logs: Vec<AccountLogModel>,
    pub(crate) last_account_id: i32,
    pub(crate) last_log_id: i64,
}

impl View for Ledger {
    type V = LedgerState;

    closed spec fn view(&self) -> LedgerState {
        LedgerState {
            accounts: self.accounts@,
            logs: entries(self.logs@),
            last_account_id: self.last_account_id,
            last_log_id: self.last_log_id,
        }
    }
}

impl Ledger {
    #[verifier::type_invariant]
    pub(crate) closed spec fn inv(self) -> bool {
        self@.wf()
    }

    /// An empty store.
    pub fn new() -> (ledger: Ledger)
        ensures
            ledger@ == LedgerState::empty(),
    {
        let ledger = Ledger {
            accounts: Vec::new(),
            logs: Vec::new(),
            last_account_id: 0,
            last_log_id: 0,
        };
        assert(ledger@.logs =~= Seq::empty());
        ledger
    }

    /// The store that holds the rows given, as a snapshot of the tables
    /// delivers them: `None` where two accounts share a user and asset type
    /// or an id, where a balance is beyond what the store can hold, or where
    /// two log rows share an idempotency key.
    pub fn from_rows(accounts: Vec<AccountModel>, logs: Vec<AccountLogModel>) -> (r: Option<
        Ledger,
    >)
        ensures
            r is Some <==> loaded(accounts@, entries(logs@)).wf(),
            r matches Some(ledger) ==> ledger@ == loaded(accounts@, entries(logs@)),
    {
        proof {
            lemma_highest_account_id(accounts@);
            lemma_highest_log_id(entries(logs@));
        }
        if !accounts_consistent(&accounts) || !logs_consistent(&logs) {
            return None;
        }
        let mut last_account_id: i32 = 0;
        let mut i: usize = 0;
        proof {
            assert(accounts@.take(0) =~= Seq::empty());
        }
        while i < accounts.len()
            invariant
                i <= accounts@.len(),
                last_account_id == highest_account_id(accounts@.take(i as int)),
            decreases accounts@.len() - i,
        {
            proof {
                assert(accounts@.take(i + 1).drop_last() =~= accounts@.take(i as int));
            }
            if accounts[i].id > last_account_id {
                last_account_id = accounts[i].id;
            }
            i += 1;
        }
        let mut last_log_id: i64 = 0;
        let mut k: usize = 0;
        proof {
            assert(accounts@.take(i as int) =~= accounts@);
            assert(entries(logs@).take(0) =~= Seq::empty());
        }
        while k < logs.len()
            invariant
                k <= logs@.len(),
                last_log_id == highest_log_id(entries(logs@).take(k as int)),
            decreases logs@.len() - k,
        {
            proof {
                assert(entries(logs@).take(k + 1).drop_last() =~= entries(logs@).take(k as int));
                assert(entries(logs@).take(k + 1).last() == logs@[k as int]@);
            }
            if logs[k].id > last_log_id {
                last_log_id = logs[k].id;
            }
            k += 1;
        }
        proof {
            assert(entries(logs@).take(k as int) =~= entries(logs@));
        }
        Some(Ledger { accounts, logs, last_account_id, last_log_id })
    }

    /// Puts `row` in the place of the account at position `i`.
    pub(crate) fn set_account(&mut self, i: usize, row: AccountModel)
        requires
            i < old(self)@.accounts.len(),
            row.id == old(self)@.accounts[i as int].id,
            row.user_id == old(self)@.accounts[i as int].user_id,
            row.asset_type_id == old(self)@.accounts[i as int].asset_type_id,
            row.in_range(),
        ensures
            final(self)@ == (LedgerState {
                accounts: old(self)@.accounts.update(i as int, row),
                ..old(self)@
            }),
    {
        proof {
            use_type_invariant(&*self);
        }
        let mut rows: Vec<AccountModel> = Vec::new();
        core::mem::swap(&mut self.accounts, &mut rows);
        rows.set(i, row);
        core::mem::swap(&mut self.accounts, &mut rows);
    }

    /// Appends `row` to the log.
    pub(crate) fn push_log(&mut self, row: AccountLogModel)
        requires
            row.id == old(self)@.last_log_id + 1,
            !recorded(old(self)@.logs, row.account_id, row.action_type_id, row.order_number@),
        ensures
            final(self)@ == old(self)@.with_entry(row@),
    {
        proof {
            use_type_invariant(&*self);
        }
        let ghost before = self@;
        let ghost entry = row@;
        let mut rows: Vec<AccountLogModel> = Vec::new();
        proof {
            assert(entries(rows@) =~= Seq::<LogEntry>::empty());
            assert((LedgerState { logs: Seq::empty(), ..before }).wf());
            assert((LedgerState { logs: Seq::empty(), last_log_id: row.id, ..before }).wf());
        }
        core::mem::swap(&mut self.logs, &mut rows);
        self.last_log_id = row.id;
        rows.push(row);
        proof {
            assert(entries(rows@) =~= before.logs.push(entry));
            assert(before.with_entry(entry).wf());
        }
        core::mem::swap(&mut self.logs, &mut rows);
    }

    /// Inserts `row` into the account table.
    pub(crate) fn push_account(&mut self, row: AccountModel)
        requires
            row.id == old(self)@.last_account_id + 1,
            row.in_range(),
            old(self)@.account(row.user_id, row.asset_type_id) is None,
        ensures
            final(self)@ == old(self)@.with_account(row),
    {
        proof {
            use_type_invariant(&*self);
            crate::model::account::lemma_position(self@.accounts, row.user_id, row.asset_type_id, 0);
        }
        let ghost before = self@;
        let mut rows: Vec<AccountModel> = Vec::new();
        proof {
            assert((LedgerState { accounts: Seq::empty(), ..before }).wf());
            assert((LedgerState {
                accounts: Seq::empty(),
                last_account_id: row.id,
                ..before
            }).wf());
        }
        core::mem::swap(&mut self.accounts, &mut rows);
        self.last_account_id = row.id;
        rows.push(row);
        proof {
            assert(before.with_account(row).wf());
        }
        core::mem::swap(&mut self.accounts, &mut rows);
    }

    /// Takes the store back to `target`, an earlier state of which `accounts`
    /// is a copy of the account table, the first `logs_len` rows of the log
    /// are the log, and `last_log_id` is the last log id handed out.
    pub(crate) fn restore(
        &mut self,
        accounts: Vec<AccountModel>,
        logs_len: usize,
        last_log_id: i64,
        Ghost(target): Ghost<LedgerState>,
    )
        requires
            target.wf(),
            accounts@ == target.accounts,
            logs_len == target.logs.len(),
            logs_len <= old(self)@.logs.len(),
            target.logs == old(self)@.logs.take(logs_len as int),
            target.last_account_id == old(self)@.last_account_id,
            target.last_log_id == last_log_id,
        ensures
            final(self)@ == target,
    {
        proof {
            use_type_invariant(&*self);
        }
        let ghost before = self@;
        let mut accounts = accounts;
        let mut rows: Vec<AccountLogModel> = Vec::new();
        proof {
            assert(entries(rows@) =~= Seq::<LogEntry>::empty());
            assert((LedgerState { logs: Seq::empty(), ..before }).wf());
            assert((LedgerState { logs: Seq::empty(), last_log_id, ..before }).wf());
        }
        core::mem::swap(&mut self.logs, &mut rows);
        self.last_log_id = last_log_id;
        rows.truncate(logs_len);
        proof {
            assert(entries(rows@) =~= target.logs);
            assert((LedgerState { accounts: before.accounts, ..target }).wf());
        }
        core::mem::swap(&mut self.logs, &mut rows);
        core::mem::swap(&mut self.accounts, &mut accounts);
    }

    /// The last log id handed out.
    pub(crate) fn last_log_id(&self) -> (id: i64)
        ensures
            id == self@.last_log_id,
            0 <= id,
    {
        proof {
            use_type_invariant(self);
        }
        self.last_log_id
    }

    /// The last account id handed out.
    pub(crate) fn last_account_id(&self) -> (id: i32)
        ensures
            id == self@.last_account_id,
            0 <= id,
    {
        proof {
            use_type_invariant(self);
        }
        self.last_account_id
    }

    /// The account rows, in the order in which they were inserted.
    pub fn accounts(&self) -> (rows: &Vec<AccountModel>)
        ensures
            rows@ == self@.accounts,
            self@.wf(),
    {
        proof {
            use_type_invariant(self);
        }
        &self.accounts
    }

    /// The log rows, in the order in which they were appended.
    pub fn logs(&self) -> (rows: &Vec<AccountLogModel>)
        ensures
            entries(rows@) == self@.logs,
            self@.wf(),
    {
        proof {
            use_type_invariant(self);
        }
        &self.logs
    }
}

} // verus!

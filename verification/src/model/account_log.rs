//! The audit log: one immutable entry per applied mutation.

use crate::error::{Error, Invalid};
use crate::store::Ledger;
use vstd::prelude::*;

verus! {

/// One row of the account log. Amounts are counted in millionths.
#[derive(Debug)]
pub struct AccountLogModel {
    pub id: i64,
    pub account_id: i32,
    pub action_type_id: i32,
    pub amount_available_balance: i128,
    pub amount_frozen_balance: i128,
    pub amount_total_income: i128,
    pub amount_total_expense: i128,
    pub available_balance_after: i128,
    pub frozen_balance_after: i128,
    pub total_income_after: i128,
    pub total_expense_after: i128,
    pub order_number: String,
    pub description: String,
    /// Microseconds since the Unix epoch.
    pub created_at: i64,
}

/// The content of a log row.
pub struct LogEntry {
    pub id: i64,
    pub account_id: i32,
    pub action_type_id: i32,
    pub amount_available_balance: i128,
    pub amount_frozen_balance: i128,
    pub amount_total_income: i128,
    pub amount_total_expense: i128,
    pub available_balance_after: i128,
    pub frozen_balance_after: i128,
    pub total_income_after: i128,
    pub total_expense_after: i128,
    pub order_number: Seq<char>,
    pub description: Seq<char>,
    pub created_at: i64,
}

impl View for AccountLogModel {
    type V = LogEntry;

    open spec fn view(&self) -> LogEntry {
        LogEntry {
            id: self.id,
            account_id: self.account_id,
            action_type_id: self.action_type_id,
            amount_available_balance: self.amount_available_balance,
            amount_frozen_balance: self.amount_frozen_balance,
            amount_total_income: self.amount_total_income,
            amount_total_expense: self.amount_total_expense,
            available_balance_after: self.available_balance_after,
            frozen_balance_after: self.frozen_balance_after,
            total_income_after: self.total_income_after,
            total_expense_after: self.total_expense_after,
            order_number: self.order_number@,
            description: self.description@,
            created_at: self.created_at,
        }
    }
}

impl LogEntry {
    /// Whether this entry carries the idempotency key given.
    pub open spec fn has_key(self, account_id: i32, action_type_id: i32, order_number: Seq<char>) -> bool {
        &&& self.account_id == account_id
        &&& self.action_type_id == action_type_id
        &&& self.order_number == order_number
    }
}

/// The contents of a sequence of log rows.
pub open spec fn entries(rows: Seq<AccountLogModel>) -> Seq<LogEntry> {
    rows.map_values(|row: AccountLogModel| row@)
}

/// Whether `logs` holds an entry with the idempotency key given.
pub open spec fn recorded(
    logs: Seq<LogEntry>,
    account_id: i32,
    action_type_id: i32,
    order_number: Seq<char>,
) -> bool {
    exists|i: int|
        0 <= i < logs.len() && (#[trigger] logs[i]).has_key(account_id, action_type_id, order_number)
}

/// Which entries of the log a query asks for.
#[derive(Clone, Copy, Debug)]
pub struct LogFilter {
    pub account_id: i32,
    /// Only entries of this action type, where one is given.
    pub action_type_id: Option<i32>,
    /// Only entries created at or after this instant, where one is given.
    pub start_time: Option<i64>,
    /// Only entries created at or before this instant, where one is given.
    pub end_time: Option<i64>,
}

impl LogFilter {
    /// Whether the query asks for `entry`.
    pub open spec fn admits(self, entry: LogEntry) -> bool {
        &&& entry.account_id == self.account_id
        &&& self.action_type_id matches Some(id) ==> entry.action_type_id == id
        &&& self.start_time matches Some(start) ==> entry.created_at >= start
        &&& self.end_time matches Some(end) ==> entry.created_at <= end
    }

    /// The entries of `logs` that the query asks for, in their order.
    pub open spec fn selected(self, logs: Seq<LogEntry>) -> Seq<LogEntry> {
        logs.filter(|entry: LogEntry| self.admits(entry))
    }

    fn accepts(&self, row: &AccountLogModel) -> (yes: bool)
        ensures
            yes == self.admits(row@),
    {
        if row.account_id != self.account_id {
            return false;
        }
        if let Some(id) = self.action_type_id {
            if row.action_type_id != id {
                return false;
            }
        }
        if let Some(start) = self.start_time {
            if row.created_at < start {
                return false;
            }
        }
        if let Some(end) = self.end_time {
            if row.created_at > end {
                return false;
            }
        }
        true
    }
}

/// Where an entry created at `created_at` goes among `ordered`, searched from
/// `start` on: before the first entry that is not newer than it.
pub open spec fn place_from(ordered: Seq<LogEntry>, created_at: i64, start: int) -> int
    decreases ordered.len() - start,
{
    if start < 0 || start >= ordered.len() {
        ordered.len() as int
    } else if ordered[start].created_at <= created_at {
        start
    } else {
        place_from(ordered, created_at, start + 1)
    }
}

/// The entries of `logs` with the newest first; of two entries created at
/// the same instant, the one appended later comes first.
pub open spec fn newest_first(logs: Seq<LogEntry>) -> Seq<LogEntry>
    decreases logs.len(),
{
    if logs.len() == 0 {
        logs
    } else {
        let rest = newest_first(logs.drop_last());
        rest.insert(place_from(rest, logs.last().created_at, 0), logs.last())
    }
}

/// The number of entries that come before the first entry of a page.
pub open spec fn offset_of(page: i32, page_size: i32) -> int {
    (page - 1) * page_size
}

/// The number of entries that come before the first entry of a page.
pub fn offset(page: i32, page_size: i32) -> (r: i64)
    ensures
        r == offset_of(page, page_size),
{
    proof {
        assert(-0x4000_0000_8000_0000 <= (page - 1) * page_size <= 0x4000_0000_8000_0000)
            by (nonlinear_arith)
            requires
                -0x8000_0000 <= page <= 0x7fff_ffff,
                -0x8000_0000 <= page_size <= 0x7fff_ffff,
        ;
    }
    (page as i64 - 1) * (page_size as i64)
}

/// Page number `page`, counted from one, of `ordered` cut into pages of
/// `page_size` entries.
pub open spec fn page_of(ordered: Seq<LogEntry>, page: i32, page_size: i32) -> Seq<LogEntry> {
    let offset = offset_of(page, page_size);
    let from = if offset < ordered.len() {
        offset
    } else {
        ordered.len() as int
    };
    let to = if offset + page_size < ordered.len() {
        offset + page_size
    } else {
        ordered.len() as int
    };
    ordered.subrange(from, to)
}

/// The place of an entry lies within the sequence, after every newer entry
/// and before one that is not newer.
pub proof fn lemma_place_from(ordered: Seq<LogEntry>, created_at: i64, start: int)
    requires
        0 <= start <= ordered.len(),
    ensures
        start <= place_from(ordered, created_at, start) <= ordered.len(),
        forall|i: int|
            start <= i < place_from(ordered, created_at, start) ==> (#[trigger] ordered[i]).created_at
                > created_at,
        place_from(ordered, created_at, start) < ordered.len() ==> ordered[place_from(
            ordered,
            created_at,
            start,
        )].created_at <= created_at,
    decreases ordered.len() - start,
{
    if start < ordered.len() && ordered[start].created_at > created_at {
        lemma_place_from(ordered, created_at, start + 1);
    }
}

/// Whether no entry of `ordered` is older than one that follows it.
pub open spec fn descending(ordered: Seq<LogEntry>) -> bool {
    forall|i: int, j: int|
        0 <= i < j < ordered.len() ==> (#[trigger] ordered[i]).created_at >= (
        #[trigger] ordered[j]).created_at
}

/// `newest_first` reorders and no more: it keeps every entry, as often as it
/// occurs, and puts no entry before a newer one.
pub proof fn lemma_newest_first(logs: Seq<LogEntry>)
    ensures
        newest_first(logs).len() == logs.len(),
        newest_first(logs).to_multiset() == logs.to_multiset(),
        descending(newest_first(logs)),
    decreases logs.len(),
{
    broadcast use vstd::seq_lib::to_multiset_insert, vstd::seq_lib::to_multiset_build;

    if logs.len() > 0 {
        let rest = newest_first(logs.drop_last());
        let last = logs.last();
        let p = place_from(rest, last.created_at, 0);
        lemma_newest_first(logs.drop_last());
        lemma_place_from(rest, last.created_at, 0);
        assert(logs =~= logs.drop_last().push(last));
        let result = rest.insert(p, last);
        assert forall|i: int, j: int| 0 <= i < j < result.len() implies (
        #[trigger] result[i]).created_at >= (#[trigger] result[j]).created_at by {
            if i < p {
                assert(result[i] == rest[i]);
            } else if i > p {
                assert(result[i] == rest[i - 1]);
            }
            if j < p {
                assert(result[j] == rest[j]);
            } else if j > p {
                assert(result[j] == rest[j - 1]);
            }
        }
    }
}

impl AccountLogModel {
    /// One page of the log of an account, newest entry first: the entries
    /// that the filter admits, ordered by their time of creation, cut into
    /// pages of `page_size` entries, of which page number `page`, counted
    /// from one, is returned. A page number below one and a negative page
    /// size are refused.
    pub fn query_with_pagination(
        ledger: &Ledger,
        account_id: i32,
        action_type_id: Option<i32>,
        start_time: Option<i64>,
        end_time: Option<i64>,
        page: i32,
        page_size: i32,
    ) -> (r: Result<Vec<AccountLogModel>, Error>)
        ensures
            match r {
                Ok(rows) => {
                    &&& page >= 1
                    &&& page_size >= 0
                    &&& entries(rows@) == page_of(
                        newest_first(
                            (LogFilter {
                                account_id,
                                action_type_id,
                                start_time,
                                end_time,
                            }).selected(ledger@.logs),
                        ),
                        page,
                        page_size,
                    )
                },
                Err(e) => if page < 1 {
                    e == Error::Validation(Invalid::Page)
                } else {
                    page_size < 0 && e == Error::Validation(Invalid::PageSize)
                },
            },
    {
        if page < 1 {
            return Err(Error::Validation(Invalid::Page));
        }
        if page_size < 0 {
            return Err(Error::Validation(Invalid::PageSize));
        }
        let filter = LogFilter { account_id, action_type_id, start_time, end_time };
        let rows = ledger.logs();
        let mut ordered: Vec<AccountLogModel> = Vec::new();
        let mut i: usize = 0;
        proof {
            reveal(Seq::filter);
            assert(entries(rows@).take(0) =~= Seq::empty());
            assert(entries(ordered@) =~= Seq::empty());
        }
        while i < rows.len()
            invariant
                i <= rows@.len(),
                entries(ordered@) == newest_first(filter.selected(entries(rows@).take(i as int))),
            decreases rows@.len() - i,
        {
            let ghost seen = entries(rows@).take(i as int);
            let ghost entry = rows@[i as int]@;
            proof {
                assert(entries(rows@).take(i + 1) =~= seen.push(entry));
                seen.lemma_filter_push(entry, |e: LogEntry| filter.admits(e));
            }
            if filter.accepts(&rows[i]) {
                let ghost before = entries(ordered@);
                let created_at = rows[i].created_at;
                let mut p: usize = 0;
                while p < ordered.len() && ordered[p].created_at > created_at
                    invariant
                        p <= ordered@.len(),
                        before == entries(ordered@),
                        place_from(before, created_at, 0) == place_from(
                            before,
                            created_at,
                            p as int,
                        ),
                    decreases ordered@.len() - p,
                {
                    assert(before[p as int] == ordered@[p as int]@);
                    p += 1;
                }
                proof {
                    if p < ordered@.len() {
                        assert(before[p as int] == ordered@[p as int]@);
                    }
                    assert(filter.selected(seen).push(entry).drop_last() =~= filter.selected(seen));
                }
                ordered.insert(p, rows[i].duplicate());
                proof {
                    assert(entries(ordered@) =~= before.insert(p as int, entry));
                }
            }
            i += 1;
        }
        proof {
            assert(entries(rows@).take(i as int) =~= entries(rows@));
        }
        let total = ordered.len();
        proof {
            assert(0 <= (page - 1) * page_size <= 0x7fff_ffff * 0x7fff_ffff) by (nonlinear_arith)
                requires
                    1 <= page <= 0x7fff_ffff,
                    0 <= page_size <= 0x7fff_ffff,
            ;
        }
        let offset: i64 = offset(page, page_size);
        let from: usize = if (offset as i128) < (total as i128) {
            offset as usize
        } else {
            total
        };
        let to: usize = if (offset as i128) + (page_size as i128) < (total as i128) {
            (offset + page_size as i64) as usize
        } else {
            total
        };
        let mut selected: Vec<AccountLogModel> = Vec::new();
        let mut k: usize = from;
        proof {
            assert(entries(selected@) =~= entries(ordered@).subrange(from as int, from as int));
        }
        while k < to
            invariant
                from <= k <= to <= ordered@.len(),
                entries(selected@) == entries(ordered@).subrange(from as int, k as int),
            decreases to - k,
        {
            let ghost taken = entries(selected@);
            selected.push(ordered[k].duplicate());
            proof {
                assert(entries(selected@) =~= taken.push(ordered@[k as int]@));
                assert(entries(ordered@).subrange(from as int, k + 1) =~= entries(
                    ordered@,
                ).subrange(from as int, k as int).push(ordered@[k as int]@));
            }
            k += 1;
        }
        Ok(selected)
    }

    /// Appends one entry to the log under the next log id, stamped with
    /// `now`. `Conflict` where the log holds the idempotency key already,
    /// `OutOfRange` where no log id is left; the store is then unchanged.
    pub fn create(
        ledger: &mut Ledger,
        account_id: i32,
        action_type_id: i32,
        amount_available_balance: i128,
        amount_frozen_balance: i128,
        amount_total_income: i128,
        amount_total_expense: i128,
        available_balance_after: i128,
        frozen_balance_after: i128,
        total_income_after: i128,
        total_expense_after: i128,
        order_number: &str,
        description: &str,
        now: i64,
    ) -> (r: Result<(), Error>)
        ensures
            ({
                let before = old(ledger)@;
                if recorded(before.logs, account_id, action_type_id, order_number@) {
                    r == Err::<(), Error>(Error::Conflict) && final(ledger)@ == before
                } else if before.last_log_id == i64::MAX {
                    r == Err::<(), Error>(Error::OutOfRange) && final(ledger)@ == before
                } else {
                    &&& r == Ok::<(), Error>(())
                    &&& final(ledger)@ == before.with_entry(
                        LogEntry {
                            id: (before.last_log_id + 1) as i64,
                            account_id,
                            action_type_id,
                            amount_available_balance,
                            amount_frozen_balance,
                            amount_total_income,
                            amount_total_expense,
                            available_balance_after,
                            frozen_balance_after,
                            total_income_after,
                            total_expense_after,
                            order_number: order_number@,
                            description: description@,
                            created_at: now,
                        },
                    )
                }
            }),
    {
        if AccountLogModel::is_exists(ledger, account_id, action_type_id, order_number) {
            return Err(Error::Conflict);
        }
        let last = ledger.last_log_id();
        if last == i64::MAX {
            return Err(Error::OutOfRange);
        }
        let row = AccountLogModel {
            id: last + 1,
            account_id,
            action_type_id,
            amount_available_balance,
            amount_frozen_balance,
            amount_total_income,
            amount_total_expense,
            available_balance_after,
            frozen_balance_after,
            total_income_after,
            total_expense_after,
            order_number: order_number.to_owned(),
            description: description.to_owned(),
            created_at: now,
        };
        ledger.push_log(row);
        Ok(())
    }

    /// Whether the log holds an entry with the idempotency key given.
    pub fn is_exists(ledger: &Ledger, account_id: i32, action_type_id: i32, order_number: &str) -> (found:
        bool)
        ensures
            found == recorded(ledger@.logs, account_id, action_type_id, order_number@),
    {
        let rows = ledger.logs();
        let wanted = order_number.to_owned();
        let mut i: usize = 0;
        while i < rows.len()
            invariant
                i <= rows@.len(),
                wanted@ == order_number@,
                entries(rows@) == ledger@.logs,
                forall|j: int|
                    0 <= j < i ==> !(#[trigger] ledger@.logs[j]).has_key(
                        account_id,
                        action_type_id,
                        order_number@,
                    ),
            decreases rows@.len() - i,
        {
            assert(entries(rows@)[i as int] == rows@[i as int]@);
            if rows[i].account_id == account_id && rows[i].action_type_id == action_type_id
                && rows[i].order_number == wanted {
                return true;
            }
            i += 1;
        }
        assert(entries(rows@).len() == rows@.len());
        false
    }

    /// A copy of the row.
    pub fn duplicate(&self) -> (copy: AccountLogModel)
        ensures
            copy@ == self@,
    {
        AccountLogModel {
            id: self.id,
            account_id: self.account_id,
            action_type_id: self.action_type_id,
            amount_available_balance: self.amount_available_balance,
            amount_frozen_balance: self.amount_frozen_balance,
            amount_total_income: self.amount_total_income,
            amount_total_expense: self.amount_total_expense,
            available_balance_after: self.available_balance_after,
            frozen_balance_after: self.frozen_balance_after,
            total_income_after: self.total_income_after,
            total_expense_after: self.total_expense_after,
            order_number: self.order_number.clone(),
            description: self.description.clone(),
            created_at: self.created_at,
        }
    }
}

} // verus!

//! Derived, read-only views over the account store and the balance
//! ledger: the latest snapshot on or before a date, the current balance,
//! and net worth as of a date or across a range of dates.

use vstd::prelude::*;
use vstd::arithmetic::mul::lemma_mul_inequality;
use crate::account::Account;
use crate::account::AccountCategory;
use crate::balance::BalanceEntry;
use crate::date::Date;
use crate::date::date_in_range;
use crate::date::date_le;
use crate::date::date_lt;
use crate::store::Store;

verus! {

/// The entry the ledger answers `latestBefore(account, d)` with: the one
/// of that account with the greatest date on or before `d`, later entries
/// winning ties (which the pair-uniqueness rule rules out anyway).
pub open spec fn latest_of(es: Seq<BalanceEntry>, account_id: u64, d: Date) -> Option<BalanceEntry>
    decreases es.len(),
{
    if es.len() == 0 {
        None
    } else {
        let prev = latest_of(es.drop_last(), account_id, d);
        let e = es.last();
        if e.account_id == account_id && date_le(e.date, d) && (match prev {
            Some(p) => date_le(p.date, e.date),
            None => true,
        }) {
            Some(e)
        } else {
            prev
        }
    }
}

/// What `latest_of` answers is the account's maximal entry on or before
/// the date — and `None` exactly when the account has no entry there.
pub proof fn lemma_latest_of_props(es: Seq<BalanceEntry>, account_id: u64, d: Date)
    ensures
        match latest_of(es, account_id, d) {
            Some(e) => {
                &&& es.contains(e)
                &&& e.account_id == account_id
                &&& date_le(e.date, d)
                &&& forall|i: int|
                    0 <= i < es.len() && (#[trigger] es[i]).account_id == account_id && date_le(
                        es[i].date,
                        d,
                    ) ==> date_le(es[i].date, e.date)
            },
            None => forall|i: int|
                0 <= i < es.len() ==> !((#[trigger] es[i]).account_id == account_id && date_le(
                    es[i].date,
                    d,
                )),
        },
    decreases es.len(),
{
    if es.len() > 0 {
        lemma_latest_of_props(es.drop_last(), account_id, d);
        let rest = es.drop_last();
        match latest_of(rest, account_id, d) {
            Some(p) => {
                let i = choose|i: int| 0 <= i < rest.len() && rest[i] == p;
                assert(es[i] == p);
                assert(es.contains(p));
            },
            None => {},
        }
        match latest_of(es, account_id, d) {
            Some(e) => {
                if e == es.last() {
                    assert(es[es.len() - 1] == e);
                    assert(es.contains(e));
                }
                assert forall|i: int|
                    0 <= i < es.len() && (#[trigger] es[i]).account_id == account_id && date_le(
                        es[i].date,
                        d,
                    ) implies date_le(es[i].date, e.date) by {
                    if i < es.len() - 1 {
                        assert(rest[i] == es[i]);
                        match latest_of(rest, account_id, d) {
                            Some(p) => {
                                if e != p {
                                    crate::date::lemma_date_le_trans(es[i].date, p.date, e.date);
                                }
                            },
                            None => {},
                        }
                    }
                }
            },
            None => {
                assert forall|i: int|
                    0 <= i < es.len() implies !((#[trigger] es[i]).account_id == account_id
                    && date_le(es[i].date, d)) by {
                    if i < es.len() - 1 {
                        assert(rest[i] == es[i]);
                    }
                }
            },
        }
    }
}

/// What one account adds to net worth as of a date: its latest balance
/// on or before the date, added for an asset and subtracted for a
/// liability; nothing when it is inactive or has no entry there.
pub open spec fn signed_balance_of(a: Account, es: Seq<BalanceEntry>, d: Date) -> int {
    if a.is_active {
        match latest_of(es, a.id, d) {
            Some(e) => if a.category == AccountCategory::Asset {
                e.balance as int
            } else {
                -(e.balance as int)
            },
            None => 0,
        }
    } else {
        0
    }
}

/// Net worth as of a date: the sum of every account's signed part.
pub open spec fn net_worth_of(accs: Seq<Account>, es: Seq<BalanceEntry>, d: Date) -> int
    decreases accs.len(),
{
    if accs.len() == 0 {
        0
    } else {
        net_worth_of(accs.drop_last(), es, d) + signed_balance_of(accs.last(), es, d)
    }
}

/// The accounts a net-worth figure is incomplete for: the active ones
/// with no entry on or before the date, in account order.
pub open spec fn excluded_ids(accs: Seq<Account>, es: Seq<BalanceEntry>, d: Date) -> Seq<u64>
    decreases accs.len(),
{
    if accs.len() == 0 {
        Seq::empty()
    } else {
        let rest = excluded_ids(accs.drop_last(), es, d);
        let a = accs.last();
        if a.is_active && latest_of(es, a.id, d) is None {
            rest.push(a.id)
        } else {
            rest
        }
    }
}

/// Net worth is bounded by one maximal balance magnitude per account, so
/// the running sum fits a 128-bit integer.
pub proof fn lemma_net_worth_bound(accs: Seq<Account>, es: Seq<BalanceEntry>, d: Date)
    ensures
        -((accs.len() as int) * 0x8000_0000_0000_0000) <= net_worth_of(accs, es, d),
        net_worth_of(accs, es, d) <= (accs.len() as int) * 0x8000_0000_0000_0000,
    decreases accs.len(),
{
    if accs.len() > 0 {
        lemma_net_worth_bound(accs.drop_last(), es, d);
        let c = signed_balance_of(accs.last(), es, d);
        assert(-0x8000_0000_0000_0000 <= c <= 0x8000_0000_0000_0000);
    }
}

/// An inactive account is excluded from net worth: appending it changes
/// nothing.
pub proof fn lemma_net_worth_inactive_excluded(
    accs: Seq<Account>,
    es: Seq<BalanceEntry>,
    d: Date,
    a: Account,
)
    requires
        !a.is_active,
    ensures
        net_worth_of(accs.push(a), es, d) == net_worth_of(accs, es, d),
{
    assert(accs.push(a).drop_last() =~= accs);
    assert(accs.push(a).last() == a);
}

/// An account with no entry on or before the date is excluded from net
/// worth — not treated as zero: it adds nothing and is reported.
pub proof fn lemma_net_worth_no_entry_excluded(
    accs: Seq<Account>,
    es: Seq<BalanceEntry>,
    d: Date,
    a: Account,
)
    requires
        a.is_active,
        latest_of(es, a.id, d) is None,
    ensures
        net_worth_of(accs.push(a), es, d) == net_worth_of(accs, es, d),
        excluded_ids(accs.push(a), es, d) == excluded_ids(accs, es, d).push(a.id),
{
    assert(accs.push(a).drop_last() =~= accs);
    assert(accs.push(a).last() == a);
}

/// An active asset account's latest balance on or before the date is
/// added to net worth.
pub proof fn lemma_net_worth_asset_adds(
    accs: Seq<Account>,
    es: Seq<BalanceEntry>,
    d: Date,
    a: Account,
    e: BalanceEntry,
)
    requires
        a.is_active,
        a.category == AccountCategory::Asset,
        latest_of(es, a.id, d) == Some(e),
    ensures
        net_worth_of(accs.push(a), es, d) == net_worth_of(accs, es, d) + e.balance,
{
    assert(accs.push(a).drop_last() =~= accs);
    assert(accs.push(a).last() == a);
}

/// An active liability account's latest balance on or before the date is
/// subtracted from net worth.
pub proof fn lemma_net_worth_liability_subtracts(
    accs: Seq<Account>,
    es: Seq<BalanceEntry>,
    d: Date,
    a: Account,
    e: BalanceEntry,
)
    requires
        a.is_active,
        a.category == AccountCategory::Liability,
        latest_of(es, a.id, d) == Some(e),
    ensures
        net_worth_of(accs.push(a), es, d) == net_worth_of(accs, es, d) - e.balance,
{
    assert(accs.push(a).drop_last() =~= accs);
    assert(accs.push(a).last() == a);
}


/// An account paired with its latest recorded balance as of a date.
pub struct AccountWithBalance {
    pub account: Account,
    pub current_balance: i64,
    pub balance_date: Option<Date>,
}

/// One point of a net-worth series.
#[derive(Clone, Copy, Debug, PartialEq, Eq, Structural)]
pub struct NetWorthPoint {
    pub date: Date,
    pub worth: i128,
}

/// True when some point of `ps` stands at date `d`.
pub open spec fn has_point_date(ps: Seq<NetWorthPoint>, d: Date) -> bool {
    exists|i: int| 0 <= i < ps.len() && ps[i].date == d
}

/// The granularity of a net-worth series: one point per distinct
/// snapshot date, or one per calendar-month end of the months that have
/// snapshots.
#[derive(Clone, Copy, Debug, PartialEq, Eq, Structural)]
pub enum Granularity {
    SnapshotDates,
    MonthEnds,
}

/// The series boundary a snapshot date falls on under a granularity.
pub open spec fn boundary_of(d: Date, g: Granularity) -> Date {
    match g {
        Granularity::SnapshotDates => d,
        Granularity::MonthEnds => d.spec_month_end(),
    }
}

/// True when some entry of `es` falls on boundary `d` under `g`.
pub open spec fn has_boundary_on(es: Seq<BalanceEntry>, g: Granularity, d: Date) -> bool {
    exists|k: int| 0 <= k < es.len() && boundary_of(es[k].date, g) == d
}

impl Store {
    /// The entry of `account_id` with the greatest date on or before
    /// `date`, or `None` when the account has none there — whatever order
    /// the entries were recorded in.
    pub fn latest_before(&self, account_id: u64, date: Date) -> (r: Option<&BalanceEntry>)
        ensures
            (match r {
                Some(e) => latest_of(self.balances@, account_id, date) == Some(*e),
                None => latest_of(self.balances@, account_id, date) is None,
            }),
            (match r {
                Some(e) => {
                    &&& self.balances@.contains(*e)
                    &&& e.account_id == account_id
                    &&& date_le(e.date, date)
                    &&& forall|i: int|
                        0 <= i < self.balances@.len() && (#[trigger] self.balances@[i]).account_id
                            == account_id && date_le(self.balances@[i].date, date) ==> date_le(
                            self.balances@[i].date,
                            e.date,
                        )
                },
                None => forall|i: int|
                    0 <= i < self.balances@.len() ==> !((#[trigger] self.balances@[i]).account_id
                        == account_id && date_le(self.balances@[i].date, date)),
            }),
    {
        let n = self.balances.len();
        let mut best: Option<usize> = None;
        let mut i: usize = 0;
        while i < n
            invariant
                0 <= i <= n,
                n == self.balances@.len(),
                match best {
                    None => latest_of(self.balances@.take(i as int), account_id, date) is None,
                    Some(b) => b < i && latest_of(self.balances@.take(i as int), account_id, date)
                        == Some(self.balances@[b as int]),
                },
            decreases n - i,
        {
            let e = &self.balances[i];
            if e.account_id == account_id && e.date.le(&date) {
                let better = match best {
                    None => true,
                    Some(b) => self.balances[b].date.le(&e.date),
                };
                if better {
                    best = Some(i);
                }
            }
            proof {
                let t = self.balances@.take(i + 1 as int);
                assert(t.drop_last() =~= self.balances@.take(i as int));
                assert(t.last() == self.balances@[i as int]);
            }
            i = i + 1;
        }
        proof {
            assert(self.balances@.take(n as int) =~= self.balances@);
            lemma_latest_of_props(self.balances@, account_id, date);
        }
        match best {
            Some(b) => Some(&self.balances[b]),
            None => None,
        }
    }

    /// The current balance of an account as of `today`: its latest
    /// snapshot on or before that date. `None` says the account has no
    /// recorded balance there — distinct from a zero balance.
    pub fn current_balance(&self, account_id: u64, today: Date) -> (r: Option<&BalanceEntry>)
        ensures
            (match r {
                Some(e) => latest_of(self.balances@, account_id, today) == Some(*e),
                None => latest_of(self.balances@, account_id, today) is None,
            }),
    {
        self.latest_before(account_id, today)
    }

    /// Net worth as of `date`: over the active accounts with an entry on
    /// or before it, assets' latest balances added, liabilities'
    /// subtracted; the accounts with no entry there are excluded from the
    /// sum and reported alongside it.
    pub fn net_worth_as_of(&self, date: Date) -> (r: (i128, Vec<u64>))
        requires
            self.wf(),
        ensures
            r.0 == net_worth_of(self.accounts@, self.balances@, date),
            r.1@ == excluded_ids(self.accounts@, self.balances@, date),
    {
        let n = self.accounts.len();
        let mut sum: i128 = 0;
        let mut excluded: Vec<u64> = Vec::new();
        let mut i: usize = 0;
        while i < n
            invariant
                0 <= i <= n,
                n == self.accounts@.len(),
                sum == net_worth_of(self.accounts@.take(i as int), self.balances@, date),
                excluded@ == excluded_ids(self.accounts@.take(i as int), self.balances@, date),
            decreases n - i,
        {
            proof {
                let t = self.accounts@.take(i + 1 as int);
                assert(t.drop_last() =~= self.accounts@.take(i as int));
                assert(t.last() == self.accounts@[i as int]);
                lemma_net_worth_bound(self.accounts@.take(i + 1 as int), self.balances@, date);
                assert((i + 1 as int) <= usize::MAX as int);
                lemma_mul_inequality(i + 1 as int, usize::MAX as int, 0x8000_0000_0000_0000);
            }
            let a = &self.accounts[i];
            if a.is_active {
                match self.latest_before(a.id, date) {
                    Some(e) => {
                        let delta: i128 = if a.category == AccountCategory::Asset {
                            e.balance as i128
                        } else {
                            -(e.balance as i128)
                        };
                        sum = sum + delta;
                    },
                    None => {
                        excluded.push(a.id);
                    },
                }
            }
            i = i + 1;
        }
        proof {
            assert(self.accounts@.take(n as int) =~= self.accounts@);
        }
        (sum, excluded)
    }

    /// The net-worth series over an optional date range: one point per
    /// distinct boundary of the requested granularity — each snapshot
    /// date across all accounts, or each month end of a month holding
    /// one — within the range, ascending by date, each point carrying
    /// net worth as of that date.
    pub fn net_worth_series(
        &self,
        from: Option<Date>,
        to: Option<Date>,
        granularity: Granularity,
    ) -> (r: Vec<NetWorthPoint>)
        requires
            self.wf(),
        ensures
            forall|i: int, j: int| 0 <= i < j < r@.len() ==> date_lt(r@[i].date, r@[j].date),
            forall|i: int|
                0 <= i < r@.len() ==> (#[trigger] r@[i]).worth == net_worth_of(
                    self.accounts@,
                    self.balances@,
                    r@[i].date,
                ) && date_in_range(r@[i].date, from, to) && has_boundary_on(
                    self.balances@,
                    granularity,
                    r@[i].date,
                ),
            forall|k: int|
                0 <= k < self.balances@.len() && date_in_range(
                    boundary_of((#[trigger] self.balances@[k]).date, granularity),
                    from,
                    to,
                ) ==> has_point_date(r@, boundary_of(self.balances@[k].date, granularity)),
    {
        let n = self.balances.len();
        let mut dates: Vec<Date> = Vec::new();
        let mut k: usize = 0;
        while k < n
            invariant
                0 <= k <= n,
                n == self.balances@.len(),
                forall|q1: int, q2: int|
                    0 <= q1 < q2 < dates@.len() ==> date_lt(dates@[q1], dates@[q2]),
                forall|q: int|
                    0 <= q < dates@.len() ==> date_in_range(#[trigger] dates@[q], from, to)
                        && has_boundary_on(self.balances@, granularity, dates@[q]),
                forall|j: int|
                    0 <= j < k && date_in_range(
                        boundary_of((#[trigger] self.balances@[j]).date, granularity),
                        from,
                        to,
                    ) ==> dates@.contains(boundary_of(self.balances@[j].date, granularity)),
            decreases n - k,
        {
            let d = match granularity {
                Granularity::SnapshotDates => self.balances[k].date,
                Granularity::MonthEnds => self.balances[k].date.month_end(),
            };
            if d.in_range(&from, &to) {
                let ghost dates0 = dates@;
                let m = dates.len();
                let mut p: usize = 0;
                while p < m && dates[p].lt(&d)
                    invariant
                        0 <= p <= m,
                        m == dates@.len(),
                        dates@ == dates0,
                        forall|q: int| 0 <= q < p ==> date_lt(dates@[q], d),
                    decreases m - p,
                {
                    p = p + 1;
                }
                let already = p < m && dates[p] == d;
                if already {
                    proof {
                        assert(dates@[p as int] == d);
                        assert(dates@.contains(d));
                    }
                } else {
                    proof {
                        if p < m {
                            assert(!date_lt(dates0[p as int], d));
                            crate::date::lemma_date_le_total(d, dates0[p as int]);
                            assert(date_le(d, dates0[p as int]));
                            assert(date_lt(d, dates0[p as int]));
                        }
                        assert forall|q: int| p <= q < m implies date_lt(d, dates0[q]) by {
                            if q > p {
                                assert(date_lt(dates0[p as int], dates0[q]));
                                crate::date::lemma_date_le_trans(
                                    d,
                                    dates0[p as int],
                                    dates0[q],
                                );
                                assert(date_le(d, dates0[q]));
                                assert(dates0[q] != d);
                            }
                        }
                    }
                    dates.insert(p, d);
                    proof {
                        dates0.insert_ensures(p as int, d);
                        assert(dates@[p as int] == d);
                        assert(dates@.contains(d));
                        assert forall|q1: int, q2: int|
                            0 <= q1 < q2 < dates@.len() implies date_lt(
                            dates@[q1],
                            dates@[q2],
                        ) by {
                            if q1 < p && q2 < p {
                                assert(dates@[q1] == dates0[q1] && dates@[q2] == dates0[q2]);
                            } else if q1 < p && q2 == p {
                                assert(dates@[q1] == dates0[q1]);
                            } else if q1 < p && q2 > p {
                                assert(dates@[q1] == dates0[q1] && dates@[q2] == dates0[q2 - 1]);
                            } else if q1 == p {
                                assert(dates@[q2] == dates0[q2 - 1]);
                            } else {
                                assert(dates@[q1] == dates0[q1 - 1] && dates@[q2] == dates0[q2
                                    - 1]);
                            }
                        }
                        assert forall|q: int|
                            0 <= q < dates@.len() implies date_in_range(
                            #[trigger] dates@[q],
                            from,
                            to,
                        ) && has_boundary_on(self.balances@, granularity, dates@[q]) by {
                            if q < p {
                                assert(dates@[q] == dates0[q]);
                            } else if q == p {
                                assert(dates@[q] == d);
                                assert(boundary_of(
                                    self.balances@[k as int].date,
                                    granularity,
                                ) == d);
                            } else {
                                assert(dates@[q] == dates0[q - 1]);
                            }
                        }
                        assert forall|j: int|
                            0 <= j < k + 1 && date_in_range(
                                boundary_of((#[trigger] self.balances@[j]).date, granularity),
                                from,
                                to,
                            ) implies dates@.contains(
                            boundary_of(self.balances@[j].date, granularity),
                        ) by {
                            let bj = boundary_of(self.balances@[j].date, granularity);
                            if j < k {
                                let q = choose|q: int|
                                    0 <= q < dates0.len() && dates0[q] == bj;
                                if q < p {
                                    assert(dates@[q] == bj);
                                } else {
                                    assert(dates@[q + 1] == bj);
                                }
                            } else {
                                assert(dates@[p as int] == bj);
                            }
                        }
                    }
                }
            }
            k = k + 1;
        }
        let m = dates.len();
        let mut out: Vec<NetWorthPoint> = Vec::new();
        let mut idx: usize = 0;
        while idx < m
            invariant
                0 <= idx <= m,
                m == dates@.len(),
                self.wf(),
                out@.len() == idx,
                forall|q1: int, q2: int|
                    0 <= q1 < q2 < dates@.len() ==> date_lt(dates@[q1], dates@[q2]),
                forall|q: int|
                    0 <= q < dates@.len() ==> date_in_range(#[trigger] dates@[q], from, to)
                        && has_boundary_on(self.balances@, granularity, dates@[q]),
                forall|j: int|
                    0 <= j < self.balances@.len() && date_in_range(
                        boundary_of((#[trigger] self.balances@[j]).date, granularity),
                        from,
                        to,
                    ) ==> dates@.contains(boundary_of(self.balances@[j].date, granularity)),
                forall|q: int|
                    0 <= q < idx ==> (#[trigger] out@[q]).date == dates@[q] && out@[q].worth
                        == net_worth_of(self.accounts@, self.balances@, dates@[q]),
            decreases m - idx,
        {
            let d = dates[idx];
            let (w, _) = self.net_worth_as_of(d);
            out.push(NetWorthPoint { date: d, worth: w });
            idx = idx + 1;
        }
        proof {
            assert forall|k2: int|
                0 <= k2 < self.balances@.len() && date_in_range(
                    boundary_of((#[trigger] self.balances@[k2]).date, granularity),
                    from,
                    to,
                ) implies has_point_date(
                out@,
                boundary_of(self.balances@[k2].date, granularity),
            ) by {
                let bk = boundary_of(self.balances@[k2].date, granularity);
                let q = choose|q: int| 0 <= q < dates@.len() && dates@[q] == bk;
                assert(out@[q].date == bk);
            }
        }
        out
    }

    /// Every account paired with its current balance as of `today`, in
    /// account order; an account with no snapshot there carries a zero
    /// with no date, so "no data" stays distinct from a zero balance.
    pub fn accounts_with_balances(&self, today: Date) -> (r: Vec<AccountWithBalance>)
        ensures
            r@.len() == self.accounts@.len(),
            forall|i: int|
                0 <= i < r@.len() ==> (#[trigger] r@[i]).account == self.accounts@[i] && (match
                    latest_of(self.balances@, self.accounts@[i].id, today) {
                    Some(e) => r@[i].current_balance == e.balance && r@[i].balance_date == Some(
                        e.date,
                    ),
                    None => r@[i].current_balance == 0 && r@[i].balance_date is None,
                }),
    {
        let n = self.accounts.len();
        let mut out: Vec<AccountWithBalance> = Vec::new();
        let mut i: usize = 0;
        while i < n
            invariant
                0 <= i <= n,
                n == self.accounts@.len(),
                out@.len() == i,
                forall|q: int|
                    0 <= q < i ==> (#[trigger] out@[q]).account == self.accounts@[q] && (match
                        latest_of(self.balances@, self.accounts@[q].id, today) {
                        Some(e) => out@[q].current_balance == e.balance && out@[q].balance_date
                            == Some(e.date),
                        None => out@[q].current_balance == 0 && out@[q].balance_date is None,
                    }),
            decreases n - i,
        {
            let a = &self.accounts[i];
            let found: (i64, Option<Date>) = match self.latest_before(a.id, today) {
                Some(e) => (e.balance, Some(e.date)),
                None => (0, None),
            };
            out.push(
                AccountWithBalance {
                    account: a.clone(),
                    current_balance: found.0,
                    balance_date: found.1,
                },
            );
            i = i + 1;
        }
        out
    }
}

} // verus!

//! The persistence core: accounts, balance snapshots and milestones, with
//! the referential and domain integrity rules the schema enforces —
//! category derived from account type, at most one snapshot per
//! (account, date), cascade-delete of an account's snapshots, and the
//! set-null unlinking of its milestones.

use vstd::prelude::*;
use vstd::seq_lib::group_seq_properties;
use crate::account::Account;
use crate::account::AccountFilter;
use crate::account::CreateAccountInput;
use crate::account::UpdateAccountInput;
use crate::account::category_of;
use crate::account::matches_filter;
use crate::balance::BalanceEntry;
use crate::balance::UpdateBalanceInput;
use crate::date::Date;
use crate::date::date_in_range;
use crate::date::date_le;
use crate::date::date_lt;
use crate::error::StoreError;
use crate::milestone::Milestone;
use crate::milestone::UpdateMilestoneInput;

verus! {

/// True when some account of `accs` has id `id`.
pub open spec fn has_account_id(accs: Seq<Account>, id: u64) -> bool {
    exists|i: int| 0 <= i < accs.len() && accs[i].id == id
}

/// True when some entry of `es` has id `id`.
pub open spec fn has_entry_id(es: Seq<BalanceEntry>, id: u64) -> bool {
    exists|i: int| 0 <= i < es.len() && es[i].id == id
}

/// True when some milestone of `ms` has id `id`.
pub open spec fn has_milestone_id(ms: Seq<Milestone>, id: u64) -> bool {
    exists|i: int| 0 <= i < ms.len() && ms[i].id == id
}

/// True when some entry of `es` already covers the (account, date) pair.
pub open spec fn has_pair(es: Seq<BalanceEntry>, account_id: u64, d: Date) -> bool {
    exists|i: int| 0 <= i < es.len() && es[i].account_id == account_id && es[i].date == d
}

/// The account as it stands right after creation from `input`: fresh id,
/// category derived from the type, the default currency where none was
/// given, active, both timestamps at `now`.
pub open spec fn account_from_input(a: Account, input: CreateAccountInput, id: u64, now: u64) -> bool {
    &&& a.id == id
    &&& a.name == input.name
    &&& a.account_type == input.account_type
    &&& a.category == category_of(input.account_type)
    &&& a.institution == input.institution
    &&& a.description == input.description
    &&& (match input.currency {
        Some(c) => a.currency == c,
        None => a.currency@ == "GBP"@,
    })
    &&& a.is_active
    &&& a.created_at == now
    &&& a.updated_at == now
}

/// The account as it stands after a partial update: the given fields
/// replaced, the rest kept, type, category and creation time immutable,
/// `updated_at` refreshed.
pub open spec fn account_updated(o: Account, n: Account, input: UpdateAccountInput, now: u64) -> bool {
    &&& n.id == o.id
    &&& n.account_type == o.account_type
    &&& n.category == o.category
    &&& n.created_at == o.created_at
    &&& n.updated_at == now
    &&& n.name == (match input.name {
        Some(s) => s,
        None => o.name,
    })
    &&& n.institution == (match input.institution {
        Some(s) => Some(s),
        None => o.institution,
    })
    &&& n.description == (match input.description {
        Some(s) => Some(s),
        None => o.description,
    })
    &&& n.currency == (match input.currency {
        Some(s) => s,
        None => o.currency,
    })
    &&& n.is_active == (match input.is_active {
        Some(b) => b,
        None => o.is_active,
    })
}

/// The predicate an account survives the deletion of account `id` by.
pub open spec fn keeps_account(id: u64) -> spec_fn(Account) -> bool {
    |a: Account| a.id != id
}

/// The predicate a balance entry survives the deletion of account `id`
/// by: the cascade removes exactly the deleted account's entries.
pub open spec fn keeps_entries_of(id: u64) -> spec_fn(BalanceEntry) -> bool {
    |e: BalanceEntry| e.account_id != id
}

/// The predicate a balance entry survives a deletion by entry id by.
pub open spec fn keeps_entry(id: u64) -> spec_fn(BalanceEntry) -> bool {
    |e: BalanceEntry| e.id != id
}

/// The predicate a milestone survives a deletion by milestone id by.
pub open spec fn keeps_milestone(id: u64) -> spec_fn(Milestone) -> bool {
    |m: Milestone| m.id != id
}

/// The entry as it stands after a partial correction: balance and notes
/// replaced where given, identity (account, date) and creation time fixed.
pub open spec fn entry_corrected(o: BalanceEntry, input: UpdateBalanceInput) -> BalanceEntry {
    BalanceEntry {
        balance: (match input.balance {
            Some(b) => b,
            None => o.balance,
        }),
        notes: (match input.notes {
            Some(n) => Some(n),
            None => o.notes,
        }),
        ..o
    }
}

/// The predicate a date-range listing of milestones filters by.
pub open spec fn milestone_in_range(from: Option<Date>, to: Option<Date>) -> spec_fn(
    Milestone,
) -> bool {
    |m: Milestone| date_in_range(m.date, from, to)
}

/// The milestone as it stands after a partial update: the given fields
/// replaced, the rest kept, the creation time immutable. The outer `Some`
/// on the link relinks or unlinks.
pub open spec fn milestone_updated(o: Milestone, n: Milestone, input: UpdateMilestoneInput) -> bool {
    &&& n.id == o.id
    &&& n.created_at == o.created_at
    &&& n.date == (match input.date {
        Some(d) => d,
        None => o.date,
    })
    &&& n.label == (match input.label {
        Some(s) => s,
        None => o.label,
    })
    &&& n.account_id == (match input.account_id {
        Some(l) => l,
        None => o.account_id,
    })
}

/// The milestone as it stands after an account deletion: unlinked if it
/// pointed at the deleted account, untouched otherwise.
pub open spec fn milestone_unlinked(m: Milestone, id: u64) -> Milestone {
    if m.account_id == Some(id) {
        Milestone { account_id: None, ..m }
    } else {
        m
    }
}

/// The in-memory model of the three related tables, with the counters the
/// stores draw fresh ids from.
pub struct Store {
    pub accounts: Vec<Account>,
    pub balances: Vec<BalanceEntry>,
    pub milestones: Vec<Milestone>,
    pub next_account_id: u64,
    pub next_balance_id: u64,
    pub next_milestone_id: u64,
}

impl Store {
    /// The integrity rules the schema enforces: domain integrity of every
    /// row, unique ids below the id counters, at most one entry per
    /// (account, date), and every foreign key resolving to an account.
    pub open spec fn wf(self) -> bool {
        &&& forall|i: int| 0 <= i < self.accounts@.len() ==> (#[trigger] self.accounts@[i]).wf()
        &&& forall|i: int|
            0 <= i < self.accounts@.len() ==> (#[trigger] self.accounts@[i]).id
                < self.next_account_id
        &&& forall|i: int, j: int|
            0 <= i < j < self.accounts@.len() ==> self.accounts@[i].id != self.accounts@[j].id
        &&& forall|i: int|
            0 <= i < self.balances@.len() ==> (#[trigger] self.balances@[i]).date.valid()
        &&& forall|i: int|
            0 <= i < self.balances@.len() ==> (#[trigger] self.balances@[i]).id
                < self.next_balance_id
        &&& forall|i: int, j: int|
            0 <= i < j < self.balances@.len() ==> self.balances@[i].id != self.balances@[j].id
        &&& forall|i: int|
            0 <= i < self.balances@.len() ==> has_account_id(
                self.accounts@,
                (#[trigger] self.balances@[i]).account_id,
            )
        &&& forall|i: int, j: int|
            0 <= i < j < self.balances@.len() ==> !(self.balances@[i].account_id
                == self.balances@[j].account_id && self.balances@[i].date
                == self.balances@[j].date)
        &&& forall|i: int| 0 <= i < self.milestones@.len() ==> (#[trigger] self.milestones@[i]).wf()
        &&& forall|i: int|
            0 <= i < self.milestones@.len() ==> (#[trigger] self.milestones@[i]).id
                < self.next_milestone_id
        &&& forall|i: int, j: int|
            0 <= i < j < self.milestones@.len() ==> self.milestones@[i].id
                != self.milestones@[j].id
        &&& forall|i: int|
            0 <= i < self.milestones@.len() ==> (match (
            #[trigger] self.milestones@[i]).account_id {
                Some(a) => has_account_id(self.accounts@, a),
                None => true,
            })
    }

    /// An empty store.
    pub fn new() -> (s: Store)
        ensures
            s.wf(),
            s.accounts@ == Seq::<Account>::empty(),
            s.balances@ == Seq::<BalanceEntry>::empty(),
            s.milestones@ == Seq::<Milestone>::empty(),
            s.next_account_id == 1,
            s.next_balance_id == 1,
            s.next_milestone_id == 1,
    {
        Store {
            accounts: Vec::new(),
            balances: Vec::new(),
            milestones: Vec::new(),
            next_account_id: 1,
            next_balance_id: 1,
            next_milestone_id: 1,
        }
    }

    /// The position of the account with id `id`, if it exists.
    fn find_account(&self, id: u64) -> (r: Option<usize>)
        ensures
            match r {
                Some(i) => i < self.accounts@.len() && self.accounts@[i as int].id == id,
                None => !has_account_id(self.accounts@, id),
            },
    {
        let n = self.accounts.len();
        let mut i: usize = 0;
        while i < n
            invariant
                0 <= i <= n,
                n == self.accounts@.len(),
                forall|k: int| 0 <= k < i ==> self.accounts@[k].id != id,
            decreases n - i,
        {
            if self.accounts[i].id == id {
                return Some(i);
            }
            i = i + 1;
        }
        None
    }

    /// Creates an account from `input`: derives the category from the
    /// account type, assigns a fresh id and both timestamps, defaults the
    /// currency, and appends the record. Rejected with `ValidationError`
    /// exactly when the name is empty.
    pub fn create_account(&mut self, input: CreateAccountInput, now: u64) -> (r: Result<
        u64,
        StoreError,
    >)
        requires
            old(self).wf(),
            old(self).next_account_id < u64::MAX,
        ensures
            final(self).wf(),
            final(self).balances@ == old(self).balances@,
            final(self).milestones@ == old(self).milestones@,
            final(self).next_balance_id == old(self).next_balance_id,
            final(self).next_milestone_id == old(self).next_milestone_id,
            match r {
                Ok(id) => {
                    &&& input.name@.len() > 0
                    &&& id == old(self).next_account_id
                    &&& final(self).accounts@.len() == old(self).accounts@.len() + 1
                    &&& forall|i: int|
                        0 <= i < old(self).accounts@.len() ==> final(self).accounts@[i] == old(
                            self,
                        ).accounts@[i]
                    &&& account_from_input(final(self).accounts@.last(), input, id, now)
                    &&& final(self).next_account_id == old(self).next_account_id + 1
                },
                Err(e) => {
                    &&& e == StoreError::ValidationError
                    &&& input.name@.len() == 0
                    &&& *final(self) == *old(self)
                },
            },
    {
        if input.name.as_str().is_empty() {
            return Err(StoreError::ValidationError);
        }
        let id = self.next_account_id;
        let category = input.account_type.category();
        let currency = match input.currency {
            Some(c) => c,
            None => "GBP".to_owned(),
        };
        let account = Account {
            id,
            name: input.name,
            account_type: input.account_type,
            category,
            institution: input.institution,
            description: input.description,
            currency,
            is_active: true,
            created_at: now,
            updated_at: now,
        };
        self.accounts.push(account);
        self.next_account_id = id + 1;
        proof {
            assert forall|k: int|
                0 <= k < self.balances@.len() implies has_account_id(
                self.accounts@,
                (#[trigger] self.balances@[k]).account_id,
            ) by {
                let aid = self.balances@[k].account_id;
                let w = choose|w: int|
                    0 <= w < old(self).accounts@.len() && old(self).accounts@[w].id == aid;
                assert(self.accounts@[w].id == aid);
            }
            assert forall|k: int|
                0 <= k < self.milestones@.len() implies (match (
            #[trigger] self.milestones@[k]).account_id {
                Some(a) => has_account_id(self.accounts@, a),
                None => true,
            }) by {
                match self.milestones@[k].account_id {
                    Some(a) => {
                        let w = choose|w: int|
                            0 <= w < old(self).accounts@.len() && old(self).accounts@[w].id == a;
                        assert(self.accounts@[w].id == a);
                    },
                    None => {},
                }
            }
        }
        Ok(id)
    }

    /// The account with id `id`, if any.
    pub fn get_account(&self, id: u64) -> (r: Option<&Account>)
        requires
            self.wf(),
        ensures
            match r {
                Some(a) => a.id == id && self.accounts@.contains(*a),
                None => !has_account_id(self.accounts@, id),
            },
    {
        match self.find_account(id) {
            Some(i) => {
                let a = &self.accounts[i];
                proof {
                    assert(self.accounts@[i as int] == *a);
                }
                Some(a)
            },
            None => None,
        }
    }

    /// The accounts that satisfy `filter`, in creation order.
    pub fn list_accounts(&self, filter: AccountFilter) -> (r: Vec<Account>)
        requires
            self.wf(),
        ensures
            r@ == self.accounts@.filter(|a: Account| matches_filter(a, filter)),
    {
        broadcast use group_seq_properties;

        let n = self.accounts.len();
        let mut out: Vec<Account> = Vec::new();
        let mut i: usize = 0;
        while i < n
            invariant
                0 <= i <= n,
                n == self.accounts@.len(),
                out@ == self.accounts@.take(i as int).filter(
                    |a: Account| matches_filter(a, filter),
                ),
            decreases n - i,
        {
            let a = &self.accounts[i];
            let keep = match filter.is_active {
                Some(b) => a.is_active == b,
                None => true,
            } && match filter.category {
                Some(c) => a.category == c,
                None => true,
            };
            if keep {
                out.push(a.clone());
            }
            proof {
                let t = self.accounts@.take(i + 1 as int);
                assert(t.drop_last() =~= self.accounts@.take(i as int));
                assert(t.last() == self.accounts@[i as int]);
                reveal(Seq::filter);
            }
            i = i + 1;
        }
        proof {
            assert(self.accounts@.take(n as int) =~= self.accounts@);
        }
        out
    }

    /// Applies a partial update to the account with id `id`: only the
    /// given fields change; type and category are immutable; `updated_at`
    /// is refreshed. `NotFoundError` exactly when no account has the id;
    /// `ValidationError` exactly when a new name is given and empty.
    pub fn update_account(&mut self, id: u64, input: UpdateAccountInput, now: u64) -> (r: Result<
        (),
        StoreError,
    >)
        requires
            old(self).wf(),
        ensures
            final(self).wf(),
            final(self).balances@ == old(self).balances@,
            final(self).milestones@ == old(self).milestones@,
            final(self).next_account_id == old(self).next_account_id,
            final(self).next_balance_id == old(self).next_balance_id,
            final(self).next_milestone_id == old(self).next_milestone_id,
            match r {
                Ok(()) => {
                    &&& has_account_id(old(self).accounts@, id)
                    &&& (match input.name {
                        Some(s) => s@.len() > 0,
                        None => true,
                    })
                    &&& final(self).accounts@.len() == old(self).accounts@.len()
                    &&& forall|i: int|
                        0 <= i < old(self).accounts@.len() && old(self).accounts@[i].id != id
                            ==> final(self).accounts@[i] == old(self).accounts@[i]
                    &&& forall|i: int|
                        0 <= i < old(self).accounts@.len() && old(self).accounts@[i].id == id
                            ==> account_updated(
                            old(self).accounts@[i],
                            final(self).accounts@[i],
                            input,
                            now,
                        )
                },
                Err(e) => {
                    &&& *final(self) == *old(self)
                    &&& (e == StoreError::ValidationError || e == StoreError::NotFoundError)
                    &&& (e == StoreError::ValidationError <==> (match input.name {
                        Some(s) => s@.len() == 0,
                        None => false,
                    }))
                    &&& (e == StoreError::NotFoundError ==> !has_account_id(
                        old(self).accounts@,
                        id,
                    ))
                },
            },
    {
        match &input.name {
            Some(s) => {
                if s.as_str().is_empty() {
                    return Err(StoreError::ValidationError);
                }
            },
            None => {},
        }
        let i = match self.find_account(id) {
            Some(i) => i,
            None => {
                return Err(StoreError::NotFoundError);
            },
        };
        let o = &self.accounts[i];
        let new_account = Account {
            id: o.id,
            name: match &input.name {
                Some(s) => s.clone(),
                None => o.name.clone(),
            },
            account_type: o.account_type,
            category: o.category,
            institution: match &input.institution {
                Some(s) => Some(s.clone()),
                None => match &o.institution {
                    Some(s) => Some(s.clone()),
                    None => None,
                },
            },
            description: match &input.description {
                Some(s) => Some(s.clone()),
                None => match &o.description {
                    Some(s) => Some(s.clone()),
                    None => None,
                },
            },
            currency: match &input.currency {
                Some(s) => s.clone(),
                None => o.currency.clone(),
            },
            is_active: match input.is_active {
                Some(b) => b,
                None => o.is_active,
            },
            created_at: o.created_at,
            updated_at: now,
        };
        self.accounts[i] = new_account;
        proof {
            assert forall|k: int|
                0 <= k < final(self).balances@.len() implies has_account_id(
                final(self).accounts@,
                (#[trigger] final(self).balances@[k]).account_id,
            ) by {
                let a = final(self).balances@[k].account_id;
                let w = choose|w: int|
                    0 <= w < old(self).accounts@.len() && old(self).accounts@[w].id == a;
                assert(final(self).accounts@[w].id == a);
            }
            assert forall|k: int|
                0 <= k < final(self).milestones@.len() implies (match (
            #[trigger] final(self).milestones@[k]).account_id {
                Some(a) => has_account_id(final(self).accounts@, a),
                None => true,
            }) by {
                match final(self).milestones@[k].account_id {
                    Some(a) => {
                        let w = choose|w: int|
                            0 <= w < old(self).accounts@.len() && old(self).accounts@[w].id == a;
                        assert(final(self).accounts@[w].id == a);
                    },
                    None => {},
                }
            }
        }
        Ok(())
    }

    /// Deletes the account with id `id`: the cascade removes exactly its
    /// balance entries, and exactly the milestones that referenced it are
    /// unlinked (they survive); everything else is untouched.
    /// `NotFoundError` exactly when no account has the id.
    pub fn delete_account(&mut self, id: u64) -> (r: Result<(), StoreError>)
        requires
            old(self).wf(),
        ensures
            final(self).wf(),
            final(self).next_account_id == old(self).next_account_id,
            final(self).next_balance_id == old(self).next_balance_id,
            final(self).next_milestone_id == old(self).next_milestone_id,
            match r {
                Ok(()) => {
                    &&& has_account_id(old(self).accounts@, id)
                    &&& final(self).accounts@ == old(self).accounts@.filter(keeps_account(id))
                    &&& final(self).balances@ == old(self).balances@.filter(keeps_entries_of(id))
                    &&& final(self).milestones@.len() == old(self).milestones@.len()
                    &&& forall|k: int|
                        0 <= k < old(self).milestones@.len() ==> final(self).milestones@[k]
                            == milestone_unlinked(old(self).milestones@[k], id)
                },
                Err(e) => {
                    &&& e == StoreError::NotFoundError
                    &&& !has_account_id(old(self).accounts@, id)
                    &&& *final(self) == *old(self)
                },
            },
    {
        broadcast use group_seq_properties;

        match self.find_account(id) {
            Some(_) => {},
            None => {
                return Err(StoreError::NotFoundError);
            },
        }
        let ghost accs0 = self.accounts@;
        let ghost bals0 = self.balances@;
        let ghost mils0 = self.milestones@;

        let n_a = self.accounts.len();
        let mut new_accounts: Vec<Account> = Vec::new();
        let mut i: usize = 0;
        while i < n_a
            invariant
                0 <= i <= n_a,
                n_a == accs0.len(),
                old(self).wf(),
                *self == *old(self),
                accs0 == old(self).accounts@,
                self.accounts@ == accs0,
                new_accounts@ == accs0.take(i as int).filter(keeps_account(id)),
                forall|k: int| #![trigger new_accounts@[k]]
                    0 <= k < new_accounts@.len() ==> exists|j: int|
                        0 <= j < i && new_accounts@[k] == #[trigger] accs0[j],
                forall|k1: int, k2: int|
                    0 <= k1 < k2 < new_accounts@.len() ==> new_accounts@[k1].id
                        != new_accounts@[k2].id,
            decreases n_a - i,
        {
            let ghost nb = new_accounts@;
            let a = &self.accounts[i];
            if a.id != id {
                new_accounts.push(a.clone());
                proof {
                    assert forall|k: int|
                        0 <= k < nb.len() implies nb[k].id != accs0[i as int].id by {
                        let j = choose|j: int| 0 <= j < i && nb[k] == accs0[j];
                        assert(accs0[j].id != accs0[i as int].id);
                    }
                }
            }
            proof {
                let t = accs0.take(i + 1 as int);
                assert(t.drop_last() =~= accs0.take(i as int));
                assert(t.last() == accs0[i as int]);
                reveal(Seq::filter);
            }
            i = i + 1;
        }
        proof {
            assert(accs0.take(n_a as int) =~= accs0);
        }

        let n_b = self.balances.len();
        let mut new_balances: Vec<BalanceEntry> = Vec::new();
        let mut ib: usize = 0;
        while ib < n_b
            invariant
                0 <= ib <= n_b,
                n_b == bals0.len(),
                old(self).wf(),
                *self == *old(self),
                accs0 == old(self).accounts@,
                bals0 == old(self).balances@,
                self.balances@ == bals0,
                new_balances@ == bals0.take(ib as int).filter(keeps_entries_of(id)),
                forall|k: int| #![trigger new_balances@[k]]
                    0 <= k < new_balances@.len() ==> exists|j: int|
                        0 <= j < ib && new_balances@[k] == #[trigger] bals0[j],
                forall|k: int| 0 <= k < new_balances@.len() ==> new_balances@[k].account_id != id,
                forall|k1: int, k2: int|
                    0 <= k1 < k2 < new_balances@.len() ==> new_balances@[k1].id
                        != new_balances@[k2].id,
                forall|k1: int, k2: int|
                    0 <= k1 < k2 < new_balances@.len() ==> !(new_balances@[k1].account_id
                        == new_balances@[k2].account_id && new_balances@[k1].date
                        == new_balances@[k2].date),
            decreases n_b - ib,
        {
            let ghost nb = new_balances@;
            let e = &self.balances[ib];
            if e.account_id != id {
                new_balances.push(e.clone());
                proof {
                    assert forall|k: int|
                        0 <= k < nb.len() implies nb[k].id != bals0[ib as int].id && !(
                    nb[k].account_id == bals0[ib as int].account_id && nb[k].date
                        == bals0[ib as int].date) by {
                        let j = choose|j: int| 0 <= j < ib && nb[k] == bals0[j];
                        assert(bals0[j].id != bals0[ib as int].id);
                    }
                }
            }
            proof {
                let t = bals0.take(ib + 1 as int);
                assert(t.drop_last() =~= bals0.take(ib as int));
                assert(t.last() == bals0[ib as int]);
                reveal(Seq::filter);
            }
            ib = ib + 1;
        }
        proof {
            assert(bals0.take(n_b as int) =~= bals0);
        }

        let n_m = self.milestones.len();
        let mut new_milestones: Vec<Milestone> = Vec::new();
        let mut im: usize = 0;
        while im < n_m
            invariant
                0 <= im <= n_m,
                n_m == mils0.len(),
                old(self).wf(),
                *self == *old(self),
                mils0 == old(self).milestones@,
                self.milestones@ == mils0,
                new_milestones@.len() == im,
                forall|k: int|
                    0 <= k < im ==> new_milestones@[k] == milestone_unlinked(mils0[k], id),
            decreases n_m - im,
        {
            let m = &self.milestones[im];
            let linked_here = match m.account_id {
                Some(a) => a == id,
                None => false,
            };
            if linked_here {
                new_milestones.push(
                    Milestone {
                        id: m.id,
                        date: m.date,
                        label: m.label.clone(),
                        account_id: None,
                        created_at: m.created_at,
                    },
                );
            } else {
                new_milestones.push(m.clone());
            }
            im = im + 1;
        }

        self.accounts = new_accounts;
        self.balances = new_balances;
        self.milestones = new_milestones;

        proof {
            assert forall|k: int|
                0 <= k < self.accounts@.len() implies (#[trigger] self.accounts@[k]).wf()
                && self.accounts@[k].id < self.next_account_id by {
                let j = choose|j: int| 0 <= j < accs0.len() && self.accounts@[k] == accs0[j];
                assert(accs0[j].wf());
            }
            assert forall|k: int|
                0 <= k < self.balances@.len() implies (#[trigger] self.balances@[k]).date.valid()
                && self.balances@[k].id < self.next_balance_id && has_account_id(
                self.accounts@,
                self.balances@[k].account_id,
            ) by {
                let j = choose|j: int| 0 <= j < bals0.len() && self.balances@[k] == bals0[j];
                assert(bals0[j].date.valid());
                let aid = self.balances@[k].account_id;
                let w = choose|w: int| 0 <= w < accs0.len() && accs0[w].id == aid;
                assert(keeps_account(id)(accs0[w]));
                accs0.lemma_filter_contains(keeps_account(id), w);
                assert(self.accounts@.contains(accs0[w]));
                let wi = choose|wi: int|
                    0 <= wi < self.accounts@.len() && self.accounts@[wi] == accs0[w];
                assert(self.accounts@[wi].id == aid);
            }
            assert forall|k: int|
                0 <= k < self.milestones@.len() implies (#[trigger] self.milestones@[k]).wf()
                && self.milestones@[k].id < self.next_milestone_id && (match self.milestones@[
            k].account_id {
                Some(a) => has_account_id(self.accounts@, a),
                None => true,
            }) by {
                assert(self.milestones@[k] == milestone_unlinked(mils0[k], id));
                assert(mils0[k].wf());
                match self.milestones@[k].account_id {
                    Some(a) => {
                        assert(mils0[k].account_id == Some(a) && a != id);
                        let w = choose|w: int| 0 <= w < accs0.len() && accs0[w].id == a;
                        assert(keeps_account(id)(accs0[w]));
                        accs0.lemma_filter_contains(keeps_account(id), w);
                        let wi = choose|wi: int|
                            0 <= wi < self.accounts@.len() && self.accounts@[wi] == accs0[w];
                        assert(self.accounts@[wi].id == a);
                    },
                    None => {},
                }
            }
            assert forall|k1: int, k2: int|
                0 <= k1 < k2 < self.milestones@.len() implies self.milestones@[k1].id
                != self.milestones@[k2].id by {
                assert(self.milestones@[k1].id == mils0[k1].id);
                assert(self.milestones@[k2].id == mils0[k2].id);
            }
        }
        Ok(())
    }

    /// The position of the entry covering the (account, date) pair, if any.
    fn find_pair(&self, account_id: u64, date: Date) -> (r: Option<usize>)
        ensures
            match r {
                Some(i) => i < self.balances@.len() && self.balances@[i as int].account_id
                    == account_id && self.balances@[i as int].date == date,
                None => !has_pair(self.balances@, account_id, date),
            },
    {
        let n = self.balances.len();
        let mut i: usize = 0;
        while i < n
            invariant
                0 <= i <= n,
                n == self.balances@.len(),
                forall|k: int|
                    0 <= k < i ==> !((#[trigger] self.balances@[k]).account_id == account_id
                        && self.balances@[k].date == date),
            decreases n - i,
        {
            if self.balances[i].account_id == account_id && self.balances[i].date == date {
                return Some(i);
            }
            i = i + 1;
        }
        None
    }

    /// The position of the entry with id `id`, if any.
    fn find_entry(&self, id: u64) -> (r: Option<usize>)
        ensures
            match r {
                Some(i) => i < self.balances@.len() && self.balances@[i as int].id == id,
                None => !has_entry_id(self.balances@, id),
            },
    {
        let n = self.balances.len();
        let mut i: usize = 0;
        while i < n
            invariant
                0 <= i <= n,
                n == self.balances@.len(),
                forall|k: int| 0 <= k < i ==> (#[trigger] self.balances@[k]).id != id,
            decreases n - i,
        {
            if self.balances[i].id == id {
                return Some(i);
            }
            i = i + 1;
        }
        None
    }

    /// Records a snapshot for (account, date): an update of balance and
    /// notes in place when the pair already has a row, an insert of a
    /// fresh row otherwise — never a duplicate. `ValidationError` exactly
    /// when the date is ill-formed; `NotFoundError` exactly when the date
    /// is well-formed and the account does not exist.
    pub fn record_snapshot(
        &mut self,
        account_id: u64,
        date: Date,
        balance: i64,
        notes: Option<String>,
        now: u64,
    ) -> (r: Result<u64, StoreError>)
        requires
            old(self).wf(),
            old(self).next_balance_id < u64::MAX,
        ensures
            final(self).wf(),
            final(self).accounts@ == old(self).accounts@,
            final(self).milestones@ == old(self).milestones@,
            final(self).next_account_id == old(self).next_account_id,
            final(self).next_milestone_id == old(self).next_milestone_id,
            match r {
                Ok(id) => {
                    &&& date.valid()
                    &&& has_account_id(old(self).accounts@, account_id)
                    &&& if has_pair(old(self).balances@, account_id, date) {
                        exists|k: int|
                            #![trigger old(self).balances@[k]]
                            {
                                &&& 0 <= k < old(self).balances@.len()
                                &&& old(self).balances@[k].account_id == account_id
                                &&& old(self).balances@[k].date == date
                                &&& id == old(self).balances@[k].id
                                &&& final(self).balances@ == old(self).balances@.update(
                                    k,
                                    (BalanceEntry {
                                        balance: balance,
                                        notes: notes,
                                        ..old(self).balances@[k]
                                    }),
                                )
                                &&& final(self).next_balance_id == old(self).next_balance_id
                            }
                    } else {
                        &&& id == old(self).next_balance_id
                        &&& final(self).balances@ == old(self).balances@.push(
                            (BalanceEntry {
                                id: id,
                                account_id: account_id,
                                date: date,
                                balance: balance,
                                notes: notes,
                                created_at: now,
                            }),
                        )
                        &&& final(self).next_balance_id == old(self).next_balance_id + 1
                    }
                },
                Err(e) => {
                    &&& *final(self) == *old(self)
                    &&& (e == StoreError::ValidationError || e == StoreError::NotFoundError)
                    &&& (e == StoreError::ValidationError <==> !date.valid())
                    &&& (e == StoreError::NotFoundError ==> date.valid() && !has_account_id(
                        old(self).accounts@,
                        account_id,
                    ))
                },
            },
    {
        if !date.is_valid() {
            return Err(StoreError::ValidationError);
        }
        match self.find_account(account_id) {
            Some(_) => {},
            None => {
                return Err(StoreError::NotFoundError);
            },
        }
        match self.find_pair(account_id, date) {
            Some(k) => {
                let eid = self.balances[k].id;
                let ecr = self.balances[k].created_at;
                self.balances[k] = BalanceEntry {
                    id: eid,
                    account_id,
                    date,
                    balance,
                    notes,
                    created_at: ecr,
                };
                proof {
                    assert forall|i: int|
                        0 <= i < self.balances@.len() implies has_account_id(
                        self.accounts@,
                        (#[trigger] self.balances@[i]).account_id,
                    ) by {
                        assert(old(self).balances@[i].account_id == self.balances@[i].account_id);
                    }
                }
                Ok(eid)
            },
            None => {
                let id = self.next_balance_id;
                self.balances.push(
                    BalanceEntry { id, account_id, date, balance, notes, created_at: now },
                );
                self.next_balance_id = id + 1;
                Ok(id)
            },
        }
    }

    /// Records a snapshot insert-only: like `record_snapshot`, but an
    /// existing row for the (account, date) pair is a `ConflictError`
    /// rather than an update.
    pub fn insert_snapshot(
        &mut self,
        account_id: u64,
        date: Date,
        balance: i64,
        notes: Option<String>,
        now: u64,
    ) -> (r: Result<u64, StoreError>)
        requires
            old(self).wf(),
            old(self).next_balance_id < u64::MAX,
        ensures
            final(self).wf(),
            final(self).accounts@ == old(self).accounts@,
            final(self).milestones@ == old(self).milestones@,
            final(self).next_account_id == old(self).next_account_id,
            final(self).next_milestone_id == old(self).next_milestone_id,
            match r {
                Ok(id) => {
                    &&& date.valid()
                    &&& has_account_id(old(self).accounts@, account_id)
                    &&& !has_pair(old(self).balances@, account_id, date)
                    &&& id == old(self).next_balance_id
                    &&& final(self).balances@ == old(self).balances@.push(
                        (BalanceEntry {
                            id: id,
                            account_id: account_id,
                            date: date,
                            balance: balance,
                            notes: notes,
                            created_at: now,
                        }),
                    )
                    &&& final(self).next_balance_id == old(self).next_balance_id + 1
                },
                Err(e) => {
                    &&& *final(self) == *old(self)
                    &&& (e == StoreError::ValidationError <==> !date.valid())
                    &&& (e == StoreError::NotFoundError <==> date.valid() && !has_account_id(
                        old(self).accounts@,
                        account_id,
                    ))
                    &&& (e == StoreError::ConflictError <==> date.valid() && has_account_id(
                        old(self).accounts@,
                        account_id,
                    ) && has_pair(old(self).balances@, account_id, date))
                    &&& (e == StoreError::ValidationError || e == StoreError::NotFoundError || e
                        == StoreError::ConflictError)
                },
            },
    {
        if !date.is_valid() {
            return Err(StoreError::ValidationError);
        }
        match self.find_account(account_id) {
            Some(_) => {},
            None => {
                return Err(StoreError::NotFoundError);
            },
        }
        match self.find_pair(account_id, date) {
            Some(_) => Err(StoreError::ConflictError),
            None => {
                let id = self.next_balance_id;
                self.balances.push(
                    BalanceEntry { id, account_id, date, balance, notes, created_at: now },
                );
                self.next_balance_id = id + 1;
                Ok(id)
            },
        }
    }

    /// Applies a partial correction to the entry with id `id`: only
    /// balance and notes can change; account and date are fixed once
    /// written. `NotFoundError` exactly when no entry has the id.
    pub fn update_balance(&mut self, id: u64, input: UpdateBalanceInput) -> (r: Result<
        (),
        StoreError,
    >)
        requires
            old(self).wf(),
        ensures
            final(self).wf(),
            final(self).accounts@ == old(self).accounts@,
            final(self).milestones@ == old(self).milestones@,
            final(self).next_account_id == old(self).next_account_id,
            final(self).next_balance_id == old(self).next_balance_id,
            final(self).next_milestone_id == old(self).next_milestone_id,
            match r {
                Ok(()) => exists|k: int|
                    #![trigger old(self).balances@[k]]
                    {
                        &&& 0 <= k < old(self).balances@.len()
                        &&& old(self).balances@[k].id == id
                        &&& final(self).balances@ == old(self).balances@.update(
                            k,
                            entry_corrected(old(self).balances@[k], input),
                        )
                    },
                Err(e) => {
                    &&& e == StoreError::NotFoundError
                    &&& !has_entry_id(old(self).balances@, id)
                    &&& *final(self) == *old(self)
                },
            },
    {
        let k = match self.find_entry(id) {
            Some(k) => k,
            None => {
                return Err(StoreError::NotFoundError);
            },
        };
        let eid = self.balances[k].id;
        let eaid = self.balances[k].account_id;
        let edate = self.balances[k].date;
        let ecr = self.balances[k].created_at;
        let ebal = self.balances[k].balance;
        let new_balance = match input.balance {
            Some(b) => b,
            None => ebal,
        };
        let new_notes = match input.notes {
            Some(n) => Some(n),
            None => match &self.balances[k].notes {
                Some(s) => Some(s.clone()),
                None => None,
            },
        };
        self.balances[k] = BalanceEntry {
            id: eid,
            account_id: eaid,
            date: edate,
            balance: new_balance,
            notes: new_notes,
            created_at: ecr,
        };
        proof {
            assert forall|i: int|
                0 <= i < self.balances@.len() implies has_account_id(
                self.accounts@,
                (#[trigger] self.balances@[i]).account_id,
            ) by {
                assert(old(self).balances@[i].account_id == self.balances@[i].account_id);
            }
        }
        Ok(())
    }

    /// Deletes the entry with id `id`. `NotFoundError` exactly when no
    /// entry has the id.
    pub fn delete_balance(&mut self, id: u64) -> (r: Result<(), StoreError>)
        requires
            old(self).wf(),
        ensures
            final(self).wf(),
            final(self).accounts@ == old(self).accounts@,
            final(self).milestones@ == old(self).milestones@,
            final(self).next_account_id == old(self).next_account_id,
            final(self).next_balance_id == old(self).next_balance_id,
            final(self).next_milestone_id == old(self).next_milestone_id,
            match r {
                Ok(()) => {
                    &&& has_entry_id(old(self).balances@, id)
                    &&& final(self).balances@ == old(self).balances@.filter(keeps_entry(id))
                },
                Err(e) => {
                    &&& e == StoreError::NotFoundError
                    &&& !has_entry_id(old(self).balances@, id)
                    &&& *final(self) == *old(self)
                },
            },
    {
        broadcast use group_seq_properties;

        match self.find_entry(id) {
            Some(_) => {},
            None => {
                return Err(StoreError::NotFoundError);
            },
        }
        let ghost bals0 = self.balances@;
        let n_b = self.balances.len();
        let mut new_balances: Vec<BalanceEntry> = Vec::new();
        let mut ib: usize = 0;
        while ib < n_b
            invariant
                0 <= ib <= n_b,
                n_b == bals0.len(),
                old(self).wf(),
                *self == *old(self),
                bals0 == old(self).balances@,
                new_balances@ == bals0.take(ib as int).filter(keeps_entry(id)),
                forall|k: int|
                    #![trigger new_balances@[k]]
                    0 <= k < new_balances@.len() ==> exists|j: int|
                        0 <= j < ib && new_balances@[k] == #[trigger] bals0[j],
                forall|k1: int, k2: int|
                    0 <= k1 < k2 < new_balances@.len() ==> new_balances@[k1].id
                        != new_balances@[k2].id,
                forall|k1: int, k2: int|
                    0 <= k1 < k2 < new_balances@.len() ==> !(new_balances@[k1].account_id
                        == new_balances@[k2].account_id && new_balances@[k1].date
                        == new_balances@[k2].date),
            decreases n_b - ib,
        {
            let ghost nb = new_balances@;
            let e = &self.balances[ib];
            if e.id != id {
                new_balances.push(e.clone());
                proof {
                    assert forall|k: int|
                        0 <= k < nb.len() implies nb[k].id != bals0[ib as int].id && !(
                    nb[k].account_id == bals0[ib as int].account_id && nb[k].date == bals0[
                        ib as int
                    ].date) by {
                        let j = choose|j: int| 0 <= j < ib && nb[k] == bals0[j];
                        assert(bals0[j].id != bals0[ib as int].id);
                    }
                }
            }
            proof {
                let t = bals0.take(ib + 1 as int);
                assert(t.drop_last() =~= bals0.take(ib as int));
                assert(t.last() == bals0[ib as int]);
                reveal(Seq::filter);
            }
            ib = ib + 1;
        }
        proof {
            assert(bals0.take(n_b as int) =~= bals0);
        }
        self.balances = new_balances;
        proof {
            assert forall|k: int|
                0 <= k < self.balances@.len() implies (#[trigger] self.balances@[k]).date.valid()
                && self.balances@[k].id < self.next_balance_id && has_account_id(
                self.accounts@,
                self.balances@[k].account_id,
            ) by {
                let j = choose|j: int| 0 <= j < bals0.len() && self.balances@[k] == bals0[j];
                assert(bals0[j].date.valid());
                assert(has_account_id(self.accounts@, bals0[j].account_id));
            }
        }
        Ok(())
    }

    /// The entries of one account within an optional date range, ordered
    /// by date strictly ascending (the pair-uniqueness rule makes the
    /// dates distinct).
    pub fn list_for_account(&self, account_id: u64, from: Option<Date>, to: Option<Date>) -> (r:
        Vec<BalanceEntry>)
        requires
            self.wf(),
        ensures
            forall|i: int, j: int| 0 <= i < j < r@.len() ==> date_lt(r@[i].date, r@[j].date),
            forall|i: int|
                0 <= i < r@.len() ==> (#[trigger] r@[i]).account_id == account_id && date_in_range(
                    r@[i].date,
                    from,
                    to,
                ) && self.balances@.contains(r@[i]),
            forall|k: int|
                0 <= k < self.balances@.len() && (#[trigger] self.balances@[k]).account_id
                    == account_id && date_in_range(self.balances@[k].date, from, to)
                    ==> r@.contains(self.balances@[k]),
    {
        let n = self.balances.len();
        let mut out: Vec<BalanceEntry> = Vec::new();
        let mut k: usize = 0;
        while k < n
            invariant
                0 <= k <= n,
                n == self.balances@.len(),
                self.wf(),
                forall|i: int, j: int| 0 <= i < j < out@.len() ==> date_lt(out@[i].date, out@[j].date),
                forall|q: int|
                    0 <= q < out@.len() ==> (#[trigger] out@[q]).account_id == account_id
                        && date_in_range(out@[q].date, from, to),
                forall|q: int|
                    #![trigger out@[q]]
                    0 <= q < out@.len() ==> exists|j: int|
                        0 <= j < k && out@[q] == #[trigger] self.balances@[j],
                forall|j: int|
                    0 <= j < k && (#[trigger] self.balances@[j]).account_id == account_id
                        && date_in_range(self.balances@[j].date, from, to) ==> out@.contains(
                        self.balances@[j],
                    ),
            decreases n - k,
        {
            let e = &self.balances[k];
            if e.account_id == account_id && e.date.in_range(&from, &to) {
                let ghost out0 = out@;
                let m = out.len();
                let mut p: usize = 0;
                while p < m && out[p].date.lt(&e.date)
                    invariant
                        0 <= p <= m,
                        m == out@.len(),
                        out@ == out0,
                        *e == self.balances@[k as int],
                        k < self.balances@.len(),
                        forall|q: int| 0 <= q < p ==> date_lt(out@[q].date, e.date),
                    decreases m - p,
                {
                    p = p + 1;
                }
                proof {
                    if p < m {
                        assert(!date_lt(out@[p as int].date, e.date));
                        assert(date_le(e.date, out@[p as int].date)) by {
                            crate::date::lemma_date_le_total(e.date, out@[p as int].date);
                        }
                    }
                    assert forall|q: int| p <= q < m implies date_lt(e.date, out@[q].date) by {
                        let j = choose|j: int| 0 <= j < k && out@[q] == self.balances@[j];
                        assert(!(self.balances@[j].account_id == self.balances@[k as int].account_id
                            && self.balances@[j].date == self.balances@[k as int].date));
                        assert(out@[q].date != e.date);
                        if q == p {
                            assert(date_le(e.date, out@[q].date));
                        } else {
                            assert(date_lt(out@[p as int].date, out@[q].date));
                            assert(date_le(e.date, out@[p as int].date));
                            crate::date::lemma_date_le_trans(
                                e.date,
                                out@[p as int].date,
                                out@[q].date,
                            );
                        }
                        assert(date_le(e.date, out@[q].date));
                    }
                }
                out.insert(p, e.clone());
                proof {
                    out0.insert_ensures(p as int, self.balances@[k as int]);
                    assert forall|q: int|
                        #![trigger out@[q]]
                        0 <= q < out@.len() implies exists|j: int|
                        0 <= j < k + 1 && out@[q] == #[trigger] self.balances@[j] by {
                        if q < p {
                            assert(out@[q] == out0[q]);
                            let j = choose|j: int| 0 <= j < k && out0[q] == self.balances@[j];
                            assert(out@[q] == self.balances@[j]);
                        } else if q == p {
                            assert(out@[q] == self.balances@[k as int]);
                        } else {
                            assert(out@[q] == out0[q - 1]);
                            let j = choose|j: int| 0 <= j < k && out0[q - 1] == self.balances@[j];
                            assert(out@[q] == self.balances@[j]);
                        }
                    }
                    assert forall|j: int|
                        0 <= j < k + 1 && (#[trigger] self.balances@[j]).account_id == account_id
                            && date_in_range(self.balances@[j].date, from, to) implies out@.contains(
                        self.balances@[j],
                    ) by {
                        if j == k {
                            assert(out@[p as int] == self.balances@[k as int]);
                        } else {
                            assert(out0.contains(self.balances@[j]));
                            let q = choose|q: int| 0 <= q < out0.len() && out0[q] == self.balances@[j];
                            if q < p {
                                assert(out@[q] == self.balances@[j]);
                            } else {
                                assert(out@[q + 1] == self.balances@[j]);
                            }
                        }
                    }
                    assert forall|i: int, j: int|
                        0 <= i < j < out@.len() implies date_lt(out@[i].date, out@[j].date) by {
                        if i < p && j < p {
                            assert(out@[i] == out0[i] && out@[j] == out0[j]);
                        } else if i < p && j == p {
                            assert(out@[i] == out0[i]);
                        } else if i < p && j > p {
                            assert(out@[i] == out0[i] && out@[j] == out0[j - 1]);
                        } else if i == p {
                            assert(out@[j] == out0[j - 1]);
                        } else {
                            assert(out@[i] == out0[i - 1] && out@[j] == out0[j - 1]);
                        }
                    }
                }
            } else {
                proof {
                    assert forall|j: int|
                        0 <= j < k + 1 && (#[trigger] self.balances@[j]).account_id == account_id
                            && date_in_range(self.balances@[j].date, from, to) implies out@.contains(
                        self.balances@[j],
                    ) by {
                        assert(j != k);
                    }
                }
            }
            k = k + 1;
        }
        proof {
            assert forall|i: int|
                0 <= i < out@.len() implies self.balances@.contains(#[trigger] out@[i]) by {
                let j = choose|j: int| 0 <= j < k && out@[i] == self.balances@[j];
                assert(self.balances@[j] == out@[i]);
            }
        }
        out
    }

    /// The position of the milestone with id `id`, if any.
    fn find_milestone(&self, id: u64) -> (r: Option<usize>)
        ensures
            match r {
                Some(i) => i < self.milestones@.len() && self.milestones@[i as int].id == id,
                None => !has_milestone_id(self.milestones@, id),
            },
    {
        let n = self.milestones.len();
        let mut i: usize = 0;
        while i < n
            invariant
                0 <= i <= n,
                n == self.milestones@.len(),
                forall|k: int| 0 <= k < i ==> (#[trigger] self.milestones@[k]).id != id,
            decreases n - i,
        {
            if self.milestones[i].id == id {
                return Some(i);
            }
            i = i + 1;
        }
        None
    }

    /// Creates a milestone: a fresh id and creation time, the given date,
    /// label and optional account link. `ValidationError` exactly when the
    /// label is empty or the date ill-formed; `NotFoundError` exactly when
    /// a link is given and its account does not exist.
    pub fn create_milestone(
        &mut self,
        date: Date,
        label: String,
        account_id: Option<u64>,
        now: u64,
    ) -> (r: Result<u64, StoreError>)
        requires
            old(self).wf(),
            old(self).next_milestone_id < u64::MAX,
        ensures
            final(self).wf(),
            final(self).accounts@ == old(self).accounts@,
            final(self).balances@ == old(self).balances@,
            final(self).next_account_id == old(self).next_account_id,
            final(self).next_balance_id == old(self).next_balance_id,
            match r {
                Ok(id) => {
                    &&& date.valid()
                    &&& label@.len() > 0
                    &&& (match account_id {
                        Some(a) => has_account_id(old(self).accounts@, a),
                        None => true,
                    })
                    &&& id == old(self).next_milestone_id
                    &&& final(self).milestones@ == old(self).milestones@.push(
                        (Milestone {
                            id: id,
                            date: date,
                            label: label,
                            account_id: account_id,
                            created_at: now,
                        }),
                    )
                    &&& final(self).next_milestone_id == old(self).next_milestone_id + 1
                },
                Err(e) => {
                    &&& *final(self) == *old(self)
                    &&& (e == StoreError::ValidationError || e == StoreError::NotFoundError)
                    &&& (e == StoreError::ValidationError <==> (label@.len() == 0
                        || !date.valid()))
                    &&& (e == StoreError::NotFoundError <==> label@.len() > 0 && date.valid()
                        && (match account_id {
                        Some(a) => !has_account_id(old(self).accounts@, a),
                        None => false,
                    }))
                },
            },
    {
        if label.as_str().is_empty() || !date.is_valid() {
            return Err(StoreError::ValidationError);
        }
        match account_id {
            Some(a) => {
                match self.find_account(a) {
                    Some(_) => {},
                    None => {
                        return Err(StoreError::NotFoundError);
                    },
                }
            },
            None => {},
        }
        let id = self.next_milestone_id;
        self.milestones.push(Milestone { id, date, label, account_id, created_at: now });
        self.next_milestone_id = id + 1;
        Ok(id)
    }

    /// Applies a partial update to the milestone with id `id`.
    /// `ValidationError` exactly when a new label is given and empty or a
    /// new date is given and ill-formed; otherwise `NotFoundError` exactly
    /// when no milestone has the id or a new link's account does not
    /// exist.
    pub fn update_milestone(&mut self, id: u64, input: UpdateMilestoneInput) -> (r: Result<
        (),
        StoreError,
    >)
        requires
            old(self).wf(),
        ensures
            final(self).wf(),
            final(self).accounts@ == old(self).accounts@,
            final(self).balances@ == old(self).balances@,
            final(self).next_account_id == old(self).next_account_id,
            final(self).next_balance_id == old(self).next_balance_id,
            final(self).next_milestone_id == old(self).next_milestone_id,
            match r {
                Ok(()) => {
                    &&& has_milestone_id(old(self).milestones@, id)
                    &&& final(self).milestones@.len() == old(self).milestones@.len()
                    &&& forall|i: int|
                        0 <= i < old(self).milestones@.len() && old(self).milestones@[i].id != id
                            ==> final(self).milestones@[i] == old(self).milestones@[i]
                    &&& forall|i: int|
                        0 <= i < old(self).milestones@.len() && old(self).milestones@[i].id == id
                            ==> milestone_updated(
                            old(self).milestones@[i],
                            final(self).milestones@[i],
                            input,
                        )
                },
                Err(e) => {
                    &&& *final(self) == *old(self)
                    &&& (e == StoreError::ValidationError || e == StoreError::NotFoundError)
                    &&& (e == StoreError::ValidationError <==> ((match input.label {
                        Some(s) => s@.len() == 0,
                        None => false,
                    }) || (match input.date {
                        Some(d) => !d.valid(),
                        None => false,
                    })))
                    &&& (e == StoreError::NotFoundError ==> (!has_milestone_id(
                        old(self).milestones@,
                        id,
                    ) || (match input.account_id {
                        Some(Some(a)) => !has_account_id(old(self).accounts@, a),
                        _ => false,
                    })))
                },
            },
    {
        match &input.label {
            Some(s) => {
                if s.as_str().is_empty() {
                    return Err(StoreError::ValidationError);
                }
            },
            None => {},
        }
        match &input.date {
            Some(d) => {
                if !d.is_valid() {
                    return Err(StoreError::ValidationError);
                }
            },
            None => {},
        }
        let k = match self.find_milestone(id) {
            Some(k) => k,
            None => {
                return Err(StoreError::NotFoundError);
            },
        };
        match &input.account_id {
            Some(Some(a)) => {
                match self.find_account(*a) {
                    Some(_) => {},
                    None => {
                        return Err(StoreError::NotFoundError);
                    },
                }
            },
            _ => {},
        }
        let o = &self.milestones[k];
        let new_milestone = Milestone {
            id: o.id,
            date: match input.date {
                Some(d) => d,
                None => o.date,
            },
            label: match &input.label {
                Some(s) => s.clone(),
                None => o.label.clone(),
            },
            account_id: match input.account_id {
                Some(l) => l,
                None => o.account_id,
            },
            created_at: o.created_at,
        };
        self.milestones[k] = new_milestone;
        proof {
            assert forall|i: int|
                0 <= i < self.milestones@.len() implies (match (
            #[trigger] self.milestones@[i]).account_id {
                Some(a) => has_account_id(self.accounts@, a),
                None => true,
            }) by {
                if i != k {
                    assert(self.milestones@[i] == old(self).milestones@[i]);
                }
            }
        }
        Ok(())
    }

    /// Deletes the milestone with id `id`; nothing else changes.
    /// `NotFoundError` exactly when no milestone has the id.
    pub fn delete_milestone(&mut self, id: u64) -> (r: Result<(), StoreError>)
        requires
            old(self).wf(),
        ensures
            final(self).wf(),
            final(self).accounts@ == old(self).accounts@,
            final(self).balances@ == old(self).balances@,
            final(self).next_account_id == old(self).next_account_id,
            final(self).next_balance_id == old(self).next_balance_id,
            final(self).next_milestone_id == old(self).next_milestone_id,
            match r {
                Ok(()) => {
                    &&& has_milestone_id(old(self).milestones@, id)
                    &&& final(self).milestones@ == old(self).milestones@.filter(
                        keeps_milestone(id),
                    )
                },
                Err(e) => {
                    &&& e == StoreError::NotFoundError
                    &&& !has_milestone_id(old(self).milestones@, id)
                    &&& *final(self) == *old(self)
                },
            },
    {
        broadcast use group_seq_properties;

        match self.find_milestone(id) {
            Some(_) => {},
            None => {
                return Err(StoreError::NotFoundError);
            },
        }
        let ghost mils0 = self.milestones@;
        let n_m = self.milestones.len();
        let mut new_milestones: Vec<Milestone> = Vec::new();
        let mut im: usize = 0;
        while im < n_m
            invariant
                0 <= im <= n_m,
                n_m == mils0.len(),
                old(self).wf(),
                *self == *old(self),
                mils0 == old(self).milestones@,
                new_milestones@ == mils0.take(im as int).filter(keeps_milestone(id)),
                forall|k: int|
                    #![trigger new_milestones@[k]]
                    0 <= k < new_milestones@.len() ==> exists|j: int|
                        0 <= j < im && new_milestones@[k] == #[trigger] mils0[j],
                forall|k1: int, k2: int|
                    0 <= k1 < k2 < new_milestones@.len() ==> new_milestones@[k1].id
                        != new_milestones@[k2].id,
            decreases n_m - im,
        {
            let ghost nb = new_milestones@;
            let m = &self.milestones[im];
            if m.id != id {
                new_milestones.push(m.clone());
                proof {
                    assert forall|k: int|
                        0 <= k < nb.len() implies nb[k].id != mils0[im as int].id by {
                        let j = choose|j: int| 0 <= j < im && nb[k] == mils0[j];
                        assert(mils0[j].id != mils0[im as int].id);
                    }
                }
            }
            proof {
                let t = mils0.take(im + 1 as int);
                assert(t.drop_last() =~= mils0.take(im as int));
                assert(t.last() == mils0[im as int]);
                reveal(Seq::filter);
            }
            im = im + 1;
        }
        proof {
            assert(mils0.take(n_m as int) =~= mils0);
        }
        self.milestones = new_milestones;
        proof {
            assert forall|k: int|
                0 <= k < self.milestones@.len() implies (#[trigger] self.milestones@[k]).wf()
                && self.milestones@[k].id < self.next_milestone_id && (match self.milestones@[
            k].account_id {
                Some(a) => has_account_id(self.accounts@, a),
                None => true,
            }) by {
                let j = choose|j: int| 0 <= j < mils0.len() && self.milestones@[k] == mils0[j];
                assert(mils0[j].wf());
                assert(match mils0[j].account_id {
                    Some(a) => has_account_id(self.accounts@, a),
                    None => true,
                });
            }
        }
        Ok(())
    }

    /// The milestones whose dates fall in the optional range, in creation
    /// order.
    pub fn list_milestones(&self, from: Option<Date>, to: Option<Date>) -> (r: Vec<Milestone>)
        requires
            self.wf(),
        ensures
            r@ == self.milestones@.filter(milestone_in_range(from, to)),
    {
        broadcast use group_seq_properties;

        let n = self.milestones.len();
        let mut out: Vec<Milestone> = Vec::new();
        let mut i: usize = 0;
        while i < n
            invariant
                0 <= i <= n,
                n == self.milestones@.len(),
                out@ == self.milestones@.take(i as int).filter(milestone_in_range(from, to)),
            decreases n - i,
        {
            let m = &self.milestones[i];
            if m.date.in_range(&from, &to) {
                out.push(m.clone());
            }
            proof {
                let t = self.milestones@.take(i + 1 as int);
                assert(t.drop_last() =~= self.milestones@.take(i as int));
                assert(t.last() == self.milestones@[i as int]);
                reveal(Seq::filter);
            }
            i = i + 1;
        }
        proof {
            assert(self.milestones@.take(n as int) =~= self.milestones@);
        }
        out
    }
}

/// Category never drifts: every account of a well-formed store carries
/// exactly the category derived from its account type, whatever history
/// of creations, updates and deletions produced the store.
pub proof fn lemma_category_derived(s: Store)
    requires
        s.wf(),
    ensures
        forall|i: int|
            0 <= i < s.accounts@.len() ==> (#[trigger] s.accounts@[i]).category == category_of(
                s.accounts@[i].account_type,
            ),
{
}

/// A well-formed store holds at most one balance entry per
/// (account, date) pair: two positions covering the same pair are the
/// same position.
pub proof fn lemma_at_most_one_entry_per_pair(s: Store, i: int, j: int)
    requires
        s.wf(),
        0 <= i < s.balances@.len(),
        0 <= j < s.balances@.len(),
        s.balances@[i].account_id == s.balances@[j].account_id,
        s.balances@[i].date == s.balances@[j].date,
    ensures
        i == j,
{
}

} // verus!

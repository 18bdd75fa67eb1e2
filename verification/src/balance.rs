//! Balance snapshots: one dated value per account, in minor units of the
//! account's currency.

use vstd::prelude::*;
use crate::date::Date;

verus! {

/// A dated balance snapshot of one account. `account_id` and `date` form
/// the entry's identity and are immutable once written; the balance is a
/// signed amount in minor units of the account's currency.
pub struct BalanceEntry {
    pub id: u64,
    pub account_id: u64,
    pub date: Date,
    pub balance: i64,
    pub notes: Option<String>,
    pub created_at: u64,
}

impl Clone for BalanceEntry {
    fn clone(&self) -> (res: Self)
        ensures
            res == *self,
    {
        BalanceEntry {
            id: self.id,
            account_id: self.account_id,
            date: self.date,
            balance: self.balance,
            notes: match &self.notes {
                Some(s) => Some(s.clone()),
                None => None,
            },
            created_at: self.created_at,
        }
    }
}

/// A partial correction of a snapshot: only balance and notes can change,
/// and only the fields that are `Some` do.
pub struct UpdateBalanceInput {
    pub balance: Option<i64>,
    pub notes: Option<String>,
}

} // verus!

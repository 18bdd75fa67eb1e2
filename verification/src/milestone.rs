//! Milestones: dated, labeled markers, optionally linked to an account.

use vstd::prelude::*;
use crate::date::Date;

verus! {

/// A dated, labeled marker. The optional account link is cleared when the
/// referenced account is deleted; the milestone itself survives.
pub struct Milestone {
    pub id: u64,
    pub date: Date,
    pub label: String,
    pub account_id: Option<u64>,
    pub created_at: u64,
}

impl Milestone {
    /// Domain integrity of a single milestone: a non-empty label and a
    /// well-formed date.
    pub open spec fn wf(self) -> bool {
        &&& self.label@.len() > 0
        &&& self.date.valid()
    }
}

impl Clone for Milestone {
    fn clone(&self) -> (res: Self)
        ensures
            res == *self,
    {
        Milestone {
            id: self.id,
            date: self.date,
            label: self.label.clone(),
            account_id: self.account_id,
            created_at: self.created_at,
        }
    }
}

/// A partial milestone update: only the fields that are `Some` change; the
/// outer `Some` on `account_id` relinks (`Some(Some(_))`) or unlinks
/// (`Some(None)`) the account.
pub struct UpdateMilestoneInput {
    pub date: Option<Date>,
    pub label: Option<String>,
    pub account_id: Option<Option<u64>>,
}

} // verus!

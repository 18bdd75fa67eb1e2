//! Accounts: the enumerated account types, the asset/liability category
//! derived from them, and the account record with its creation and update
//! inputs.

use vstd::prelude::*;

verus! {

/// The enumerated kinds of account the tracker knows.
#[derive(Clone, Copy, Debug, PartialEq, Eq, Structural)]
pub enum AccountType {
    Property,
    Pension,
    Investment,
    Savings,
    Mortgage,
    Loan,
    CreditCard,
}

/// Asset or liability: derived from the account type, never stored
/// independently of it.
#[derive(Clone, Copy, Debug, PartialEq, Eq, Structural)]
pub enum AccountCategory {
    Asset,
    Liability,
}

/// The category an account type belongs to: property, pension, investment
/// and savings accounts are assets; mortgage, loan and credit-card accounts
/// are liabilities.
pub open spec fn category_of(t: AccountType) -> AccountCategory {
    match t {
        AccountType::Property => AccountCategory::Asset,
        AccountType::Pension => AccountCategory::Asset,
        AccountType::Investment => AccountCategory::Asset,
        AccountType::Savings => AccountCategory::Asset,
        AccountType::Mortgage => AccountCategory::Liability,
        AccountType::Loan => AccountCategory::Liability,
        AccountType::CreditCard => AccountCategory::Liability,
    }
}

/// The snake_case name each account type is stored under.
pub open spec fn name_of_type(t: AccountType) -> Seq<char> {
    match t {
        AccountType::Property => "property"@,
        AccountType::Pension => "pension"@,
        AccountType::Investment => "investment"@,
        AccountType::Savings => "savings"@,
        AccountType::Mortgage => "mortgage"@,
        AccountType::Loan => "loan"@,
        AccountType::CreditCard => "credit_card"@,
    }
}

/// The account type a stored name denotes, if any.
pub open spec fn type_of_name(s: Seq<char>) -> Option<AccountType> {
    if s == "property"@ {
        Some(AccountType::Property)
    } else if s == "pension"@ {
        Some(AccountType::Pension)
    } else if s == "investment"@ {
        Some(AccountType::Investment)
    } else if s == "savings"@ {
        Some(AccountType::Savings)
    } else if s == "mortgage"@ {
        Some(AccountType::Mortgage)
    } else if s == "loan"@ {
        Some(AccountType::Loan)
    } else if s == "credit_card"@ {
        Some(AccountType::CreditCard)
    } else {
        None
    }
}

/// The name each category is stored under.
pub open spec fn name_of_category(c: AccountCategory) -> Seq<char> {
    match c {
        AccountCategory::Asset => "asset"@,
        AccountCategory::Liability => "liability"@,
    }
}

/// The category a stored name denotes, if any.
pub open spec fn category_of_name(s: Seq<char>) -> Option<AccountCategory> {
    if s == "asset"@ {
        Some(AccountCategory::Asset)
    } else if s == "liability"@ {
        Some(AccountCategory::Liability)
    } else {
        None
    }
}

impl AccountType {
    /// The snake_case storage name of this account type.
    pub fn as_str(&self) -> (r: &'static str)
        ensures
            r@ == name_of_type(*self),
    {
        match self {
            AccountType::Property => "property",
            AccountType::Pension => "pension",
            AccountType::Investment => "investment",
            AccountType::Savings => "savings",
            AccountType::Mortgage => "mortgage",
            AccountType::Loan => "loan",
            AccountType::CreditCard => "credit_card",
        }
    }

    /// Parses a storage name back to the account type; `None` for any
    /// string outside the enumerated set.
    pub fn from_str(s: &str) -> (r: Option<AccountType>)
        ensures
            r == type_of_name(s@),
    {
        let o = s.to_owned();
        if o == "property".to_owned() {
            Some(AccountType::Property)
        } else if o == "pension".to_owned() {
            Some(AccountType::Pension)
        } else if o == "investment".to_owned() {
            Some(AccountType::Investment)
        } else if o == "savings".to_owned() {
            Some(AccountType::Savings)
        } else if o == "mortgage".to_owned() {
            Some(AccountType::Mortgage)
        } else if o == "loan".to_owned() {
            Some(AccountType::Loan)
        } else if o == "credit_card".to_owned() {
            Some(AccountType::CreditCard)
        } else {
            None
        }
    }

    /// The category this account type belongs to.
    pub fn category(&self) -> (r: AccountCategory)
        ensures
            r == category_of(*self),
    {
        match self {
            AccountType::Property
            | AccountType::Pension
            | AccountType::Investment
            | AccountType::Savings => AccountCategory::Asset,
            AccountType::Mortgage | AccountType::Loan | AccountType::CreditCard => {
                AccountCategory::Liability
            },
        }
    }
}

impl AccountCategory {
    /// The storage name of this category.
    pub fn as_str(&self) -> (r: &'static str)
        ensures
            r@ == name_of_category(*self),
    {
        match self {
            AccountCategory::Asset => "asset",
            AccountCategory::Liability => "liability",
        }
    }

    /// Parses a storage name back to the category; `None` for any string
    /// outside the enumerated set.
    pub fn from_str(s: &str) -> (r: Option<AccountCategory>)
        ensures
            r == category_of_name(s@),
    {
        let o = s.to_owned();
        if o == "asset".to_owned() {
            Some(AccountCategory::Asset)
        } else if o == "liability".to_owned() {
            Some(AccountCategory::Liability)
        } else {
            None
        }
    }
}

/// Parsing a stored type name undoes writing it: every account type
/// round-trips through its storage name.
pub proof fn lemma_name_of_type_round_trip(t: AccountType)
    ensures
        type_of_name(name_of_type(t)) == Some(t),
{
    reveal_strlit("property");
    reveal_strlit("pension");
    reveal_strlit("investment");
    reveal_strlit("savings");
    reveal_strlit("mortgage");
    reveal_strlit("loan");
    reveal_strlit("credit_card");
    assert("property"@.len() == 8);
    assert("pension"@.len() == 7);
    assert("investment"@.len() == 10);
    assert("savings"@.len() == 7);
    assert("mortgage"@.len() == 8);
    assert("loan"@.len() == 4);
    assert("credit_card"@.len() == 11);
    assert("pension"@[0] == 'p' && "savings"@[0] == 's');
    assert("property"@[1] == 'r' && "mortgage"@[1] == 'o');
}

/// Parsing a stored category name undoes writing it.
pub proof fn lemma_name_of_category_round_trip(c: AccountCategory)
    ensures
        category_of_name(name_of_category(c)) == Some(c),
{
    reveal_strlit("asset");
    reveal_strlit("liability");
    assert("asset"@.len() == 5);
    assert("liability"@.len() == 9);
}

/// An account record.
pub struct Account {
    pub id: u64,
    pub name: String,
    pub account_type: AccountType,
    pub category: AccountCategory,
    pub institution: Option<String>,
    pub description: Option<String>,
    pub currency: String,
    pub is_active: bool,
    pub created_at: u64,
    pub updated_at: u64,
}

impl Account {
    /// Domain integrity of a single account: a non-empty name, and the
    /// category derived from the account type.
    pub open spec fn wf(self) -> bool {
        &&& self.name@.len() > 0
        &&& self.category == category_of(self.account_type)
    }
}

impl Clone for Account {
    fn clone(&self) -> (res: Self)
        ensures
            res == *self,
    {
        Account {
            id: self.id,
            name: self.name.clone(),
            account_type: self.account_type,
            category: self.category,
            institution: match &self.institution {
                Some(s) => Some(s.clone()),
                None => None,
            },
            description: match &self.description {
                Some(s) => Some(s.clone()),
                None => None,
            },
            currency: self.currency.clone(),
            is_active: self.is_active,
            created_at: self.created_at,
            updated_at: self.updated_at,
        }
    }
}

/// Input to account creation; the id, category, activity flag and
/// timestamps are assigned by the store.
pub struct CreateAccountInput {
    pub name: String,
    pub account_type: AccountType,
    pub institution: Option<String>,
    pub description: Option<String>,
    pub currency: Option<String>,
}

/// A partial account update: only the fields that are `Some` change; the
/// account type and category are immutable after creation.
pub struct UpdateAccountInput {
    pub name: Option<String>,
    pub institution: Option<String>,
    pub description: Option<String>,
    pub currency: Option<String>,
    pub is_active: Option<bool>,
}

/// A filter over accounts: each bound given constrains the listing.
#[derive(Clone, Copy, Debug, PartialEq, Eq, Structural)]
pub struct AccountFilter {
    pub is_active: Option<bool>,
    pub category: Option<AccountCategory>,
}

/// Whether an account satisfies a filter.
pub open spec fn matches_filter(a: Account, f: AccountFilter) -> bool {
    &&& (match f.is_active {
        Some(b) => a.is_active == b,
        None => true,
    })
    &&& (match f.category {
        Some(c) => a.category == c,
        None => true,
    })
}

} // verus!

//! Personal net-worth tracking core: accounts, dated balance snapshots,
//! milestones, the versioned schema migration sequence, and the derived
//! queries (current balance, net worth as of a date, net-worth series).

pub mod account;
pub mod balance;
pub mod date;
pub mod error;
pub mod migration;
pub mod milestone;
pub mod store;
pub mod views;

pub use account::Account;
pub use account::AccountCategory;
pub use account::AccountFilter;
pub use account::AccountType;
pub use account::CreateAccountInput;
pub use account::UpdateAccountInput;
pub use balance::BalanceEntry;
pub use balance::UpdateBalanceInput;
pub use date::Date;
pub use error::StoreError;
pub use migration::Migration;
pub use migration::Schema;
pub use migration::SchemaObject;
pub use milestone::Milestone;
pub use milestone::UpdateMilestoneInput;
pub use store::Store;
pub use views::AccountWithBalance;
pub use views::Granularity;
pub use views::NetWorthPoint;

use tally::AccountCategory;
use tally::AccountFilter;
use tally::AccountType;
use tally::CreateAccountInput;
use tally::Date;
use tally::Granularity;
use tally::Store;
use tally::StoreError;
use tally::UpdateAccountInput;
use tally::UpdateBalanceInput;
use tally::UpdateMilestoneInput;

const NOW: u64 = 1_700_000_000;

fn d(year: u32, month: u32, day: u32) -> Date {
    Date { year, month, day }
}

fn account_input(name: &str, account_type: AccountType) -> CreateAccountInput {
    CreateAccountInput {
        name: name.to_owned(),
        account_type,
        institution: None,
        description: None,
        currency: None,
    }
}

fn no_account_update() -> UpdateAccountInput {
    UpdateAccountInput {
        name: None,
        institution: None,
        description: None,
        currency: None,
        is_active: None,
    }
}

#[test]
fn create_account_derives_category_and_defaults() {
    let mut store = Store::new();
    let id = store.create_account(account_input("Cash ISA", AccountType::Savings), NOW).unwrap();
    let a = store.get_account(id).unwrap();
    assert_eq!(a.category, AccountCategory::Asset);
    assert_eq!(a.currency, "GBP");
    assert!(a.is_active);
    assert_eq!(a.created_at, NOW);
    assert_eq!(a.updated_at, NOW);

    let id2 = store.create_account(account_input("Car loan", AccountType::Loan), NOW).unwrap();
    assert_ne!(id, id2);
    let b = store.get_account(id2).unwrap();
    assert_eq!(b.category, AccountCategory::Liability);
}

#[test]
fn create_account_empty_name_rejected() {
    let mut store = Store::new();
    let r = store.create_account(account_input("", AccountType::Savings), NOW);
    assert_eq!(r, Err(StoreError::ValidationError));
    assert_eq!(store.accounts.len(), 0);
}

#[test]
fn update_account_changes_only_given_fields() {
    let mut store = Store::new();
    let id = store.create_account(account_input("Flat", AccountType::Property), NOW).unwrap();
    let mut input = no_account_update();
    input.institution = Some("Registry".to_owned());
    input.is_active = Some(false);
    store.update_account(id, input, NOW + 5).unwrap();
    let a = store.get_account(id).unwrap();
    assert_eq!(a.name, "Flat");
    assert_eq!(a.institution, Some("Registry".to_owned()));
    assert!(!a.is_active);
    assert_eq!(a.account_type, AccountType::Property);
    assert_eq!(a.category, AccountCategory::Asset);
    assert_eq!(a.created_at, NOW);
    assert_eq!(a.updated_at, NOW + 5);
}

#[test]
fn update_account_not_found_and_empty_name() {
    let mut store = Store::new();
    assert_eq!(store.update_account(7, no_account_update(), NOW), Err(StoreError::NotFoundError));
    let id = store.create_account(account_input("Flat", AccountType::Property), NOW).unwrap();
    let mut input = no_account_update();
    input.name = Some("".to_owned());
    assert_eq!(store.update_account(id, input, NOW), Err(StoreError::ValidationError));
}

#[test]
fn list_accounts_filters_by_activity_and_category() {
    let mut store = Store::new();
    let savings = store.create_account(account_input("Savings", AccountType::Savings), NOW).unwrap();
    let loan = store.create_account(account_input("Loan", AccountType::Loan), NOW).unwrap();
    let closed = store.create_account(account_input("Old", AccountType::Savings), NOW).unwrap();
    let mut deactivate = no_account_update();
    deactivate.is_active = Some(false);
    store.update_account(closed, deactivate, NOW).unwrap();

    let active = store.list_accounts(AccountFilter { is_active: Some(true), category: None });
    assert_eq!(active.len(), 2);
    assert_eq!(active[0].id, savings);
    assert_eq!(active[1].id, loan);

    let liabilities = store.list_accounts(AccountFilter {
        is_active: None,
        category: Some(AccountCategory::Liability),
    });
    assert_eq!(liabilities.len(), 1);
    assert_eq!(liabilities[0].id, loan);

    let all = store.list_accounts(AccountFilter { is_active: None, category: None });
    assert_eq!(all.len(), 3);
}

#[test]
fn record_snapshot_twice_keeps_one_row_with_second_value() {
    let mut store = Store::new();
    let id = store.create_account(account_input("ISA", AccountType::Savings), NOW).unwrap();
    let day = d(2024, 5, 1);
    let first = store.record_snapshot(id, day, 1000, None, NOW).unwrap();
    let second = store
        .record_snapshot(id, day, 1234, Some("corrected".to_owned()), NOW + 1)
        .unwrap();
    assert_eq!(first, second);
    assert_eq!(store.balances.len(), 1);
    assert_eq!(store.balances[0].balance, 1234);
    assert_eq!(store.balances[0].notes, Some("corrected".to_owned()));
    assert_eq!(store.balances[0].created_at, NOW);
}

#[test]
fn record_snapshot_validation_and_not_found() {
    let mut store = Store::new();
    let id = store.create_account(account_input("ISA", AccountType::Savings), NOW).unwrap();
    assert_eq!(
        store.record_snapshot(id, d(2023, 2, 29), 100, None, NOW),
        Err(StoreError::ValidationError)
    );
    assert_eq!(
        store.record_snapshot(id + 1, d(2024, 2, 29), 100, None, NOW),
        Err(StoreError::NotFoundError)
    );
    assert_eq!(store.balances.len(), 0);
}

#[test]
fn insert_snapshot_conflicts_on_existing_pair() {
    let mut store = Store::new();
    let id = store.create_account(account_input("ISA", AccountType::Savings), NOW).unwrap();
    let day = d(2024, 5, 1);
    store.insert_snapshot(id, day, 1000, None, NOW).unwrap();
    assert_eq!(
        store.insert_snapshot(id, day, 2000, None, NOW),
        Err(StoreError::ConflictError)
    );
    assert_eq!(store.balances.len(), 1);
    assert_eq!(store.balances[0].balance, 1000);
    store.insert_snapshot(id, d(2024, 5, 2), 2000, None, NOW).unwrap();
    assert_eq!(store.balances.len(), 2);
}

#[test]
fn update_balance_corrects_in_place() {
    let mut store = Store::new();
    let id = store.create_account(account_input("ISA", AccountType::Savings), NOW).unwrap();
    let eid = store.record_snapshot(id, d(2024, 5, 1), 1000, None, NOW).unwrap();
    store
        .update_balance(eid, UpdateBalanceInput { balance: Some(900), notes: None })
        .unwrap();
    assert_eq!(store.balances[0].balance, 900);
    assert_eq!(store.balances[0].notes, None);
    store
        .update_balance(eid, UpdateBalanceInput { balance: None, notes: Some("note".to_owned()) })
        .unwrap();
    assert_eq!(store.balances[0].balance, 900);
    assert_eq!(store.balances[0].notes, Some("note".to_owned()));
    assert_eq!(store.balances[0].date, d(2024, 5, 1));
    assert_eq!(
        store.update_balance(eid + 100, UpdateBalanceInput { balance: None, notes: None }),
        Err(StoreError::NotFoundError)
    );
}

#[test]
fn delete_balance_removes_only_that_entry() {
    let mut store = Store::new();
    let id = store.create_account(account_input("ISA", AccountType::Savings), NOW).unwrap();
    let e1 = store.record_snapshot(id, d(2024, 1, 1), 1, None, NOW).unwrap();
    let e2 = store.record_snapshot(id, d(2024, 2, 1), 2, None, NOW).unwrap();
    store.delete_balance(e1).unwrap();
    assert_eq!(store.balances.len(), 1);
    assert_eq!(store.balances[0].id, e2);
    assert_eq!(store.delete_balance(e1), Err(StoreError::NotFoundError));
}

#[test]
fn delete_account_cascades_and_unlinks() {
    let mut store = Store::new();
    let a = store.create_account(account_input("A", AccountType::Savings), NOW).unwrap();
    let b = store.create_account(account_input("B", AccountType::Loan), NOW).unwrap();
    store.record_snapshot(a, d(2024, 1, 1), 10, None, NOW).unwrap();
    store.record_snapshot(a, d(2024, 2, 1), 20, None, NOW).unwrap();
    store.record_snapshot(b, d(2024, 1, 1), 30, None, NOW).unwrap();
    let ma = store.create_milestone(d(2024, 3, 1), "bought flat".to_owned(), Some(a), NOW).unwrap();
    let mb = store.create_milestone(d(2024, 3, 2), "loan drawn".to_owned(), Some(b), NOW).unwrap();
    let mf = store.create_milestone(d(2024, 3, 3), "free note".to_owned(), None, NOW).unwrap();

    store.delete_account(a).unwrap();

    assert!(store.get_account(a).is_none());
    assert!(store.get_account(b).is_some());
    assert_eq!(store.balances.len(), 1);
    assert_eq!(store.balances[0].account_id, b);
    assert_eq!(store.balances[0].balance, 30);
    assert_eq!(store.milestones.len(), 3);
    assert_eq!(store.milestones[0].id, ma);
    assert_eq!(store.milestones[0].account_id, None);
    assert_eq!(store.milestones[0].label, "bought flat");
    assert_eq!(store.milestones[1].id, mb);
    assert_eq!(store.milestones[1].account_id, Some(b));
    assert_eq!(store.milestones[2].id, mf);
    assert_eq!(store.milestones[2].account_id, None);

    assert_eq!(store.delete_account(a), Err(StoreError::NotFoundError));
}

#[test]
fn latest_before_handles_out_of_order_inserts() {
    let mut store = Store::new();
    let id = store.create_account(account_input("ISA", AccountType::Savings), NOW).unwrap();
    store.record_snapshot(id, d(2024, 3, 1), 1200, None, NOW).unwrap();
    store.record_snapshot(id, d(2024, 1, 1), 1000, None, NOW).unwrap();
    store.record_snapshot(id, d(2024, 2, 1), 1100, None, NOW).unwrap();

    let e = store.latest_before(id, d(2024, 2, 15)).unwrap();
    assert_eq!(e.date, d(2024, 2, 1));
    assert_eq!(e.balance, 1100);

    let latest = store.latest_before(id, d(2025, 1, 1)).unwrap();
    assert_eq!(latest.balance, 1200);

    assert!(store.latest_before(id, d(2023, 12, 31)).is_none());
    assert!(store.latest_before(id + 1, d(2024, 6, 1)).is_none());

    let current = store.current_balance(id, d(2024, 1, 15)).unwrap();
    assert_eq!(current.balance, 1000);
}

#[test]
fn list_for_account_is_sorted_and_ranged() {
    let mut store = Store::new();
    let a = store.create_account(account_input("A", AccountType::Savings), NOW).unwrap();
    let b = store.create_account(account_input("B", AccountType::Savings), NOW).unwrap();
    store.record_snapshot(a, d(2024, 3, 1), 3, None, NOW).unwrap();
    store.record_snapshot(a, d(2024, 1, 1), 1, None, NOW).unwrap();
    store.record_snapshot(a, d(2024, 2, 1), 2, None, NOW).unwrap();
    store.record_snapshot(b, d(2024, 1, 15), 99, None, NOW).unwrap();

    let all = store.list_for_account(a, None, None);
    assert_eq!(all.len(), 3);
    assert_eq!(all[0].balance, 1);
    assert_eq!(all[1].balance, 2);
    assert_eq!(all[2].balance, 3);

    let ranged = store.list_for_account(a, Some(d(2024, 1, 15)), Some(d(2024, 2, 15)));
    assert_eq!(ranged.len(), 1);
    assert_eq!(ranged[0].balance, 2);
}

#[test]
fn net_worth_subtracts_liabilities() {
    let mut store = Store::new();
    let a = store.create_account(account_input("A", AccountType::Savings), NOW).unwrap();
    let b = store.create_account(account_input("B", AccountType::Loan), NOW).unwrap();
    store.record_snapshot(a, d(2024, 1, 1), 1000, None, NOW).unwrap();
    store.record_snapshot(a, d(2024, 3, 1), 1200, None, NOW).unwrap();
    store.record_snapshot(b, d(2024, 2, 1), 500, None, NOW).unwrap();

    let (worth, excluded) = store.net_worth_as_of(d(2024, 2, 15));
    assert_eq!(worth, 500);
    assert!(excluded.is_empty());

    // Before B's entry exists, B is excluded from the sum, not zeroed.
    let (early, excluded_early) = store.net_worth_as_of(d(2024, 1, 15));
    assert_eq!(early, 1000);
    assert_eq!(excluded_early, vec![b]);

    let (late, _) = store.net_worth_as_of(d(2024, 3, 15));
    assert_eq!(late, 700);
}

#[test]
fn net_worth_excludes_inactive_accounts() {
    let mut store = Store::new();
    let a = store.create_account(account_input("A", AccountType::Savings), NOW).unwrap();
    let b = store.create_account(account_input("B", AccountType::Savings), NOW).unwrap();
    store.record_snapshot(a, d(2024, 1, 1), 1000, None, NOW).unwrap();
    store.record_snapshot(b, d(2024, 1, 1), 70, None, NOW).unwrap();
    let mut deactivate = no_account_update();
    deactivate.is_active = Some(false);
    store.update_account(b, deactivate, NOW).unwrap();

    let (worth, excluded) = store.net_worth_as_of(d(2024, 6, 1));
    assert_eq!(worth, 1000);
    // An inactive account is not "missing data": it is not reported.
    assert!(excluded.is_empty());
}

#[test]
fn net_worth_series_one_point_per_distinct_date() {
    let mut store = Store::new();
    let a = store.create_account(account_input("A", AccountType::Savings), NOW).unwrap();
    let b = store.create_account(account_input("B", AccountType::Loan), NOW).unwrap();
    store.record_snapshot(a, d(2024, 3, 1), 1200, None, NOW).unwrap();
    store.record_snapshot(a, d(2024, 1, 1), 1000, None, NOW).unwrap();
    store.record_snapshot(b, d(2024, 1, 1), 400, None, NOW).unwrap();
    store.record_snapshot(b, d(2024, 2, 1), 500, None, NOW).unwrap();

    let series = store.net_worth_series(None, None, Granularity::SnapshotDates);
    assert_eq!(series.len(), 3);
    assert_eq!(series[0].date, d(2024, 1, 1));
    assert_eq!(series[0].worth, 600);
    assert_eq!(series[1].date, d(2024, 2, 1));
    assert_eq!(series[1].worth, 500);
    assert_eq!(series[2].date, d(2024, 3, 1));
    assert_eq!(series[2].worth, 700);

    let clipped = store.net_worth_series(
        Some(d(2024, 1, 15)),
        Some(d(2024, 2, 15)),
        Granularity::SnapshotDates,
    );
    assert_eq!(clipped.len(), 1);
    assert_eq!(clipped[0].date, d(2024, 2, 1));
}

#[test]
fn milestones_create_update_delete_list() {
    let mut store = Store::new();
    let a = store.create_account(account_input("A", AccountType::Savings), NOW).unwrap();

    assert_eq!(
        store.create_milestone(d(2024, 1, 1), "".to_owned(), None, NOW),
        Err(StoreError::ValidationError)
    );
    assert_eq!(
        store.create_milestone(d(2024, 13, 1), "label".to_owned(), None, NOW),
        Err(StoreError::ValidationError)
    );
    assert_eq!(
        store.create_milestone(d(2024, 1, 1), "label".to_owned(), Some(a + 1), NOW),
        Err(StoreError::NotFoundError)
    );

    let m1 = store.create_milestone(d(2024, 1, 1), "start".to_owned(), Some(a), NOW).unwrap();
    let m2 = store.create_milestone(d(2024, 6, 1), "mid".to_owned(), None, NOW).unwrap();

    store
        .update_milestone(
            m2,
            UpdateMilestoneInput {
                date: Some(d(2024, 7, 1)),
                label: Some("midyear".to_owned()),
                account_id: Some(Some(a)),
            },
        )
        .unwrap();
    assert_eq!(store.milestones[1].label, "midyear");
    assert_eq!(store.milestones[1].date, d(2024, 7, 1));
    assert_eq!(store.milestones[1].account_id, Some(a));

    assert_eq!(
        store.update_milestone(
            m2,
            UpdateMilestoneInput { date: None, label: Some("".to_owned()), account_id: None }
        ),
        Err(StoreError::ValidationError)
    );
    assert_eq!(
        store.update_milestone(
            m2 + 50,
            UpdateMilestoneInput { date: None, label: None, account_id: None }
        ),
        Err(StoreError::NotFoundError)
    );

    let listed = store.list_milestones(Some(d(2024, 2, 1)), None);
    assert_eq!(listed.len(), 1);
    assert_eq!(listed[0].id, m2);

    store.delete_milestone(m1).unwrap();
    assert_eq!(store.milestones.len(), 1);
    assert_eq!(store.milestones[0].id, m2);
    assert_eq!(store.delete_milestone(m1), Err(StoreError::NotFoundError));
}

#[test]
fn accounts_with_balances_distinguishes_missing_data() {
    let mut store = Store::new();
    let a = store.create_account(account_input("A", AccountType::Savings), NOW).unwrap();
    let b = store.create_account(account_input("B", AccountType::Loan), NOW).unwrap();
    store.record_snapshot(a, d(2024, 1, 1), 800, None, NOW).unwrap();
    store.record_snapshot(a, d(2024, 2, 1), 900, None, NOW).unwrap();

    let rows = store.accounts_with_balances(d(2024, 6, 1));
    assert_eq!(rows.len(), 2);
    assert_eq!(rows[0].account.id, a);
    assert_eq!(rows[0].current_balance, 900);
    assert_eq!(rows[0].balance_date, Some(d(2024, 2, 1)));
    assert_eq!(rows[1].account.id, b);
    assert_eq!(rows[1].current_balance, 0);
    assert_eq!(rows[1].balance_date, None);
}

#[test]
fn net_worth_series_month_ends() {
    let mut store = Store::new();
    let a = store.create_account(account_input("A", AccountType::Savings), NOW).unwrap();
    store.record_snapshot(a, d(2024, 1, 5), 100, None, NOW).unwrap();
    store.record_snapshot(a, d(2024, 1, 20), 150, None, NOW).unwrap();
    store.record_snapshot(a, d(2024, 2, 10), 200, None, NOW).unwrap();

    let series = store.net_worth_series(None, None, Granularity::MonthEnds);
    assert_eq!(series.len(), 2);
    assert_eq!(series[0].date, d(2024, 1, 31));
    assert_eq!(series[0].worth, 150);
    assert_eq!(series[1].date, d(2024, 2, 29));
    assert_eq!(series[1].worth, 200);
}

use tally::Schema;
use tally::SchemaObject;
use tally::migration::get_migrations;

#[test]
fn migrations_are_versioned_in_order() {
    let ms = get_migrations();
    assert_eq!(ms.len(), 3);
    assert_eq!(ms[0].version, 1);
    assert_eq!(ms[0].description, "create_accounts_table");
    assert_eq!(ms[1].version, 2);
    assert_eq!(ms[1].description, "create_balance_entries_table");
    assert_eq!(ms[2].version, 3);
    assert_eq!(ms[2].description, "create_milestones_table");
}

#[test]
fn migrate_cold_start_builds_full_schema() {
    let mut schema = Schema::new();
    assert_eq!(schema.version, 0);
    schema.migrate(&get_migrations());
    assert_eq!(schema.version, 3);
    assert_eq!(
        schema.objects,
        vec![
            SchemaObject::AccountsTable,
            SchemaObject::BalanceEntriesTable,
            SchemaObject::BalanceAccountDateIndex,
            SchemaObject::BalanceDateIndex,
            SchemaObject::MilestonesTable,
            SchemaObject::MilestoneDateIndex,
        ]
    );
}

#[test]
fn migrate_twice_is_identical() {
    let mut schema = Schema::new();
    schema.migrate(&get_migrations());
    let version_once = schema.version;
    let objects_once = schema.objects.clone();
    schema.migrate(&get_migrations());
    assert_eq!(schema.version, version_once);
    assert_eq!(schema.objects, objects_once);
}

#[test]
fn migrate_from_middle_version_applies_only_later_steps() {
    let ms = get_migrations();
    let mut schema = Schema::new();
    // A store that had already run the first step.
    schema.apply_step(&ms[0]);
    assert_eq!(schema.version, 1);
    assert_eq!(schema.objects, vec![SchemaObject::AccountsTable]);
    schema.migrate(&ms);
    assert_eq!(schema.version, 3);
    assert_eq!(schema.objects.len(), 6);
    schema.migrate(&ms);
    assert_eq!(schema.objects.len(), 6);
}

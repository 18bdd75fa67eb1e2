//! The schema migration engine: an ordered, versioned list of additive
//! schema-evolution steps, applied exactly once each, in ascending order,
//! to bring a store from its recorded version to the latest shape.

use vstd::prelude::*;

verus! {

/// The tables and indexes the migration steps create.
#[derive(Clone, Copy, Debug, PartialEq, Eq, Structural)]
pub enum SchemaObject {
    AccountsTable,
    BalanceEntriesTable,
    BalanceAccountDateIndex,
    BalanceDateIndex,
    MilestonesTable,
    MilestoneDateIndex,
}

/// One versioned, additive schema-evolution step: it creates the listed
/// objects if they are not present yet (and nothing else), then records
/// its version.
pub struct Migration {
    pub version: u64,
    pub description: &'static str,
    pub objects: Vec<SchemaObject>,
}

/// The mathematical shape of a schema: its recorded version and the
/// objects present, in order of creation.
#[verifier::ext_equal]
pub ghost struct SchemaView {
    pub version: u64,
    pub objects: Seq<SchemaObject>,
}

/// The schema state of a store: the recorded migration version and the
/// objects present.
pub struct Schema {
    pub version: u64,
    pub objects: Vec<SchemaObject>,
}

impl View for Schema {
    type V = SchemaView;

    open spec fn view(&self) -> SchemaView {
        SchemaView { version: self.version, objects: self.objects@ }
    }
}

/// No object exists twice.
pub open spec fn unique_objects(objs: Seq<SchemaObject>) -> bool {
    forall|i: int, j: int| 0 <= i < j < objs.len() ==> objs[i] != objs[j]
}

/// Creates one object if it is not present yet.
pub open spec fn add_object(objs: Seq<SchemaObject>, o: SchemaObject) -> Seq<SchemaObject> {
    if objs.contains(o) {
        objs
    } else {
        objs.push(o)
    }
}

/// Creates each of `new`, in order, skipping those already present.
pub open spec fn add_objects(objs: Seq<SchemaObject>, new: Seq<SchemaObject>) -> Seq<SchemaObject>
    decreases new.len(),
{
    if new.len() == 0 {
        objs
    } else {
        add_object(add_objects(objs, new.drop_last()), new.last())
    }
}

/// The effect of one step on a schema: its objects are created and its
/// version is recorded.
pub open spec fn spec_apply_step(s: SchemaView, m: Migration) -> SchemaView {
    SchemaView { version: m.version, objects: add_objects(s.objects, m.objects@) }
}

/// The effect of a migration run started at version `s.version`: every
/// step with a version above it is applied, in order; the rest are
/// skipped.
pub open spec fn spec_migrate(s: SchemaView, ms: Seq<Migration>) -> SchemaView
    decreases ms.len(),
{
    if ms.len() == 0 {
        s
    } else {
        let prev = spec_migrate(s, ms.drop_last());
        if ms.last().version > s.version {
            spec_apply_step(prev, ms.last())
        } else {
            prev
        }
    }
}

/// Steps are indexed 1..N, in ascending order.
pub open spec fn versions_in_order(ms: Seq<Migration>) -> bool {
    forall|i: int| 0 <= i < ms.len() ==> #[trigger] ms[i].version == i + 1
}

/// Creating objects never duplicates one.
pub proof fn lemma_add_objects_unique(objs: Seq<SchemaObject>, new: Seq<SchemaObject>)
    requires
        unique_objects(objs),
    ensures
        unique_objects(add_objects(objs, new)),
    decreases new.len(),
{
    if new.len() > 0 {
        lemma_add_objects_unique(objs, new.drop_last());
        let rest = add_objects(objs, new.drop_last());
        let o = new.last();
        if !rest.contains(o) {
            assert forall|i: int, j: int|
                0 <= i < j < rest.push(o).len() implies rest.push(o)[i] != rest.push(o)[j] by {
                if j == rest.len() {
                    assert(rest.push(o)[i] == rest[i]);
                    assert(rest.contains(rest[i]));
                }
            }
        }
    }
}

/// Creating objects never removes one: the old objects stay a prefix.
pub proof fn lemma_add_objects_prefix(objs: Seq<SchemaObject>, new: Seq<SchemaObject>)
    ensures
        objs.is_prefix_of(add_objects(objs, new)),
    decreases new.len(),
{
    if new.len() > 0 {
        lemma_add_objects_prefix(objs, new.drop_last());
        let rest = add_objects(objs, new.drop_last());
        assert(rest.is_prefix_of(add_object(rest, new.last())));
    }
}

/// A run whose every step is at or below the recorded version changes
/// nothing.
pub proof fn lemma_migrate_noop(s: SchemaView, ms: Seq<Migration>)
    requires
        forall|i: int| 0 <= i < ms.len() ==> #[trigger] ms[i].version <= s.version,
    ensures
        spec_migrate(s, ms) == s,
    decreases ms.len(),
{
    if ms.len() > 0 {
        assert(ms[ms.len() - 1].version <= s.version);
        lemma_migrate_noop(s, ms.drop_last());
    }
}

/// A run started below the last step's version ends recorded at it.
pub proof fn lemma_migrate_version(s: SchemaView, ms: Seq<Migration>)
    requires
        versions_in_order(ms),
        s.version < ms.len(),
    ensures
        spec_migrate(s, ms).version == ms.len(),
{
    assert(ms[ms.len() - 1].version == ms.len());
}

/// Migration is idempotent: a second run on an already-migrated schema —
/// a restart after a cold start — leaves it identical, with no duplicate
/// objects and nothing lost.
pub proof fn lemma_migrate_idempotent(s: SchemaView, ms: Seq<Migration>)
    requires
        versions_in_order(ms),
    ensures
        spec_migrate(spec_migrate(s, ms), ms) == spec_migrate(s, ms),
{
    let s1 = spec_migrate(s, ms);
    if s.version >= ms.len() {
        assert forall|i: int| 0 <= i < ms.len() implies #[trigger] ms[i].version <= s.version by {}
        lemma_migrate_noop(s, ms);
        lemma_migrate_noop(s, ms);
    } else {
        lemma_migrate_version(s, ms);
        assert forall|i: int| 0 <= i < ms.len() implies #[trigger] ms[i].version <= s1.version by {}
        lemma_migrate_noop(s1, ms);
    }
}

/// A migration run keeps every object present before it and never
/// duplicates one.
pub proof fn lemma_migrate_preserves(s: SchemaView, ms: Seq<Migration>)
    requires
        unique_objects(s.objects),
    ensures
        unique_objects(spec_migrate(s, ms).objects),
        s.objects.is_prefix_of(spec_migrate(s, ms).objects),
    decreases ms.len(),
{
    if ms.len() > 0 {
        lemma_migrate_preserves(s, ms.drop_last());
        let prev = spec_migrate(s, ms.drop_last());
        if ms.last().version > s.version {
            lemma_add_objects_unique(prev.objects, ms.last().objects@);
            lemma_add_objects_prefix(prev.objects, ms.last().objects@);
        }
    }
}

/// True when `objs` holds `o`.
fn has_object(objs: &Vec<SchemaObject>, o: SchemaObject) -> (r: bool)
    ensures
        r == objs@.contains(o),
{
    let n = objs.len();
    let mut i: usize = 0;
    while i < n
        invariant
            0 <= i <= n,
            n == objs@.len(),
            forall|k: int| 0 <= k < i ==> objs@[k] != o,
        decreases n - i,
    {
        if objs[i] == o {
            return true;
        }
        i = i + 1;
    }
    false
}

impl Schema {
    /// An uninitialized store: version 0, no objects.
    pub fn new() -> (s: Schema)
        ensures
            s.version == 0,
            s.objects@ == Seq::<SchemaObject>::empty(),
    {
        Schema { version: 0, objects: Vec::new() }
    }

    /// No object exists twice in this schema.
    pub open spec fn wf(self) -> bool {
        unique_objects(self.objects@)
    }

    /// Applies one step: creates the objects it lists that are not present
    /// yet, then records its version.
    pub fn apply_step(&mut self, m: &Migration)
        ensures
            final(self)@ == spec_apply_step(old(self)@, *m),
    {
        let n = m.objects.len();
        let mut j: usize = 0;
        while j < n
            invariant
                0 <= j <= n,
                n == m.objects@.len(),
                self.version == old(self).version,
                self.objects@ == add_objects(old(self).objects@, m.objects@.take(j as int)),
            decreases n - j,
        {
            let ghost before = self.objects@;
            let o = m.objects[j];
            if !has_object(&self.objects, o) {
                self.objects.push(o);
            }
            proof {
                let t = m.objects@.take(j + 1 as int);
                assert(t.drop_last() =~= m.objects@.take(j as int));
                assert(t.last() == m.objects@[j as int]);
                assert(self.objects@ == add_object(before, m.objects@[j as int]));
            }
            j = j + 1;
        }
        proof {
            assert(m.objects@.take(n as int) =~= m.objects@);
        }
        self.version = m.version;
        proof {
            assert(self@ =~= spec_apply_step(old(self)@, *m));
        }
    }

    /// Runs the engine: applies every step whose version is above the
    /// recorded one, strictly in ascending list order, each exactly once,
    /// recording the new version after each step.
    pub fn migrate(&mut self, migrations: &Vec<Migration>)
        ensures
            final(self)@ == spec_migrate(old(self)@, migrations@),
    {
        let v0 = self.version;
        let n = migrations.len();
        let mut i: usize = 0;
        while i < n
            invariant
                0 <= i <= n,
                n == migrations@.len(),
                v0 == old(self).version,
                self@ == spec_migrate(old(self)@, migrations@.take(i as int)),
            decreases n - i,
        {
            let ghost before = self@;
            if migrations[i].version > v0 {
                self.apply_step(&migrations[i]);
            }
            proof {
                let t = migrations@.take(i + 1 as int);
                assert(t.drop_last() =~= migrations@.take(i as int));
                assert(t.last() == migrations@[i as int]);
            }
            i = i + 1;
        }
        proof {
            assert(migrations@.take(n as int) =~= migrations@);
        }
    }
}

/// The migration sequence of this store: three additive steps, indexed
/// 1 to 3, creating the accounts table, the balance-entries table with its
/// two range-query indexes, and the milestones table with its date index.
pub fn get_migrations() -> (ms: Vec<Migration>)
    ensures
        ms@.len() == 3,
        versions_in_order(ms@),
        ms@[0].version == 1,
        ms@[0].description@ == "create_accounts_table"@,
        ms@[0].objects@ == seq![SchemaObject::AccountsTable],
        ms@[1].version == 2,
        ms@[1].description@ == "create_balance_entries_table"@,
        ms@[1].objects@ == seq![
            SchemaObject::BalanceEntriesTable,
            SchemaObject::BalanceAccountDateIndex,
            SchemaObject::BalanceDateIndex,
        ],
        ms@[2].version == 3,
        ms@[2].description@ == "create_milestones_table"@,
        ms@[2].objects@ == seq![SchemaObject::MilestonesTable, SchemaObject::MilestoneDateIndex],
{
    let mut objs1: Vec<SchemaObject> = Vec::new();
    objs1.push(SchemaObject::AccountsTable);
    let m1 = Migration { version: 1, description: "create_accounts_table", objects: objs1 };

    let mut objs2: Vec<SchemaObject> = Vec::new();
    objs2.push(SchemaObject::BalanceEntriesTable);
    objs2.push(SchemaObject::BalanceAccountDateIndex);
    objs2.push(SchemaObject::BalanceDateIndex);
    let m2 = Migration { version: 2, description: "create_balance_entries_table", objects: objs2 };

    let mut objs3: Vec<SchemaObject> = Vec::new();
    objs3.push(SchemaObject::MilestonesTable);
    objs3.push(SchemaObject::MilestoneDateIndex);
    let m3 = Migration { version: 3, description: "create_milestones_table", objects: objs3 };

    proof {
        assert(m1.objects@ =~= seq![SchemaObject::AccountsTable]);
        assert(m2.objects@ =~= seq![
            SchemaObject::BalanceEntriesTable,
            SchemaObject::BalanceAccountDateIndex,
            SchemaObject::BalanceDateIndex,
        ]);
        assert(m3.objects@ =~= seq![SchemaObject::MilestonesTable, SchemaObject::MilestoneDateIndex]);
    }

    let mut ms: Vec<Migration> = Vec::new();
    ms.push(m1);
    ms.push(m2);
    ms.push(m3);
    ms
}

} // verus!

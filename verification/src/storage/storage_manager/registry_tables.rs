//! The tables of a registry, and what the tasks of the registry do to them. A row is told apart by
//! its id. A statement that fails changes nothing, and one that breaks a rule of the tables fails.
use crate::storage::storage_manager::registry::{
    directory, AnswerModel, Bottle, GoalModel, Phase, ProductModel, TaskModel, Turn,
    DEFAULT_BUCKET,
};
use vstd::prelude::*;

verus! {

/// A row of the table of buckets.
pub struct BucketRow {
    pub shelf_id: i64,
    pub name: Seq<char>,
    pub persisted: bool,
    pub quota: Option<i64>,
    pub expires: Option<i64>,
}

/// A row of the table of bottles.
pub struct BottleRow {
    pub bucket_id: i64,
    pub identifier: Seq<char>,
}

/// A row of the table of databases.
pub struct DatabaseRow {
    pub bottle_id: i64,
    pub name: Seq<char>,
}

/// A row of the table of directories.
pub struct DirectoryRow {
    pub database_id: i64,
    pub path: Seq<char>,
}

/// The five tables, each by id. A shelf is a row with nothing but its origin.
pub struct Tables {
    pub shelves: Map<i64, Seq<char>>,
    pub buckets: Map<i64, BucketRow>,
    pub bottles: Map<i64, BottleRow>,
    pub databases: Map<i64, DatabaseRow>,
    pub directories: Map<i64, DirectoryRow>,
}

impl Tables {
    /// Tables as they are made.
    pub open spec fn empty() -> Tables {
        Tables {
            shelves: Map::empty(),
            buckets: Map::empty(),
            bottles: Map::empty(),
            databases: Map::empty(),
            directories: Map::empty(),
        }
    }

    /// Whether a shelf is that of an origin.
    pub open spec fn is_shelf(self, id: i64, origin: Seq<char>) -> bool {
        self.shelves.contains_key(id) && self.shelves[id] == origin
    }

    /// Whether a bucket is the one on a shelf that has a name.
    pub open spec fn is_bucket(self, id: i64, shelf_id: i64, name: Seq<char>) -> bool {
        self.buckets.contains_key(id) && self.buckets[id].shelf_id == shelf_id
            && self.buckets[id].name == name
    }

    /// Whether a bottle is the one in a bucket that has an identifier.
    pub open spec fn is_bottle(self, id: i64, bucket_id: i64, identifier: Seq<char>) -> bool {
        self.bottles.contains_key(id) && self.bottles[id].bucket_id == bucket_id
            && self.bottles[id].identifier == identifier
    }

    /// Whether a database is the one in a bottle that has a name.
    pub open spec fn is_database(self, id: i64, bottle_id: i64, name: Seq<char>) -> bool {
        self.databases.contains_key(id) && self.databases[id].bottle_id == bottle_id
            && self.databases[id].name == name
    }

    /// Whether a directory is that of a database.
    pub open spec fn is_directory(self, id: i64, database_id: i64) -> bool {
        self.directories.contains_key(id) && self.directories[id].database_id == database_id
    }

    /// Whether no bucket on a shelf has a name.
    pub open spec fn lacks_bucket(self, shelf_id: i64, name: Seq<char>) -> bool {
        forall|id: i64| !self.is_bucket(id, shelf_id, name)
    }

    /// Whether no bottle in a bucket has an identifier.
    pub open spec fn lacks_bottle(self, bucket_id: i64, identifier: Seq<char>) -> bool {
        forall|id: i64| !self.is_bottle(id, bucket_id, identifier)
    }

    /// The rules of the tables: a shelf is the only one of its origin, a bucket the only one on its
    /// shelf that has its name, a bottle the only one in its bucket that has its identifier, a
    /// database the only one in its bottle that has its name, a directory the only one of its
    /// database; and each belongs to something that is there.
    pub open spec fn valid(self) -> bool {
        &&& forall|a: i64, b: i64, origin: Seq<char>| #[trigger]
            self.is_shelf(a, origin) && #[trigger] self.is_shelf(b, origin) ==> a == b
        &&& forall|a: i64, b: i64, shelf_id: i64, name: Seq<char>| #[trigger]
            self.is_bucket(a, shelf_id, name) && #[trigger] self.is_bucket(b, shelf_id, name) ==> a
                == b
        &&& forall|a: i64, b: i64, bucket_id: i64, identifier: Seq<char>| #[trigger]
            self.is_bottle(a, bucket_id, identifier) && #[trigger] self.is_bottle(
                b,
                bucket_id,
                identifier,
            ) ==> a == b
        &&& forall|a: i64, b: i64, bottle_id: i64, name: Seq<char>| #[trigger]
            self.is_database(a, bottle_id, name) && #[trigger] self.is_database(
                b,
                bottle_id,
                name,
            ) ==> a == b
        &&& forall|a: i64, b: i64, database_id: i64| #[trigger]
            self.is_directory(a, database_id) && #[trigger] self.is_directory(b, database_id) ==> a
                == b
        &&& forall|id: i64| #[trigger]
            self.buckets.contains_key(id) ==> self.shelves.contains_key(self.buckets[id].shelf_id)
        &&& forall|id: i64| #[trigger]
            self.bottles.contains_key(id) ==> self.buckets.contains_key(self.bottles[id].bucket_id)
        &&& forall|id: i64| #[trigger]
            self.databases.contains_key(id) ==> self.bottles.contains_key(
                self.databases[id].bottle_id,
            )
        &&& forall|id: i64| #[trigger]
            self.directories.contains_key(id) ==> self.databases.contains_key(
                self.directories[id].database_id,
            )
    }

    /// Whether a bucket is the one of an origin that has a name.
    pub open spec fn has_bucket(self, id: i64, origin: Seq<char>, bucket: Seq<char>) -> bool {
        exists|shelf_id: i64| #[trigger]
            self.is_shelf(shelf_id, origin) && self.is_bucket(id, shelf_id, bucket)
    }

    /// Whether a bottle is the one for IndexedDB in a bucket of an origin.
    pub open spec fn has_idb_bottle(self, id: i64, origin: Seq<char>, bucket: Seq<char>) -> bool {
        exists|bucket_id: i64| #[trigger]
            self.has_bucket(bucket_id, origin, bucket) && self.is_bottle(id, bucket_id, "idb"@)
    }

    /// Whether a database is the one with a name in a bucket of an origin.
    pub open spec fn has_database(
        self,
        id: i64,
        origin: Seq<char>,
        bucket: Seq<char>,
        db: Seq<char>,
    ) -> bool {
        exists|bottle_id: i64| #[trigger]
            self.has_idb_bottle(bottle_id, origin, bucket) && self.is_database(id, bottle_id, db)
    }

    /// Whether a path is noted for a database.
    pub open spec fn notes(
        self,
        origin: Seq<char>,
        bucket: Seq<char>,
        db: Seq<char>,
        path: Seq<char>,
    ) -> bool {
        exists|database_id: i64, id: i64| #[trigger]
            self.has_database(database_id, origin, bucket, db) && #[trigger] self.is_directory(
                id,
                database_id,
            ) && self.directories[id].path == path
    }
}

/// Whether an id is one that a new row can get. The first row of a table gets the first id.
pub open spec fn is_fresh<V>(table: Map<i64, V>, id: i64) -> bool {
    !table.contains_key(id) && (table == Map::<i64, V>::empty() ==> id == 1)
}

/// The row that a task adds to the table of buckets.
pub open spec fn bucket_row(task: TaskModel, shelf_id: i64) -> BucketRow {
    if task.phase is AddDefaultBucket {
        BucketRow {
            shelf_id,
            name: DEFAULT_BUCKET@,
            persisted: false,
            quota: None,
            expires: None,
        }
    } else {
        BucketRow {
            shelf_id,
            name: task.bucket(),
            persisted: task.persisted(),
            quota: task.quota(),
            expires: task.expires(),
        }
    }
}

/// The row that a task adds to the table of bottles.
pub open spec fn bottle_row(task: TaskModel) -> BottleRow {
    match task.phase {
        Phase::FillDefaultBucket { bucket_id, bottle, .. } => BottleRow {
            bucket_id,
            identifier: bottle.name(),
        },
        Phase::FillBucket { bucket_id, bottle } => BottleRow {
            bucket_id,
            identifier: bottle.name(),
        },
        Phase::AddIdbBottle { bucket_id } => BottleRow { bucket_id, identifier: "idb"@ },
        _ => BottleRow { bucket_id: 0, identifier: Seq::empty() },
    }
}

/// Whether a task can add the row of its phase under an id.
pub open spec fn can_add(task: TaskModel, tables: Tables, id: i64) -> bool {
    match task.phase {
        Phase::AddShelf => {
            &&& is_fresh(tables.shelves, id)
            &&& forall|other: i64| !tables.is_shelf(other, task.origin())
        },
        Phase::AddDefaultBucket { shelf_id } | Phase::AddBucket { shelf_id } => {
            &&& is_fresh(tables.buckets, id)
            &&& tables.shelves.contains_key(shelf_id)
            &&& tables.lacks_bucket(shelf_id, bucket_row(task, shelf_id).name)
        },
        Phase::FillDefaultBucket { .. } | Phase::FillBucket { .. } | Phase::AddIdbBottle { .. } => {
            let row = bottle_row(task);
            &&& is_fresh(tables.bottles, id)
            &&& tables.buckets.contains_key(row.bucket_id)
            &&& tables.lacks_bottle(row.bucket_id, row.identifier)
        },
        Phase::AddDatabase { bottle_id } => {
            &&& is_fresh(tables.databases, id)
            &&& tables.bottles.contains_key(bottle_id)
            &&& forall|other: i64| !tables.is_database(other, bottle_id, task.db())
        },
        Phase::AddDirectory { database_id } => {
            &&& is_fresh(tables.directories, id)
            &&& tables.databases.contains_key(database_id)
            &&& forall|other: i64| !tables.is_directory(other, database_id)
        },
        _ => false,
    }
}

/// The tables once a task has added the row of its phase under an id.
pub open spec fn added(task: TaskModel, tables: Tables, id: i64) -> Tables {
    match task.phase {
        Phase::AddShelf => Tables { shelves: tables.shelves.insert(id, task.origin()), ..tables },
        Phase::AddDefaultBucket { shelf_id } | Phase::AddBucket { shelf_id } => Tables {
            buckets: tables.buckets.insert(id, bucket_row(task, shelf_id)),
            ..tables
        },
        Phase::FillDefaultBucket { .. } | Phase::FillBucket { .. } | Phase::AddIdbBottle { .. } => {
            Tables { bottles: tables.bottles.insert(id, bottle_row(task)), ..tables }
        },
        Phase::AddDatabase { bottle_id } => Tables {
            databases: tables.databases.insert(id, DatabaseRow { bottle_id, name: task.db() }),
            ..tables
        },
        Phase::AddDirectory { database_id } => Tables {
            directories: tables.directories.insert(
                id,
                DirectoryRow {
                    database_id,
                    path: directory(task.origin(), task.bucket(), task.db()),
                },
            ),
            ..tables
        },
        _ => tables,
    }
}

/// Whether a row is the one that a task looks for.
pub open spec fn is_wanted(task: TaskModel, tables: Tables, id: i64) -> bool {
    match task.phase {
        Phase::FindShelf => tables.is_shelf(id, task.origin()),
        Phase::FindBucket { shelf_id } => tables.is_bucket(id, shelf_id, task.bucket()),
        Phase::FindBottle { bucket_id } => tables.is_bottle(id, bucket_id, "idb"@),
        _ => false,
    }
}

/// Whether a task looks for a row.
pub open spec fn is_lookup(phase: Phase) -> bool {
    phase is FindShelf || phase is FindBucket || phase is FindBottle
}

/// Whether this can be the answer of the tables to the statement of a task, and these the tables
/// afterwards. Any statement can fail.
pub open spec fn answers(
    task: TaskModel,
    tables: Tables,
    answer: AnswerModel,
    after: Tables,
) -> bool {
    match answer {
        AnswerModel::Failed(_) => after == tables,
        AnswerModel::Found(Some(id)) => after == tables && is_wanted(task, tables, id),
        AnswerModel::Found(None) => {
            &&& after == tables
            &&& is_lookup(task.phase)
            &&& forall|id: i64| !is_wanted(task, tables, id)
        },
        AnswerModel::Added(id) => can_add(task, tables, id) && after == added(task, tables, id),
    }
}

/// The result of a task and the tables at its end, where the statements are answered like this. The
/// trace holds each answer with the tables after it. Nothing where the tables cannot answer like
/// that, or the trace is not that of the whole task.
pub open spec fn outcome(
    task: TaskModel,
    tables: Tables,
    trace: Seq<(AnswerModel, Tables)>,
) -> Option<(Result<ProductModel, Seq<char>>, Tables)>
    decreases trace.len(),
{
    if trace.len() == 0 || !answers(task, tables, trace[0].0, trace[0].1) {
        None
    } else {
        match task.turn(trace[0].0) {
            Turn::End(result) => if trace.len() == 1 {
                Some((result, trace[0].1))
            } else {
                None
            },
            Turn::To(phase) => outcome(
                TaskModel { goal: task.goal, phase },
                trace[0].1,
                trace.skip(1),
            ),
        }
    }
}

/// What a task that makes a directory knows in a phase.
spec fn is_on_track(task: TaskModel, tables: Tables) -> bool {
    let (origin, bucket, db) = (task.origin(), task.bucket(), task.db());
    match task.phase {
        Phase::FindShelf | Phase::AddShelf => true,
        Phase::AddDefaultBucket { shelf_id } => tables.is_shelf(shelf_id, origin),
        Phase::FillDefaultBucket { shelf_id, .. } => tables.is_shelf(shelf_id, origin),
        Phase::FindBucket { shelf_id } => tables.is_shelf(shelf_id, origin),
        Phase::AddBucket { shelf_id } => tables.is_shelf(shelf_id, origin),
        Phase::FillBucket { bucket_id, .. } => tables.has_bucket(bucket_id, origin, bucket),
        Phase::FindBottle { bucket_id } => tables.has_bucket(bucket_id, origin, bucket),
        Phase::AddIdbBottle { bucket_id } => tables.has_bucket(bucket_id, origin, bucket),
        Phase::AddDatabase { bottle_id } => tables.has_idb_bottle(bottle_id, origin, bucket),
        Phase::AddDirectory { database_id } => tables.has_database(
            database_id,
            origin,
            bucket,
            db,
        ),
    }
}

/// What is in the tables stays in them when a row is added.
pub proof fn lemma_added(task: TaskModel, before: Tables, id: i64)
    requires
        before.valid(),
        can_add(task, before, id),
    ensures
        added(task, before, id).valid(),
        forall|k: i64, origin: Seq<char>| #[trigger]
            before.is_shelf(k, origin) ==> added(task, before, id).is_shelf(k, origin),
        forall|k: i64, s: i64, name: Seq<char>| #[trigger]
            before.is_bucket(k, s, name) ==> added(task, before, id).is_bucket(k, s, name),
        forall|k: i64, b: i64, name: Seq<char>| #[trigger]
            before.is_bottle(k, b, name) ==> added(task, before, id).is_bottle(k, b, name),
        forall|k: i64, b: i64, name: Seq<char>| #[trigger]
            before.is_database(k, b, name) ==> added(task, before, id).is_database(k, b, name),
{
    let after = added(task, before, id);
    assert forall|a: i64, b: i64, origin: Seq<char>| #[trigger]
        after.is_shelf(a, origin) && #[trigger] after.is_shelf(b, origin) implies a == b by {
        assert(a != id ==> before.is_shelf(a, origin) == after.is_shelf(a, origin));
        assert(b != id ==> before.is_shelf(b, origin) == after.is_shelf(b, origin));
        if after.shelves == before.shelves {
            assert(before.is_shelf(a, origin) && before.is_shelf(b, origin));
        }
    }
    assert forall|a: i64, b: i64, s: i64, name: Seq<char>| #[trigger]
        after.is_bucket(a, s, name) && #[trigger] after.is_bucket(b, s, name) implies a == b by {
        assert(a != id ==> before.is_bucket(a, s, name) == after.is_bucket(a, s, name));
        assert(b != id ==> before.is_bucket(b, s, name) == after.is_bucket(b, s, name));
        if after.buckets == before.buckets {
            assert(before.is_bucket(a, s, name) && before.is_bucket(b, s, name));
        }
    }
    assert forall|a: i64, b: i64, s: i64, name: Seq<char>| #[trigger]
        after.is_bottle(a, s, name) && #[trigger] after.is_bottle(b, s, name) implies a == b by {
        assert(a != id ==> before.is_bottle(a, s, name) == after.is_bottle(a, s, name));
        assert(b != id ==> before.is_bottle(b, s, name) == after.is_bottle(b, s, name));
        if after.bottles == before.bottles {
            assert(before.is_bottle(a, s, name) && before.is_bottle(b, s, name));
        }
    }
    assert forall|a: i64, b: i64, s: i64, name: Seq<char>| #[trigger]
        after.is_database(a, s, name) && #[trigger] after.is_database(b, s, name) implies a == b by {
        assert(a != id ==> before.is_database(a, s, name) == after.is_database(a, s, name));
        assert(b != id ==> before.is_database(b, s, name) == after.is_database(b, s, name));
        if after.databases == before.databases {
            assert(before.is_database(a, s, name) && before.is_database(b, s, name));
        }
    }
    assert forall|a: i64, b: i64, s: i64| #[trigger]
        after.is_directory(a, s) && #[trigger] after.is_directory(b, s) implies a == b by {
        assert(a != id ==> before.is_directory(a, s) == after.is_directory(a, s));
        assert(b != id ==> before.is_directory(b, s) == after.is_directory(b, s));
        if after.directories == before.directories {
            assert(before.is_directory(a, s) && before.is_directory(b, s));
        }
    }
}

/// One statement keeps the tables to their rules and a task that makes a directory on its way.
proof fn lemma_step(task: TaskModel, tables: Tables, answer: AnswerModel, after: Tables)
    requires
        task.goal is Directory,
        tables.valid(),
        is_on_track(task, tables),
        answers(task, tables, answer, after),
    ensures
        after.valid(),
        match task.turn(answer) {
            Turn::To(phase) => is_on_track(TaskModel { goal: task.goal, phase }, after),
            Turn::End(Ok(product)) => {
                let path = directory(task.origin(), task.bucket(), task.db());
                product == ProductModel::Directory(path) && after.notes(
                    task.origin(),
                    task.bucket(),
                    task.db(),
                    path,
                )
            },
            Turn::End(Err(_)) => after == tables,
        },
{
    let (origin, bucket, db) = (task.origin(), task.bucket(), task.db());
    match answer {
        AnswerModel::Added(id) => {
            lemma_added(task, tables, id);
            assert forall|k: i64| tables.has_bucket(k, origin, bucket) implies #[trigger] after.has_bucket(
                k,
                origin,
                bucket,
            ) by {
                let s = choose|s: i64| #[trigger]
                    tables.is_shelf(s, origin) && tables.is_bucket(k, s, bucket);
                assert(after.is_shelf(s, origin) && after.is_bucket(k, s, bucket));
            }
            assert forall|k: i64|
                tables.has_idb_bottle(k, origin, bucket) implies #[trigger] after.has_idb_bottle(
                k,
                origin,
                bucket,
            ) by {
                let b = choose|b: i64| #[trigger]
                    tables.has_bucket(b, origin, bucket) && tables.is_bottle(k, b, "idb"@);
                assert(after.has_bucket(b, origin, bucket) && after.is_bottle(k, b, "idb"@));
            }
            assert forall|k: i64|
                tables.has_database(k, origin, bucket, db) implies #[trigger] after.has_database(
                k,
                origin,
                bucket,
                db,
            ) by {
                let o = choose|o: i64| #[trigger]
                    tables.has_idb_bottle(o, origin, bucket) && tables.is_database(k, o, db);
                assert(after.has_idb_bottle(o, origin, bucket) && after.is_database(k, o, db));
            }
            match task.phase {
                Phase::AddShelf => {
                    assert(after.is_shelf(id, origin));
                },
                Phase::AddBucket { shelf_id } => {
                    assert(after.is_shelf(shelf_id, origin));
                    assert(after.is_bucket(id, shelf_id, bucket));
                    assert(after.has_bucket(id, origin, bucket));
                },
                Phase::AddIdbBottle { bucket_id } => {
                    assert(after.has_bucket(bucket_id, origin, bucket));
                    assert(after.is_bottle(id, bucket_id, "idb"@));
                    assert(after.has_idb_bottle(id, origin, bucket));
                },
                Phase::AddDatabase { bottle_id } => {
                    assert(after.has_idb_bottle(bottle_id, origin, bucket));
                    assert(after.is_database(id, bottle_id, db));
                    assert(after.has_database(id, origin, bucket, db));
                },
                Phase::AddDirectory { database_id } => {
                    assert(after.has_database(database_id, origin, bucket, db));
                    assert(after.is_directory(id, database_id));
                },
                _ => {},
            }
        },
        AnswerModel::Found(Some(id)) => match task.phase {
            Phase::FindBucket { shelf_id } => {
                assert(tables.is_shelf(shelf_id, origin) && tables.is_bucket(id, shelf_id, bucket));
                assert(tables.has_bucket(id, origin, bucket));
            },
            Phase::FindBottle { bucket_id } => {
                assert(tables.has_bucket(bucket_id, origin, bucket));
                assert(tables.has_idb_bottle(id, origin, bucket));
            },
            _ => {},
        },
        _ => {},
    }
}

proof fn lemma_outcome(task: TaskModel, tables: Tables, trace: Seq<(AnswerModel, Tables)>)
    requires
        task.goal is Directory,
        tables.valid(),
        is_on_track(task, tables),
        outcome(task, tables, trace) is Some,
    ensures
        ({
            let (result, after) = outcome(task, tables, trace)->0;
            let path = directory(task.origin(), task.bucket(), task.db());
            &&& after.valid()
            &&& result matches Ok(product) ==> product == ProductModel::Directory(path)
                && after.notes(task.origin(), task.bucket(), task.db(), path)
        }),
    decreases trace.len(),
{
    lemma_step(task, tables, trace[0].0, trace[0].1);
    match task.turn(trace[0].0) {
        Turn::To(phase) => {
            lemma_outcome(TaskModel { goal: task.goal, phase }, trace[0].1, trace.skip(1));
        },
        Turn::End(_) => {},
    }
}

/// A task that makes a directory.
pub open spec fn new_directory(origin: Seq<char>, bucket: Seq<char>, db: Seq<char>) -> TaskModel {
    TaskModel { goal: GoalModel::Directory { origin, bucket, db }, phase: Phase::FindShelf }
}

/// A directory that was made is noted for its database, whatever the tables were. The tables keep to
/// their rules in any case.
pub proof fn law_made_directory_is_kept(
    tables: Tables,
    origin: Seq<char>,
    bucket: Seq<char>,
    db: Seq<char>,
    trace: Seq<(AnswerModel, Tables)>,
)
    requires
        tables.valid(),
        outcome(new_directory(origin, bucket, db), tables, trace) is Some,
    ensures
        ({
            let (result, after) = outcome(new_directory(origin, bucket, db), tables, trace)->0;
            &&& after.valid()
            &&& result matches Ok(product) ==> product == ProductModel::Directory(
                directory(origin, bucket, db),
            ) && after.notes(origin, bucket, db, directory(origin, bucket, db))
        }),
{
    lemma_outcome(new_directory(origin, bucket, db), tables, trace);
}

/// No more than one path is noted for a database.
pub proof fn law_directory_is_unambiguous(
    tables: Tables,
    origin: Seq<char>,
    bucket: Seq<char>,
    db: Seq<char>,
    path: Seq<char>,
    other: Seq<char>,
)
    requires
        tables.valid(),
        tables.notes(origin, bucket, db, path),
        tables.notes(origin, bucket, db, other),
    ensures
        path == other,
{
    let (d, i) = choose|d: i64, i: i64| #[trigger]
        tables.has_database(d, origin, bucket, db) && #[trigger] tables.is_directory(i, d)
            && tables.directories[i].path == path;
    let (e, j) = choose|d: i64, i: i64| #[trigger]
        tables.has_database(d, origin, bucket, db) && #[trigger] tables.is_directory(i, d)
            && tables.directories[i].path == other;
    lemma_database_is_one(tables, d, e, origin, bucket, db);
}

proof fn lemma_bucket_is_one(tables: Tables, a: i64, b: i64, origin: Seq<char>, bucket: Seq<char>)
    requires
        tables.valid(),
        tables.has_bucket(a, origin, bucket),
        tables.has_bucket(b, origin, bucket),
    ensures
        a == b,
{
    let s = choose|s: i64| #[trigger] tables.is_shelf(s, origin) && tables.is_bucket(a, s, bucket);
    let t = choose|s: i64| #[trigger] tables.is_shelf(s, origin) && tables.is_bucket(b, s, bucket);
    assert(s == t);
}

proof fn lemma_bottle_is_one(tables: Tables, a: i64, b: i64, origin: Seq<char>, bucket: Seq<char>)
    requires
        tables.valid(),
        tables.has_idb_bottle(a, origin, bucket),
        tables.has_idb_bottle(b, origin, bucket),
    ensures
        a == b,
{
    let s = choose|s: i64| #[trigger]
        tables.has_bucket(s, origin, bucket) && tables.is_bottle(a, s, "idb"@);
    let t = choose|s: i64| #[trigger]
        tables.has_bucket(s, origin, bucket) && tables.is_bottle(b, s, "idb"@);
    lemma_bucket_is_one(tables, s, t, origin, bucket);
}

proof fn lemma_database_is_one(
    tables: Tables,
    a: i64,
    b: i64,
    origin: Seq<char>,
    bucket: Seq<char>,
    db: Seq<char>,
)
    requires
        tables.valid(),
        tables.has_database(a, origin, bucket, db),
        tables.has_database(b, origin, bucket, db),
    ensures
        a == b,
{
    let s = choose|s: i64| #[trigger]
        tables.has_idb_bottle(s, origin, bucket) && tables.is_database(a, s, db);
    let t = choose|s: i64| #[trigger]
        tables.has_idb_bottle(s, origin, bucket) && tables.is_database(b, s, db);
    lemma_bottle_is_one(tables, s, t, origin, bucket);
}

/// The phases that a task goes through where its database is there.
spec fn only_looks_up(phase: Phase) -> bool {
    is_lookup(phase) || phase is AddDatabase
}

proof fn lemma_repeated(
    task: TaskModel,
    tables: Tables,
    trace: Seq<(AnswerModel, Tables)>,
    database_id: i64,
)
    requires
        task.goal is Directory,
        tables.valid(),
        is_on_track(task, tables),
        only_looks_up(task.phase),
        tables.has_database(database_id, task.origin(), task.bucket(), task.db()),
        outcome(task, tables, trace) is Some,
    ensures
        ({
            let (result, after) = outcome(task, tables, trace)->0;
            result is Err && after == tables
        }),
    decreases trace.len(),
{
    let (origin, bucket, db) = (task.origin(), task.bucket(), task.db());
    let (answer, after) = trace[0];
    lemma_step(task, tables, answer, after);
    let bottle_id = choose|o: i64| #[trigger]
        tables.has_idb_bottle(o, origin, bucket) && tables.is_database(database_id, o, db);
    let bucket_id = choose|b: i64| #[trigger]
        tables.has_bucket(b, origin, bucket) && tables.is_bottle(bottle_id, b, "idb"@);
    let shelf_id = choose|s: i64| #[trigger]
        tables.is_shelf(s, origin) && tables.is_bucket(bucket_id, s, bucket);
    match task.phase {
        Phase::FindShelf => {
            assert(is_wanted(task, tables, shelf_id));
        },
        Phase::FindBucket { shelf_id: s } => {
            assert(s == shelf_id);
            assert(is_wanted(task, tables, bucket_id));
        },
        Phase::FindBottle { bucket_id: b } => {
            lemma_bucket_is_one(tables, b, bucket_id, origin, bucket);
            assert(is_wanted(task, tables, bottle_id));
        },
        Phase::AddDatabase { bottle_id: o } => {
            lemma_bottle_is_one(tables, o, bottle_id, origin, bucket);
            assert(tables.is_database(database_id, o, db));
        },
        _ => {},
    }
    match task.turn(answer) {
        Turn::To(phase) => {
            lemma_repeated(
                TaskModel { goal: task.goal, phase },
                after,
                trace.skip(1),
                database_id,
            );
        },
        Turn::End(_) => {},
    }
}

/// The name of a database is unique in its bucket: once a directory for it was made, to make one
/// again fails, and no table changes, so that the first stays as it was.
pub proof fn law_database_is_registered_once(
    tables: Tables,
    origin: Seq<char>,
    bucket: Seq<char>,
    db: Seq<char>,
    first: Seq<(AnswerModel, Tables)>,
    second: Seq<(AnswerModel, Tables)>,
)
    requires
        tables.valid(),
        outcome(new_directory(origin, bucket, db), tables, first) matches Some((Ok(_), between))
            && outcome(new_directory(origin, bucket, db), between, second) is Some,
    ensures
        ({
            let task = new_directory(origin, bucket, db);
            let between = (outcome(task, tables, first)->0).1;
            let (result, after) = outcome(task, between, second)->0;
            result is Err && after == between
        }),
{
    let task = new_directory(origin, bucket, db);
    lemma_outcome(task, tables, first);
    let between = (outcome(task, tables, first)->0).1;
    let path = directory(origin, bucket, db);
    assert(between.notes(origin, bucket, db, path));
    let (d, i) = choose|d: i64, i: i64| #[trigger]
        between.has_database(d, origin, bucket, db) && #[trigger] between.is_directory(i, d)
            && between.directories[i].path == path;
    lemma_repeated(task, between, second, d);
}

/// A task whose statement adds a row and that ends well has added it.
proof fn lemma_added_first(task: TaskModel, tables: Tables, trace: Seq<(AnswerModel, Tables)>)
    requires
        !is_lookup(task.phase),
        outcome(task, tables, trace) matches Some((Ok(_), _)),
    ensures
        trace.len() > 0,
        trace[0].0 matches AnswerModel::Added(id) && can_add(task, tables, id) && trace[0].1
            == added(task, tables, id),
{
}

/// The bottles after the three that every bucket gets were put into one.
pub open spec fn is_filled(before: Tables, after: Tables, bucket_id: i64) -> bool {
    exists|first: i64, second: i64, third: i64| #[trigger]
        filled_with(before, after, bucket_id, first, second, third)
}

/// The bottles after the three that every bucket gets were put into one, under these ids.
pub open spec fn filled_with(
    before: Tables,
    after: Tables,
    bucket_id: i64,
    first: i64,
    second: i64,
    third: i64,
) -> bool {
    &&& !before.bottles.contains_key(first)
    &&& !before.bottles.contains_key(second)
    &&& !before.bottles.contains_key(third)
    &&& first != second && first != third && second != third
    &&& after.bottles == before.bottles.insert(
        first,
        BottleRow { bucket_id, identifier: Bottle::LocalStorage.name() },
    ).insert(second, BottleRow { bucket_id, identifier: Bottle::FileSystem.name() }).insert(
        third,
        BottleRow { bucket_id, identifier: Bottle::Cache.name() },
    )
}

proof fn lemma_filled(task: TaskModel, tables: Tables, trace: Seq<(AnswerModel, Tables)>)
    requires
        match task.phase {
            Phase::FillDefaultBucket { bottle, .. } => bottle == Bottle::LocalStorage
                && task.goal is Shelf,
            Phase::FillBucket { bottle, .. } => bottle == Bottle::LocalStorage
                && task.goal is Bucket,
            _ => false,
        },
        tables.valid(),
        outcome(task, tables, trace) matches Some((Ok(_), _)),
    ensures
        ({
            let (result, after) = outcome(task, tables, trace)->0;
            let row = match task.phase {
                Phase::FillDefaultBucket { shelf_id, .. } => shelf_id,
                Phase::FillBucket { bucket_id, .. } => bucket_id,
                _ => 0,
            };
            &&& result == Ok::<ProductModel, Seq<char>>(ProductModel::Row(row))
            &&& is_filled(tables, after, bottle_row(task).bucket_id)
            &&& after.shelves == tables.shelves
            &&& after.buckets == tables.buckets
            &&& after.databases == tables.databases
            &&& after.directories == tables.directories
            &&& after.valid()
        }),
{
    let bucket_id = bottle_row(task).bucket_id;
    lemma_added_first(task, tables, trace);
    let first = trace[0].0->Added_0;
    lemma_added(task, tables, first);
    let task1 = TaskModel { goal: task.goal, phase: task.turn(trace[0].0)->To_0 };
    let one = trace[0].1;
    let rest1 = trace.skip(1);
    assert(outcome(task, tables, trace) == outcome(task1, one, rest1));
    lemma_added_first(task1, one, rest1);
    let second = rest1[0].0->Added_0;
    lemma_added(task1, one, second);
    let task2 = TaskModel { goal: task.goal, phase: task1.turn(rest1[0].0)->To_0 };
    let two = rest1[0].1;
    let rest2 = rest1.skip(1);
    assert(outcome(task1, one, rest1) == outcome(task2, two, rest2));
    lemma_added_first(task2, two, rest2);
    let third = rest2[0].0->Added_0;
    lemma_added(task2, two, third);
    let after = rest2[0].1;
    assert(task2.turn(rest2[0].0) is End);
    assert(filled_with(tables, after, bucket_id, first, second, third));
}

/// Whether the bottles in a bucket are the three that every bucket gets, and no other.
pub open spec fn has_three_bottles(tables: Tables, bucket_id: i64) -> bool {
    forall|identifier: Seq<char>|
        !(#[trigger] tables.lacks_bottle(bucket_id, identifier)) <==> (identifier
            == Bottle::LocalStorage.name() || identifier == Bottle::FileSystem.name() || identifier
            == Bottle::Cache.name())
}

proof fn lemma_three_bottles(before: Tables, after: Tables, bucket_id: i64)
    requires
        is_filled(before, after, bucket_id),
        forall|id: i64| #[trigger]
            before.bottles.contains_key(id) ==> before.bottles[id].bucket_id != bucket_id,
    ensures
        has_three_bottles(after, bucket_id),
{
    let (x, y, z) = choose|x: i64, y: i64, z: i64| #[trigger]
        filled_with(before, after, bucket_id, x, y, z);
    assert(after.is_bottle(x, bucket_id, Bottle::LocalStorage.name()));
    assert(after.is_bottle(y, bucket_id, Bottle::FileSystem.name()));
    assert(after.is_bottle(z, bucket_id, Bottle::Cache.name()));
    assert forall|identifier: Seq<char>| !(#[trigger] after.lacks_bottle(
        bucket_id,
        identifier,
    )) implies (identifier == Bottle::LocalStorage.name() || identifier == Bottle::FileSystem.name() || identifier
        == Bottle::Cache.name()) by {
        let id = choose|id: i64| after.is_bottle(id, bucket_id, identifier);
        assert(id == x || id == y || id == z || before.bottles.contains_key(id));
    }
}

/// A bucket that was made is what comes back. It is on its shelf as it was asked for, with exactly
/// the three bottles; nothing else changes.
pub proof fn law_made_bucket_is_complete(
    tables: Tables,
    shelf_id: i64,
    name: Seq<char>,
    persisted: bool,
    quota: Option<i64>,
    expires: Option<i64>,
    trace: Seq<(AnswerModel, Tables)>,
    product: ProductModel,
    after: Tables,
)
    requires
        tables.valid(),
        outcome(
            TaskModel {
                goal: GoalModel::Bucket { shelf_id, name, persisted, quota, expires },
                phase: Phase::AddBucket { shelf_id },
            },
            tables,
            trace,
        ) == Some((Ok::<ProductModel, Seq<char>>(product), after)),
    ensures
        after.valid(),
        product matches ProductModel::Row(id) && {
            &&& !tables.buckets.contains_key(id)
            &&& after.buckets == tables.buckets.insert(
                id,
                BucketRow { shelf_id, name, persisted, quota, expires },
            )
            &&& is_filled(tables, after, id)
            &&& has_three_bottles(after, id)
            &&& after.shelves == tables.shelves
            &&& after.databases == tables.databases
            &&& after.directories == tables.directories
        },
{
    let task = TaskModel {
        goal: GoalModel::Bucket { shelf_id, name, persisted, quota, expires },
        phase: Phase::AddBucket { shelf_id },
    };
    lemma_added_first(task, tables, trace);
    let id = trace[0].0->Added_0;
    lemma_added(task, tables, id);
    let task1 = TaskModel {
        goal: task.goal,
        phase: Phase::FillBucket { bucket_id: id, bottle: Bottle::LocalStorage },
    };
    let one = trace[0].1;
    assert(outcome(task, tables, trace) == outcome(task1, one, trace.skip(1)));
    lemma_filled(task1, one, trace.skip(1));
    lemma_same_bottles(tables, one, after, id);
    lemma_three_bottles(tables, after, id);
}

proof fn lemma_same_bottles(before: Tables, between: Tables, after: Tables, bucket_id: i64)
    requires
        before.bottles == between.bottles,
        is_filled(between, after, bucket_id),
    ensures
        is_filled(before, after, bucket_id),
{
    let (x, y, z) = choose|x: i64, y: i64, z: i64| #[trigger]
        filled_with(between, after, bucket_id, x, y, z);
    assert(filled_with(before, after, bucket_id, x, y, z));
}

/// A shelf that was made is what comes back; in empty tables it is the first. It has exactly one
/// bucket, the default one, with exactly the three bottles; nothing else changes.
pub proof fn law_made_shelf_is_complete(
    tables: Tables,
    origin: Seq<char>,
    trace: Seq<(AnswerModel, Tables)>,
    product: ProductModel,
    after: Tables,
)
    requires
        tables.valid(),
        outcome(
            TaskModel { goal: GoalModel::Shelf { origin }, phase: Phase::AddShelf },
            tables,
            trace,
        ) == Some((Ok::<ProductModel, Seq<char>>(product), after)),
    ensures
        after.valid(),
        product matches ProductModel::Row(id) && {
            &&& !tables.shelves.contains_key(id)
            &&& tables == Tables::empty() ==> id == 1
            &&& after.shelves == tables.shelves.insert(id, origin)
            &&& exists|bucket_id: i64| #[trigger] is_only_bucket(tables, after, id, bucket_id)
            &&& after.databases == tables.databases
            &&& after.directories == tables.directories
        },
{
    let task = TaskModel { goal: GoalModel::Shelf { origin }, phase: Phase::AddShelf };
    lemma_added_first(task, tables, trace);
    let id = trace[0].0->Added_0;
    lemma_added(task, tables, id);
    let task1 = TaskModel { goal: task.goal, phase: Phase::AddDefaultBucket { shelf_id: id } };
    let one = trace[0].1;
    let rest1 = trace.skip(1);
    assert(outcome(task, tables, trace) == outcome(task1, one, rest1));
    lemma_added_first(task1, one, rest1);
    let bucket_id = rest1[0].0->Added_0;
    lemma_added(task1, one, bucket_id);
    let task2 = TaskModel {
        goal: task.goal,
        phase: Phase::FillDefaultBucket {
            shelf_id: id,
            bucket_id,
            bottle: Bottle::LocalStorage,
        },
    };
    let two = rest1[0].1;
    assert(outcome(task1, one, rest1) == outcome(task2, two, rest1.skip(1)));
    lemma_filled(task2, two, rest1.skip(1));
    lemma_same_bottles(tables, two, after, bucket_id);
    lemma_three_bottles(tables, after, bucket_id);
    assert(is_only_bucket(tables, after, id, bucket_id));
}

/// Whether a bucket is the only one on a shelf, the default one, with exactly the three bottles,
/// and what is new in the tables of buckets and bottles.
pub open spec fn is_only_bucket(
    before: Tables,
    after: Tables,
    shelf_id: i64,
    bucket_id: i64,
) -> bool {
    &&& after.buckets == before.buckets.insert(
        bucket_id,
        BucketRow {
            shelf_id,
            name: DEFAULT_BUCKET@,
            persisted: false,
            quota: None,
            expires: None,
        },
    )
    &&& forall|id: i64|
        (#[trigger] after.buckets.contains_key(id) && after.buckets[id].shelf_id == shelf_id)
            <==> id == bucket_id
    &&& is_filled(before, after, bucket_id)
    &&& has_three_bottles(after, bucket_id)
}

/// Tables keep to their rules when they are made.
pub proof fn law_empty_tables_are_valid()
    ensures
        Tables::empty().valid(),
{
}

} // verus!

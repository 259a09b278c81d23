//! What the statements of a registry bind, held against the rows that they add or look for.
use crate::sql::ValueModel;
use crate::storage::storage_manager::registry::{
    fits, indexeddb_lookup, localstorage_lookup, named_bucket, tables, AnswerModel, Bottle, Goal,
    GoalModel, Phase, ProductModel, TaskModel, Turn, FIND_INDEXEDDB_DIR, FIND_LOCALSTORAGE_DIR, HAS_SHELVES,
};
use crate::storage::storage_manager::registry_tables::{added, is_wanted, Tables};
use vstd::prelude::*;

verus! {

/// A number that may be missing, as a value.
pub open spec fn bound(n: Option<i64>) -> ValueModel {
    if n is Some {
        ValueModel::Integer(n->0)
    } else {
        ValueModel::Null
    }
}

/// The statement that adds a row binds the columns of the row that is in the tables afterwards, in
/// the order in which it lists them.
pub proof fn law_added_row_is_bound(task: TaskModel, tables: Tables, id: i64)
    ensures
        ({
            let after = added(task, tables, id);
            let params = task.statement().params;
            match task.phase {
                Phase::AddShelf => params == seq![ValueModel::Text(after.shelves[id])],
                Phase::AddDefaultBucket { .. } => {
                    let row = after.buckets[id];
                    &&& params == seq![ValueModel::Integer(row.shelf_id)]
                    &&& row.name == "default"@
                    &&& !row.persisted && row.quota is None && row.expires is None
                },
                Phase::AddBucket { .. } => {
                    let row = after.buckets[id];
                    params == seq![
                        ValueModel::Integer(row.shelf_id),
                        ValueModel::Text(row.name),
                        ValueModel::Integer(
                            if row.persisted {
                                1i64
                            } else {
                                0i64
                            },
                        ),
                        bound(row.quota),
                        bound(row.expires),
                    ]
                },
                Phase::FillDefaultBucket { .. } | Phase::FillBucket { .. } => {
                    let row = after.bottles[id];
                    params == seq![
                        ValueModel::Integer(row.bucket_id),
                        ValueModel::Text(row.identifier),
                    ]
                },
                Phase::AddIdbBottle { .. } => {
                    let row = after.bottles[id];
                    params == seq![ValueModel::Integer(row.bucket_id)] && row.identifier == "idb"@
                },
                Phase::AddDatabase { .. } => {
                    let row = after.databases[id];
                    params == seq![ValueModel::Integer(row.bottle_id), ValueModel::Text(row.name)]
                },
                Phase::AddDirectory { .. } => {
                    let row = after.directories[id];
                    params == seq![
                        ValueModel::Integer(row.database_id),
                        ValueModel::Text(row.path),
                    ]
                },
                _ => after == tables,
            }
        }),
{
}

/// A lookup wants the rows whose columns are what it binds, in the order in which it lists them.
pub proof fn law_wanted_row_is_bound(task: TaskModel, tables: Tables, id: i64)
    ensures
        ({
            let params = task.statement().params;
            match task.phase {
                Phase::FindShelf => params.len() == 1 && (is_wanted(task, tables, id)
                    <==> tables.shelves.contains_key(id) && params[0] == ValueModel::Text(
                    tables.shelves[id],
                )),
                Phase::FindBucket { .. } => params.len() == 2 && (is_wanted(task, tables, id)
                    <==> tables.buckets.contains_key(id) && params[0] == ValueModel::Integer(
                    tables.buckets[id].shelf_id,
                ) && params[1] == ValueModel::Text(tables.buckets[id].name)),
                Phase::FindBottle { .. } => params.len() == 1 && (is_wanted(task, tables, id)
                    <==> tables.bottles.contains_key(id) && params[0] == ValueModel::Integer(
                    tables.bottles[id].bucket_id,
                ) && tables.bottles[id].identifier == "idb"@),
                _ => !is_wanted(task, tables, id),
            }
        }),
{
}

/// A directory is made with the origin, the bucket and the name of the database that were asked for:
/// the shelf is that of the origin, the bucket has the name of the bucket and no quota, no end and
/// no promise to persist, the database has the name of the database, and the path is made of the
/// three, in this order.
pub proof fn law_directory_task_binds_what_was_asked_for(
    origin: Seq<char>,
    bucket: Seq<char>,
    db: Seq<char>,
    n: i64,
)
    ensures
        ({
            let goal = GoalModel::Directory { origin, bucket, db };
            let params = |phase: Phase| (TaskModel { goal, phase }).statement().params;
            &&& params(Phase::FindShelf) == seq![ValueModel::Text(origin)]
            &&& params(Phase::AddShelf) == seq![ValueModel::Text(origin)]
            &&& params(Phase::AddDefaultBucket { shelf_id: n }) == seq![ValueModel::Integer(n)]
            &&& params(Phase::FindBucket { shelf_id: n }) == seq![
                ValueModel::Integer(n),
                ValueModel::Text(bucket),
            ]
            &&& params(Phase::AddBucket { shelf_id: n }) == seq![
                ValueModel::Integer(n),
                ValueModel::Text(bucket),
                ValueModel::Integer(0),
                ValueModel::Null,
                ValueModel::Null,
            ]
            &&& params(Phase::FindBottle { bucket_id: n }) == seq![ValueModel::Integer(n)]
            &&& params(Phase::AddIdbBottle { bucket_id: n }) == seq![ValueModel::Integer(n)]
            &&& params(Phase::AddDatabase { bottle_id: n }) == seq![
                ValueModel::Integer(n),
                ValueModel::Text(db),
            ]
            &&& params(Phase::AddDirectory { database_id: n }) == seq![
                ValueModel::Integer(n),
                ValueModel::Text("storage/"@ + origin + "/"@ + bucket + "/"@ + db),
            ]
            &&& (TaskModel { goal, phase: Phase::AddDirectory { database_id: n } }).turn(
                AnswerModel::Added(n),
            ) == Turn::End(
                Ok(ProductModel::Directory("storage/"@ + origin + "/"@ + bucket + "/"@ + db)),
            )
        }),
{
}

/// A shelf is made for the origin that was asked for, and a bucket with the name, the promise to
/// persist, the quota and the end that were asked for.
pub proof fn law_other_tasks_bind_what_was_asked_for(
    origin: Seq<char>,
    shelf_id: i64,
    name: Seq<char>,
    persisted: bool,
    quota: Option<i64>,
    expires: Option<i64>,
)
    ensures
        (TaskModel {
            goal: GoalModel::Shelf { origin },
            phase: Phase::AddShelf,
        }).statement().params == seq![ValueModel::Text(origin)],
        ({
            let params = (TaskModel {
                goal: GoalModel::Bucket { shelf_id, name, persisted, quota, expires },
                phase: Phase::AddBucket { shelf_id },
            }).statement().params;
            &&& params.len() == 5
            &&& params[0] == ValueModel::Integer(shelf_id)
            &&& params[1] == ValueModel::Text(name)
            &&& persisted ==> params[2] == ValueModel::Integer(1)
            &&& !persisted ==> params[2] == ValueModel::Integer(0)
            &&& quota is None ==> params[3] == ValueModel::Null
            &&& quota matches Some(n) ==> params[3] == ValueModel::Integer(n)
            &&& expires is None ==> params[4] == ValueModel::Null
            &&& expires matches Some(n) ==> params[4] == ValueModel::Integer(n)
        }),
{
}

/// Every new bucket gets the bottles for local storage, the file system and the cache, each once, in
/// this order.
pub proof fn law_bottles_have_these_names(task: TaskModel, shelf_id: i64, bucket_id: i64)
    ensures
        ({
            let fill = |bottle: Bottle|
                (TaskModel {
                    goal: task.goal,
                    phase: Phase::FillBucket { bucket_id, bottle },
                }).statement().params;
            let fill_default = |bottle: Bottle|
                (TaskModel {
                    goal: task.goal,
                    phase: Phase::FillDefaultBucket { shelf_id, bucket_id, bottle },
                }).statement().params;
            let named = |name: Seq<char>|
                seq![ValueModel::Integer(bucket_id), ValueModel::Text(name)];
            &&& fill(Bottle::LocalStorage) == named("ls"@)
            &&& fill(Bottle::FileSystem) == named("opfs"@)
            &&& fill(Bottle::Cache) == named("cache"@)
            &&& fill_default(Bottle::LocalStorage) == named("ls"@)
            &&& fill_default(Bottle::FileSystem) == named("opfs"@)
            &&& fill_default(Bottle::Cache) == named("cache"@)
            &&& Bottle::LocalStorage.following() == Some(Bottle::FileSystem)
            &&& Bottle::FileSystem.following() == Some(Bottle::Cache)
            &&& Bottle::Cache.following() is None
        }),
{
}

/// What is run in each phase, and the order in which its parameters are listed.
pub proof fn law_statements_are_these(goal: GoalModel, shelf_id: i64, n: i64, bottle: Bottle)
    ensures
        ({
            let sql = |phase: Phase| (TaskModel { goal, phase }).statement().sql;
            &&& sql(Phase::FindShelf) == "SELECT id FROM shelves WHERE origin = ?1"@
            &&& sql(Phase::AddShelf) == "INSERT INTO shelves (origin) VALUES (?1)"@
            &&& sql(Phase::AddDefaultBucket { shelf_id }) == "INSERT INTO buckets (shelf_id, name, persisted, quota, expires) VALUES (?1, 'default', 0, NULL, NULL)"@
            &&& sql(Phase::FillDefaultBucket { shelf_id, bucket_id: n, bottle }) == "INSERT INTO bottles (bucket_id, identifier, quota) VALUES (?1, ?2, NULL)"@
            &&& sql(Phase::FindBucket { shelf_id }) == "SELECT id FROM buckets WHERE shelf_id = ?1 AND name = ?2"@
            &&& sql(Phase::AddBucket { shelf_id }) == "INSERT INTO buckets (shelf_id, name, persisted, quota, expires) VALUES (?1, ?2, ?3, ?4, ?5)"@
            &&& sql(Phase::FillBucket { bucket_id: n, bottle }) == "INSERT INTO bottles (bucket_id, identifier, quota) VALUES (?1, ?2, NULL)"@
            &&& sql(Phase::FindBottle { bucket_id: n }) == "SELECT id FROM bottles WHERE bucket_id = ?1 AND identifier = 'idb'"@
            &&& sql(Phase::AddIdbBottle { bucket_id: n }) == "INSERT INTO bottles (bucket_id, identifier, quota) VALUES (?1, 'idb', NULL)"@
            &&& sql(Phase::AddDatabase { bottle_id: n }) == "INSERT INTO databases (bottle_id, name) VALUES (?1, ?2)"@
            &&& sql(Phase::AddDirectory { database_id: n }) == "INSERT INTO directories (database_id, path) VALUES (?1, ?2)"@
        }),
        HAS_SHELVES@ == "SELECT name FROM sqlite_master WHERE type='table' AND name='shelves';"@,
        FIND_LOCALSTORAGE_DIR@ == "SELECT d.path FROM directories d \
     JOIN databases db ON d.database_id = db.id \
     JOIN bottles b ON db.bottle_id = b.id \
     JOIN buckets bu ON b.bucket_id = bu.id\
     JOIN shelves s ON bu.shelf_id = s.id\
     WHERE s.origin = ?1 AND bu.name = ?2 AND b.identifier = 'ls'"@,
        FIND_INDEXEDDB_DIR@ == "SELECT d.path FROM directories d \
     JOIN databases db ON d.database_id = db.id \
     JOIN bottles b ON db.bottle_id = b.id \
     JOIN buckets bu ON b.bucket_id = bu.id\
     JOIN shelves s ON bu.shelf_id = s.id\
     WHERE s.origin = ?1 AND bu.name = ?2 AND b.identifier = 'idb' AND db.name = ?3"@,
{
}

/// The tables are made with these rules: every origin has one shelf, every name one bucket on a
/// shelf, every identifier one bottle in a bucket, every name one database in a bottle, and every
/// database one directory.
pub proof fn law_tables_have_these_rules()
    ensures
        tables() == r#"CREATE TABLE shelves (
id INTEGER PRIMARY KEY,
origin TEXT NOT NULL UNIQUE
);"#@ + r#"
CREATE TABLE buckets (
id INTEGER PRIMARY KEY,
shelf_id INTEGER NOT NULL REFERENCES shelves(id),
name TEXT NOT NULL,
persisted BOOLEAN DEFAULT 0,
quota INTEGER,
expires INTEGER,
UNIQUE (shelf_id, name)
);"#@
            + r#"
CREATE TABLE bottles (
id INTEGER PRIMARY KEY,
bucket_id INTEGER NOT NULL REFERENCES buckets(id),
identifier TEXT NOT NULL,  -- "idb", "ls", "opfs", "cache"
quota INTEGER,
UNIQUE (bucket_id, identifier)
);"#@ + r#"
CREATE TABLE databases (
id INTEGER PRIMARY KEY,
bottle_id INTEGER NOT NULL REFERENCES bottles(id),
name TEXT NOT NULL,
UNIQUE (bottle_id, name)
);"#@
            + r#"
CREATE TABLE directories (
id INTEGER PRIMARY KEY,
database_id INTEGER NOT NULL UNIQUE REFERENCES databases(id),
path TEXT NOT NULL
);"#@,
{
}

/// A bucket that is named is the one that is meant, and the default one is where none is.
pub proof fn law_bucket_defaults_to_default(name: Seq<char>)
    ensures
        named_bucket(Some(name)) == name,
        named_bucket(None) == "default"@,
{
}

/// A task stands for the origin, the bucket and the database that it is about.
pub proof fn law_goals_stand_for_their_fields(
    origin: String,
    bucket: String,
    db: String,
    shelf_id: i64,
    persisted: bool,
    quota: Option<i64>,
    expires: Option<i64>,
)
    ensures
        (Goal::Directory { origin, bucket, db })@ == (GoalModel::Directory {
            origin: origin@,
            bucket: bucket@,
            db: db@,
        }),
        (Goal::Shelf { origin })@ == (GoalModel::Shelf { origin: origin@ }),
        (Goal::Bucket { shelf_id, name: bucket, persisted, quota, expires })@
            == (GoalModel::Bucket { shelf_id, name: bucket@, persisted, quota, expires }),
{
}

/// Every statement can be answered: a lookup by a row or none, and every other one by the id of the
/// row that it added; and any of them can fail.
pub proof fn law_answers_fit_the_statements(
    phase: Phase,
    found: Option<i64>,
    id: i64,
    text: Seq<char>,
)
    ensures
        fits(phase, AnswerModel::Failed(text)),
        phase is FindShelf || phase is FindBucket || phase is FindBottle ==> fits(
            phase,
            AnswerModel::Found(found),
        ),
        !(phase is FindShelf || phase is FindBucket || phase is FindBottle) ==> fits(
            phase,
            AnswerModel::Added(id),
        ),
{
}

/// A lookup binds the origin, the bucket that is meant and, for a database, its name, in this order.
pub proof fn law_lookups_bind_what_was_asked_for(
    origin: Seq<char>,
    bucket: Seq<char>,
    db: Seq<char>,
)
    ensures
        localstorage_lookup(origin, Some(bucket)).params == seq![
            ValueModel::Text(origin),
            ValueModel::Text(bucket),
        ],
        localstorage_lookup(origin, None) == localstorage_lookup(origin, Some("default"@)),
        localstorage_lookup(origin, None).sql == FIND_LOCALSTORAGE_DIR@,
        indexeddb_lookup(origin, Some(bucket), db).params == seq![
            ValueModel::Text(origin),
            ValueModel::Text(bucket),
            ValueModel::Text(db),
        ],
        indexeddb_lookup(origin, None, db) == indexeddb_lookup(origin, Some("default"@), db),
        indexeddb_lookup(origin, None, db).sql == FIND_INDEXEDDB_DIR@,
{
}

} // verus!

//! That a registry takes what it is given: where nothing stands in the way, a task succeeds.
use crate::storage::storage_manager::registry::{
    statements_left, AnswerModel, Bottle, Phase, ProductModel, TaskModel, Turn, DEFAULT_BUCKET,
};
use crate::storage::storage_manager::registry_tables::{
    added, answers, can_add, is_lookup, is_wanted, law_made_directory_is_kept, lemma_added,
    new_directory, outcome, BottleRow, Tables,
};
use vstd::prelude::*;

verus! {

/// Whether the ids of a table go no further than this.
pub open spec fn ids_end_at<V>(table: Map<i64, V>, last: int) -> bool {
    forall|id: i64| #[trigger] table.contains_key(id) ==> id <= last
}

/// Whether the ids of all tables go no further than this.
pub open spec fn all_ids_end_at(tables: Tables, last: int) -> bool {
    &&& ids_end_at(tables.shelves, last)
    &&& ids_end_at(tables.buckets, last)
    &&& ids_end_at(tables.bottles, last)
    &&& ids_end_at(tables.databases, last)
    &&& ids_end_at(tables.directories, last)
}

/// Whether there is no database with a name in a bucket of an origin.
pub open spec fn lacks_database(
    tables: Tables,
    origin: Seq<char>,
    bucket: Seq<char>,
    db: Seq<char>,
) -> bool {
    forall|id: i64| !tables.has_database(id, origin, bucket, db)
}

/// Whether a bottle comes no later than another one in the order in which a bucket gets them.
spec fn is_up_to(bottle: Bottle, other: Bottle) -> bool {
    match other {
        Bottle::LocalStorage => bottle == Bottle::LocalStorage,
        Bottle::FileSystem => bottle != Bottle::Cache,
        Bottle::Cache => true,
    }
}

/// Whether a bucket is there and still lacks a bottle and those that come after it.
spec fn lacks_from(tables: Tables, bucket_id: i64, bottle: Bottle) -> bool {
    &&& tables.buckets.contains_key(bucket_id)
    &&& forall|other: Bottle| #[trigger]
        is_up_to(bottle, other) ==> tables.lacks_bottle(bucket_id, other.name())
}

/// What makes the statement of a phase succeed.
spec fn is_clear(task: TaskModel, tables: Tables) -> bool {
    let (origin, bucket, db) = (task.origin(), task.bucket(), task.db());
    match task.phase {
        Phase::FindShelf => lacks_database(tables, origin, bucket, db),
        Phase::AddShelf => {
            &&& lacks_database(tables, origin, bucket, db)
            &&& forall|id: i64| !tables.is_shelf(id, origin)
        },
        Phase::AddDefaultBucket { shelf_id } => {
            &&& lacks_database(tables, origin, bucket, db)
            &&& tables.is_shelf(shelf_id, origin)
            &&& tables.lacks_bucket(shelf_id, DEFAULT_BUCKET@)
        },
        Phase::FillDefaultBucket { shelf_id, bucket_id, bottle } => {
            &&& lacks_database(tables, origin, bucket, db)
            &&& tables.is_shelf(shelf_id, origin)
            &&& lacks_from(tables, bucket_id, bottle)
        },
        Phase::FindBucket { shelf_id } => {
            &&& lacks_database(tables, origin, bucket, db)
            &&& tables.is_shelf(shelf_id, origin)
        },
        Phase::AddBucket { shelf_id } => {
            &&& lacks_database(tables, origin, bucket, db)
            &&& tables.is_shelf(shelf_id, origin)
            &&& tables.lacks_bucket(shelf_id, bucket)
        },
        Phase::FillBucket { bucket_id, bottle } => {
            &&& lacks_database(tables, origin, bucket, db)
            &&& tables.has_bucket(bucket_id, origin, bucket)
            &&& lacks_from(tables, bucket_id, bottle)
        },
        Phase::FindBottle { bucket_id } => {
            &&& lacks_database(tables, origin, bucket, db)
            &&& tables.has_bucket(bucket_id, origin, bucket)
        },
        Phase::AddIdbBottle { bucket_id } => {
            &&& lacks_database(tables, origin, bucket, db)
            &&& tables.has_bucket(bucket_id, origin, bucket)
            &&& tables.lacks_bottle(bucket_id, "idb"@)
        },
        Phase::AddDatabase { bottle_id } => {
            &&& lacks_database(tables, origin, bucket, db)
            &&& tables.has_idb_bottle(bottle_id, origin, bucket)
        },
        Phase::AddDirectory { database_id } => {
            &&& tables.has_database(database_id, origin, bucket, db)
            &&& forall|id: i64| !tables.is_directory(id, database_id)
        },
    }
}

/// An id that the next row of a table can get.
spec fn next_id<V>(table: Map<i64, V>, last: int) -> i64 {
    if table == Map::<i64, V>::empty() {
        1
    } else {
        (last + 1) as i64
    }
}

/// The id that the row of a phase can get.
spec fn new_id(phase: Phase, tables: Tables, last: int) -> i64 {
    match phase {
        Phase::AddShelf => next_id(tables.shelves, last),
        Phase::AddDefaultBucket { .. } | Phase::AddBucket { .. } => next_id(tables.buckets, last),
        Phase::AddDatabase { .. } => next_id(tables.databases, last),
        Phase::AddDirectory { .. } => next_id(tables.directories, last),
        _ => next_id(tables.bottles, last),
    }
}

/// The answer of tables that have room, and the tables after it.
spec fn reply_of(task: TaskModel, tables: Tables, last: int) -> (AnswerModel, Tables) {
    if is_lookup(task.phase) {
        if exists|id: i64| is_wanted(task, tables, id) {
            (AnswerModel::Found(Some(choose|id: i64| is_wanted(task, tables, id))), tables)
        } else {
            (AnswerModel::Found(None), tables)
        }
    } else {
        let id = new_id(task.phase, tables, last);
        (AnswerModel::Added(id), added(task, tables, id))
    }
}

/// A row that is no database does not make a database be there.
proof fn lemma_still_lacks(
    task: TaskModel,
    before: Tables,
    id: i64,
    origin: Seq<char>,
    bucket: Seq<char>,
    db: Seq<char>,
)
    requires
        before.valid(),
        can_add(task, before, id),
        !(task.phase is AddDatabase),
        lacks_database(before, origin, bucket, db),
    ensures
        lacks_database(added(task, before, id), origin, bucket, db),
{
    let after = added(task, before, id);
    assert forall|d: i64| !after.has_database(d, origin, bucket, db) by {
        if after.has_database(d, origin, bucket, db) {
            let o = choose|o: i64| #[trigger]
                after.has_idb_bottle(o, origin, bucket) && after.is_database(d, o, db);
            let b = choose|b: i64| #[trigger]
                after.has_bucket(b, origin, bucket) && after.is_bottle(o, b, "idb"@);
            let s = choose|s: i64| #[trigger]
                after.is_shelf(s, origin) && after.is_bucket(b, s, bucket);
            assert(before.databases.contains_key(d));
            assert(before.bottles.contains_key(o));
            assert(before.is_bottle(o, b, "idb"@));
            assert(before.buckets.contains_key(b));
            assert(before.is_bucket(b, s, bucket));
            assert(before.shelves.contains_key(s));
            assert(before.is_shelf(s, origin));
            assert(before.has_bucket(b, origin, bucket));
            assert(before.has_idb_bottle(o, origin, bucket));
            assert(before.is_database(d, o, db));
            assert(before.has_database(d, origin, bucket, db));
        }
    }
}

proof fn lemma_bottle_names()
    ensures
        Bottle::LocalStorage.name() != Bottle::FileSystem.name(),
        Bottle::LocalStorage.name() != Bottle::Cache.name(),
        Bottle::FileSystem.name() != Bottle::Cache.name(),
{
    reveal_strlit("ls");
    reveal_strlit("opfs");
    reveal_strlit("cache");
    assert("ls"@.len() == 2 && "opfs"@.len() == 4 && "cache"@.len() == 5);
}

/// The row of a phase can be added.
proof fn lemma_has_room(task: TaskModel, tables: Tables, last: int)
    requires
        task.goal is Directory,
        tables.valid(),
        is_clear(task, tables),
        all_ids_end_at(tables, last),
        1 <= last < i64::MAX,
        !is_lookup(task.phase),
    ensures
        can_add(task, tables, new_id(task.phase, tables, last)),
        all_ids_end_at(added(task, tables, new_id(task.phase, tables, last)), last + 1),
{
    let id = new_id(task.phase, tables, last);
    let (origin, bucket, db) = (task.origin(), task.bucket(), task.db());
    match task.phase {
        Phase::FillDefaultBucket { bottle, .. } => {
            assert(is_up_to(bottle, bottle));
        },
        Phase::FillBucket { bottle, .. } => {
            assert(is_up_to(bottle, bottle));
        },
        Phase::AddIdbBottle { bucket_id } => {
            assert(tables.has_bucket(bucket_id, origin, bucket));
        },
        Phase::AddDatabase { bottle_id } => {
            assert forall|other: i64| !tables.is_database(other, bottle_id, db) by {
                if tables.is_database(other, bottle_id, db) {
                    assert(tables.has_database(other, origin, bucket, db));
                }
            }
        },
        _ => {},
    }
}

/// What a bucket lacks beyond a bottle, it still lacks when that bottle is put in.
proof fn lemma_still_lacks_bottles(
    task: TaskModel,
    before: Tables,
    id: i64,
    bucket_id: i64,
    bottle: Bottle,
    next: Bottle,
)
    requires
        can_add(task, before, id),
        lacks_from(before, bucket_id, bottle),
        bottle.following() == Some(next),
        added(task, before, id).buckets == before.buckets,
        added(task, before, id).bottles == before.bottles.insert(
            id,
            BottleRow { bucket_id, identifier: bottle.name() },
        ),
    ensures
        lacks_from(added(task, before, id), bucket_id, next),
{
    let after = added(task, before, id);
    lemma_bottle_names();
    assert forall|other: Bottle| #[trigger] is_up_to(next, other) implies after.lacks_bottle(
        bucket_id,
        other.name(),
    ) by {
        assert(is_up_to(bottle, other));
        assert(other != bottle);
        assert(before.lacks_bottle(bucket_id, other.name()));
        assert forall|k: i64| !after.is_bottle(k, bucket_id, other.name()) by {
            assert(!before.is_bottle(k, bucket_id, other.name()));
        }
    }
}

/// Tables that have room answer without failing, and leave nothing in the way of what follows.
proof fn lemma_reply(task: TaskModel, tables: Tables, last: int)
    requires
        task.goal is Directory,
        tables.valid(),
        is_clear(task, tables),
        all_ids_end_at(tables, last),
        1 <= last < i64::MAX,
    ensures
        ({
            let (answer, after) = reply_of(task, tables, last);
            &&& answers(task, tables, answer, after)
            &&& after.valid()
            &&& all_ids_end_at(after, last + 1)
            &&& match task.turn(answer) {
                Turn::To(phase) => {
                    &&& is_clear(TaskModel { goal: task.goal, phase }, after)
                    &&& statements_left(phase) < statements_left(task.phase)
                },
                Turn::End(result) => result is Ok,
            }
        }),
{
    let (origin, bucket, db) = (task.origin(), task.bucket(), task.db());
    let (answer, after) = reply_of(task, tables, last);
    if is_lookup(task.phase) {
        if exists|id: i64| is_wanted(task, tables, id) {
            let id = choose|id: i64| is_wanted(task, tables, id);
            match task.phase {
                Phase::FindBucket { shelf_id } => {
                    assert(tables.is_shelf(shelf_id, origin));
                    assert(tables.has_bucket(id, origin, bucket));
                },
                Phase::FindBottle { bucket_id } => {
                    assert(tables.has_bucket(bucket_id, origin, bucket));
                    assert(tables.has_idb_bottle(id, origin, bucket));
                },
                _ => {},
            }
        } else {
            match task.phase {
                Phase::FindShelf => {
                    assert forall|id: i64| !tables.is_shelf(id, origin) by {
                        assert(!is_wanted(task, tables, id));
                    }
                },
                Phase::FindBucket { shelf_id } => {
                    assert forall|id: i64| !tables.is_bucket(id, shelf_id, bucket) by {
                        assert(!is_wanted(task, tables, id));
                    }
                },
                Phase::FindBottle { bucket_id } => {
                    assert forall|id: i64| !tables.is_bottle(id, bucket_id, "idb"@) by {
                        assert(!is_wanted(task, tables, id));
                    }
                },
                _ => {},
            }
        }
    } else {
        let id = new_id(task.phase, tables, last);
        lemma_has_room(task, tables, last);
        lemma_added(task, tables, id);
        if !(task.phase is AddDatabase || task.phase is AddDirectory) {
            lemma_still_lacks(task, tables, id, origin, bucket, db);
        }
        match task.phase {
            Phase::AddShelf => {
                assert(after.is_shelf(id, origin));
                assert forall|b: i64| !after.is_bucket(b, id, DEFAULT_BUCKET@) by {
                    if after.is_bucket(b, id, DEFAULT_BUCKET@) {
                        assert(tables.buckets.contains_key(b));
                    }
                }
            },
            Phase::AddDefaultBucket { shelf_id } => {
                assert(after.is_shelf(shelf_id, origin));
                lemma_new_bucket_is_empty(tables, after, id);
            },
            Phase::FillDefaultBucket { shelf_id, bucket_id, bottle } => {
                assert(after.is_shelf(shelf_id, origin));
                if let Some(next) = bottle.following() {
                    lemma_still_lacks_bottles(task, tables, id, bucket_id, bottle, next);
                }
            },
            Phase::AddBucket { shelf_id } => {
                assert(after.is_shelf(shelf_id, origin));
                assert(after.is_bucket(id, shelf_id, bucket));
                assert(after.has_bucket(id, origin, bucket));
                lemma_new_bucket_is_empty(tables, after, id);
            },
            Phase::FillBucket { bucket_id, bottle } => {
                let s = choose|s: i64| #[trigger]
                    tables.is_shelf(s, origin) && tables.is_bucket(bucket_id, s, bucket);
                assert(after.is_shelf(s, origin) && after.is_bucket(bucket_id, s, bucket));
                if let Some(next) = bottle.following() {
                    lemma_still_lacks_bottles(task, tables, id, bucket_id, bottle, next);
                }
            },
            Phase::AddIdbBottle { bucket_id } => {
                let s = choose|s: i64| #[trigger]
                    tables.is_shelf(s, origin) && tables.is_bucket(bucket_id, s, bucket);
                assert(after.is_shelf(s, origin) && after.is_bucket(bucket_id, s, bucket));
                assert(after.has_bucket(bucket_id, origin, bucket));
                assert(after.is_bottle(id, bucket_id, "idb"@));
                assert(after.has_idb_bottle(id, origin, bucket));
            },
            Phase::AddDatabase { bottle_id } => {
                let b = choose|b: i64| #[trigger]
                    tables.has_bucket(b, origin, bucket) && tables.is_bottle(bottle_id, b, "idb"@);
                let s = choose|s: i64| #[trigger]
                    tables.is_shelf(s, origin) && tables.is_bucket(b, s, bucket);
                assert(after.is_shelf(s, origin) && after.is_bucket(b, s, bucket));
                assert(after.has_bucket(b, origin, bucket));
                assert(after.is_bottle(bottle_id, b, "idb"@));
                assert(after.has_idb_bottle(bottle_id, origin, bucket));
                assert(after.is_database(id, bottle_id, db));
                assert(after.has_database(id, origin, bucket, db));
                assert forall|k: i64| !after.is_directory(k, id) by {
                    if after.is_directory(k, id) {
                        assert(tables.directories.contains_key(k));
                    }
                }
            },
            _ => {},
        }
    }
}

/// A bucket that was not there has no bottles.
proof fn lemma_new_bucket_is_empty(before: Tables, after: Tables, bucket_id: i64)
    requires
        before.valid(),
        !before.buckets.contains_key(bucket_id),
        after.buckets.contains_key(bucket_id),
        after.bottles == before.bottles,
    ensures
        lacks_from(after, bucket_id, Bottle::LocalStorage),
{
    assert forall|other: Bottle| #[trigger]
        is_up_to(Bottle::LocalStorage, other) implies after.lacks_bottle(
        bucket_id,
        other.name(),
    ) by {
        assert forall|k: i64| !after.is_bottle(k, bucket_id, other.name()) by {
            if after.is_bottle(k, bucket_id, other.name()) {
                assert(before.bottles.contains_key(k));
            }
        }
    }
}

proof fn lemma_success(task: TaskModel, tables: Tables, last: int) -> (trace: Seq<
    (AnswerModel, Tables),
>)
    requires
        task.goal is Directory,
        tables.valid(),
        is_clear(task, tables),
        all_ids_end_at(tables, last),
        1 <= last,
        last + statements_left(task.phase) <= i64::MAX,
    ensures
        outcome(task, tables, trace) matches Some((Ok(_), _)),
    decreases statements_left(task.phase),
{
    lemma_reply(task, tables, last);
    let (answer, after) = reply_of(task, tables, last);
    match task.turn(answer) {
        Turn::To(phase) => {
            let rest = lemma_success(TaskModel { goal: task.goal, phase }, after, last + 1);
            let trace = seq![(answer, after)] + rest;
            assert(trace.skip(1) =~= rest);
            assert(trace[0] == (answer, after));
            trace
        },
        Turn::End(_) => seq![(answer, after)],
    }
}

/// A directory can be made for every database that there is none for, whatever shelves, buckets and
/// bottles there are already: with statements that do not fail for reasons outside of the tables,
/// the task succeeds, and the path of the directory is noted for the database.
pub proof fn law_new_database_can_be_registered(
    tables: Tables,
    origin: Seq<char>,
    bucket: Seq<char>,
    db: Seq<char>,
    last: int,
)
    requires
        tables.valid(),
        lacks_database(tables, origin, bucket, db),
        all_ids_end_at(tables, last),
        1 <= last,
        last + 15 <= i64::MAX,
    ensures
        exists|trace: Seq<(AnswerModel, Tables)>|
            is_success(origin, bucket, db, #[trigger] outcome(
                new_directory(origin, bucket, db),
                tables,
                trace,
            )),
{
    let task = new_directory(origin, bucket, db);
    let trace = lemma_success(task, tables, last);
    law_made_directory_is_kept(tables, origin, bucket, db, trace);
    assert(is_success(origin, bucket, db, outcome(task, tables, trace)));
}

/// Whether a task that makes a directory succeeded.
pub open spec fn is_success(
    origin: Seq<char>,
    bucket: Seq<char>,
    db: Seq<char>,
    result: Option<(Result<ProductModel, Seq<char>>, Tables)>,
) -> bool {
    let path = "storage/"@ + origin + "/"@ + bucket + "/"@ + db;
    &&& result matches Some((Ok(product), after))
    &&& product == ProductModel::Directory(path)
    &&& after.valid()
    &&& after.notes(origin, bucket, db, path)
}

/// Databases of different names in one bucket do not stand in each other's way: once one is
/// registered, the other still can be.
pub proof fn law_databases_do_not_exclude_each_other(
    tables: Tables,
    origin: Seq<char>,
    bucket: Seq<char>,
    db: Seq<char>,
    other: Seq<char>,
    trace: Seq<(AnswerModel, Tables)>,
)
    requires
        tables.valid(),
        lacks_database(tables, origin, bucket, other),
        db != other,
        outcome(new_directory(origin, bucket, db), tables, trace) is Some,
    ensures
        lacks_database(
            (outcome(new_directory(origin, bucket, db), tables, trace)->0).1,
            origin,
            bucket,
            other,
        ),
{
    lemma_still_lacks_other(new_directory(origin, bucket, db), tables, trace, other);
}

proof fn lemma_still_lacks_other(
    task: TaskModel,
    tables: Tables,
    trace: Seq<(AnswerModel, Tables)>,
    other: Seq<char>,
)
    requires
        task.goal is Directory,
        tables.valid(),
        lacks_database(tables, task.origin(), task.bucket(), other),
        task.db() != other,
        outcome(task, tables, trace) is Some,
    ensures
        lacks_database(
            (outcome(task, tables, trace)->0).1,
            task.origin(),
            task.bucket(),
            other,
        ),
    decreases trace.len(),
{
    let (answer, after) = trace[0];
    let (origin, bucket) = (task.origin(), task.bucket());
    if let AnswerModel::Added(id) = answer {
        lemma_added(task, tables, id);
        if task.phase is AddDatabase {
            assert forall|d: i64| !after.has_database(d, origin, bucket, other) by {
                if after.has_database(d, origin, bucket, other) {
                    let o = choose|o: i64| #[trigger]
                        after.has_idb_bottle(o, origin, bucket) && after.is_database(d, o, other);
                    assert(d != id);
                    assert(tables.is_database(d, o, other));
                    let b = choose|b: i64| #[trigger]
                        after.has_bucket(b, origin, bucket) && after.is_bottle(o, b, "idb"@);
                    let s = choose|s: i64| #[trigger]
                        after.is_shelf(s, origin) && after.is_bucket(b, s, bucket);
                    assert(tables.is_shelf(s, origin) && tables.is_bucket(b, s, bucket));
                    assert(tables.has_bucket(b, origin, bucket));
                    assert(tables.is_bottle(o, b, "idb"@));
                    assert(tables.has_idb_bottle(o, origin, bucket));
                    assert(tables.has_database(d, origin, bucket, other));
                }
            }
        } else {
            lemma_still_lacks(task, tables, id, origin, bucket, other);
        }
    }
    match task.turn(answer) {
        Turn::To(phase) => {
            lemma_still_lacks_other(
                TaskModel { goal: task.goal, phase },
                after,
                trace.skip(1),
                other,
            );
        },
        Turn::End(_) => {},
    }
}

} // verus!

//! Credentials in an SQLite file.
use crate::net::http_state::auth_cache::{
    kept, AuthCache, AuthCacheEntry, AuthCacheModel, AuthCall, AuthEntryModel,
};
use crate::net::http_state::engines::shared::{
    db_file, file_in, file_or_memory, init_in, open_steps, opening, transacted, OpenStep,
    OpenStepModel,
};
use crate::sql::{
    plain, text_in, text_value, with_one, with_three, Statement, StatementModel, ValueModel,
};
use crate::text::texts;
use vstd::prelude::*;

verus! {

/// The file that the credentials are kept in.
pub const DB_FILENAME: &'static str = "auth_cache.sqlite";

/// Makes the table.
pub const CREATE_TABLE: &'static str = "CREATE TABLE IF NOT EXISTS auth_entries (
                origin TEXT PRIMARY KEY,
                user_name TEXT NOT NULL,
                password TEXT NOT NULL
            );";

/// Reads the table.
pub const SELECT_ALL: &'static str = "SELECT origin, user_name, password FROM auth_entries";

/// Adds a row, or changes the one with the same origin.
pub const UPSERT: &'static str = "INSERT INTO auth_entries (origin, user_name, password)
             VALUES (?, ?, ?)
             ON CONFLICT(origin) DO UPDATE SET
                 user_name = excluded.user_name,
                 password = excluded.password";

/// Removes the row of an origin.
pub const DELETE: &'static str = "DELETE FROM auth_entries WHERE origin = ?";

/// Empties the table.
pub const DELETE_ALL: &'static str = "DELETE FROM auth_entries";

/// Adds a row.
pub const INSERT: &'static str =
    "INSERT INTO auth_entries (origin, user_name, password) VALUES (?, ?, ?)";

/// A change of the table.
pub enum AuthChange {
    Upsert { origin: String, entry: AuthCacheEntry },
    Delete { origin: String },
    DeleteAll,
    Insert { origin: String, entry: AuthCacheEntry },
}

/// What an `AuthChange` stands for.
#[allow(inconsistent_fields)]
pub enum AuthChangeModel {
    Upsert { origin: Seq<char>, entry: AuthEntryModel },
    Delete { origin: Seq<char> },
    DeleteAll,
    Insert { origin: Seq<char>, entry: AuthEntryModel },
}

impl View for AuthChange {
    type V = AuthChangeModel;

    open spec fn view(&self) -> AuthChangeModel {
        match self {
            AuthChange::Upsert { origin, entry } => AuthChangeModel::Upsert {
                origin: origin@,
                entry: entry@,
            },
            AuthChange::Delete { origin } => AuthChangeModel::Delete { origin: origin@ },
            AuthChange::DeleteAll => AuthChangeModel::DeleteAll,
            AuthChange::Insert { origin, entry } => AuthChangeModel::Insert {
                origin: origin@,
                entry: entry@,
            },
        }
    }
}

/// The rows of the table, by origin.
pub type AuthTable = Map<Seq<char>, AuthEntryModel>;

impl AuthChangeModel {
    /// The statement that makes the change.
    pub open spec fn statement(self) -> StatementModel {
        match self {
            AuthChangeModel::Upsert { origin, entry } => StatementModel {
                sql: UPSERT@,
                params: seq![
                    ValueModel::Text(origin),
                    ValueModel::Text(entry.user_name),
                    ValueModel::Text(entry.password),
                ],
            },
            AuthChangeModel::Delete { origin } => StatementModel {
                sql: DELETE@,
                params: seq![ValueModel::Text(origin)],
            },
            AuthChangeModel::DeleteAll => StatementModel { sql: DELETE_ALL@, params: Seq::empty() },
            AuthChangeModel::Insert { origin, entry } => StatementModel {
                sql: INSERT@,
                params: seq![
                    ValueModel::Text(origin),
                    ValueModel::Text(entry.user_name),
                    ValueModel::Text(entry.password),
                ],
            },
        }
    }

    /// The table after the change. A row is not added where there is one with the same origin.
    pub open spec fn apply(self, table: AuthTable) -> Option<AuthTable> {
        match self {
            AuthChangeModel::Upsert { origin, entry } => Some(table.insert(origin, entry)),
            AuthChangeModel::Delete { origin } => Some(table.remove(origin)),
            AuthChangeModel::DeleteAll => Some(Map::empty()),
            AuthChangeModel::Insert { origin, entry } => if table.contains_key(origin) {
                None
            } else {
                Some(table.insert(origin, entry))
            },
        }
    }
}

impl AuthChange {
    /// The statement that makes the change.
    pub fn statement(&self) -> (r: Statement)
        ensures
            r@ == self@.statement(),
    {
        match self {
            AuthChange::Upsert { origin, entry } => with_three(
                UPSERT,
                text_value(origin.as_str()),
                text_value(entry.user_name.as_str()),
                text_value(entry.password.as_str()),
            ),
            AuthChange::Delete { origin } => with_one(DELETE, text_value(origin.as_str())),
            AuthChange::DeleteAll => plain(DELETE_ALL),
            AuthChange::Insert { origin, entry } => with_three(
                INSERT,
                text_value(origin.as_str()),
                text_value(entry.user_name.as_str()),
                text_value(entry.password.as_str()),
            ),
        }
    }
}

/// What a list of changes stands for.
pub open spec fn changes(list: Seq<AuthChange>) -> Seq<AuthChangeModel> {
    list.map_values(|c: AuthChange| c@)
}

/// The table after changes that are made one after another, or nothing where one of them fails.
pub open spec fn apply_all(list: Seq<AuthChangeModel>, table: AuthTable) -> Option<AuthTable>
    decreases list.len(),
{
    if list.len() == 0 {
        Some(table)
    } else {
        match apply_all(list.drop_last(), table) {
            Some(before) => list.last().apply(before),
            None => None,
        }
    }
}

/// A row of the table.
pub struct AuthRow {
    pub origin: String,
    pub user_name: String,
    pub password: String,
}

/// What an `AuthRow` stands for.
pub struct AuthRowModel {
    pub origin: Seq<char>,
    pub entry: AuthEntryModel,
}

impl View for AuthRow {
    type V = AuthRowModel;

    open spec fn view(&self) -> AuthRowModel {
        AuthRowModel {
            origin: self.origin@,
            entry: AuthEntryModel { user_name: self.user_name@, password: self.password@ },
        }
    }
}

/// What a list of rows stands for.
pub open spec fn rows_of(list: Seq<AuthRow>) -> Seq<AuthRowModel> {
    list.map_values(|row: AuthRow| row@)
}

/// The credentials in some rows. Of two rows with the same origin the later one counts.
pub open spec fn loaded(rows: Seq<AuthRowModel>) -> AuthTable
    decreases rows.len(),
{
    if rows.len() == 0 {
        Map::empty()
    } else {
        loaded(rows.drop_last()).insert(rows.last().origin, rows.last().entry)
    }
}

/// Whether these are the rows of a table, each once.
pub open spec fn lists(rows: Seq<AuthRowModel>, table: AuthTable) -> bool {
    &&& forall|i: int, j: int| 0 <= i < j < rows.len() ==> rows[i].origin != rows[j].origin
    &&& forall|i: int|
        0 <= i < rows.len() ==> table.contains_key((#[trigger] rows[i]).origin)
            && table[rows[i].origin] == rows[i].entry
    &&& forall|origin: Seq<char>| #[trigger]
        table.contains_key(origin) ==> exists|i: int|
            0 <= i < rows.len() && (#[trigger] rows[i]).origin == origin
}

/// The engine.
pub struct SqliteAuthCacheEngine {}

impl SqliteAuthCacheEngine {
    /// The steps that open the engine, in a directory or in memory.
    pub fn new(db_dir: Option<&Vec<String>>) -> (r: Vec<OpenStep>)
        ensures
            open_steps(r@) == opening(file_or_memory(db_dir, DB_FILENAME@)).push(
                OpenStepModel::Create(CREATE_TABLE@),
            ),
    {
        let mut list = init_in(db_dir, DB_FILENAME);
        let ghost before = open_steps(list@);
        list.push(OpenStep::Create(CREATE_TABLE));
        assert(open_steps(list@) =~= before.push(OpenStepModel::Create(CREATE_TABLE@)));
        list
    }

    /// The file of the engine in a directory.
    pub fn db_path(db_dir: &Vec<String>) -> (r: Vec<String>)
        ensures
            texts(r@) == file_in(texts(db_dir@), DB_FILENAME@),
    {
        db_file(db_dir, DB_FILENAME)
    }

    /// The statement that reads everything.
    pub fn select() -> (r: Statement)
        ensures
            r@ == (StatementModel { sql: SELECT_ALL@, params: Seq::empty() }),
    {
        plain(SELECT_ALL)
    }

    /// The credentials in the rows that were read.
    pub fn load(rows: Vec<AuthRow>) -> (r: AuthCache)
        ensures
            r@ == AuthCacheModel::initial().with(loaded(rows_of(rows@))),
    {
        let mut data = AuthCache::default();
        let mut i: usize = 0;
        while i < rows.len()
            invariant
                i <= rows@.len(),
                data@ == AuthCacheModel::initial().with(loaded(rows_of(rows@).take(i as int))),
            decreases rows@.len() - i,
        {
            let row = &rows[i];
            let entry = AuthCacheEntry {
                user_name: row.user_name.clone(),
                password: row.password.clone(),
            };
            data.insert(row.origin.clone(), entry);
            assert(rows_of(rows@).take(i + 1).drop_last() =~= rows_of(rows@).take(i as int));
            i += 1;
        }
        assert(rows_of(rows@).take(i as int) =~= rows_of(rows@));
        data
    }

    /// The change that keeps the credentials for an origin.
    pub fn set(origin: &str, entry: &AuthCacheEntry) -> (r: AuthChange)
        ensures
            r@ == (AuthChangeModel::Upsert { origin: origin@, entry: entry@ }),
    {
        AuthChange::Upsert { origin: origin.to_owned(), entry: entry.clone() }
    }

    /// The change that forgets the credentials for an origin.
    pub fn delete(origin: &str) -> (r: AuthChange)
        ensures
            r@ == (AuthChangeModel::Delete { origin: origin@ }),
    {
        AuthChange::Delete { origin: origin.to_owned() }
    }

    /// The change that forgets everything.
    pub fn clear() -> (r: AuthChange)
        ensures
            r@ == AuthChangeModel::DeleteAll,
    {
        AuthChange::DeleteAll
    }

    /// The changes that keep exactly `data`, to be made in one transaction, which ends as
    /// `transaction_end` tells it: the table is emptied,
    /// then each entry is added, once and in no particular order.
    pub fn save(data: &AuthCache) -> (r: Vec<AuthChange>)
        ensures
            saves(changes(r@), data@.entries),
    {
        let mut list: Vec<AuthChange> = Vec::new();
        list.push(AuthChange::DeleteAll);
        let n = data.entries.len();
        let ghost order = data.entries.order();
        let mut i: usize = 0;
        while i < n
            invariant
                i <= n,
                n == order.len(),
                order == data.entries.order(),
                changes(list@).len() == i + 1,
                changes(list@)[0] == AuthChangeModel::DeleteAll,
                forall|j: int|
                    0 <= j < i ==> (#[trigger] changes(list@)[j + 1]) == (AuthChangeModel::Insert {
                        origin: order[j],
                        entry: data@.entries[order[j]],
                    }) && data@.entries.contains_key(order[j]),
            decreases n - i,
        {
            let (origin, entry) = data.entries.entry(i);
            let ghost before = changes(list@);
            list.push(AuthChange::Insert { origin: origin.clone(), entry: entry.clone() });
            assert(changes(list@) =~= before.push(list@.last()@));
            i += 1;
        }
        proof {
            let rows = order.map_values(
                |origin: Seq<char>| AuthRowModel { origin, entry: data@.entries[origin] },
            );
            assert forall|k: int| 0 <= k < rows.len() implies data@.entries.contains_key(
                (#[trigger] rows[k]).origin,
            ) by {
                assert(changes(list@)[k + 1] is Insert);
            }
            assert forall|origin: Seq<char>| #[trigger]
                data@.entries.contains_key(origin) implies exists|k: int|
                0 <= k < rows.len() && (#[trigger] rows[k]).origin == origin by {
                assert(data.entries@.contains_key(origin));
                assert(order.contains(origin));
                let k = choose|k: int| 0 <= k < order.len() && order[k] == origin;
                assert(rows[k].origin == origin);
            }
            assert(lists(rows, data@.entries));
            assert forall|k: int| 0 <= k < changes(list@).len() implies #[trigger] changes(
                list@,
            )[k] == insertion(rows)[k] by {
                if k > 0 {
                    assert(changes(list@)[(k - 1) + 1] is Insert);
                    assert(insertion(rows)[k] == (AuthChangeModel::Insert {
                        origin: rows[k - 1].origin,
                        entry: rows[k - 1].entry,
                    }));
                }
            }
            assert(changes(list@) =~= insertion(rows));
        }
        list
    }
}

/// The changes that empty the table and add these rows.
pub open spec fn insertion(rows: Seq<AuthRowModel>) -> Seq<AuthChangeModel> {
    seq![AuthChangeModel::DeleteAll] + rows.map_values(
        |row: AuthRowModel| AuthChangeModel::Insert { origin: row.origin, entry: row.entry },
    )
}

/// Whether these changes empty the table and add each of the entries, in some order.
pub open spec fn saves(list: Seq<AuthChangeModel>, entries: AuthTable) -> bool {
    exists|rows: Seq<AuthRowModel>| #[trigger] lists(rows, entries) && list == insertion(rows)
}

proof fn lemma_loaded(rows: Seq<AuthRowModel>, i: int)
    requires
        forall|i: int, j: int| 0 <= i < j < rows.len() ==> rows[i].origin != rows[j].origin,
    ensures
        forall|origin: Seq<char>| #[trigger]
            loaded(rows).contains_key(origin) ==> exists|k: int|
                0 <= k < rows.len() && (#[trigger] rows[k]).origin == origin,
        0 <= i < rows.len() ==> loaded(rows).contains_key(rows[i].origin)
            && loaded(rows)[rows[i].origin] == rows[i].entry,
    decreases rows.len(),
{
    if rows.len() > 0 {
        let init = rows.drop_last();
        lemma_loaded(init, i);
        assert forall|origin: Seq<char>| #[trigger]
            loaded(rows).contains_key(origin) implies exists|k: int|
            0 <= k < rows.len() && (#[trigger] rows[k]).origin == origin by {
            if origin == rows.last().origin {
                assert(rows[rows.len() - 1].origin == origin);
            } else {
                assert(loaded(init).contains_key(origin));
                let k = choose|k: int| 0 <= k < init.len() && (#[trigger] init[k]).origin == origin;
                assert(rows[k].origin == origin);
            }
        }
        if 0 <= i < rows.len() - 1 {
            assert(init[i] == rows[i]);
            assert(rows[i].origin != rows[rows.len() - 1].origin);
        }
    }
}

/// What is loaded from the rows of a table is the table, in whatever order the rows come.
pub proof fn law_load_reads_the_table(rows: Seq<AuthRowModel>, table: AuthTable)
    requires
        lists(rows, table),
    ensures
        loaded(rows) == table,
{
    assert forall|origin: Seq<char>|
        (#[trigger] loaded(rows).contains_key(origin)) == table.contains_key(origin) && (
        table.contains_key(origin) ==> loaded(rows)[origin] == table[origin]) by {
        if table.contains_key(origin) {
            let i = choose|i: int| 0 <= i < rows.len() && (#[trigger] rows[i]).origin == origin;
            lemma_loaded(rows, i);
        } else if loaded(rows).contains_key(origin) {
            lemma_loaded(rows, 0);
        }
    }
    assert(loaded(rows) =~= table);
}

proof fn lemma_insertion(rows: Seq<AuthRowModel>, table: AuthTable)
    requires
        forall|i: int, j: int| 0 <= i < j < rows.len() ==> rows[i].origin != rows[j].origin,
    ensures
        apply_all(insertion(rows), table) == Some(loaded(rows)),
    decreases rows.len(),
{
    let list = insertion(rows);
    if rows.len() == 0 {
        assert(list =~= seq![AuthChangeModel::DeleteAll]);
        assert(list.drop_last() =~= Seq::empty());
        assert(apply_all(list.drop_last(), table) == Some(table));
    } else {
        let init = rows.drop_last();
        assert(list.drop_last() =~= insertion(init));
        lemma_insertion(init, table);
        lemma_loaded(init, 0);
        assert(list.last() == (AuthChangeModel::Insert {
            origin: rows.last().origin,
            entry: rows.last().entry,
        }));
        if loaded(init).contains_key(rows.last().origin) {
            let k = choose|k: int|
                0 <= k < init.len() && (#[trigger] init[k]).origin == rows.last().origin;
            assert(rows[k].origin != rows[rows.len() - 1].origin);
        }
    }
}

/// Whatever was in the table, after a save it holds exactly what was saved, and none of the
/// changes fails.
pub proof fn law_save_fills_the_table(
    list: Seq<AuthChangeModel>,
    entries: AuthTable,
    table: AuthTable,
)
    requires
        saves(list, entries),
    ensures
        apply_all(list, table) == Some(entries),
{
    let rows = choose|rows: Seq<AuthRowModel>| #[trigger]
        lists(rows, entries) && list == insertion(rows);
    lemma_insertion(rows, table);
    law_load_reads_the_table(rows, entries);
}

/// What was kept for an origin is what is loaded for it, in whatever order the rows come; the
/// other origins are loaded as they were kept before.
pub proof fn law_set_then_load(
    table: AuthTable,
    origin: Seq<char>,
    entry: AuthEntryModel,
    rows: Seq<AuthRowModel>,
)
    requires
        (AuthChangeModel::Upsert { origin, entry }).apply(table) matches Some(after) && lists(
            rows,
            after,
        ),
    ensures
        loaded(rows) == table.insert(origin, entry),
{
    law_load_reads_the_table(rows, table.insert(origin, entry));
}

/// The changes keep the table to what an engine is taken to keep: each call that succeeds does to
/// the one what its change does to the other.
pub proof fn law_changes_follow_the_calls(
    calls: Seq<AuthCall>,
    origin: Seq<char>,
    entry: AuthEntryModel,
    data: AuthCacheModel,
    list: Seq<AuthChangeModel>,
)
    requires
        saves(list, data.entries),
    ensures
        (AuthChangeModel::Upsert { origin, entry }).apply(kept(calls)) == Some(
            kept(calls.push(AuthCall::Put { origin, entry, ok: true })),
        ),
        (AuthChangeModel::Delete { origin }).apply(kept(calls)) == Some(
            kept(calls.push(AuthCall::Delete { origin, ok: true })),
        ),
        AuthChangeModel::DeleteAll.apply(kept(calls)) == Some(
            kept(calls.push(AuthCall::Clear { ok: true })),
        ),
        apply_all(list, kept(calls)) == Some(kept(calls.push(AuthCall::Save { data, ok: true }))),
{
    assert(calls.push(AuthCall::Put { origin, entry, ok: true }).drop_last() =~= calls);
    assert(calls.push(AuthCall::Delete { origin, ok: true }).drop_last() =~= calls);
    law_save_fills_the_table(list, data.entries, kept(calls));
}

/// A save is all or nothing: where it succeeds, the table holds exactly what was saved, and where
/// anything fails, it is as it was before. It succeeds where neither a change nor the commit fails
/// for a reason outside of the table.
pub proof fn law_save_is_all_or_nothing(
    list: Seq<AuthChangeModel>,
    entries: AuthTable,
    table: AuthTable,
    failed: bool,
    committed: bool,
)
    requires
        saves(list, entries),
    ensures
        ({
            let (after, ok) = transacted(table, apply_all(list, table), failed, committed);
            &&& ok <==> !failed && committed
            &&& ok ==> after == entries
            &&& !ok ==> after == table
        }),
{
    law_save_fills_the_table(list, entries, table);
}

/// The row that the parameters of a statement make, if they go to the columns for the origin, the
/// user name and the password, in this order, which is the one in which the statements list them.
pub open spec fn row_in(params: Seq<ValueModel>) -> AuthRowModel {
    AuthRowModel {
        origin: text_in(params[0]),
        entry: AuthEntryModel { user_name: text_in(params[1]), password: text_in(params[2]) },
    }
}

/// Credentials are written under their origin: the row that the statement makes is the one that is
/// read back for the origin, with the same user name and the same password.
pub proof fn law_written_credentials_are_read_back(
    origin: Seq<char>,
    entry: AuthEntryModel,
    table: AuthTable,
)
    ensures
        ({
            let upsert = AuthChangeModel::Upsert { origin, entry };
            let insert = AuthChangeModel::Insert { origin, entry };
            let written = row_in(upsert.statement().params);
            &&& upsert.statement().params.len() == 3
            &&& insert.statement().params == upsert.statement().params
            &&& written.origin == origin
            &&& written.entry.user_name == entry.user_name
            &&& written.entry.password == entry.password
            &&& loaded(seq![written]).contains_key(origin)
            &&& loaded(seq![written])[origin] == entry
            &&& upsert.apply(table) == Some(table.insert(written.origin, written.entry))
            &&& insert.apply(table) matches Some(after) ==> after == table.insert(
                written.origin,
                written.entry,
            )
            &&& insert.apply(table) is None <==> table.contains_key(written.origin)
        }),
{
    let written = row_in((AuthChangeModel::Upsert { origin, entry }).statement().params);
    assert(seq![written].drop_last() =~= Seq::empty());
}

/// To forget credentials binds the one origin whose row goes, and no other row does.
pub proof fn law_forgetting_binds_the_origin(
    origin: Seq<char>,
    table: AuthTable,
    other: Seq<char>,
)
    ensures
        ({
            let change = AuthChangeModel::Delete { origin };
            let bound = change.statement().params;
            &&& bound == seq![ValueModel::Text(origin)]
            &&& change.apply(table) matches Some(after) && (after.contains_key(other)
                <==> table.contains_key(other) && other != text_in(bound[0]))
            &&& AuthChangeModel::DeleteAll.statement().params.len() == 0
            &&& AuthChangeModel::DeleteAll.apply(table) == Some(Map::<Seq<char>, AuthEntryModel>::empty())
        }),
{
}

/// What is run for each change, and the order in which its parameters are listed.
pub proof fn law_statements_are_these(origin: Seq<char>, entry: AuthEntryModel)
    ensures
        (AuthChangeModel::Upsert { origin, entry }).statement().sql == "INSERT INTO auth_entries (origin, user_name, password)
             VALUES (?, ?, ?)
             ON CONFLICT(origin) DO UPDATE SET
                 user_name = excluded.user_name,
                 password = excluded.password"@,
        (AuthChangeModel::Insert { origin, entry }).statement().sql == "INSERT INTO auth_entries (origin, user_name, password) VALUES (?, ?, ?)"@,
        (AuthChangeModel::Delete { origin }).statement().sql == "DELETE FROM auth_entries WHERE origin = ?"@,
        AuthChangeModel::DeleteAll.statement().sql == "DELETE FROM auth_entries"@,
        SELECT_ALL@ == "SELECT origin, user_name, password FROM auth_entries"@,
        CREATE_TABLE@ == "CREATE TABLE IF NOT EXISTS auth_entries (
                origin TEXT PRIMARY KEY,
                user_name TEXT NOT NULL,
                password TEXT NOT NULL
            );"@,
        DB_FILENAME@ == "auth_cache.sqlite"@,
{
}

/// A row stands for its own columns, and a change for the origin and the credentials that it names.
pub proof fn law_rows_and_changes_stand_for_their_fields(
    row: AuthRow,
    origin: String,
    entry: AuthCacheEntry,
)
    ensures
        row@.origin == row.origin@,
        row@.entry.user_name == row.user_name@,
        row@.entry.password == row.password@,
        (AuthChange::Upsert { origin, entry })@ == (AuthChangeModel::Upsert {
            origin: origin@,
            entry: entry@,
        }),
        (AuthChange::Insert { origin, entry })@ == (AuthChangeModel::Insert {
            origin: origin@,
            entry: entry@,
        }),
        (AuthChange::Delete { origin })@ == (AuthChangeModel::Delete { origin: origin@ }),
{
}

} // verus!

//! Cookies in an SQLite file.
use crate::net::cookie::{ServoCookie, ServoCookieModel, NANOS};
use crate::net::cookie_storage::{has_distinct_slots, stored, CookieStorage, StorageModel};
use crate::net::http_state::engines::buckets::{
    filled, flat, has_distinct_keys, lemma_filled, lemma_flat, lemma_flat_is_distinct,
    lemma_rest_is_distinct,
};
use crate::net::http_state::engines::shared::{
    db_file, file_in, file_or_memory, init_in, open_steps, opening, transacted, OpenStep,
    OpenStepModel,
};
use crate::net::http_state::cookie_jar::{kept, JarCall};
use crate::sql::{
    flag, integer_or_null, optional_integer, plain, text_in, text_value, values, with_one,
    Statement, StatementModel, Value, ValueModel,
};
use crate::text::texts;
use vstd::prelude::*;

verus! {

/// The file that the cookies are kept in.
pub const DB_FILENAME: &'static str = "cookie_jar.sqlite";

/// Makes the table.
pub const CREATE_TABLE: &'static str = "CREATE TABLE IF NOT EXISTS cookies (
                bucket_domain TEXT NOT NULL,
                name TEXT NOT NULL,
                cookie_domain TEXT NOT NULL,
                path TEXT NOT NULL,
                persistent INTEGER NOT NULL,
                expiry_time INTEGER NULL,
                payload TEXT NOT NULL,
                PRIMARY KEY (bucket_domain, name, cookie_domain, path)
            );";

/// Makes the index.
pub const CREATE_INDEX: &'static str =
    "CREATE INDEX IF NOT EXISTS cookies_bucket_domain_idx ON cookies(bucket_domain);";

/// Removes the rows that have ended.
pub const DELETE_EXPIRED: &'static str =
    "DELETE FROM cookies WHERE expiry_time IS NOT NULL AND expiry_time <= unixepoch()";

/// Reads the table.
pub const SELECT_ALL: &'static str =
    "SELECT payload FROM cookies ORDER BY bucket_domain, name, path";

/// Adds a row, or changes the one with the same key.
pub const UPSERT: &'static str = "INSERT INTO cookies (
                bucket_domain,
                name,
                cookie_domain,
                path,
                persistent,
                expiry_time,
                payload
            ) VALUES (?, ?, ?, ?, ?, ?, ?)
            ON CONFLICT(bucket_domain, name, cookie_domain, path) DO UPDATE SET
                persistent = excluded.persistent,
                expiry_time = excluded.expiry_time,
                payload = excluded.payload";

/// Removes a row.
pub const DELETE: &'static str = "DELETE FROM cookies
             WHERE bucket_domain = ? AND name = ? AND cookie_domain = ? AND path = ?";

/// Removes the rows of a registrable domain.
pub const DELETE_FOR_REG_HOST: &'static str = "DELETE FROM cookies WHERE bucket_domain = ?";

/// Removes the rows that do not outlive the session.
pub const DELETE_SESSION: &'static str = "DELETE FROM cookies WHERE persistent = 0";

/// Empties the table.
pub const DELETE_ALL: &'static str = "DELETE FROM cookies";

/// Adds a row.
pub const INSERT: &'static str = "INSERT INTO cookies (
                bucket_domain,
                name,
                cookie_domain,
                path,
                persistent,
                expiry_time,
                payload
            ) VALUES (?, ?, ?, ?, ?, ?, ?)";

/// The whole seconds since the epoch at a time, rounded towards the epoch. Those that do not fit
/// are as far away as can be told.
pub open spec fn unix_seconds(time: i128) -> i64 {
    let seconds = if time >= 0 {
        time as int / NANOS as int
    } else {
        -(-(time as int) / NANOS as int)
    };
    if seconds > i64::MAX {
        i64::MAX
    } else if seconds < -i64::MAX {
        (-i64::MAX) as i64
    } else {
        seconds as i64
    }
}

/// The whole seconds since the epoch at a time, if there is one.
pub open spec fn optional_seconds(time: Option<i128>) -> Option<i64> {
    match time {
        Some(time) => Some(unix_seconds(time)),
        None => None,
    }
}

/// The whole seconds since the epoch at a time, if there is one.
pub fn system_time_to_unix(time: Option<i128>) -> (r: Option<i64>)
    ensures
        r == optional_seconds(time),
{
    let time: i128 = match time {
        Some(time) => time,
        None => {
            return None;
        },
    };
    let last: i128 = 0x7fff_ffff_ffff_ffff;
    let end: i128 = last * NANOS;
    if time >= end {
        assert(time as int / NANOS as int >= last) by (nonlinear_arith)
            requires
                time >= end,
                end == last * NANOS,
                NANOS == 1_000_000_000,
        ;
        return Some(i64::MAX);
    }
    if time <= -end {
        assert((-(time as int)) / NANOS as int >= last) by (nonlinear_arith)
            requires
                time <= -end,
                end == last * NANOS,
                NANOS == 1_000_000_000,
        ;
        return Some(-i64::MAX);
    }
    if time >= 0 {
        let seconds: i128 = time / NANOS;
        Some(seconds as i64)
    } else {
        let seconds: i128 = (-time) / NANOS;
        Some(-(seconds as i64))
    }
}

/// A change of the table.
pub enum JarChange {
    DeleteSession,
    DeleteExpired,
    Upsert { bucket_domain: String, cookie: ServoCookie },
    Delete { bucket_domain: String, name: String, cookie_domain: String, path: String },
    DeleteForRegHost { reg_host: String },
    DeleteAll,
    Insert { bucket_domain: String, cookie: ServoCookie },
}

/// What a `JarChange` stands for.
#[allow(inconsistent_fields)]
pub enum JarChangeModel {
    DeleteSession,
    DeleteExpired,
    Upsert { bucket_domain: Seq<char>, cookie: ServoCookieModel },
    Delete { key: JarKey },
    DeleteForRegHost { reg_host: Seq<char> },
    DeleteAll,
    Insert { bucket_domain: Seq<char>, cookie: ServoCookieModel },
}

/// What tells one row from another.
pub struct JarKey {
    pub bucket_domain: Seq<char>,
    pub name: Seq<char>,
    pub cookie_domain: Seq<char>,
    pub path: Seq<char>,
}

/// The other columns of a row. The payload is a text that stands for the cookie.
pub struct JarRowModel {
    pub persistent: i64,
    pub expiry_time: Option<i64>,
    pub cookie: ServoCookieModel,
}

/// The rows of the table, by key.
pub type JarTable = Map<JarKey, JarRowModel>;

/// The key of a cookie under a registrable domain.
pub open spec fn key_of(bucket_domain: Seq<char>, cookie: ServoCookieModel) -> JarKey {
    JarKey {
        bucket_domain,
        name: cookie.cookie.name,
        cookie_domain: cookie.cookie.domain_text(),
        path: cookie.cookie.path_text(),
    }
}

/// The row that keeps a cookie.
pub open spec fn row_of(cookie: ServoCookieModel) -> JarRowModel {
    JarRowModel {
        persistent: if cookie.persistent {
            1i64
        } else {
            0i64
        },
        expiry_time: optional_seconds(cookie.expiry_time),
        cookie,
    }
}

impl View for JarChange {
    type V = JarChangeModel;

    open spec fn view(&self) -> JarChangeModel {
        match self {
            JarChange::DeleteSession => JarChangeModel::DeleteSession,
            JarChange::DeleteExpired => JarChangeModel::DeleteExpired,
            JarChange::Upsert { bucket_domain, cookie } => JarChangeModel::Upsert {
                bucket_domain: bucket_domain@,
                cookie: cookie@,
            },
            JarChange::Delete { bucket_domain, name, cookie_domain, path } => {
                JarChangeModel::Delete {
                    key: JarKey {
                        bucket_domain: bucket_domain@,
                        name: name@,
                        cookie_domain: cookie_domain@,
                        path: path@,
                    },
                }
            },
            JarChange::DeleteForRegHost { reg_host } => JarChangeModel::DeleteForRegHost {
                reg_host: reg_host@,
            },
            JarChange::DeleteAll => JarChangeModel::DeleteAll,
            JarChange::Insert { bucket_domain, cookie } => JarChangeModel::Insert {
                bucket_domain: bucket_domain@,
                cookie: cookie@,
            },
        }
    }
}

/// The parameters that stand for a key.
pub open spec fn key_params(key: JarKey) -> Seq<ValueModel> {
    seq![
        ValueModel::Text(key.bucket_domain),
        ValueModel::Text(key.name),
        ValueModel::Text(key.cookie_domain),
        ValueModel::Text(key.path),
    ]
}

/// The parameters that stand for a row.
pub open spec fn row_params(
    bucket_domain: Seq<char>,
    cookie: ServoCookieModel,
    payload: Seq<char>,
) -> Seq<ValueModel> {
    key_params(key_of(bucket_domain, cookie)) + seq![
        ValueModel::Integer(row_of(cookie).persistent),
        optional_integer(row_of(cookie).expiry_time),
        ValueModel::Text(payload),
    ]
}

impl JarChangeModel {
    /// The cookie whose text the change writes, if it does.
    pub open spec fn written(self) -> Option<ServoCookieModel> {
        match self {
            JarChangeModel::Upsert { cookie, .. } => Some(cookie),
            JarChangeModel::Insert { cookie, .. } => Some(cookie),
            _ => None,
        }
    }

    /// The statement that makes the change. `payload` is the text that stands for the cookie,
    /// where one is written.
    pub open spec fn statement(self, payload: Seq<char>) -> StatementModel {
        match self {
            JarChangeModel::DeleteSession => StatementModel {
                sql: DELETE_SESSION@,
                params: Seq::empty(),
            },
            JarChangeModel::DeleteExpired => StatementModel {
                sql: DELETE_EXPIRED@,
                params: Seq::empty(),
            },
            JarChangeModel::Upsert { bucket_domain, cookie } => StatementModel {
                sql: UPSERT@,
                params: row_params(bucket_domain, cookie, payload),
            },
            JarChangeModel::Delete { key } => StatementModel {
                sql: DELETE@,
                params: key_params(key),
            },
            JarChangeModel::DeleteForRegHost { reg_host } => StatementModel {
                sql: DELETE_FOR_REG_HOST@,
                params: seq![ValueModel::Text(reg_host)],
            },
            JarChangeModel::DeleteAll => StatementModel { sql: DELETE_ALL@, params: Seq::empty() },
            JarChangeModel::Insert { bucket_domain, cookie } => StatementModel {
                sql: INSERT@,
                params: row_params(bucket_domain, cookie, payload),
            },
        }
    }

    /// The table after the change, at the second `now`. The change fails where a row is added
    /// beside one with the same key.
    pub open spec fn apply(self, table: JarTable, now: i64) -> Option<JarTable> {
        match self {
            JarChangeModel::DeleteSession => Some(
                table.restrict(table.dom().filter(|key: JarKey| table[key].persistent != 0)),
            ),
            JarChangeModel::DeleteExpired => Some(
                table.restrict(
                    table.dom().filter(
                        |key: JarKey| !(table[key].expiry_time matches Some(at) && at <= now),
                    ),
                ),
            ),
            JarChangeModel::Upsert { bucket_domain, cookie } => Some(
                table.insert(key_of(bucket_domain, cookie), row_of(cookie)),
            ),
            JarChangeModel::Delete { key } => Some(table.remove(key)),
            JarChangeModel::DeleteForRegHost { reg_host } => Some(
                table.restrict(table.dom().filter(|key: JarKey| key.bucket_domain != reg_host)),
            ),
            JarChangeModel::DeleteAll => Some(Map::empty()),
            JarChangeModel::Insert { bucket_domain, cookie } => if table.contains_key(
                key_of(bucket_domain, cookie),
            ) {
                None
            } else {
                Some(table.insert(key_of(bucket_domain, cookie), row_of(cookie)))
            },
        }
    }
}

fn push_key(params: &mut Vec<Value>, bucket_domain: &str, name: &str, domain: &str, path: &str)
    requires
        old(params)@.len() == 0,
    ensures
        values(final(params)@) == key_params(
            JarKey {
                bucket_domain: bucket_domain@,
                name: name@,
                cookie_domain: domain@,
                path: path@,
            },
        ),
{
    params.push(text_value(bucket_domain));
    params.push(text_value(name));
    params.push(text_value(domain));
    params.push(text_value(path));
    assert(values(params@) =~= key_params(
        JarKey { bucket_domain: bucket_domain@, name: name@, cookie_domain: domain@, path: path@ },
    ));
}

fn with_row(
    sql: &'static str,
    bucket_domain: &String,
    cookie: &ServoCookie,
    payload: String,
) -> (r: Statement)
    ensures
        r@ == (StatementModel {
            sql: sql@,
            params: row_params(bucket_domain@, cookie@, payload@),
        }),
{
    let mut params: Vec<Value> = Vec::new();
    push_key(
        &mut params,
        bucket_domain.as_str(),
        cookie.cookie.name.as_str(),
        cookie.cookie.domain_text(),
        cookie.cookie.path_text(),
    );
    params.push(Value::Integer(flag(cookie.persistent)));
    params.push(integer_or_null(system_time_to_unix(cookie.expiry_time)));
    params.push(Value::Text(payload));
    let r = Statement { sql, params };
    assert(r@.params =~= row_params(bucket_domain@, cookie@, payload@));
    r
}

impl JarChange {
    /// The cookie whose text the change writes, if it does.
    pub fn written(&self) -> (r: Option<&ServoCookie>)
        ensures
            match r {
                Some(cookie) => self@.written() == Some(cookie@),
                None => self@.written() is None,
            },
    {
        match self {
            JarChange::Upsert { cookie, .. } => Some(cookie),
            JarChange::Insert { cookie, .. } => Some(cookie),
            _ => None,
        }
    }

    /// The statement that makes the change. `payload` is the text that stands for the cookie,
    /// where one is written.
    pub fn statement(&self, payload: String) -> (r: Statement)
        ensures
            r@ == self@.statement(payload@),
    {
        match self {
            JarChange::DeleteSession => plain(DELETE_SESSION),
            JarChange::DeleteExpired => plain(DELETE_EXPIRED),
            JarChange::Upsert { bucket_domain, cookie } => with_row(
                UPSERT,
                bucket_domain,
                cookie,
                payload,
            ),
            JarChange::Delete { bucket_domain, name, cookie_domain, path } => {
                let mut params: Vec<Value> = Vec::new();
                push_key(
                    &mut params,
                    bucket_domain.as_str(),
                    name.as_str(),
                    cookie_domain.as_str(),
                    path.as_str(),
                );
                Statement { sql: DELETE, params }
            },
            JarChange::DeleteForRegHost { reg_host } => with_one(
                DELETE_FOR_REG_HOST,
                text_value(reg_host.as_str()),
            ),
            JarChange::DeleteAll => plain(DELETE_ALL),
            JarChange::Insert { bucket_domain, cookie } => with_row(
                INSERT,
                bucket_domain,
                cookie,
                payload,
            ),
        }
    }
}

/// What a list of changes stands for.
pub open spec fn changes(list: Seq<JarChange>) -> Seq<JarChangeModel> {
    list.map_values(|c: JarChange| c@)
}

/// The table after changes that are made one after another at the second `now`, or nothing where
/// one of them fails.
pub open spec fn apply_all(list: Seq<JarChangeModel>, table: JarTable, now: i64) -> Option<JarTable>
    decreases list.len(),
{
    if list.len() == 0 {
        Some(table)
    } else {
        match apply_all(list.drop_last(), table, now) {
            Some(before) => list.last().apply(before, now),
            None => None,
        }
    }
}

/// A cookie that was read, with the registrable domain of its domain.
pub struct JarRow {
    pub cookie: ServoCookie,
    pub base: String,
}

/// What a `JarRow` stands for.
pub struct JarReadModel {
    pub cookie: ServoCookieModel,
    pub base: Seq<char>,
}

impl View for JarRow {
    type V = JarReadModel;

    open spec fn view(&self) -> JarReadModel {
        JarReadModel { cookie: self.cookie@, base: self.base@ }
    }
}

/// What a list of rows stands for.
pub open spec fn rows_of(list: Seq<JarRow>) -> Seq<JarReadModel> {
    list.map_values(|row: JarRow| row@)
}

/// The cookies in some rows, put in one after another.
pub open spec fn loaded(rows: Seq<JarReadModel>, max_per_host: nat) -> StorageModel
    decreases rows.len(),
{
    if rows.len() == 0 {
        StorageModel::empty(max_per_host)
    } else {
        let before = loaded(rows.drop_last(), max_per_host);
        before.with_bucket(rows.last().base, before.bucket(rows.last().base).push(rows.last().cookie))
    }
}

/// The changes that empty the table and add the cookies of these registrable domains, in order.
pub open spec fn insertion(order: Seq<Seq<char>>, data: StorageModel) -> Seq<JarChangeModel>
    decreases order.len(),
{
    if order.len() == 0 {
        seq![JarChangeModel::DeleteAll]
    } else {
        insertion(order.drop_last(), data) + bucket_insertion(
            order.last(),
            data.cookies_map[order.last()],
        )
    }
}

/// The changes that add the cookies of one registrable domain, in order.
pub open spec fn bucket_insertion(bucket_domain: Seq<char>, bucket: Seq<ServoCookieModel>) -> Seq<
    JarChangeModel,
> {
    bucket.map_values(
        |cookie: ServoCookieModel| JarChangeModel::Insert { bucket_domain, cookie },
    )
}

/// Whether these are the keys of a map, each once.
pub open spec fn is_order(order: Seq<Seq<char>>, data: StorageModel) -> bool {
    &&& order.no_duplicates()
    &&& forall|base: Seq<char>| data.cookies_map.contains_key(base) <==> order.contains(base)
}

/// Whether these changes empty the table and add all cookies, with the registrable domains in some
/// order.
pub open spec fn saves(list: Seq<JarChangeModel>, data: StorageModel) -> bool {
    exists|order: Seq<Seq<char>>| #[trigger] is_order(order, data) && list == insertion(order, data)
}

/// The changes that come before everything is read.
pub open spec fn cleaning() -> Seq<JarChangeModel> {
    seq![JarChangeModel::DeleteSession, JarChangeModel::DeleteExpired]
}

/// The engine.
pub struct SqliteCookieJarEngine {}

impl SqliteCookieJarEngine {
    /// The steps that open the engine, in a directory or in memory.
    pub fn new(db_dir: Option<&Vec<String>>) -> (r: Vec<OpenStep>)
        ensures
            open_steps(r@) == opening(file_or_memory(db_dir, DB_FILENAME@)).push(
                OpenStepModel::Create(CREATE_TABLE@),
            ).push(OpenStepModel::Create(CREATE_INDEX@)),
    {
        let mut list = init_in(db_dir, DB_FILENAME);
        let ghost before = open_steps(list@);
        list.push(OpenStep::Create(CREATE_TABLE));
        list.push(OpenStep::Create(CREATE_INDEX));
        assert(open_steps(list@) =~= before.push(OpenStepModel::Create(CREATE_TABLE@)).push(
            OpenStepModel::Create(CREATE_INDEX@),
        ));
        list
    }

    /// The file of the engine in a directory.
    pub fn db_path(db_dir: &Vec<String>) -> (r: Vec<String>)
        ensures
            texts(r@) == file_in(texts(db_dir@), DB_FILENAME@),
    {
        db_file(db_dir, DB_FILENAME)
    }

    /// The changes that come before everything is read: what did not outlive the session goes, and
    /// then what has ended.
    pub fn clean() -> (r: Vec<JarChange>)
        ensures
            changes(r@) == cleaning(),
    {
        let mut list: Vec<JarChange> = Vec::new();
        list.push(JarChange::DeleteSession);
        list.push(JarChange::DeleteExpired);
        assert(changes(list@) =~= cleaning());
        list
    }

    /// The statement that reads everything. Each row holds the text that stands for a cookie.
    pub fn select() -> (r: Statement)
        ensures
            r@ == (StatementModel { sql: SELECT_ALL@, params: Seq::empty() }),
    {
        plain(SELECT_ALL)
    }

    /// The cookies that were read.
    pub fn load(rows: Vec<JarRow>, max_per_host: usize) -> (r: CookieStorage)
        ensures
            r@ == loaded(rows_of(rows@), max_per_host as nat),
    {
        let mut storage = CookieStorage::new(max_per_host);
        let mut i: usize = 0;
        while i < rows.len()
            invariant
                i <= rows@.len(),
                storage@ == loaded(rows_of(rows@).take(i as int), max_per_host as nat),
            decreases rows@.len() - i,
        {
            storage.push_persisted(rows[i].cookie.clone(), rows[i].base.as_str());
            assert(rows_of(rows@).take(i + 1).drop_last() =~= rows_of(rows@).take(i as int));
            i += 1;
        }
        assert(rows_of(rows@).take(i as int) =~= rows_of(rows@));
        storage
    }

    /// The change that keeps a cookie.
    pub fn upsert(bucket_domain: &str, cookie: &ServoCookie) -> (r: JarChange)
        ensures
            r@ == (JarChangeModel::Upsert { bucket_domain: bucket_domain@, cookie: cookie@ }),
    {
        JarChange::Upsert { bucket_domain: bucket_domain.to_owned(), cookie: cookie.clone() }
    }

    /// The change that forgets a cookie.
    pub fn delete(
        bucket_domain: &str,
        name: &str,
        cookie_domain: &str,
        path: &str,
    ) -> (r: JarChange)
        ensures
            r@ == (JarChangeModel::Delete {
                key: JarKey {
                    bucket_domain: bucket_domain@,
                    name: name@,
                    cookie_domain: cookie_domain@,
                    path: path@,
                },
            }),
    {
        JarChange::Delete {
            bucket_domain: bucket_domain.to_owned(),
            name: name.to_owned(),
            cookie_domain: cookie_domain.to_owned(),
            path: path.to_owned(),
        }
    }

    /// The change that forgets the cookies of a registrable domain.
    pub fn delete_for_reg_host(reg_host: &str) -> (r: JarChange)
        ensures
            r@ == (JarChangeModel::DeleteForRegHost { reg_host: reg_host@ }),
    {
        JarChange::DeleteForRegHost { reg_host: reg_host.to_owned() }
    }

    /// The change that forgets the cookies that do not outlive the session.
    pub fn delete_session_cookies() -> (r: JarChange)
        ensures
            r@ == JarChangeModel::DeleteSession,
    {
        JarChange::DeleteSession
    }

    /// The change that forgets everything.
    pub fn clear() -> (r: JarChange)
        ensures
            r@ == JarChangeModel::DeleteAll,
    {
        JarChange::DeleteAll
    }

    /// The changes that keep exactly `data`, to be made in one transaction, which ends as
    /// `transaction_end` tells it.
    pub fn save(data: &CookieStorage) -> (r: Vec<JarChange>)
        ensures
            saves(changes(r@), data@),
    {
        let mut list: Vec<JarChange> = Vec::new();
        list.push(JarChange::DeleteAll);
        let n = data.cookies_map.len();
        let ghost order = data.cookies_map.order();
        let mut i: usize = 0;
        assert(changes(list@) =~= insertion(order.take(0), data@));
        while i < n
            invariant
                i <= n,
                n == order.len(),
                order == data.cookies_map.order(),
                changes(list@) == insertion(order.take(i as int), data@),
            decreases n - i,
        {
            let (base, bucket) = data.cookies_map.entry(i);
            let ghost entries = stored(bucket@);
            let ghost before = changes(list@);
            assert(data@.cookies_map[base@] == entries);
            let mut j: usize = 0;
            assert(bucket_insertion(base@, entries.take(0)) =~= Seq::empty());
            assert(before + bucket_insertion(base@, entries.take(0)) =~= before);
            while j < bucket.len()
                invariant
                    j <= bucket@.len(),
                    entries == stored(bucket@),
                    changes(list@) == before + bucket_insertion(base@, entries.take(j as int)),
                decreases bucket@.len() - j,
            {
                let ghost so_far = list@;
                list.push(
                    JarChange::Insert { bucket_domain: base.clone(), cookie: bucket[j].clone() },
                );
                assert(changes(list@) =~= changes(so_far).push(list@.last()@));
                assert(entries.take(j + 1) =~= entries.take(j as int).push(entries[j as int]));
                assert(changes(list@) =~= before + bucket_insertion(base@, entries.take(j + 1)));
                j += 1;
            }
            assert(entries.take(j as int) =~= entries);
            assert(order.take(i + 1).drop_last() =~= order.take(i as int));
            i += 1;
        }
        proof {
            assert(order.take(n as int) =~= order);
            assert forall|base: Seq<char>|
                data@.cookies_map.contains_key(base) <==> order.contains(base) by {
                assert(data@.cookies_map.contains_key(base) == data.cookies_map@.contains_key(base));
            }
            assert(is_order(order, data@));
        }
        list
    }
}

/// Whether no two cookies of a registrable domain have the same name, domain and path.
pub open spec fn one_cookie_per_slot(data: StorageModel) -> bool {
    forall|base: Seq<char>| has_distinct_slots(#[trigger] data.bucket(base))
}

/// The key of a row.
spec fn by_key() -> spec_fn((Seq<char>, ServoCookieModel)) -> JarKey {
    |row: (Seq<char>, ServoCookieModel)| key_of(row.0, row.1)
}

/// The columns of a row.
spec fn columns() -> spec_fn((Seq<char>, ServoCookieModel)) -> JarRowModel {
    |row: (Seq<char>, ServoCookieModel)| row_of(row.1)
}

spec fn inserts(rows: Seq<(Seq<char>, ServoCookieModel)>) -> Seq<JarChangeModel> {
    rows.map_values(
        |row: (Seq<char>, ServoCookieModel)|
            JarChangeModel::Insert { bucket_domain: row.0, cookie: row.1 },
    )
}

proof fn lemma_insertion(order: Seq<Seq<char>>, data: StorageModel)
    ensures
        insertion(order, data) == seq![JarChangeModel::DeleteAll] + inserts(
            flat(order, data.cookies_map),
        ),
    decreases order.len(),
{
    let rows = flat(order, data.cookies_map);
    if order.len() > 0 {
        let init = order.drop_last();
        let base = order.last();
        lemma_insertion(init, data);
        assert(inserts(rows) =~= inserts(flat(init, data.cookies_map)) + bucket_insertion(
            base,
            data.cookies_map[base],
        ));
    }
    assert(insertion(order, data) =~= seq![JarChangeModel::DeleteAll] + inserts(rows));
}

proof fn lemma_apply(rows: Seq<(Seq<char>, ServoCookieModel)>, table: JarTable, now: i64)
    requires
        has_distinct_keys(rows, by_key()),
    ensures
        apply_all(seq![JarChangeModel::DeleteAll] + inserts(rows), table, now) == Some(
            filled(rows, by_key(), columns()),
        ),
    decreases rows.len(),
{
    let list = seq![JarChangeModel::DeleteAll] + inserts(rows);
    if rows.len() == 0 {
        assert(list =~= seq![JarChangeModel::DeleteAll]);
        assert(list.drop_last() =~= Seq::empty());
        assert(apply_all(list.drop_last(), table, now) == Some(table));
    } else {
        let init = rows.drop_last();
        lemma_rest_is_distinct(rows, by_key());
        assert(list.drop_last() =~= seq![JarChangeModel::DeleteAll] + inserts(init));
        lemma_apply(init, table, now);
        lemma_filled(init, by_key(), columns());
    }
}

/// Whether a table has exactly the cookies of a store, each under its key.
pub open spec fn keeps(table: JarTable, data: StorageModel) -> bool {
    &&& forall|base: Seq<char>, cookie: ServoCookieModel| #[trigger]
        data.bucket(base).contains(cookie) ==> table.contains_key(key_of(base, cookie))
            && table[key_of(base, cookie)] == row_of(cookie)
    &&& forall|key: JarKey| #[trigger]
        table.contains_key(key) ==> exists|cookie: ServoCookieModel| #[trigger]
            data.bucket(key.bucket_domain).contains(cookie) && key_of(key.bucket_domain, cookie)
                == key
}

/// Whatever was in the table, after a save it holds exactly what was saved, and none of the
/// changes fails.
pub proof fn law_save_fills_the_table(
    list: Seq<JarChangeModel>,
    data: StorageModel,
    table: JarTable,
    now: i64,
)
    requires
        saves(list, data),
        one_cookie_per_slot(data),
    ensures
        apply_all(list, table, now) matches Some(after) && keeps(after, data),
{
    let order = choose|order: Seq<Seq<char>>| #[trigger]
        is_order(order, data) && list == insertion(order, data);
    let rows = flat(order, data.cookies_map);
    assert forall|base: Seq<char>| #[trigger] order.contains(base) implies data.cookies_map[base]
        == data.bucket(base) by {}
    assert forall|base: Seq<char>, i: int, j: int|
        order.contains(base) && 0 <= i < j < data.cookies_map[base].len() implies by_key()(
        (base, #[trigger] data.cookies_map[base][i]),
    ) != by_key()((base, #[trigger] data.cookies_map[base][j])) by {
        assert(has_distinct_slots(data.bucket(base)));
        assert(!data.bucket(base)[i].same_slot(data.bucket(base)[j]));
    }
    lemma_flat(order, data.cookies_map);
    lemma_flat_is_distinct(order, data.cookies_map, by_key());
    lemma_insertion(order, data);
    lemma_apply(rows, table, now);
    lemma_filled(rows, by_key(), columns());
    let after = filled(rows, by_key(), columns());
    assert forall|base: Seq<char>, cookie: ServoCookieModel| #[trigger]
        data.bucket(base).contains(cookie) implies after.contains_key(key_of(base, cookie))
        && after[key_of(base, cookie)] == row_of(cookie) by {
        assert(data.cookies_map.contains_key(base));
        assert(data.cookies_map[base].contains(cookie));
        assert(rows.contains((base, cookie)));
        let k = choose|k: int| 0 <= k < rows.len() && rows[k] == (base, cookie);
        assert(by_key()(rows[k]) == key_of(base, cookie));
        assert(columns()(rows[k]) == row_of(cookie));
    }
    assert forall|key: JarKey| #[trigger] after.contains_key(key) implies exists|
        cookie: ServoCookieModel,
    | #[trigger]
        data.bucket(key.bucket_domain).contains(cookie) && key_of(key.bucket_domain, cookie)
            == key by {
        let k = choose|k: int| 0 <= k < rows.len() && by_key()(#[trigger] rows[k]) == key;
        assert(key.bucket_domain == rows[k].0);
        assert(data.bucket(key.bucket_domain).contains(rows[k].1));
    }
}

/// Whether these are the rows of a table, each once, with the registrable domain that the cookie
/// has.
pub open spec fn lists(
    rows: Seq<JarReadModel>,
    table: JarTable,
    base_of: spec_fn(ServoCookieModel) -> Seq<char>,
) -> bool {
    &&& forall|i: int|
        0 <= i < rows.len() ==> {
            let read = #[trigger] rows[i];
            &&& read.base == base_of(read.cookie)
            &&& exists|key: JarKey| #[trigger]
                table.contains_key(key) && table[key].cookie == read.cookie
        }
    &&& forall|key: JarKey| #[trigger]
        table.contains_key(key) ==> exists|i: int|
            0 <= i < rows.len() && (#[trigger] rows[i]).cookie == table[key].cookie
}

proof fn lemma_loaded(
    rows: Seq<JarReadModel>,
    max_per_host: nat,
    base: Seq<char>,
    cookie: ServoCookieModel,
)
    ensures
        loaded(rows, max_per_host).bucket(base).contains(cookie) <==> exists|i: int|
            0 <= i < rows.len() && (#[trigger] rows[i]).cookie == cookie && rows[i].base == base,
    decreases rows.len(),
{
    if rows.len() == 0 {
        assert(!loaded(rows, max_per_host).bucket(base).contains(cookie));
    } else {
        let init = rows.drop_last();
        let last = rows.last();
        lemma_loaded(init, max_per_host, base, cookie);
        let before = loaded(init, max_per_host);
        if last.base == base {
            vstd::seq_lib::lemma_seq_contains_after_push(
                before.bucket(base),
                last.cookie,
                cookie,
            );
        } else {
            assert(loaded(rows, max_per_host).bucket(base) == before.bucket(base));
        }
        if exists|i: int|
            0 <= i < init.len() && (#[trigger] init[i]).cookie == cookie && init[i].base == base {
            let i = choose|i: int|
                0 <= i < init.len() && (#[trigger] init[i]).cookie == cookie && init[i].base
                    == base;
            assert(rows[i].cookie == cookie);
        }
        if exists|i: int|
            0 <= i < rows.len() && (#[trigger] rows[i]).cookie == cookie && rows[i].base == base {
            let i = choose|i: int|
                0 <= i < rows.len() && (#[trigger] rows[i]).cookie == cookie && rows[i].base
                    == base;
            if i < init.len() {
                assert(init[i].cookie == cookie);
            }
        }
        if last.cookie == cookie && last.base == base {
            assert(rows[rows.len() - 1].cookie == cookie);
        }
    }
}

/// Whether a cookie is still loaded at the second `now`: it outlives the session and has not ended.
pub open spec fn is_loaded(cookie: ServoCookieModel, now: i64) -> bool {
    cookie.persistent && !(optional_seconds(cookie.expiry_time) matches Some(at) && at <= now)
}

/// What was saved is what is loaded at a later time, but for the cookies that did not outlive the
/// session and those that have ended by then.
pub proof fn law_save_then_load(
    list: Seq<JarChangeModel>,
    data: StorageModel,
    table: JarTable,
    rows: Seq<JarReadModel>,
    base_of: spec_fn(ServoCookieModel) -> Seq<char>,
    max_per_host: nat,
    saved: i64,
    now: i64,
    base: Seq<char>,
    cookie: ServoCookieModel,
)
    requires
        saves(list, data),
        one_cookie_per_slot(data),
        forall|b: Seq<char>, c: ServoCookieModel| #[trigger]
            data.bucket(b).contains(c) ==> b == base_of(c),
        apply_all(list, table, saved) matches Some(after) && (apply_all(
            cleaning(),
            after,
            now,
        ) matches Some(cleaned) && lists(rows, cleaned, base_of)),
    ensures
        loaded(rows, max_per_host).bucket(base).contains(cookie) <==> data.bucket(base).contains(
            cookie,
        ) && is_loaded(cookie, now),
{
    law_save_fills_the_table(list, data, table, saved);
    let after = apply_all(list, table, saved)->0;
    let cleaned = apply_all(cleaning(), after, now)->0;
    lemma_loaded(rows, max_per_host, base, cookie);
    if data.bucket(base).contains(cookie) && is_loaded(cookie, now) {
        let key = key_of(base, cookie);
        assert(after.contains_key(key));
        lemma_cleaned(after, now, key);
        assert(cleaned.contains_key(key));
        let i = choose|i: int|
            0 <= i < rows.len() && (#[trigger] rows[i]).cookie == cleaned[key].cookie;
        assert(rows[i].cookie == cookie && rows[i].base == base);
    }
    if loaded(rows, max_per_host).bucket(base).contains(cookie) {
        let i = choose|i: int|
            0 <= i < rows.len() && (#[trigger] rows[i]).cookie == cookie && rows[i].base == base;
        let key = choose|key: JarKey| #[trigger]
            cleaned.contains_key(key) && cleaned[key].cookie == rows[i].cookie;
        lemma_cleaned(after, now, key);
        assert(after.contains_key(key));
        let c = choose|c: ServoCookieModel| #[trigger]
            data.bucket(key.bucket_domain).contains(c) && key_of(key.bucket_domain, c) == key;
        assert(after[key_of(key.bucket_domain, c)] == row_of(c));
        assert(c == cookie);
    }
}

/// Whether a table has a cookie under a registrable domain.
pub open spec fn holds(table: JarTable, base: Seq<char>, cookie: ServoCookieModel) -> bool {
    table.contains_key(key_of(base, cookie)) && table[key_of(base, cookie)] == row_of(cookie)
}

/// Whether a table has what an engine with these calls behind it is taken to keep.
pub open spec fn mirrors(table: JarTable, calls: Seq<JarCall>) -> bool {
    forall|base: Seq<char>, cookie: ServoCookieModel|
        (#[trigger] holds(table, base, cookie)) == kept(calls, base, cookie)
}

/// A change mirrors a call where it does to the table what the call does to what an engine is
/// taken to keep.
pub open spec fn follows(
    change: JarChangeModel,
    call: JarCall,
    table: JarTable,
    calls: Seq<JarCall>,
    now: i64,
) -> bool {
    change.apply(table, now) matches Some(after) && mirrors(after, calls.push(call))
}

/// The changes keep the table to what an engine is taken to keep: each call that succeeds does to
/// the one what its change does to the other.
pub proof fn law_changes_follow_the_calls(
    table: JarTable,
    calls: Seq<JarCall>,
    bucket_domain: Seq<char>,
    cookie: ServoCookieModel,
    key: JarKey,
    reg_host: Seq<char>,
    data: StorageModel,
    list: Seq<JarChangeModel>,
    now: i64,
)
    requires
        mirrors(table, calls),
        saves(list, data),
        one_cookie_per_slot(data),
    ensures
        follows(
            JarChangeModel::Upsert { bucket_domain, cookie },
            JarCall::Upsert { bucket_domain, cookie, ok: true },
            table,
            calls,
            now,
        ),
        follows(
            JarChangeModel::Delete { key },
            JarCall::Delete {
                bucket_domain: key.bucket_domain,
                name: key.name,
                cookie_domain: key.cookie_domain,
                path: key.path,
                ok: true,
            },
            table,
            calls,
            now,
        ),
        follows(
            JarChangeModel::DeleteForRegHost { reg_host },
            JarCall::DeleteForRegHost { reg_host, ok: true },
            table,
            calls,
            now,
        ),
        follows(
            JarChangeModel::DeleteSession,
            JarCall::DeleteSession { ok: true },
            table,
            calls,
            now,
        ),
        follows(JarChangeModel::DeleteAll, JarCall::Clear { ok: true }, table, calls, now),
        apply_all(list, table, now) matches Some(after) && mirrors(
            after,
            calls.push(JarCall::Save { data, ok: true }),
        ),
{
    assert forall|call: JarCall| (#[trigger] calls.push(call)).drop_last() == calls by {
        assert(calls.push(call).drop_last() =~= calls);
    }
    let upsert = JarChangeModel::Upsert { bucket_domain, cookie };
    let upsert_call = JarCall::Upsert { bucket_domain, cookie, ok: true };
    let delete = JarChangeModel::Delete { key };
    let delete_call = JarCall::Delete {
        bucket_domain: key.bucket_domain,
        name: key.name,
        cookie_domain: key.cookie_domain,
        path: key.path,
        ok: true,
    };
    let site = JarChangeModel::DeleteForRegHost { reg_host };
    let site_call = JarCall::DeleteForRegHost { reg_host, ok: true };
    let session = JarChangeModel::DeleteSession;
    let session_call = JarCall::DeleteSession { ok: true };
    assert forall|base: Seq<char>, c: ServoCookieModel|
        (#[trigger] holds(upsert.apply(table, now)->0, base, c)) == kept(
            calls.push(upsert_call),
            base,
            c,
        ) by {
        assert(holds(table, base, c) == kept(calls, base, c));
        assert(key_of(base, c) == key_of(bucket_domain, cookie) <==> base == bucket_domain
            && c.same_slot(cookie));
    }
    assert forall|base: Seq<char>, c: ServoCookieModel|
        (#[trigger] holds(delete.apply(table, now)->0, base, c)) == kept(
            calls.push(delete_call),
            base,
            c,
        ) by {
        assert(holds(table, base, c) == kept(calls, base, c));
    }
    assert forall|base: Seq<char>, c: ServoCookieModel|
        (#[trigger] holds(site.apply(table, now)->0, base, c)) == kept(
            calls.push(site_call),
            base,
            c,
        ) by {
        assert(holds(table, base, c) == kept(calls, base, c));
    }
    assert forall|base: Seq<char>, c: ServoCookieModel|
        (#[trigger] holds(session.apply(table, now)->0, base, c)) == kept(
            calls.push(session_call),
            base,
            c,
        ) by {
        assert(holds(table, base, c) == kept(calls, base, c));
    }
    law_save_fills_the_table(list, data, table, now);
    let saved = apply_all(list, table, now)->0;
    assert forall|base: Seq<char>, c: ServoCookieModel|
        (#[trigger] holds(saved, base, c)) == data.bucket(base).contains(c) by {
        if holds(saved, base, c) {
            let k = key_of(base, c);
            let e = choose|e: ServoCookieModel| #[trigger]
                data.bucket(k.bucket_domain).contains(e) && key_of(k.bucket_domain, e) == k;
            assert(saved[key_of(base, e)] == row_of(e));
            assert(e == c);
        }
    }
}

/// A save is all or nothing: where it succeeds, the table holds exactly what was saved, and where
/// anything fails, it is as it was before. It succeeds where neither a change nor the commit fails
/// for a reason outside of the table.
pub proof fn law_save_is_all_or_nothing(
    list: Seq<JarChangeModel>,
    data: StorageModel,
    table: JarTable,
    now: i64,
    failed: bool,
    committed: bool,
)
    requires
        saves(list, data),
        one_cookie_per_slot(data),
    ensures
        ({
            let (after, ok) = transacted(table, apply_all(list, table, now), failed, committed);
            &&& ok <==> !failed && committed
            &&& ok ==> keeps(after, data)
            &&& !ok ==> after == table
        }),
{
    law_save_fills_the_table(list, data, table, now);
}

/// Whether each row keeps a cookie under its own key, below its registrable domain.
pub open spec fn is_in_place(
    table: JarTable,
    base_of: spec_fn(ServoCookieModel) -> Seq<char>,
) -> bool {
    forall|key: JarKey| #[trigger]
        table.contains_key(key) ==> table[key] == row_of(table[key].cookie) && key == key_of(
            base_of(table[key].cookie),
            table[key].cookie,
        )
}

proof fn lemma_cleaned(table: JarTable, now: i64, key: JarKey)
    ensures
        apply_all(cleaning(), table, now) matches Some(cleaned) && (cleaned.contains_key(key)
            <==> table.contains_key(key) && table[key].persistent != 0 && !(
        table[key].expiry_time matches Some(at) && at <= now)) && (cleaned.contains_key(key)
            ==> cleaned[key] == table[key]),
{
    let clean = cleaning();
    assert(clean.drop_last() =~= seq![JarChangeModel::DeleteSession]);
    assert(clean.drop_last().drop_last() =~= Seq::empty());
    assert(apply_all(clean.drop_last().drop_last(), table, now) == Some(table));
    let lasting = JarChangeModel::DeleteSession.apply(table, now)->0;
    assert(apply_all(clean.drop_last(), table, now) == Some(lasting));
    assert(lasting.contains_key(key) <==> table.contains_key(key) && table[key].persistent != 0);
}

proof fn lemma_loaded_from(
    table: JarTable,
    base_of: spec_fn(ServoCookieModel) -> Seq<char>,
    rows: Seq<JarReadModel>,
    max_per_host: nat,
    now: i64,
    base: Seq<char>,
    cookie: ServoCookieModel,
)
    requires
        is_in_place(table, base_of),
        apply_all(cleaning(), table, now) matches Some(cleaned) && lists(rows, cleaned, base_of),
    ensures
        loaded(rows, max_per_host).bucket(base).contains(cookie) <==> base == base_of(cookie)
            && table.contains_key(key_of(base, cookie)) && table[key_of(base, cookie)] == row_of(
            cookie,
        ) && is_loaded(cookie, now),
{
    let cleaned = apply_all(cleaning(), table, now)->0;
    let key = key_of(base, cookie);
    lemma_loaded(rows, max_per_host, base, cookie);
    lemma_cleaned(table, now, key);
    if loaded(rows, max_per_host).bucket(base).contains(cookie) {
        let i = choose|i: int|
            0 <= i < rows.len() && (#[trigger] rows[i]).cookie == cookie && rows[i].base == base;
        let k = choose|k: JarKey| #[trigger]
            cleaned.contains_key(k) && cleaned[k].cookie == rows[i].cookie;
        lemma_cleaned(table, now, k);
        assert(table.contains_key(k));
        assert(k == key);
    }
    if base == base_of(cookie) && table.contains_key(key) && table[key] == row_of(cookie)
        && is_loaded(cookie, now) {
        assert(cleaned.contains_key(key));
        let i = choose|i: int|
            0 <= i < rows.len() && (#[trigger] rows[i]).cookie == cleaned[key].cookie;
        assert(rows[i].cookie == cookie && rows[i].base == base);
    }
}

/// A cookie that was kept is what is loaded in its place, if it outlives the session and as long as
/// it has not ended, and nothing is otherwise. The other cookies are loaded as if it had not been
/// kept.
pub proof fn law_upsert_then_load(
    table: JarTable,
    put: ServoCookieModel,
    base_of: spec_fn(ServoCookieModel) -> Seq<char>,
    max_per_host: nat,
    upserted: i64,
    now: i64,
    rows: Seq<JarReadModel>,
    rows_without: Seq<JarReadModel>,
    base: Seq<char>,
    cookie: ServoCookieModel,
)
    requires
        is_in_place(table, base_of),
        (JarChangeModel::Upsert { bucket_domain: base_of(put), cookie: put }).apply(
            table,
            upserted,
        ) matches Some(after) && (apply_all(cleaning(), after, now) matches Some(cleaned) && lists(
            rows,
            cleaned,
            base_of,
        )),
        apply_all(cleaning(), table, now) matches Some(cleaned) && lists(
            rows_without,
            cleaned,
            base_of,
        ),
    ensures
        ({
            let found = loaded(rows, max_per_host).bucket(base).contains(cookie);
            if base == base_of(put) && cookie.same_slot(put) {
                found <==> cookie == put && is_loaded(put, now)
            } else {
                found <==> loaded(rows_without, max_per_host).bucket(base).contains(cookie)
            }
        }),
{
    let upsert = JarChangeModel::Upsert { bucket_domain: base_of(put), cookie: put };
    let after = upsert.apply(table, upserted)->0;
    assert(is_in_place(after, base_of)) by {
        assert forall|key: JarKey| #[trigger] after.contains_key(key) implies after[key] == row_of(
            after[key].cookie,
        ) && key == key_of(base_of(after[key].cookie), after[key].cookie) by {
            if key != key_of(base_of(put), put) {
                assert(table.contains_key(key));
            }
        }
    }
    lemma_loaded_from(after, base_of, rows, max_per_host, now, base, cookie);
    lemma_loaded_from(table, base_of, rows_without, max_per_host, now, base, cookie);
    assert(key_of(base, cookie) == key_of(base_of(put), put) <==> base == base_of(put)
        && cookie.same_slot(put));
}

/// The key that the first parameters of a statement make, if they go to the columns for the
/// registrable domain, the name, the domain and the path, in this order, which is the one in which
/// the statements list them.
pub open spec fn key_in(params: Seq<ValueModel>) -> JarKey {
    JarKey {
        bucket_domain: text_in(params[0]),
        name: text_in(params[1]),
        cookie_domain: text_in(params[2]),
        path: text_in(params[3]),
    }
}

/// A cookie is written under its registrable domain, its name, its domain and its path, with
/// whether it outlives the session, the second at which it ends, and the text that stands for it.
/// The row that the statement makes is under the key that it names.
pub proof fn law_written_cookie_is_under_its_key(
    bucket_domain: Seq<char>,
    cookie: ServoCookieModel,
    payload: Seq<char>,
    table: JarTable,
    now: i64,
)
    ensures
        ({
            let upsert = JarChangeModel::Upsert { bucket_domain, cookie };
            let insert = JarChangeModel::Insert { bucket_domain, cookie };
            let params = upsert.statement(payload).params;
            &&& params.len() == 7
            &&& insert.statement(payload).params == params
            &&& params[0] == ValueModel::Text(bucket_domain)
            &&& params[1] == ValueModel::Text(cookie.cookie.name)
            &&& cookie.cookie.domain matches Some(domain) ==> params[2] == ValueModel::Text(domain)
            &&& cookie.cookie.domain is None ==> params[2] == ValueModel::Text(""@)
            &&& cookie.cookie.path matches Some(path) ==> params[3] == ValueModel::Text(path)
            &&& cookie.cookie.path is None ==> params[3] == ValueModel::Text(""@)
            &&& cookie.persistent ==> params[4] == ValueModel::Integer(1)
            &&& !cookie.persistent ==> params[4] == ValueModel::Integer(0)
            &&& cookie.expiry_time is None ==> params[5] == ValueModel::Null
            &&& cookie.expiry_time matches Some(at) ==> params[5] == ValueModel::Integer(
                unix_seconds(at),
            )
            &&& params[6] == ValueModel::Text(payload)
            &&& upsert.written() == Some(cookie) && insert.written() == Some(cookie)
            &&& upsert.apply(table, now) matches Some(after) && after.contains_key(key_in(params))
                && after[key_in(params)].cookie == cookie && after.remove(key_in(params))
                == table.remove(key_in(params))
            &&& insert.apply(table, now) is None <==> table.contains_key(key_in(params))
            &&& insert.apply(table, now) matches Some(after) ==> after.contains_key(key_in(params))
                && after[key_in(params)].cookie == cookie && after.remove(key_in(params)) == table
        }),
{
    let upsert = JarChangeModel::Upsert { bucket_domain, cookie };
    let params = upsert.statement(payload).params;
    assert(key_in(params) == key_of(bucket_domain, cookie));
    let after = table.insert(key_of(bucket_domain, cookie), row_of(cookie));
    assert(after.remove(key_in(params)) =~= table.remove(key_in(params)));
    assert(!table.contains_key(key_in(params)) ==> table.remove(key_in(params)) =~= table);
}

/// Two cookies that do not take each other's place, or are below different registrable domains, are
/// written under different keys, and two that do, below the same, under the same one.
pub proof fn law_written_keys_tell_cookies_apart(
    base: Seq<char>,
    cookie: ServoCookieModel,
    payload: Seq<char>,
    other_base: Seq<char>,
    other: ServoCookieModel,
    other_payload: Seq<char>,
)
    ensures
        (JarChangeModel::Upsert { bucket_domain: base, cookie }).statement(payload).params.take(4)
            == (JarChangeModel::Upsert {
            bucket_domain: other_base,
            cookie: other,
        }).statement(other_payload).params.take(4) <==> base == other_base && cookie.cookie.name
            == other.cookie.name && cookie.cookie.domain_text() == other.cookie.domain_text()
            && cookie.cookie.path_text() == other.cookie.path_text(),
{
    let a = (JarChangeModel::Upsert { bucket_domain: base, cookie }).statement(payload).params;
    let b = (JarChangeModel::Upsert {
        bucket_domain: other_base,
        cookie: other,
    }).statement(other_payload).params;
    assert(a.take(4)[0] == a[0] && a.take(4)[1] == a[1] && a.take(4)[2] == a[2] && a.take(4)[3]
        == a[3]);
    assert(b.take(4)[0] == b[0] && b.take(4)[1] == b[1] && b.take(4)[2] == b[2] && b.take(4)[3]
        == b[3]);
    if base == other_base && cookie.cookie.name == other.cookie.name
        && cookie.cookie.domain_text() == other.cookie.domain_text()
        && cookie.cookie.path_text() == other.cookie.path_text() {
        assert(a.take(4) =~= b.take(4));
    }
}

/// To forget a cookie binds its registrable domain, its name, its domain and its path, and the row
/// under that key goes; to forget a registrable domain binds it, and its rows go. Each leaves the
/// other rows.
pub proof fn law_forgetting_binds_the_key(
    key: JarKey,
    reg_host: Seq<char>,
    payload: Seq<char>,
    table: JarTable,
    other: JarKey,
    now: i64,
)
    ensures
        ({
            let delete = JarChangeModel::Delete { key };
            let params = delete.statement(payload).params;
            let site = JarChangeModel::DeleteForRegHost { reg_host };
            &&& params == seq![
                ValueModel::Text(key.bucket_domain),
                ValueModel::Text(key.name),
                ValueModel::Text(key.cookie_domain),
                ValueModel::Text(key.path),
            ]
            &&& delete.apply(table, now) matches Some(after) && (after.contains_key(other)
                <==> table.contains_key(other) && other != key_in(params))
            &&& site.statement(payload).params == seq![ValueModel::Text(reg_host)]
            &&& site.apply(table, now) matches Some(after) && (after.contains_key(other)
                <==> table.contains_key(other) && other.bucket_domain != reg_host)
            &&& JarChangeModel::DeleteSession.statement(payload).params.len() == 0
            &&& JarChangeModel::DeleteSession.apply(table, now) matches Some(after) && (
            after.contains_key(other) <==> table.contains_key(other) && table[other].persistent
                != 0)
            &&& JarChangeModel::DeleteExpired.statement(payload).params.len() == 0
            &&& JarChangeModel::DeleteExpired.apply(table, now) matches Some(after) && (
            after.contains_key(other) <==> table.contains_key(other) && !(
            table[other].expiry_time matches Some(at) && at <= now))
            &&& JarChangeModel::DeleteAll.statement(payload).params.len() == 0
            &&& JarChangeModel::DeleteAll.apply(table, now) == Some(Map::<JarKey, JarRowModel>::empty())
        }),
{
}

/// What is run for each change, and the order in which its parameters are listed.
pub proof fn law_statements_are_these(
    bucket_domain: Seq<char>,
    cookie: ServoCookieModel,
    key: JarKey,
    reg_host: Seq<char>,
    payload: Seq<char>,
)
    ensures
        (JarChangeModel::Upsert { bucket_domain, cookie }).statement(payload).sql == "INSERT INTO cookies (
                bucket_domain,
                name,
                cookie_domain,
                path,
                persistent,
                expiry_time,
                payload
            ) VALUES (?, ?, ?, ?, ?, ?, ?)
            ON CONFLICT(bucket_domain, name, cookie_domain, path) DO UPDATE SET
                persistent = excluded.persistent,
                expiry_time = excluded.expiry_time,
                payload = excluded.payload"@,
        (JarChangeModel::Insert { bucket_domain, cookie }).statement(payload).sql == "INSERT INTO cookies (
                bucket_domain,
                name,
                cookie_domain,
                path,
                persistent,
                expiry_time,
                payload
            ) VALUES (?, ?, ?, ?, ?, ?, ?)"@,
        (JarChangeModel::Delete { key }).statement(payload).sql == "DELETE FROM cookies
             WHERE bucket_domain = ? AND name = ? AND cookie_domain = ? AND path = ?"@,
        (JarChangeModel::DeleteForRegHost { reg_host }).statement(payload).sql == "DELETE FROM cookies WHERE bucket_domain = ?"@,
        JarChangeModel::DeleteSession.statement(payload).sql == "DELETE FROM cookies WHERE persistent = 0"@,
        JarChangeModel::DeleteExpired.statement(payload).sql == "DELETE FROM cookies WHERE expiry_time IS NOT NULL AND expiry_time <= unixepoch()"@,
        JarChangeModel::DeleteAll.statement(payload).sql == "DELETE FROM cookies"@,
        SELECT_ALL@ == "SELECT payload FROM cookies ORDER BY bucket_domain, name, path"@,
        CREATE_TABLE@ == "CREATE TABLE IF NOT EXISTS cookies (
                bucket_domain TEXT NOT NULL,
                name TEXT NOT NULL,
                cookie_domain TEXT NOT NULL,
                path TEXT NOT NULL,
                persistent INTEGER NOT NULL,
                expiry_time INTEGER NULL,
                payload TEXT NOT NULL,
                PRIMARY KEY (bucket_domain, name, cookie_domain, path)
            );"@,
        CREATE_INDEX@ == "CREATE INDEX IF NOT EXISTS cookies_bucket_domain_idx ON cookies(bucket_domain);"@,
        DB_FILENAME@ == "cookie_jar.sqlite"@,
{
}

/// What did not outlive the session goes before everything is read, and then what has ended.
pub proof fn law_cleaning_comes_in_this_order()
    ensures
        cleaning().len() == 2,
        cleaning()[0] == JarChangeModel::DeleteSession,
        cleaning()[1] == JarChangeModel::DeleteExpired,
{
}

/// Times become whole seconds by leaving out what is not whole, before the epoch as after it. Times
/// that are too far away become the last second that can be told.
pub proof fn law_seconds_leave_out_the_rest(time: i128)
    ensures
        ({
            let seconds = unix_seconds(time);
            let last = i64::MAX * NANOS;
            &&& 0 <= time < last ==> seconds * NANOS <= time < (seconds + 1) * NANOS
            &&& -last < time <= 0 ==> (seconds - 1) * NANOS < time <= seconds * NANOS
            &&& time >= last ==> seconds == i64::MAX
            &&& time <= -last ==> seconds == -i64::MAX
        }),
{
    let n = NANOS as int;
    let t = time as int;
    let last = i64::MAX * NANOS;
    assert(n == 1_000_000_000);
    vstd::arithmetic::div_mod::lemma_fundamental_div_mod(t, n);
    vstd::arithmetic::div_mod::lemma_fundamental_div_mod(-t, n);
    vstd::arithmetic::div_mod::lemma_mod_bound(t, n);
    vstd::arithmetic::div_mod::lemma_mod_bound(-t, n);
    assert(n * (t / n) == (t / n) * n && n * ((-t) / n) == ((-t) / n) * n) by (nonlinear_arith);
}

/// A row stands for its own cookie below its own registrable domain, and a change for what it names.
pub proof fn law_rows_and_changes_stand_for_their_fields(
    row: JarRow,
    bucket_domain: String,
    cookie: ServoCookie,
    name: String,
    cookie_domain: String,
    path: String,
)
    ensures
        row@.cookie == row.cookie@,
        row@.base == row.base@,
        (JarChange::Upsert { bucket_domain, cookie })@ == (JarChangeModel::Upsert {
            bucket_domain: bucket_domain@,
            cookie: cookie@,
        }),
        (JarChange::Insert { bucket_domain, cookie })@ == (JarChangeModel::Insert {
            bucket_domain: bucket_domain@,
            cookie: cookie@,
        }),
        (JarChange::DeleteForRegHost { reg_host: bucket_domain })@
            == (JarChangeModel::DeleteForRegHost { reg_host: bucket_domain@ }),
        (JarChange::Delete { bucket_domain, name, cookie_domain, path })@ matches
            JarChangeModel::Delete { key } && key.bucket_domain == bucket_domain@ && key.name
            == name@ && key.cookie_domain == cookie_domain@ && key.path == path@,
        JarChange::DeleteSession@ == JarChangeModel::DeleteSession,
        JarChange::DeleteExpired@ == JarChangeModel::DeleteExpired,
        JarChange::DeleteAll@ == JarChangeModel::DeleteAll,
{
}

} // verus!

//! The hosts that are talked to over TLS only, in an SQLite file.
use crate::net::hosts::is_subdomain;
use crate::net::hsts::{
    entries_of, has_distinct_hosts, lemma_pushed, HstsEntry, HstsEntryModel, HstsList, HstsListModel,
};
use crate::net::http_state::engines::buckets::{
    filled, flat, has_distinct_keys, lemma_filled, lemma_flat, lemma_flat_is_distinct,
    lemma_rest_is_distinct,
};
use crate::net::http_state::engines::shared::{
    db_file, file_in, file_or_memory, init_in, open_steps, opening, transacted, OpenStep,
    OpenStepModel,
};
use crate::net::http_state::hsts::{kept, HstsCall};
use crate::sql::{
    flag, integer_in, integer_or_null, optional_integer, plain, text_in, text_value, with_one,
    Statement, StatementModel, Value, ValueModel,
};
use crate::text::texts;
use vstd::prelude::*;

verus! {

/// The file that the hosts are kept in.
pub const DB_FILENAME: &'static str = "hsts_list.sqlite";

/// Makes the table.
pub const CREATE_TABLE: &'static str = "CREATE TABLE IF NOT EXISTS hsts_entries (
                host TEXT PRIMARY KEY,
                base_domain TEXT NOT NULL,
                include_subdomains INTEGER NOT NULL,
                expires_at INTEGER NULL
            );";

/// Makes the index.
pub const CREATE_INDEX: &'static str =
    "CREATE INDEX IF NOT EXISTS hsts_entries_base_domain_idx ON hsts_entries(base_domain);";

/// Removes the rows that have ended.
pub const DELETE_EXPIRED: &'static str =
    "DELETE FROM hsts_entries WHERE expires_at IS NOT NULL AND expires_at <= unixepoch()";

/// Reads the table.
pub const SELECT_ALL: &'static str =
    "SELECT host, include_subdomains, expires_at FROM hsts_entries ORDER BY host";

/// Adds a row, or changes the one with the same host.
pub const UPSERT: &'static str =
    "INSERT INTO hsts_entries (host, base_domain, include_subdomains, expires_at)
             VALUES (?, ?, ?, ?)
             ON CONFLICT(host) DO UPDATE SET
                 base_domain = excluded.base_domain,
                 include_subdomains = excluded.include_subdomains,
                 expires_at = excluded.expires_at";

/// Removes the row of a host.
pub const DELETE: &'static str = "DELETE FROM hsts_entries WHERE host = ?";

/// Empties the table.
pub const DELETE_ALL: &'static str = "DELETE FROM hsts_entries";

/// Adds a row.
pub const INSERT: &'static str =
    "INSERT INTO hsts_entries (host, base_domain, include_subdomains, expires_at)
             VALUES (?, ?, ?, ?)";

/// A change of the table.
pub enum HstsChange {
    DeleteExpired,
    Upsert { entry: HstsEntry, base_domain: String },
    Delete { host: String },
    DeleteAll,
    Insert { entry: HstsEntry, base_domain: String },
}

/// What an `HstsChange` stands for.
#[allow(inconsistent_fields)]
pub enum HstsChangeModel {
    DeleteExpired,
    Upsert { entry: HstsEntryModel, base_domain: Seq<char> },
    Delete { host: Seq<char> },
    DeleteAll,
    Insert { entry: HstsEntryModel, base_domain: Seq<char> },
}

impl View for HstsChange {
    type V = HstsChangeModel;

    open spec fn view(&self) -> HstsChangeModel {
        match self {
            HstsChange::DeleteExpired => HstsChangeModel::DeleteExpired,
            HstsChange::Upsert { entry, base_domain } => HstsChangeModel::Upsert {
                entry: entry@,
                base_domain: base_domain@,
            },
            HstsChange::Delete { host } => HstsChangeModel::Delete { host: host@ },
            HstsChange::DeleteAll => HstsChangeModel::DeleteAll,
            HstsChange::Insert { entry, base_domain } => HstsChangeModel::Insert {
                entry: entry@,
                base_domain: base_domain@,
            },
        }
    }
}

/// The columns of a row beside the host.
pub struct HstsRowModel {
    pub base_domain: Seq<char>,
    pub include_subdomains: i64,
    pub expires_at: Option<i64>,
}

/// The rows of the table, by host.
pub type HstsTable = Map<Seq<char>, HstsRowModel>;

/// Whether an entry can be kept: the second at which it ends has to fit into a column.
pub open spec fn fits_column(entry: HstsEntryModel) -> bool {
    entry.expires_at matches Some(at) ==> at <= i64::MAX
}

/// The row that keeps an entry.
pub open spec fn row_of(entry: HstsEntryModel, base_domain: Seq<char>) -> HstsRowModel {
    HstsRowModel {
        base_domain,
        include_subdomains: if entry.include_subdomains {
            1i64
        } else {
            0i64
        },
        expires_at: match entry.expires_at {
            Some(at) => Some(at as i64),
            None => None,
        },
    }
}

/// The parameters that stand for a row.
pub open spec fn row_params(entry: HstsEntryModel, base_domain: Seq<char>) -> Seq<ValueModel> {
    let row = row_of(entry, base_domain);
    seq![
        ValueModel::Text(entry.host),
        ValueModel::Text(base_domain),
        ValueModel::Integer(row.include_subdomains),
        optional_integer(row.expires_at),
    ]
}

impl HstsChangeModel {
    /// Whether there is a statement that makes the change.
    pub open spec fn has_statement(self) -> bool {
        match self {
            HstsChangeModel::Upsert { entry, .. } => fits_column(entry),
            HstsChangeModel::Insert { entry, .. } => fits_column(entry),
            _ => true,
        }
    }

    /// The statement that makes the change.
    pub open spec fn statement(self) -> StatementModel {
        match self {
            HstsChangeModel::DeleteExpired => StatementModel {
                sql: DELETE_EXPIRED@,
                params: Seq::empty(),
            },
            HstsChangeModel::Upsert { entry, base_domain } => StatementModel {
                sql: UPSERT@,
                params: row_params(entry, base_domain),
            },
            HstsChangeModel::Delete { host } => StatementModel {
                sql: DELETE@,
                params: seq![ValueModel::Text(host)],
            },
            HstsChangeModel::DeleteAll => StatementModel { sql: DELETE_ALL@, params: Seq::empty() },
            HstsChangeModel::Insert { entry, base_domain } => StatementModel {
                sql: INSERT@,
                params: row_params(entry, base_domain),
            },
        }
    }

    /// The table after the change, at the second `now`. The change fails where it has no
    /// statement, and where a row is added beside one with the same host.
    pub open spec fn apply(self, table: HstsTable, now: u64) -> Option<HstsTable> {
        if !self.has_statement() {
            None
        } else {
            match self {
                HstsChangeModel::DeleteExpired => Some(
                    table.restrict(
                        table.dom().filter(
                            |host: Seq<char>|
                                !(table[host].expires_at matches Some(at) && at <= now),
                        ),
                    ),
                ),
                HstsChangeModel::Upsert { entry, base_domain } => Some(
                    table.insert(entry.host, row_of(entry, base_domain)),
                ),
                HstsChangeModel::Delete { host } => Some(table.remove(host)),
                HstsChangeModel::DeleteAll => Some(Map::empty()),
                HstsChangeModel::Insert { entry, base_domain } => if table.contains_key(
                    entry.host,
                ) {
                    None
                } else {
                    Some(table.insert(entry.host, row_of(entry, base_domain)))
                },
            }
        }
    }
}

impl HstsChange {
    /// The statement that makes the change, if there is one.
    pub fn statement(&self) -> (r: Option<Statement>)
        ensures
            match r {
                Some(statement) => self@.has_statement() && statement@ == self@.statement(),
                None => !self@.has_statement(),
            },
    {
        match self {
            HstsChange::DeleteExpired => Some(plain(DELETE_EXPIRED)),
            HstsChange::Upsert { entry, base_domain } => with_row(UPSERT, entry, base_domain),
            HstsChange::Delete { host } => Some(with_one(DELETE, text_value(host.as_str()))),
            HstsChange::DeleteAll => Some(plain(DELETE_ALL)),
            HstsChange::Insert { entry, base_domain } => with_row(INSERT, entry, base_domain),
        }
    }
}

fn with_row(sql: &'static str, entry: &HstsEntry, base_domain: &String) -> (r: Option<Statement>)
    ensures
        match r {
            Some(statement) => fits_column(entry@) && statement@ == (StatementModel {
                sql: sql@,
                params: row_params(entry@, base_domain@),
            }),
            None => !fits_column(entry@),
        },
{
    let expires_at: Option<i64> = match entry.expires_at {
        Some(at) => {
            if at > 0x7fff_ffff_ffff_ffff {
                return None;
            }
            Some(at as i64)
        },
        None => None,
    };
    let mut params: Vec<Value> = Vec::new();
    params.push(Value::Text(entry.host.clone()));
    params.push(Value::Text(base_domain.clone()));
    params.push(Value::Integer(flag(entry.include_subdomains)));
    params.push(integer_or_null(expires_at));
    let r = Statement { sql, params };
    assert(r@.params =~= row_params(entry@, base_domain@));
    Some(r)
}

/// What a list of changes stands for.
pub open spec fn changes(list: Seq<HstsChange>) -> Seq<HstsChangeModel> {
    list.map_values(|c: HstsChange| c@)
}

/// The table after changes that are made one after another at the second `now`, or nothing where
/// one of them fails.
pub open spec fn apply_all(list: Seq<HstsChangeModel>, table: HstsTable, now: u64) -> Option<
    HstsTable,
>
    decreases list.len(),
{
    if list.len() == 0 {
        Some(table)
    } else {
        match apply_all(list.drop_last(), table, now) {
            Some(before) => list.last().apply(before, now),
            None => None,
        }
    }
}

/// A row that was read, with the registrable domain of its host.
pub struct HstsRow {
    pub host: String,
    pub include_subdomains: i64,
    pub expires_at: Option<i64>,
    pub base_domain: String,
}

/// What an `HstsRow` stands for.
pub struct HstsReadModel {
    pub host: Seq<char>,
    pub row: HstsRowModel,
}

impl View for HstsRow {
    type V = HstsReadModel;

    open spec fn view(&self) -> HstsReadModel {
        HstsReadModel {
            host: self.host@,
            row: HstsRowModel {
                base_domain: self.base_domain@,
                include_subdomains: self.include_subdomains,
                expires_at: self.expires_at,
            },
        }
    }
}

impl HstsReadModel {
    /// Whether the row can be read: the second at which it ends is not negative.
    pub open spec fn is_readable(self) -> bool {
        self.row.expires_at matches Some(at) ==> at >= 0
    }

    /// The entry in the row. The second zero stands for no end.
    pub open spec fn entry(self) -> HstsEntryModel {
        HstsEntryModel {
            host: self.host,
            include_subdomains: self.row.include_subdomains != 0,
            expires_at: match self.row.expires_at {
                Some(at) => if at == 0 {
                    None
                } else {
                    Some(at as u64)
                },
                None => None,
            },
        }
    }
}

/// What a list of rows stands for.
pub open spec fn rows_of(list: Seq<HstsRow>) -> Seq<HstsReadModel> {
    list.map_values(|row: HstsRow| row@)
}

/// The list that some rows make, one put in after another.
pub open spec fn loaded(rows: Seq<HstsReadModel>) -> HstsListModel
    decreases rows.len(),
{
    if rows.len() == 0 {
        HstsListModel::empty()
    } else {
        loaded(rows.drop_last()).push(rows.last().entry(), rows.last().row.base_domain)
    }
}

/// The changes that empty the table and add the entries of these registrable domains, in order.
pub open spec fn insertion(order: Seq<Seq<char>>, data: HstsListModel) -> Seq<HstsChangeModel>
    decreases order.len(),
{
    if order.len() == 0 {
        seq![HstsChangeModel::DeleteAll]
    } else {
        insertion(order.drop_last(), data) + bucket_insertion(
            data.entries_map[order.last()],
            order.last(),
        )
    }
}

/// The changes that add the entries of one registrable domain, in order.
pub open spec fn bucket_insertion(bucket: Seq<HstsEntryModel>, base_domain: Seq<char>) -> Seq<
    HstsChangeModel,
> {
    bucket.map_values(|entry: HstsEntryModel| HstsChangeModel::Insert { entry, base_domain })
}

/// Whether these are the keys of a map, each once.
pub open spec fn is_order(order: Seq<Seq<char>>, data: HstsListModel) -> bool {
    &&& order.no_duplicates()
    &&& forall|base_domain: Seq<char>|
        data.entries_map.contains_key(base_domain) <==> order.contains(base_domain)
}

/// Whether these changes empty the table and add all entries, with the registrable domains in
/// some order.
pub open spec fn saves(list: Seq<HstsChangeModel>, data: HstsListModel) -> bool {
    exists|order: Seq<Seq<char>>| #[trigger] is_order(order, data) && list == insertion(order, data)
}

/// The engine.
pub struct SqliteHstsListEngine {}

impl SqliteHstsListEngine {
    /// The steps that open the engine, in a directory or in memory.
    pub fn new(db_dir: Option<&Vec<String>>) -> (r: Vec<OpenStep>)
        ensures
            open_steps(r@) == opening(file_or_memory(db_dir, DB_FILENAME@)).push(
                OpenStepModel::Create(CREATE_TABLE@),
            ).push(OpenStepModel::Create(CREATE_INDEX@)),
    {
        let mut list = init_in(db_dir, DB_FILENAME);
        let ghost before = open_steps(list@);
        list.push(OpenStep::Create(CREATE_TABLE));
        list.push(OpenStep::Create(CREATE_INDEX));
        assert(open_steps(list@) =~= before.push(OpenStepModel::Create(CREATE_TABLE@)).push(
            OpenStepModel::Create(CREATE_INDEX@),
        ));
        list
    }

    /// The file of the engine in a directory.
    pub fn db_path(db_dir: &Vec<String>) -> (r: Vec<String>)
        ensures
            texts(r@) == file_in(texts(db_dir@), DB_FILENAME@),
    {
        db_file(db_dir, DB_FILENAME)
    }

    /// The change that comes before everything is read.
    pub fn clean() -> (r: HstsChange)
        ensures
            r@ == HstsChangeModel::DeleteExpired,
    {
        HstsChange::DeleteExpired
    }

    /// The statement that reads everything.
    pub fn select() -> (r: Statement)
        ensures
            r@ == (StatementModel { sql: SELECT_ALL@, params: Seq::empty() }),
    {
        plain(SELECT_ALL)
    }

    /// The list that the rows make that were read. Nothing where one of them cannot be read.
    pub fn load(rows: Vec<HstsRow>) -> (r: Option<HstsList>)
        ensures
            match r {
                Some(list) => list@ == loaded(rows_of(rows@)) && forall|i: int|
                    0 <= i < rows@.len() ==> (#[trigger] rows@[i])@.is_readable(),
                None => exists|i: int| 0 <= i < rows@.len() && !(#[trigger] rows@[i])@.is_readable(),
            },
    {
        let mut list = HstsList::default();
        let mut i: usize = 0;
        while i < rows.len()
            invariant
                i <= rows@.len(),
                list@ == loaded(rows_of(rows@).take(i as int)),
                forall|j: int| 0 <= j < i ==> (#[trigger] rows@[j])@.is_readable(),
            decreases rows@.len() - i,
        {
            let row = &rows[i];
            let expires_at: Option<u64> = match row.expires_at {
                Some(at) => {
                    if at < 0 {
                        assert(!rows@[i as int]@.is_readable());
                        return None;
                    }
                    if at == 0 {
                        None
                    } else {
                        Some(at as u64)
                    }
                },
                None => None,
            };
            let entry = HstsEntry {
                host: row.host.clone(),
                include_subdomains: row.include_subdomains != 0,
                expires_at,
            };
            assert(entry@ == rows@[i as int]@.entry());
            list.push(entry, row.base_domain.as_str());
            assert(rows_of(rows@).take(i + 1).drop_last() =~= rows_of(rows@).take(i as int));
            i += 1;
        }
        assert(rows_of(rows@).take(i as int) =~= rows_of(rows@));
        Some(list)
    }

    /// The change that keeps an entry.
    pub fn upsert(entry: &HstsEntry, base_domain: &str) -> (r: HstsChange)
        ensures
            r@ == (HstsChangeModel::Upsert { entry: entry@, base_domain: base_domain@ }),
    {
        HstsChange::Upsert { entry: entry.clone(), base_domain: base_domain.to_owned() }
    }

    /// The change that forgets the entry of a host.
    pub fn delete(host: &str) -> (r: HstsChange)
        ensures
            r@ == (HstsChangeModel::Delete { host: host@ }),
    {
        HstsChange::Delete { host: host.to_owned() }
    }

    /// The change that forgets everything.
    pub fn clear() -> (r: HstsChange)
        ensures
            r@ == HstsChangeModel::DeleteAll,
    {
        HstsChange::DeleteAll
    }

    /// The changes that keep exactly `data`, to be made in one transaction, which ends as
    /// `transaction_end` tells it.
    pub fn save(data: &HstsList) -> (r: Vec<HstsChange>)
        ensures
            saves(changes(r@), data@),
    {
        let mut list: Vec<HstsChange> = Vec::new();
        list.push(HstsChange::DeleteAll);
        let n = data.entries_map.len();
        let ghost order = data.entries_map.order();
        let mut i: usize = 0;
        assert(changes(list@) =~= insertion(order.take(0), data@));
        while i < n
            invariant
                i <= n,
                n == order.len(),
                order == data.entries_map.order(),
                changes(list@) == insertion(order.take(i as int), data@),
            decreases n - i,
        {
            let (base_domain, bucket) = data.entries_map.entry(i);
            let ghost entries = entries_of(bucket@);
            let ghost before = changes(list@);
            assert(data@.entries_map[base_domain@] == entries);
            let mut j: usize = 0;
            assert(bucket_insertion(entries.take(0), base_domain@) =~= Seq::empty());
            assert(before + bucket_insertion(entries.take(0), base_domain@) =~= before);
            while j < bucket.len()
                invariant
                    j <= bucket@.len(),
                    entries == entries_of(bucket@),
                    changes(list@) == before + bucket_insertion(
                        entries.take(j as int),
                        base_domain@,
                    ),
                decreases bucket@.len() - j,
            {
                let ghost so_far = list@;
                list.push(
                    HstsChange::Insert {
                        entry: bucket[j].clone(),
                        base_domain: base_domain.clone(),
                    },
                );
                assert(changes(list@) =~= changes(so_far).push(list@.last()@));
                assert(entries.take(j + 1) =~= entries.take(j as int).push(entries[j as int]));
                assert(changes(list@) =~= before + bucket_insertion(
                    entries.take(j + 1),
                    base_domain@,
                ));
                j += 1;
            }
            assert(entries.take(j as int) =~= entries);
            assert(order.take(i + 1).drop_last() =~= order.take(i as int));
            i += 1;
        }
        proof {
            assert(order.take(n as int) =~= order);
            assert forall|base_domain: Seq<char>|
                data@.entries_map.contains_key(base_domain) <==> order.contains(base_domain) by {
                assert(data@.entries_map.contains_key(base_domain)
                    == data.entries_map@.contains_key(base_domain));
            }
            assert(is_order(order, data@));
        }
        list
    }
}

/// Whether no host has two entries.
pub open spec fn one_entry_per_host(data: HstsListModel) -> bool {
    &&& forall|base: Seq<char>| has_distinct_hosts(#[trigger] data.bucket(base))
    &&& forall|base: Seq<char>, other: Seq<char>, entry: HstsEntryModel, twin: HstsEntryModel|
        #[trigger] data.bucket(base).contains(entry) && #[trigger] data.bucket(other).contains(twin)
            && entry.host == twin.host ==> base == other && entry == twin
}

/// Whether every entry can be kept and read again: where it ends, it does so at a second that is
/// positive and fits into a column.
pub open spec fn survives(data: HstsListModel) -> bool {
    forall|base: Seq<char>, entry: HstsEntryModel| #[trigger]
        data.bucket(base).contains(entry) ==> (entry.expires_at matches Some(at) ==> 0 < at
            <= i64::MAX)
}

/// The key of a row.
spec fn by_host() -> spec_fn((Seq<char>, HstsEntryModel)) -> Seq<char> {
    |row: (Seq<char>, HstsEntryModel)| row.1.host
}

/// The columns of a row.
spec fn columns() -> spec_fn((Seq<char>, HstsEntryModel)) -> HstsRowModel {
    |row: (Seq<char>, HstsEntryModel)| row_of(row.1, row.0)
}

spec fn inserts(rows: Seq<(Seq<char>, HstsEntryModel)>) -> Seq<HstsChangeModel> {
    rows.map_values(
        |row: (Seq<char>, HstsEntryModel)|
            HstsChangeModel::Insert { entry: row.1, base_domain: row.0 },
    )
}

proof fn lemma_insertion(order: Seq<Seq<char>>, data: HstsListModel)
    ensures
        insertion(order, data) == seq![HstsChangeModel::DeleteAll] + inserts(
            flat(order, data.entries_map),
        ),
    decreases order.len(),
{
    let rows = flat(order, data.entries_map);
    if order.len() > 0 {
        let init = order.drop_last();
        let base = order.last();
        lemma_insertion(init, data);
        assert(inserts(rows) =~= inserts(flat(init, data.entries_map)) + bucket_insertion(
            data.entries_map[base],
            base,
        ));
    }
    assert(insertion(order, data) =~= seq![HstsChangeModel::DeleteAll] + inserts(rows));
}

proof fn lemma_apply(rows: Seq<(Seq<char>, HstsEntryModel)>, table: HstsTable, now: u64)
    requires
        has_distinct_keys(rows, by_host()),
        forall|k: int| 0 <= k < rows.len() ==> fits_column((#[trigger] rows[k]).1),
    ensures
        apply_all(seq![HstsChangeModel::DeleteAll] + inserts(rows), table, now) == Some(
            filled(rows, by_host(), columns()),
        ),
    decreases rows.len(),
{
    let list = seq![HstsChangeModel::DeleteAll] + inserts(rows);
    if rows.len() == 0 {
        assert(list =~= seq![HstsChangeModel::DeleteAll]);
        assert(list.drop_last() =~= Seq::empty());
        assert(apply_all(list.drop_last(), table, now) == Some(table));
    } else {
        let init = rows.drop_last();
        lemma_rest_is_distinct(rows, by_host());
        assert forall|k: int| 0 <= k < init.len() implies fits_column((#[trigger] init[k]).1) by {
            assert(init[k] == rows[k]);
        }
        assert(fits_column(rows[rows.len() - 1].1));
        assert(list.drop_last() =~= seq![HstsChangeModel::DeleteAll] + inserts(init));
        lemma_apply(init, table, now);
        lemma_filled(init, by_host(), columns());
    }
}

/// Whether a table has exactly the entries of a list, each under its host.
pub open spec fn keeps(table: HstsTable, data: HstsListModel) -> bool {
    &&& forall|base: Seq<char>, entry: HstsEntryModel| #[trigger]
        data.bucket(base).contains(entry) ==> table.contains_key(entry.host) && table[entry.host]
            == row_of(entry, base)
    &&& forall|host: Seq<char>| #[trigger]
        table.contains_key(host) ==> exists|base: Seq<char>, entry: HstsEntryModel| #[trigger]
            data.bucket(base).contains(entry) && entry.host == host
}

/// Whatever was in the table, after a save it holds exactly what was saved, and none of the
/// changes fails.
pub proof fn law_save_fills_the_table(
    list: Seq<HstsChangeModel>,
    data: HstsListModel,
    table: HstsTable,
    now: u64,
)
    requires
        saves(list, data),
        one_entry_per_host(data),
        survives(data),
    ensures
        apply_all(list, table, now) matches Some(after) && keeps(after, data),
{
    let order = choose|order: Seq<Seq<char>>| #[trigger]
        is_order(order, data) && list == insertion(order, data);
    let rows = flat(order, data.entries_map);
    assert forall|base: Seq<char>| #[trigger] order.contains(base) implies data.entries_map[base]
        == data.bucket(base) by {}
    assert forall|base: Seq<char>, i: int, j: int|
        order.contains(base) && 0 <= i < j < data.entries_map[base].len() implies by_host()(
        (base, #[trigger] data.entries_map[base][i]),
    ) != by_host()((base, #[trigger] data.entries_map[base][j])) by {
        assert(has_distinct_hosts(data.bucket(base)));
    }
    assert forall|base: Seq<char>, other: Seq<char>, entry: HstsEntryModel, twin: HstsEntryModel|
        order.contains(base) && order.contains(other) && base != other
            && #[trigger] data.entries_map[base].contains(entry)
            && #[trigger] data.entries_map[other].contains(twin) implies by_host()((base, entry))
        != by_host()((other, twin)) by {
        assert(data.bucket(base).contains(entry) && data.bucket(other).contains(twin));
    }
    lemma_flat(order, data.entries_map);
    lemma_flat_is_distinct(order, data.entries_map, by_host());
    lemma_insertion(order, data);
    assert forall|k: int| 0 <= k < rows.len() implies fits_column((#[trigger] rows[k]).1) by {
        assert(data.bucket(rows[k].0).contains(rows[k].1));
    }
    lemma_apply(rows, table, now);
    lemma_filled(rows, by_host(), columns());
    let after = filled(rows, by_host(), columns());
    assert forall|base: Seq<char>, entry: HstsEntryModel| #[trigger]
        data.bucket(base).contains(entry) implies after.contains_key(entry.host)
        && after[entry.host] == row_of(entry, base) by {
        assert(data.entries_map.contains_key(base));
        assert(data.entries_map[base].contains(entry));
        assert(rows.contains((base, entry)));
        let k = choose|k: int| 0 <= k < rows.len() && rows[k] == (base, entry);
        assert(by_host()(rows[k]) == entry.host);
        assert(columns()(rows[k]) == row_of(entry, base));
    }
    assert forall|host: Seq<char>| #[trigger] after.contains_key(host) implies exists|
        base: Seq<char>,
        entry: HstsEntryModel,
    | #[trigger] data.bucket(base).contains(entry) && entry.host == host by {
        let k = choose|k: int| 0 <= k < rows.len() && by_host()(#[trigger] rows[k]) == host;
        assert(data.bucket(rows[k].0).contains(rows[k].1));
    }
}

/// Whether these are the rows of a table, each once, with the registrable domain that the host
/// has.
pub open spec fn lists(
    rows: Seq<HstsReadModel>,
    table: HstsTable,
    base_of: spec_fn(Seq<char>) -> Seq<char>,
) -> bool {
    &&& forall|i: int, j: int|
        0 <= i < j < rows.len() ==> (#[trigger] rows[i]).host != (#[trigger] rows[j]).host
    &&& forall|i: int|
        0 <= i < rows.len() ==> {
            let read = #[trigger] rows[i];
            &&& table.contains_key(read.host)
            &&& read.row == (HstsRowModel {
                base_domain: base_of(read.host),
                include_subdomains: table[read.host].include_subdomains,
                expires_at: table[read.host].expires_at,
            })
        }
    &&& forall|host: Seq<char>| #[trigger]
        table.contains_key(host) ==> exists|i: int|
            0 <= i < rows.len() && (#[trigger] rows[i]).host == host
}

proof fn lemma_loaded(rows: Seq<HstsReadModel>, base: Seq<char>, entry: HstsEntryModel)
    requires
        forall|i: int, j: int|
            0 <= i < j < rows.len() ==> (#[trigger] rows[i]).host != (#[trigger] rows[j]).host,
    ensures
        loaded(rows).bucket(base).contains(entry) <==> exists|i: int|
            0 <= i < rows.len() && (#[trigger] rows[i]).entry() == entry && rows[i].row.base_domain
                == base,
    decreases rows.len(),
{
    if rows.len() == 0 {
        assert(!loaded(rows).bucket(base).contains(entry));
    } else {
        let init = rows.drop_last();
        let last = rows.last();
        assert forall|i: int, j: int| 0 <= i < j < init.len() implies (#[trigger] init[i]).host
            != (#[trigger] init[j]).host by {
            assert(rows[i].host != rows[j].host);
        }
        lemma_loaded(init, base, entry);
        if last.row.base_domain == base {
            lemma_pushed(loaded(init), last.entry(), base, entry);
        }
        if exists|i: int|
            0 <= i < init.len() && (#[trigger] init[i]).entry() == entry
                && init[i].row.base_domain == base {
            let i = choose|i: int|
                0 <= i < init.len() && (#[trigger] init[i]).entry() == entry
                    && init[i].row.base_domain == base;
            assert(rows[i].host != rows[rows.len() - 1].host);
            assert(rows[i].entry() == entry);
        }
        if exists|i: int|
            0 <= i < rows.len() && (#[trigger] rows[i]).entry() == entry
                && rows[i].row.base_domain == base {
            let i = choose|i: int|
                0 <= i < rows.len() && (#[trigger] rows[i]).entry() == entry
                    && rows[i].row.base_domain == base;
            if i < init.len() {
                assert(init[i].entry() == entry);
            }
        }
        if last.entry() == entry && last.row.base_domain == base {
            assert(rows[rows.len() - 1].entry() == entry);
        }
    }
}

/// What was saved is what is loaded at a later time, but for the entries that have ended by then.
pub proof fn law_save_then_load(
    list: Seq<HstsChangeModel>,
    data: HstsListModel,
    table: HstsTable,
    rows: Seq<HstsReadModel>,
    base_of: spec_fn(Seq<char>) -> Seq<char>,
    saved: u64,
    now: u64,
    base: Seq<char>,
    entry: HstsEntryModel,
)
    requires
        saves(list, data),
        one_entry_per_host(data),
        survives(data),
        forall|b: Seq<char>, e: HstsEntryModel| #[trigger]
            data.bucket(b).contains(e) ==> b == base_of(e.host),
        apply_all(list, table, saved) matches Some(after) && (
        HstsChangeModel::DeleteExpired.apply(after, now) matches Some(cleaned) && lists(
            rows,
            cleaned,
            base_of,
        )),
    ensures
        loaded(rows).bucket(base).contains(entry) <==> data.bucket(base).contains(entry)
            && !entry.is_expired(now),
{
    law_save_fills_the_table(list, data, table, saved);
    let after = apply_all(list, table, saved)->0;
    let cleaned = HstsChangeModel::DeleteExpired.apply(after, now)->0;
    lemma_loaded(rows, base, entry);
    if data.bucket(base).contains(entry) && !entry.is_expired(now) {
        assert(after.contains_key(entry.host));
        assert(cleaned.contains_key(entry.host));
        let i = choose|i: int| 0 <= i < rows.len() && (#[trigger] rows[i]).host == entry.host;
        assert(rows[i].entry() == entry);
        assert(rows[i].row.base_domain == base);
    }
    if loaded(rows).bucket(base).contains(entry) {
        let i = choose|i: int|
            0 <= i < rows.len() && (#[trigger] rows[i]).entry() == entry && rows[i].row.base_domain
                == base;
        assert(cleaned.contains_key(rows[i].host));
        assert(after.contains_key(rows[i].host));
        let (b, e) = choose|b: Seq<char>, e: HstsEntryModel| #[trigger]
            data.bucket(b).contains(e) && e.host == rows[i].host;
        assert(after[e.host] == row_of(e, b));
        assert(rows[i].entry() == e);
    }
}

/// Whether a table has an entry under a registrable domain.
pub open spec fn holds(table: HstsTable, base: Seq<char>, entry: HstsEntryModel) -> bool {
    table.contains_key(entry.host) && table[entry.host] == row_of(entry, base)
}

/// Whether a table has what an engine with these calls behind it is taken to keep.
pub open spec fn mirrors(table: HstsTable, calls: Seq<HstsCall>) -> bool {
    forall|base: Seq<char>, entry: HstsEntryModel|
        fits_column(entry) ==> (#[trigger] holds(table, base, entry)) == kept(calls, base, entry)
}

/// The changes keep the table to what an engine is taken to keep: each call that succeeds does to
/// the one what its change does to the other.
pub proof fn law_changes_follow_the_calls(
    table: HstsTable,
    calls: Seq<HstsCall>,
    put: HstsEntryModel,
    base_domain: Seq<char>,
    data: HstsListModel,
    list: Seq<HstsChangeModel>,
    now: u64,
)
    requires
        mirrors(table, calls),
        fits_column(put),
        saves(list, data),
        one_entry_per_host(data),
        survives(data),
    ensures
        ({
            let upserted = (HstsChangeModel::Upsert { entry: put, base_domain }).apply(table, now);
            let deleted = (HstsChangeModel::Delete { host: put.host }).apply(table, now);
            let cleared = HstsChangeModel::DeleteAll.apply(table, now);
            let saved = apply_all(list, table, now);
            &&& upserted is Some && mirrors(
                upserted->0,
                calls.push(HstsCall::Upsert { entry: put, base_domain, ok: true }),
            )
            &&& deleted is Some && mirrors(
                deleted->0,
                calls.push(HstsCall::Delete { host: put.host, ok: true }),
            )
            &&& cleared is Some && mirrors(cleared->0, calls.push(HstsCall::Clear { ok: true }))
            &&& saved is Some && mirrors(
                saved->0,
                calls.push(HstsCall::Save { data, ok: true }),
            )
        }),
{
    let upserted = (HstsChangeModel::Upsert { entry: put, base_domain }).apply(table, now)->0;
    let with_upsert = calls.push(HstsCall::Upsert { entry: put, base_domain, ok: true });
    let deleted = (HstsChangeModel::Delete { host: put.host }).apply(table, now)->0;
    let with_delete = calls.push(HstsCall::Delete { host: put.host, ok: true });
    assert(with_upsert.drop_last() =~= calls);
    assert(with_delete.drop_last() =~= calls);
    assert forall|base: Seq<char>, entry: HstsEntryModel| fits_column(entry) implies (
    #[trigger] holds(upserted, base, entry)) == kept(with_upsert, base, entry) by {
        assert(holds(table, base, entry) == kept(calls, base, entry));
    }
    assert forall|base: Seq<char>, entry: HstsEntryModel| fits_column(entry) implies (
    #[trigger] holds(deleted, base, entry)) == kept(with_delete, base, entry) by {
        assert(holds(table, base, entry) == kept(calls, base, entry));
    }
    law_save_fills_the_table(list, data, table, now);
    let saved = apply_all(list, table, now)->0;
    assert forall|base: Seq<char>, entry: HstsEntryModel| fits_column(entry) implies (
    #[trigger] holds(saved, base, entry)) == data.bucket(base).contains(entry) by {
        if holds(saved, base, entry) {
            let (b, e) = choose|b: Seq<char>, e: HstsEntryModel| #[trigger]
                data.bucket(b).contains(e) && e.host == entry.host;
            assert(saved[e.host] == row_of(e, b));
            assert(e == entry && b == base);
        }
    }
}

/// A save is all or nothing: where it succeeds, the table holds exactly what was saved, and where
/// anything fails, it is as it was before. It succeeds where neither a change nor the commit fails
/// for a reason outside of the table.
pub proof fn law_save_is_all_or_nothing(
    list: Seq<HstsChangeModel>,
    data: HstsListModel,
    table: HstsTable,
    now: u64,
    failed: bool,
    committed: bool,
)
    requires
        saves(list, data),
        one_entry_per_host(data),
        survives(data),
    ensures
        ({
            let (after, ok) = transacted(table, apply_all(list, table, now), failed, committed);
            &&& ok <==> !failed && committed
            &&& ok ==> keeps(after, data)
            &&& !ok ==> after == table
        }),
{
    law_save_fills_the_table(list, data, table, now);
}

/// An entry that was kept is what is loaded for its host as long as it has not ended, and nothing is
/// afterwards. The entries of other hosts are loaded as if it had not been kept.
pub proof fn law_upsert_then_load(
    table: HstsTable,
    put: HstsEntryModel,
    base_domain: Seq<char>,
    base_of: spec_fn(Seq<char>) -> Seq<char>,
    upserted: u64,
    now: u64,
    rows: Seq<HstsReadModel>,
    rows_without: Seq<HstsReadModel>,
    base: Seq<char>,
    entry: HstsEntryModel,
)
    requires
        put.expires_at matches Some(at) ==> 0 < at <= i64::MAX,
        (HstsChangeModel::Upsert { entry: put, base_domain }).apply(table, upserted) matches Some(
            after,
        ) && (HstsChangeModel::DeleteExpired.apply(after, now) matches Some(cleaned) && lists(
            rows,
            cleaned,
            base_of,
        )),
        HstsChangeModel::DeleteExpired.apply(table, now) matches Some(cleaned) && lists(
            rows_without,
            cleaned,
            base_of,
        ),
    ensures
        entry.host == put.host ==> (loaded(rows).bucket(base).contains(entry) <==> entry == put
            && base == base_of(put.host) && !put.is_expired(now)),
        entry.host != put.host ==> (loaded(rows).bucket(base).contains(entry) <==> loaded(
            rows_without,
        ).bucket(base).contains(entry)),
{
    let after = (HstsChangeModel::Upsert { entry: put, base_domain }).apply(table, upserted)->0;
    let cleaned = HstsChangeModel::DeleteExpired.apply(after, now)->0;
    let without = HstsChangeModel::DeleteExpired.apply(table, now)->0;
    lemma_loaded(rows, base, entry);
    lemma_loaded(rows_without, base, entry);
    assert(cleaned.contains_key(put.host) <==> !put.is_expired(now));
    if loaded(rows).bucket(base).contains(entry) {
        let i = choose|i: int|
            0 <= i < rows.len() && (#[trigger] rows[i]).entry() == entry && rows[i].row.base_domain
                == base;
        assert(cleaned.contains_key(rows[i].host));
        if entry.host != put.host {
            assert(without.contains_key(entry.host));
            let j = choose|j: int|
                0 <= j < rows_without.len() && (#[trigger] rows_without[j]).host == entry.host;
            assert(rows_without[j].entry() == entry);
        }
    }
    if entry == put && base == base_of(put.host) && !put.is_expired(now) {
        let i = choose|i: int| 0 <= i < rows.len() && (#[trigger] rows[i]).host == put.host;
        assert(rows[i].entry() == put);
    }
    if entry.host != put.host && loaded(rows_without).bucket(base).contains(entry) {
        let j = choose|j: int|
            0 <= j < rows_without.len() && (#[trigger] rows_without[j]).entry() == entry
                && rows_without[j].row.base_domain == base;
        assert(without.contains_key(rows_without[j].host));
        assert(cleaned.contains_key(entry.host));
        let i = choose|i: int| 0 <= i < rows.len() && (#[trigger] rows[i]).host == entry.host;
        assert(rows[i].entry() == entry);
    }
}

/// The row that the parameters of a statement make, if they go to the columns for the host, the
/// registrable domain, the subdomains and the end, in this order, which is the one in which the
/// statements list them.
pub open spec fn row_in(params: Seq<ValueModel>) -> HstsReadModel {
    HstsReadModel {
        host: text_in(params[0]),
        row: HstsRowModel {
            base_domain: text_in(params[1]),
            include_subdomains: match integer_in(params[2]) {
                Some(n) => n,
                None => 0,
            },
            expires_at: integer_in(params[3]),
        },
    }
}

/// An entry is written so that the same entry is read back: of the same host, for its subdomains
/// exactly where it was, and with the same end. The column for the subdomains holds one where it
/// holds for them and zero where it does not.
pub proof fn law_written_entry_is_read_back(
    entry: HstsEntryModel,
    base_domain: Seq<char>,
    table: HstsTable,
    now: u64,
)
    requires
        entry.expires_at matches Some(at) ==> 0 < at <= i64::MAX,
    ensures
        ({
            let upsert = HstsChangeModel::Upsert { entry, base_domain };
            let insert = HstsChangeModel::Insert { entry, base_domain };
            let params = upsert.statement().params;
            let written = row_in(params);
            &&& upsert.has_statement() && insert.has_statement()
            &&& params.len() == 4
            &&& insert.statement().params == params
            &&& params[0] == ValueModel::Text(entry.host)
            &&& params[1] == ValueModel::Text(base_domain)
            &&& entry.include_subdomains ==> params[2] == ValueModel::Integer(1)
            &&& !entry.include_subdomains ==> params[2] == ValueModel::Integer(0)
            &&& entry.expires_at is None ==> params[3] == ValueModel::Null
            &&& entry.expires_at matches Some(at) ==> params[3] == ValueModel::Integer(at as i64)
            &&& written.is_readable()
            &&& written.entry() == entry
            &&& written.row.base_domain == base_domain
            &&& upsert.apply(table, now) == Some(table.insert(written.host, written.row))
            &&& insert.apply(table, now) matches Some(after) ==> after == table.insert(
                written.host,
                written.row,
            )
            &&& insert.apply(table, now) is None <==> table.contains_key(written.host)
        }),
{
}

/// Whether subdomains of a host are secure after a restart is what its entry says: a row that was
/// written covers a subdomain exactly where the entry is for subdomains and has not ended.
pub proof fn law_subdomains_are_kept(
    entry: HstsEntryModel,
    base_domain: Seq<char>,
    host: Seq<char>,
    now: u64,
)
    requires
        entry.expires_at matches Some(at) ==> 0 < at <= i64::MAX,
        is_subdomain(host, entry.host),
    ensures
        ({
            let written = row_in(
                (HstsChangeModel::Upsert { entry, base_domain }).statement().params,
            );
            loaded(seq![written]).is_host_secure(host, base_domain, now)
                <==> entry.include_subdomains && !entry.is_expired(now)
        }),
{
    let written = row_in((HstsChangeModel::Upsert { entry, base_domain }).statement().params);
    let list = loaded(seq![written]);
    assert(seq![written].drop_last() =~= Seq::empty());
    law_written_entry_is_read_back(entry, base_domain, Map::empty(), now);
    assert(loaded(Seq::empty()) == HstsListModel::empty());
    assert(list == HstsListModel::empty().push(entry, base_domain));
    assert(HstsListModel::empty().bucket(base_domain) =~= Seq::empty());
    assert(list.bucket(base_domain) =~= seq![entry]);
    assert(list.bucket(base_domain)[0] == entry);
}

/// To forget a host binds the one whose row goes, and no other row does. What has ended goes before
/// everything is read, and nothing else.
pub proof fn law_forgetting_binds_the_host(
    host: Seq<char>,
    table: HstsTable,
    other: Seq<char>,
    now: u64,
)
    ensures
        ({
            let change = HstsChangeModel::Delete { host };
            let bound = change.statement().params;
            &&& bound == seq![ValueModel::Text(host)]
            &&& change.apply(table, now) matches Some(after) && (after.contains_key(other)
                <==> table.contains_key(other) && other != text_in(bound[0]))
            &&& HstsChangeModel::DeleteAll.statement().params.len() == 0
            &&& HstsChangeModel::DeleteAll.apply(table, now) == Some(Map::<Seq<char>, HstsRowModel>::empty())
            &&& HstsChangeModel::DeleteExpired.statement().params.len() == 0
            &&& HstsChangeModel::DeleteExpired.apply(table, now) matches Some(after) && (
            after.contains_key(other) <==> table.contains_key(other) && !(
            table[other].expires_at matches Some(at) && at <= now))
        }),
{
}

/// What is run for each change, and the order in which its parameters are listed.
pub proof fn law_statements_are_these(
    entry: HstsEntryModel,
    base_domain: Seq<char>,
    host: Seq<char>,
)
    ensures
        (HstsChangeModel::Upsert { entry, base_domain }).statement().sql == "INSERT INTO hsts_entries (host, base_domain, include_subdomains, expires_at)
             VALUES (?, ?, ?, ?)
             ON CONFLICT(host) DO UPDATE SET
                 base_domain = excluded.base_domain,
                 include_subdomains = excluded.include_subdomains,
                 expires_at = excluded.expires_at"@,
        (HstsChangeModel::Insert { entry, base_domain }).statement().sql == "INSERT INTO hsts_entries (host, base_domain, include_subdomains, expires_at)
             VALUES (?, ?, ?, ?)"@,
        (HstsChangeModel::Delete { host }).statement().sql == "DELETE FROM hsts_entries WHERE host = ?"@,
        HstsChangeModel::DeleteAll.statement().sql == "DELETE FROM hsts_entries"@,
        HstsChangeModel::DeleteExpired.statement().sql == "DELETE FROM hsts_entries WHERE expires_at IS NOT NULL AND expires_at <= unixepoch()"@,
        SELECT_ALL@ == "SELECT host, include_subdomains, expires_at FROM hsts_entries ORDER BY host"@,
        CREATE_TABLE@ == "CREATE TABLE IF NOT EXISTS hsts_entries (
                host TEXT PRIMARY KEY,
                base_domain TEXT NOT NULL,
                include_subdomains INTEGER NOT NULL,
                expires_at INTEGER NULL
            );"@,
        CREATE_INDEX@ == "CREATE INDEX IF NOT EXISTS hsts_entries_base_domain_idx ON hsts_entries(base_domain);"@,
        DB_FILENAME@ == "hsts_list.sqlite"@,
{
}

/// A row stands for its own columns, and a change for the entry and the registrable domain that it
/// names.
pub proof fn law_rows_and_changes_stand_for_their_fields(
    row: HstsRow,
    entry: HstsEntry,
    base_domain: String,
    host: String,
)
    ensures
        row@.host == row.host@,
        row@.row.base_domain == row.base_domain@,
        row@.row.include_subdomains == row.include_subdomains,
        row@.row.expires_at == row.expires_at,
        (HstsChange::Upsert { entry, base_domain })@ == (HstsChangeModel::Upsert {
            entry: entry@,
            base_domain: base_domain@,
        }),
        (HstsChange::Insert { entry, base_domain })@ == (HstsChangeModel::Insert {
            entry: entry@,
            base_domain: base_domain@,
        }),
        (HstsChange::Delete { host })@ == (HstsChangeModel::Delete { host: host@ }),
{
}

/// What is read from a row: its host, that it is for subdomains where the column is not zero, and its
/// end, where zero stands for none. A negative end cannot be read.
pub proof fn law_columns_are_read_like_this(read: HstsReadModel, at: i64)
    ensures
        read.entry().host == read.host,
        read.entry().include_subdomains <==> read.row.include_subdomains != 0,
        read.row.expires_at is None ==> read.entry().expires_at is None && read.is_readable(),
        read.row.expires_at == Some(at) && at > 0 ==> read.entry().expires_at == Some(at as u64)
            && read.is_readable(),
        read.row.expires_at == Some(0i64) ==> read.entry().expires_at is None
            && read.is_readable(),
        read.row.expires_at == Some(at) && at < 0 ==> !read.is_readable(),
{
}

/// An entry has a statement exactly where its end fits into a column.
pub proof fn law_ends_that_do_not_fit_are_refused(
    entry: HstsEntryModel,
    base_domain: Seq<char>,
    table: HstsTable,
    at: u64,
    now: u64,
)
    ensures
        entry.expires_at is None ==> (HstsChangeModel::Upsert {
            entry,
            base_domain,
        }).has_statement(),
        entry.expires_at == Some(at) ==> ((HstsChangeModel::Upsert {
            entry,
            base_domain,
        }).has_statement() <==> at <= i64::MAX),
        entry.expires_at == Some(at) && at > i64::MAX ==> (HstsChangeModel::Upsert {
            entry,
            base_domain,
        }).apply(table, now) is None,
{
}

} // verus!

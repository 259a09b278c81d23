//! How a connection is opened.
use crate::text::{clone_texts, texts};
use vstd::prelude::*;

verus! {

/// Pragmas for a new connection to a file.
pub const JOURNAL_MODE: &'static str = "PRAGMA journal_mode = WAL;";

pub const ENCODING: &'static str = "PRAGMA encoding = 'UTF-16';";

pub const SYNCHRONOUS: &'static str = "PRAGMA synchronous = NORMAL;";

pub const JOURNAL_SIZE_LIMIT: &'static str =
    "PRAGMA journal_size_limit = 67108864 -- 64 megabytes;";

pub const MMAP_SIZE: &'static str = "PRAGMA mmap_size = 67108864 -- 64 megabytes;";

pub const CACHE_SIZE: &'static str = "PRAGMA cache_size = 2000;";

/// The version of the tables, which is noted in the file.
pub const SCHEMA_VERSION: i64 = 1;

/// A step towards a connection that can be used.
pub enum OpenStep {
    /// Make the folder with these segments, and those above it.
    MakeFolder(Vec<String>),
    /// Connect to the file whose path has these segments.
    OpenFile(Vec<String>),
    /// Connect to a database in memory.
    OpenInMemory,
    /// Run a pragma.
    Pragma(&'static str),
    /// Set the pragma `user_version`.
    SetUserVersion(i64),
    /// Run a statement that makes a table or an index unless it is there.
    Create(&'static str),
}

/// What an `OpenStep` stands for.
pub enum OpenStepModel {
    MakeFolder(Seq<Seq<char>>),
    OpenFile(Seq<Seq<char>>),
    OpenInMemory,
    Pragma(Seq<char>),
    SetUserVersion(i64),
    Create(Seq<char>),
}

impl View for OpenStep {
    type V = OpenStepModel;

    open spec fn view(&self) -> OpenStepModel {
        match self {
            OpenStep::MakeFolder(path) => OpenStepModel::MakeFolder(texts(path@)),
            OpenStep::OpenFile(path) => OpenStepModel::OpenFile(texts(path@)),
            OpenStep::OpenInMemory => OpenStepModel::OpenInMemory,
            OpenStep::Pragma(sql) => OpenStepModel::Pragma((*sql)@),
            OpenStep::SetUserVersion(version) => OpenStepModel::SetUserVersion(*version),
            OpenStep::Create(sql) => OpenStepModel::Create((*sql)@),
        }
    }
}

impl OpenStepModel {
    /// Whether there is no connection if this step fails. The others are hints.
    pub open spec fn counts(self) -> bool {
        !(self is MakeFolder || self is Pragma)
    }
}

impl OpenStep {
    /// Whether there is no connection if this step fails.
    pub fn is_required(&self) -> (r: bool)
        ensures
            r == self@.counts(),
    {
        match self {
            OpenStep::MakeFolder(_) => false,
            OpenStep::Pragma(_) => false,
            _ => true,
        }
    }
}

/// What a list of steps stands for.
pub open spec fn open_steps(list: Seq<OpenStep>) -> Seq<OpenStepModel> {
    list.map_values(|s: OpenStep| s@)
}

/// The steps that open a connection: to a file, or in memory where no path is given.
pub open spec fn opening(db_path: Option<Seq<Seq<char>>>) -> Seq<OpenStepModel> {
    match db_path {
        Some(path) => {
            let folder = if path.len() > 0 {
                seq![OpenStepModel::MakeFolder(path.drop_last())]
            } else {
                Seq::empty()
            };
            folder + seq![
                OpenStepModel::OpenFile(path),
                OpenStepModel::Pragma(JOURNAL_MODE@),
                OpenStepModel::Pragma(ENCODING@),
                OpenStepModel::Pragma(SYNCHRONOUS@),
                OpenStepModel::Pragma(JOURNAL_SIZE_LIMIT@),
                OpenStepModel::Pragma(MMAP_SIZE@),
                OpenStepModel::Pragma(CACHE_SIZE@),
                OpenStepModel::SetUserVersion(SCHEMA_VERSION),
            ]
        },
        None => seq![
            OpenStepModel::OpenInMemory,
            OpenStepModel::Pragma(ENCODING@),
            OpenStepModel::Pragma(CACHE_SIZE@),
            OpenStepModel::SetUserVersion(SCHEMA_VERSION),
        ],
    }
}

/// The segments of a path that may be missing.
pub open spec fn optional_path(path: Option<Vec<String>>) -> Option<Seq<Seq<char>>> {
    match path {
        Some(path) => Some(texts(path@)),
        None => None,
    }
}

/// The steps that open a connection, to be taken in order. The first required one that fails is
/// the failure of them all.
pub fn init_connection(db_path: Option<Vec<String>>) -> (r: Vec<OpenStep>)
    ensures
        open_steps(r@) == opening(optional_path(db_path)),
{
    let ghost given = optional_path(db_path);
    let mut list: Vec<OpenStep> = Vec::new();
    match db_path {
        Some(path) => {
            if path.len() > 0 {
                let mut parent = clone_texts(&path);
                let _ = parent.pop();
                assert(texts(parent@) =~= texts(path@).drop_last());
                list.push(OpenStep::MakeFolder(parent));
            }
            list.push(OpenStep::OpenFile(path));
            list.push(OpenStep::Pragma(JOURNAL_MODE));
            list.push(OpenStep::Pragma(ENCODING));
            list.push(OpenStep::Pragma(SYNCHRONOUS));
            list.push(OpenStep::Pragma(JOURNAL_SIZE_LIMIT));
            list.push(OpenStep::Pragma(MMAP_SIZE));
            list.push(OpenStep::Pragma(CACHE_SIZE));
        },
        None => {
            list.push(OpenStep::OpenInMemory);
            list.push(OpenStep::Pragma(ENCODING));
            list.push(OpenStep::Pragma(CACHE_SIZE));
        },
    }
    list.push(OpenStep::SetUserVersion(SCHEMA_VERSION));
    assert(open_steps(list@) =~= opening(given));
    list
}

/// The file with this name in a directory.
pub open spec fn file_in(db_dir: Seq<Seq<char>>, name: Seq<char>) -> Seq<Seq<char>> {
    db_dir.push(name)
}

/// The file with this name in a directory.
pub fn db_file(db_dir: &Vec<String>, name: &str) -> (r: Vec<String>)
    ensures
        texts(r@) == file_in(texts(db_dir@), name@),
{
    let mut path = clone_texts(db_dir);
    path.push(name.to_owned());
    assert(texts(path@) =~= file_in(texts(db_dir@), name@));
    path
}

/// Where an engine keeps its file, if it has one.
pub open spec fn file_or_memory(db_dir: Option<&Vec<String>>, name: Seq<char>) -> Option<
    Seq<Seq<char>>,
> {
    match db_dir {
        Some(dir) => Some(file_in(texts(dir@), name)),
        None => None,
    }
}

/// The steps that open the file of an engine in a directory, or a database in memory where no
/// directory is given.
pub fn init_in(db_dir: Option<&Vec<String>>, name: &str) -> (r: Vec<OpenStep>)
    ensures
        open_steps(r@) == opening(file_or_memory(db_dir, name@)),
{
    match db_dir {
        Some(dir) => init_connection(Some(db_file(dir, name))),
        None => init_connection(None),
    }
}

/// Where the connection is to a file, the folder that it is in is made first.
pub proof fn law_file_is_opened_in_its_folder(path: Seq<Seq<char>>)
    requires
        path.len() > 0,
    ensures
        opening(Some(path))[0] == OpenStepModel::MakeFolder(path.drop_last()),
        opening(Some(path))[1] == OpenStepModel::OpenFile(path),
{
}

/// A database in memory touches no file.
pub proof fn law_memory_leaves_no_file(i: int)
    requires
        0 <= i < opening(None).len(),
    ensures
        !(opening(None)[i] is OpenFile),
        !(opening(None)[i] is MakeFolder),
{
}

/// How a transaction ends.
#[derive(Clone, Copy, Debug, PartialEq, Eq, Structural)]
pub enum TransactionEnd {
    /// What was changed in it is kept, if that succeeds.
    Commit,
    /// Nothing that was changed in it is kept.
    RollBack,
}

/// How a transaction ends: what was changed is kept where no change failed.
pub open spec fn end_of(failed: bool) -> TransactionEnd {
    if failed {
        TransactionEnd::RollBack
    } else {
        TransactionEnd::Commit
    }
}

/// How a transaction ends, by the first failure of a change in it.
pub fn transaction_end<E>(failure: &Option<E>) -> (r: TransactionEnd)
    ensures
        failure is Some <==> r is RollBack,
        r == end_of(failure is Some),
{
    match failure {
        Some(_) => TransactionEnd::RollBack,
        None => TransactionEnd::Commit,
    }
}

/// What a table is after changes in one transaction, and whether they succeeded. `changed` is what
/// the changes make of it, if the table lets them; `failed` tells whether one failed for any other
/// reason, and `committed` whether what they made could be kept.
pub open spec fn transacted<T>(before: T, changed: Option<T>, failed: bool, committed: bool) -> (
    T,
    bool,
) {
    match end_of(failed || changed is None) {
        TransactionEnd::Commit => if committed {
            (changed->0, true)
        } else {
            (before, false)
        },
        TransactionEnd::RollBack => (before, false),
    }
}

/// A connection to a file is made after the folder of the file, is prepared for a journal that is
/// written ahead and for text in UTF-16, and ends with the version of the tables. Only that there is
/// no connection, or that the version cannot be noted, counts as a failure.
pub proof fn law_file_connections_are_prepared(path: Seq<Seq<char>>, i: int)
    requires
        path.len() > 0,
    ensures
        opening(Some(path)) == seq![
            OpenStepModel::MakeFolder(path.drop_last()),
            OpenStepModel::OpenFile(path),
            OpenStepModel::Pragma("PRAGMA journal_mode = WAL;"@),
            OpenStepModel::Pragma("PRAGMA encoding = 'UTF-16';"@),
            OpenStepModel::Pragma("PRAGMA synchronous = NORMAL;"@),
            OpenStepModel::Pragma("PRAGMA journal_size_limit = 67108864 -- 64 megabytes;"@),
            OpenStepModel::Pragma("PRAGMA mmap_size = 67108864 -- 64 megabytes;"@),
            OpenStepModel::Pragma("PRAGMA cache_size = 2000;"@),
            OpenStepModel::SetUserVersion(1),
        ],
        0 <= i < opening(Some(path)).len() ==> (opening(Some(path))[i].counts() <==> i == 1 || i
            == 8),
{
    assert(opening(Some(path)) =~= seq![
        OpenStepModel::MakeFolder(path.drop_last()),
        OpenStepModel::OpenFile(path),
        OpenStepModel::Pragma("PRAGMA journal_mode = WAL;"@),
        OpenStepModel::Pragma("PRAGMA encoding = 'UTF-16';"@),
        OpenStepModel::Pragma("PRAGMA synchronous = NORMAL;"@),
        OpenStepModel::Pragma("PRAGMA journal_size_limit = 67108864 -- 64 megabytes;"@),
        OpenStepModel::Pragma("PRAGMA mmap_size = 67108864 -- 64 megabytes;"@),
        OpenStepModel::Pragma("PRAGMA cache_size = 2000;"@),
        OpenStepModel::SetUserVersion(1),
    ]);
}

/// A database in memory is prepared for text in UTF-16, and ends with the version of the tables. Only
/// that there is no connection, or that the version cannot be noted, counts as a failure.
pub proof fn law_memory_connections_are_prepared(i: int)
    ensures
        opening(None) == seq![
            OpenStepModel::OpenInMemory,
            OpenStepModel::Pragma("PRAGMA encoding = 'UTF-16';"@),
            OpenStepModel::Pragma("PRAGMA cache_size = 2000;"@),
            OpenStepModel::SetUserVersion(1),
        ],
        0 <= i < opening(None).len() ==> (opening(None)[i].counts() <==> i == 0 || i == 3),
{
}

/// The file of an engine is in its directory, under its name; without a directory there is none.
pub proof fn law_engine_files_are_in_the_directory(db_dir: Seq<Seq<char>>, name: Seq<char>)
    ensures
        file_in(db_dir, name).drop_last() == db_dir,
        file_in(db_dir, name).last() == name,
        file_or_memory(None, name) is None,
{
    assert(file_in(db_dir, name).drop_last() =~= db_dir);
}

/// Changes in one transaction are kept where none fails and the commit does not, and are undone, as
/// a whole, otherwise.
pub proof fn law_transaction_is_all_or_nothing<T>(
    before: T,
    after: T,
    failed: bool,
    committed: bool,
)
    ensures
        transacted(before, Some(after), false, true) == (after, true),
        transacted(before, Some(after), true, committed) == (before, false),
        transacted(before, Some(after), failed, false) == (before, false),
        transacted(before, None::<T>, failed, committed) == (before, false),
{
}

} // verus!

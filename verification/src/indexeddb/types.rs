//! Plain values that travel between script, the IndexedDB managers and the storage engines.
use crate::text::{clone_texts, texts};
use vstd::prelude::*;

verus! {

/// In which mode a transaction runs.
#[derive(Clone, Copy, Debug, PartialEq, Eq, Structural)]
pub enum IndexedDBTxnMode {
    Readonly,
    Readwrite,
    Versionchange,
}

/// Where the key of a record is found in its value.
pub enum KeyPath {
    String(String),
    Sequence(Vec<String>),
}

/// What a `KeyPath` stands for.
pub enum KeyPathModel {
    String(Seq<char>),
    Sequence(Seq<Seq<char>>),
}

impl View for KeyPath {
    type V = KeyPathModel;

    open spec fn view(&self) -> KeyPathModel {
        match self {
            KeyPath::String(s) => KeyPathModel::String(s@),
            KeyPath::Sequence(list) => KeyPathModel::Sequence(texts(list@)),
        }
    }
}

impl KeyPath {
    /// A copy of the key path.
    pub fn copy(&self) -> (r: KeyPath)
        ensures
            r@ == self@,
    {
        match self {
            KeyPath::String(s) => KeyPath::String(s.clone()),
            KeyPath::Sequence(list) => KeyPath::Sequence(clone_texts(list)),
        }
    }
}

/// What an optional key path stands for.
pub open spec fn opt_key_path(path: Option<KeyPath>) -> Option<KeyPathModel> {
    match path {
        Some(p) => Some(p@),
        None => None,
    }
}

/// What came of a request to create an object store or an index.
#[derive(Clone, Copy, Debug, PartialEq, Eq, Structural)]
pub enum CreateObjectResult {
    Created,
    AlreadyExists,
}

/// The result of an engine operation; a failure is told by its text.
pub type DbResult<T> = Result<T, String>;

/// Why a manager could not do what it was asked to do.
pub enum BackendError {
    /// The database is not open.
    DbNotFound,
    /// The engine failed, for the reason given.
    DbErr(String),
}

/// What a `BackendError` stands for.
pub enum BackendErrorModel {
    DbNotFound,
    DbErr(Seq<char>),
}

impl View for BackendError {
    type V = BackendErrorModel;

    open spec fn view(&self) -> BackendErrorModel {
        match self {
            BackendError::DbNotFound => BackendErrorModel::DbNotFound,
            BackendError::DbErr(text) => BackendErrorModel::DbErr(text@),
        }
    }
}

/// The result of a request to a manager.
pub type BackendResult<T> = Result<T, BackendError>;

/// What the result of an engine operation stands for.
pub open spec fn db_model<T>(r: DbResult<T>) -> Result<T, Seq<char>> {
    match r {
        Ok(t) => Ok(t),
        Err(text) => Err(text@),
    }
}

/// What the result of a request to a manager stands for.
pub open spec fn backend_model<T>(r: BackendResult<T>) -> Result<T, BackendErrorModel> {
    match r {
        Ok(t) => Ok(t),
        Err(e) => Err(e@),
    }
}

/// An engine's result as the manager reports it: a failure of the engine becomes `DbErr`.
pub open spec fn reported<T>(r: Result<T, Seq<char>>) -> Result<T, BackendErrorModel> {
    match r {
        Ok(t) => Ok(t),
        Err(text) => Err(BackendErrorModel::DbErr(text)),
    }
}

/// Reports an engine's result.
pub fn report<T>(r: DbResult<T>) -> (out: BackendResult<T>)
    ensures
        backend_model(out) == reported(db_model(r)),
{
    match r {
        Ok(t) => Ok(t),
        Err(text) => Err(BackendError::DbErr(text)),
    }
}

/// What an engine answers is reported as it is; where it failed, the failure is reported with the
/// text that it gave, and never as a database that is not open.
pub proof fn law_results_are_reported_as_they_are<T>(value: T, text: Seq<char>)
    ensures
        reported(Ok::<T, Seq<char>>(value)) == Ok::<T, BackendErrorModel>(value),
        reported(Err::<T, Seq<char>>(text)) == Err::<T, BackendErrorModel>(
            BackendErrorModel::DbErr(text),
        ),
{
}

} // verus!

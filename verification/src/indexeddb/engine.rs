//! The operations that every storage engine of an IndexedDB database offers.
use crate::indexeddb::types::{
    backend_model, db_model, opt_key_path, report, reported, BackendError, BackendErrorModel,
    BackendResult, CreateObjectResult, DbResult, IndexedDBTxnMode, KeyPath, KeyPathModel,
};
use vstd::prelude::*;

verus! {

/// A transaction as it is handed to an engine.
pub struct TransactionModel {
    pub mode: IndexedDBTxnMode,
    pub stores: Seq<Seq<char>>,
    pub start: Option<i64>,
    pub channel: u64,
}

/// One call of an engine: what was handed in and what came back.
#[allow(inconsistent_fields)]
pub enum EngineCall {
    CreateStore {
        store: Seq<char>,
        key_path: Option<KeyPathModel>,
        auto_increment: bool,
        result: Result<CreateObjectResult, Seq<char>>,
    },
    DeleteStore { store: Seq<char>, result: Result<(), Seq<char>> },
    CloseStore { store: Seq<char>, result: Result<(), Seq<char>> },
    HasKeyGenerator { store: Seq<char>, result: bool },
    KeyPath { store: Seq<char>, result: Option<KeyPathModel> },
    CreateIndex {
        store: Seq<char>,
        index: Seq<char>,
        key_path: KeyPathModel,
        unique: bool,
        multi_entry: bool,
        result: Result<CreateObjectResult, Seq<char>>,
    },
    DeleteIndex { store: Seq<char>, index: Seq<char>, result: Result<(), Seq<char>> },
    Version { result: Result<u64, Seq<char>> },
    SetVersion { version: u64, result: Result<(), Seq<char>> },
    LockedStoreNames { result: Map<Seq<char>, IndexedDBTxnMode> },
    ProcessTransaction { transaction: TransactionModel, result: Option<Seq<u8>> },
}

/// The calls that an engine answered, in order.
pub type EngineHistory = Seq<EngineCall>;

/// The storage engine of one database. `calls` is the history of an engine: every call adds
/// what was handed in and what came back, and nothing else is said of what an engine answers.
pub trait StoreEngine: Sized {
    /// The calls made so far, oldest first.
    spec fn calls(&self) -> EngineHistory;

    fn create_store(
        &mut self,
        store_name: &str,
        key_path: Option<KeyPath>,
        auto_increment: bool,
    ) -> (r: DbResult<CreateObjectResult>)
        ensures
            final(self).calls() == old(self).calls().push(
                EngineCall::CreateStore {
                    store: store_name@,
                    key_path: opt_key_path(key_path),
                    auto_increment,
                    result: db_model(r),
                },
            ),
    ;

    fn delete_store(&mut self, store_name: &str) -> (r: DbResult<()>)
        ensures
            final(self).calls() == old(self).calls().push(
                EngineCall::DeleteStore { store: store_name@, result: db_model(r) },
            ),
    ;

    fn close_store(&mut self, store_name: &str) -> (r: DbResult<()>)
        ensures
            final(self).calls() == old(self).calls().push(
                EngineCall::CloseStore { store: store_name@, result: db_model(r) },
            ),
    ;

    fn delete_database(self) -> DbResult<()>;

    fn has_key_generator(&mut self, store_name: &str) -> (r: bool)
        ensures
            final(self).calls() == old(self).calls().push(
                EngineCall::HasKeyGenerator { store: store_name@, result: r },
            ),
    ;

    fn key_path(&mut self, store_name: &str) -> (r: Option<KeyPath>)
        ensures
            final(self).calls() == old(self).calls().push(
                EngineCall::KeyPath { store: store_name@, result: opt_key_path(r) },
            ),
    ;

    fn create_index(
        &mut self,
        store_name: &str,
        index_name: String,
        key_path: KeyPath,
        unique: bool,
        multi_entry: bool,
    ) -> (r: DbResult<CreateObjectResult>)
        ensures
            final(self).calls() == old(self).calls().push(
                EngineCall::CreateIndex {
                    store: store_name@,
                    index: index_name@,
                    key_path: key_path@,
                    unique,
                    multi_entry,
                    result: db_model(r),
                },
            ),
    ;

    fn delete_index(&mut self, store_name: &str, index_name: String) -> (r: DbResult<()>)
        ensures
            final(self).calls() == old(self).calls().push(
                EngineCall::DeleteIndex {
                    store: store_name@,
                    index: index_name@,
                    result: db_model(r),
                },
            ),
    ;

    fn version(&mut self) -> (r: DbResult<u64>)
        ensures
            final(self).calls() == old(self).calls().push(
                EngineCall::Version { result: db_model(r) },
            ),
    ;

    fn set_version(&mut self, version: u64) -> (r: DbResult<()>)
        ensures
            final(self).calls() == old(self).calls().push(
                EngineCall::SetVersion { version, result: db_model(r) },
            ),
    ;
}

/// A request that concerns the object stores of one database.
#[allow(inconsistent_fields)]
pub enum StoreRequest {
    HasKeyGenerator { store_name: String },
    KeyPath { store_name: String },
    CreateIndex {
        store_name: String,
        index_name: String,
        key_path: KeyPath,
        unique: bool,
        multi_entry: bool,
    },
    DeleteIndex { store_name: String, index_name: String },
    CreateObjectStore { store_name: String, key_path: Option<KeyPath>, auto_increment: bool },
    DeleteObjectStore { store_name: String },
    Version,
}

/// What a `StoreRequest` stands for.
#[allow(inconsistent_fields)]
pub enum RequestModel {
    HasKeyGenerator { store: Seq<char> },
    KeyPath { store: Seq<char> },
    CreateIndex {
        store: Seq<char>,
        index: Seq<char>,
        key_path: KeyPathModel,
        unique: bool,
        multi_entry: bool,
    },
    DeleteIndex { store: Seq<char>, index: Seq<char> },
    CreateObjectStore { store: Seq<char>, key_path: Option<KeyPathModel>, auto_increment: bool },
    DeleteObjectStore { store: Seq<char> },
    Version,
}

impl View for StoreRequest {
    type V = RequestModel;

    open spec fn view(&self) -> RequestModel {
        match self {
            StoreRequest::HasKeyGenerator { store_name } => RequestModel::HasKeyGenerator {
                store: store_name@,
            },
            StoreRequest::KeyPath { store_name } => RequestModel::KeyPath { store: store_name@ },
            StoreRequest::CreateIndex {
                store_name,
                index_name,
                key_path,
                unique,
                multi_entry,
            } => RequestModel::CreateIndex {
                store: store_name@,
                index: index_name@,
                key_path: key_path@,
                unique: *unique,
                multi_entry: *multi_entry,
            },
            StoreRequest::DeleteIndex { store_name, index_name } => RequestModel::DeleteIndex {
                store: store_name@,
                index: index_name@,
            },
            StoreRequest::CreateObjectStore { store_name, key_path, auto_increment } =>
                RequestModel::CreateObjectStore {
                store: store_name@,
                key_path: opt_key_path(*key_path),
                auto_increment: *auto_increment,
            },
            StoreRequest::DeleteObjectStore { store_name } => RequestModel::DeleteObjectStore {
                store: store_name@,
            },
            StoreRequest::Version => RequestModel::Version,
        }
    }
}

/// The reply to a `StoreRequest`.
pub enum StoreReply {
    HasKeyGenerator(BackendResult<bool>),
    KeyPath(BackendResult<Option<KeyPath>>),
    Created(BackendResult<CreateObjectResult>),
    Deleted(BackendResult<()>),
    Version(BackendResult<u64>),
}

/// What a `StoreReply` stands for.
pub enum ReplyModel {
    HasKeyGenerator(Result<bool, BackendErrorModel>),
    KeyPath(Result<Option<KeyPathModel>, BackendErrorModel>),
    Created(Result<CreateObjectResult, BackendErrorModel>),
    Deleted(Result<(), BackendErrorModel>),
    Version(Result<u64, BackendErrorModel>),
}

impl View for StoreReply {
    type V = ReplyModel;

    open spec fn view(&self) -> ReplyModel {
        match self {
            StoreReply::HasKeyGenerator(r) => ReplyModel::HasKeyGenerator(backend_model(*r)),
            StoreReply::KeyPath(r) => ReplyModel::KeyPath(
                match *r {
                    Ok(path) => Ok(opt_key_path(path)),
                    Err(e) => Err(e@),
                },
            ),
            StoreReply::Created(r) => ReplyModel::Created(backend_model(*r)),
            StoreReply::Deleted(r) => ReplyModel::Deleted(backend_model(*r)),
            StoreReply::Version(r) => ReplyModel::Version(backend_model(*r)),
        }
    }
}

/// `call` is the one engine call that `request` asks for, and `reply` reports its result.
pub open spec fn answered(request: RequestModel, call: EngineCall, reply: ReplyModel) -> bool {
    match request {
        RequestModel::HasKeyGenerator { store } => {
            &&& call matches EngineCall::HasKeyGenerator { store: s, result }
            &&& s == store
            &&& reply == ReplyModel::HasKeyGenerator(Ok(result))
        },
        RequestModel::KeyPath { store } => {
            &&& call matches EngineCall::KeyPath { store: s, result }
            &&& s == store
            &&& reply == ReplyModel::KeyPath(Ok(result))
        },
        RequestModel::CreateIndex { store, index, key_path, unique, multi_entry } => {
            &&& call matches EngineCall::CreateIndex {
                store: s,
                index: i,
                key_path: k,
                unique: u,
                multi_entry: m,
                result,
            }
            &&& s == store && i == index && k == key_path && u == unique && m == multi_entry
            &&& reply == ReplyModel::Created(reported(result))
        },
        RequestModel::DeleteIndex { store, index } => {
            &&& call matches EngineCall::DeleteIndex { store: s, index: i, result }
            &&& s == store && i == index
            &&& reply == ReplyModel::Deleted(reported(result))
        },
        RequestModel::CreateObjectStore { store, key_path, auto_increment } => {
            &&& call matches EngineCall::CreateStore {
                store: s,
                key_path: k,
                auto_increment: a,
                result,
            }
            &&& s == store && k == key_path && a == auto_increment
            &&& reply == ReplyModel::Created(reported(result))
        },
        RequestModel::DeleteObjectStore { store } => {
            &&& call matches EngineCall::DeleteStore { store: s, result }
            &&& s == store
            &&& reply == ReplyModel::Deleted(reported(result))
        },
        RequestModel::Version => {
            &&& call matches EngineCall::Version { result }
            &&& reply == ReplyModel::Version(reported(result))
        },
    }
}

/// The reply to a request on a database that is not open.
pub open spec fn not_found(request: RequestModel) -> ReplyModel {
    match request {
        RequestModel::HasKeyGenerator { .. } => ReplyModel::HasKeyGenerator(
            Err(BackendErrorModel::DbNotFound),
        ),
        RequestModel::KeyPath { .. } => ReplyModel::KeyPath(Err(BackendErrorModel::DbNotFound)),
        RequestModel::CreateIndex { .. } => ReplyModel::Created(Err(BackendErrorModel::DbNotFound)),
        RequestModel::DeleteIndex { .. } => ReplyModel::Deleted(Err(BackendErrorModel::DbNotFound)),
        RequestModel::CreateObjectStore { .. } => ReplyModel::Created(
            Err(BackendErrorModel::DbNotFound),
        ),
        RequestModel::DeleteObjectStore { .. } => ReplyModel::Deleted(
            Err(BackendErrorModel::DbNotFound),
        ),
        RequestModel::Version => ReplyModel::Version(Err(BackendErrorModel::DbNotFound)),
    }
}

/// Refuses a request because its database is not open.
pub fn refuse(request: &StoreRequest) -> (r: StoreReply)
    ensures
        r@ == not_found(request@),
{
    match request {
        StoreRequest::HasKeyGenerator { .. } => StoreReply::HasKeyGenerator(
            Err(BackendError::DbNotFound),
        ),
        StoreRequest::KeyPath { .. } => StoreReply::KeyPath(Err(BackendError::DbNotFound)),
        StoreRequest::CreateIndex { .. } => StoreReply::Created(Err(BackendError::DbNotFound)),
        StoreRequest::DeleteIndex { .. } => StoreReply::Deleted(Err(BackendError::DbNotFound)),
        StoreRequest::CreateObjectStore { .. } => StoreReply::Created(
            Err(BackendError::DbNotFound),
        ),
        StoreRequest::DeleteObjectStore { .. } => StoreReply::Deleted(
            Err(BackendError::DbNotFound),
        ),
        StoreRequest::Version => StoreReply::Version(Err(BackendError::DbNotFound)),
    }
}

/// Answers a request by the one engine call that it asks for.
pub fn answer<E: StoreEngine>(engine: &mut E, request: StoreRequest) -> (r: StoreReply)
    ensures
        final(engine).calls() == old(engine).calls().push(final(engine).calls().last()),
        answered(request@, final(engine).calls().last(), r@),
{
    match request {
        StoreRequest::HasKeyGenerator { store_name } => {
            let result = engine.has_key_generator(store_name.as_str());
            StoreReply::HasKeyGenerator(Ok(result))
        },
        StoreRequest::KeyPath { store_name } => {
            let result = engine.key_path(store_name.as_str());
            StoreReply::KeyPath(Ok(result))
        },
        StoreRequest::CreateIndex { store_name, index_name, key_path, unique, multi_entry } => {
            let result = engine.create_index(
                store_name.as_str(),
                index_name,
                key_path,
                unique,
                multi_entry,
            );
            StoreReply::Created(report(result))
        },
        StoreRequest::DeleteIndex { store_name, index_name } => {
            let result = engine.delete_index(store_name.as_str(), index_name);
            StoreReply::Deleted(report(result))
        },
        StoreRequest::CreateObjectStore { store_name, key_path, auto_increment } => {
            let result = engine.create_store(store_name.as_str(), key_path, auto_increment);
            StoreReply::Created(report(result))
        },
        StoreRequest::DeleteObjectStore { store_name } => {
            let result = engine.delete_store(store_name.as_str());
            StoreReply::Deleted(report(result))
        },
        StoreRequest::Version => {
            let result = engine.version();
            StoreReply::Version(report(result))
        },
    }
}

/// A question is put to the engine for the object store that it is about, and what the engine says
/// is the reply.
pub proof fn law_questions_reach_the_engine(
    store: Seq<char>,
    asked: Seq<char>,
    has_generator: bool,
    key_path: Option<KeyPathModel>,
    reply: ReplyModel,
)
    ensures
        answered(
            RequestModel::HasKeyGenerator { store },
            EngineCall::HasKeyGenerator { store: asked, result: has_generator },
            reply,
        ) <==> asked == store && reply == ReplyModel::HasKeyGenerator(Ok(has_generator)),
        answered(
            RequestModel::KeyPath { store },
            EngineCall::KeyPath { store: asked, result: key_path },
            reply,
        ) <==> asked == store && reply == ReplyModel::KeyPath(Ok(key_path)),
{
}

/// A change is made by the engine, on the object store and with the arguments that the request names.
/// Where it succeeds, what came of it is the reply, and where it fails, its text is.
pub proof fn law_changes_reach_the_engine(
    store: Seq<char>,
    index: Seq<char>,
    path: KeyPathModel,
    key_path: Option<KeyPathModel>,
    first: bool,
    second: bool,
    made: CreateObjectResult,
    text: Seq<char>,
    version: u64,
)
    ensures
        ({
            let create = RequestModel::CreateObjectStore {
                store,
                key_path,
                auto_increment: first,
            };
            let created = |result: Result<CreateObjectResult, Seq<char>>|
                EngineCall::CreateStore { store, key_path, auto_increment: first, result };
            &&& answered(create, created(Ok(made)), ReplyModel::Created(Ok(made)))
            &&& answered(
                create,
                created(Err(text)),
                ReplyModel::Created(Err(BackendErrorModel::DbErr(text))),
            )
        }),
        ({
            let create = RequestModel::CreateIndex {
                store,
                index,
                key_path: path,
                unique: first,
                multi_entry: second,
            };
            let created = |result: Result<CreateObjectResult, Seq<char>>|
                EngineCall::CreateIndex {
                    store,
                    index,
                    key_path: path,
                    unique: first,
                    multi_entry: second,
                    result,
                };
            &&& answered(create, created(Ok(made)), ReplyModel::Created(Ok(made)))
            &&& answered(
                create,
                created(Err(text)),
                ReplyModel::Created(Err(BackendErrorModel::DbErr(text))),
            )
        }),
        ({
            let delete = RequestModel::DeleteObjectStore { store };
            let deleted = |result: Result<(), Seq<char>>|
                EngineCall::DeleteStore { store, result };
            &&& answered(delete, deleted(Ok(())), ReplyModel::Deleted(Ok(())))
            &&& answered(
                delete,
                deleted(Err(text)),
                ReplyModel::Deleted(Err(BackendErrorModel::DbErr(text))),
            )
        }),
        ({
            let delete = RequestModel::DeleteIndex { store, index };
            let deleted = |result: Result<(), Seq<char>>|
                EngineCall::DeleteIndex { store, index, result };
            &&& answered(delete, deleted(Ok(())), ReplyModel::Deleted(Ok(())))
            &&& answered(
                delete,
                deleted(Err(text)),
                ReplyModel::Deleted(Err(BackendErrorModel::DbErr(text))),
            )
        }),
        answered(
            RequestModel::Version,
            EngineCall::Version { result: Ok(version) },
            ReplyModel::Version(Ok(version)),
        ),
        answered(
            RequestModel::Version,
            EngineCall::Version { result: Err(text) },
            ReplyModel::Version(Err(BackendErrorModel::DbErr(text))),
        ),
{
}

/// A request has one answer for what the engine says: it asks for one call only, and no two replies
/// go with it.
pub proof fn law_answers_are_determined(
    request: RequestModel,
    call: EngineCall,
    reply: ReplyModel,
    other: ReplyModel,
)
    requires
        answered(request, call, reply),
        answered(request, call, other),
    ensures
        reply == other,
        match request {
            RequestModel::HasKeyGenerator { store } => call matches EngineCall::HasKeyGenerator {
                store: s,
                ..
            } && s == store,
            RequestModel::KeyPath { store } => call matches EngineCall::KeyPath { store: s, .. }
                && s == store,
            RequestModel::CreateIndex { store, index, key_path, unique, multi_entry } => {
                call matches EngineCall::CreateIndex {
                    store: s,
                    index: i,
                    key_path: k,
                    unique: u,
                    multi_entry: m,
                    ..
                } && s == store && i == index && k == key_path && u == unique && m == multi_entry
            },
            RequestModel::DeleteIndex { store, index } => call matches EngineCall::DeleteIndex {
                store: s,
                index: i,
                ..
            } && s == store && i == index,
            RequestModel::CreateObjectStore { store, key_path, auto_increment } => {
                call matches EngineCall::CreateStore {
                    store: s,
                    key_path: k,
                    auto_increment: a,
                    ..
                } && s == store && k == key_path && a == auto_increment
            },
            RequestModel::DeleteObjectStore { store } => call matches EngineCall::DeleteStore {
                store: s,
                ..
            } && s == store,
            RequestModel::Version => call is Version,
        },
{
}

/// On a database that is not open, every request is told that there is none, by a reply of the kind
/// that it would have got.
pub proof fn law_refusals_say_not_found(request: RequestModel)
    ensures
        match not_found(request) {
            ReplyModel::HasKeyGenerator(r) => request is HasKeyGenerator && r == Err::<
                bool,
                BackendErrorModel,
            >(BackendErrorModel::DbNotFound),
            ReplyModel::KeyPath(r) => request is KeyPath && r == Err::<
                Option<KeyPathModel>,
                BackendErrorModel,
            >(BackendErrorModel::DbNotFound),
            ReplyModel::Created(r) => (request is CreateIndex || request is CreateObjectStore) && r
                == Err::<CreateObjectResult, BackendErrorModel>(BackendErrorModel::DbNotFound),
            ReplyModel::Deleted(r) => (request is DeleteIndex || request is DeleteObjectStore) && r
                == Err::<(), BackendErrorModel>(BackendErrorModel::DbNotFound),
            ReplyModel::Version(r) => request is Version && r == Err::<u64, BackendErrorModel>(
                BackendErrorModel::DbNotFound,
            ),
        },
{
}

/// A request stands for the object store, the index and the arguments that it names.
pub proof fn law_requests_stand_for_their_fields(
    store_name: String,
    index_name: String,
    key_path: KeyPath,
    optional: Option<KeyPath>,
    first: bool,
    second: bool,
)
    ensures
        (StoreRequest::HasKeyGenerator { store_name })@ == (RequestModel::HasKeyGenerator {
            store: store_name@,
        }),
        (StoreRequest::KeyPath { store_name })@ == (RequestModel::KeyPath { store: store_name@ }),
        (StoreRequest::CreateIndex {
            store_name,
            index_name,
            key_path,
            unique: first,
            multi_entry: second,
        })@ == (RequestModel::CreateIndex {
            store: store_name@,
            index: index_name@,
            key_path: key_path@,
            unique: first,
            multi_entry: second,
        }),
        (StoreRequest::DeleteIndex { store_name, index_name })@ == (RequestModel::DeleteIndex {
            store: store_name@,
            index: index_name@,
        }),
        (StoreRequest::CreateObjectStore {
            store_name,
            key_path: optional,
            auto_increment: first,
        })@ == (RequestModel::CreateObjectStore {
            store: store_name@,
            key_path: opt_key_path(optional),
            auto_increment: first,
        }),
        (StoreRequest::DeleteObjectStore { store_name })@ == (RequestModel::DeleteObjectStore {
            store: store_name@,
        }),
        StoreRequest::Version@ == RequestModel::Version,
{
}

} // verus!

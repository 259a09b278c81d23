//! The manager of all open databases.
use crate::indexeddb::description::{
    path_of, DescriptionModel, ImmutableOrigin, IndexedDBDescription,
};
use crate::indexeddb::engine::{
    answer, answered, not_found, refuse, EngineCall, ReplyModel, RequestModel, StoreReply,
    StoreRequest,
};
use crate::indexeddb::types::{
    backend_model, db_model, report, reported, BackendErrorModel, BackendResult, DbResult,
    IndexedDBTxnMode,
};
use crate::keyed_map::KeyedMap;
use crate::storage::indexeddb::engines::KvsEngine;
use crate::text::texts;
use vstd::prelude::*;

verus! {

/// Makes the handle of a running manager. Its files go below `config_dir`.
pub trait IndexedDBThreadFactory: Sized {
    fn new(config_dir: Option<String>) -> Self;
}

/// A message to the manager that waits for its reply. The channel that the reply goes to is the
/// caller's business.
pub enum SyncOperation {
    CloseDatabase(ImmutableOrigin, String),
    /// Open a database. The version is what to report where the engine cannot tell one.
    OpenDatabase(ImmutableOrigin, String, Option<u64>),
    DeleteDatabase(ImmutableOrigin, String),
    /// Anything that concerns the object stores of a database.
    Store(ImmutableOrigin, String, StoreRequest),
    /// Commit the transaction with the number given.
    Commit(ImmutableOrigin, String, u64),
    /// Create a transaction on the stores given.
    CreateTransaction(ImmutableOrigin, String, Vec<String>, IndexedDBTxnMode),
    Exit,
}

/// What a `SyncOperation` stands for.
pub enum OperationModel {
    CloseDatabase(DescriptionModel),
    OpenDatabase(DescriptionModel, Option<u64>),
    DeleteDatabase(DescriptionModel),
    Store(DescriptionModel, RequestModel),
    Commit(DescriptionModel, u64),
    CreateTransaction(DescriptionModel, Seq<Seq<char>>, IndexedDBTxnMode),
    Exit,
}

/// The database that an origin and a name describe.
pub open spec fn describe(origin: ImmutableOrigin, name: String) -> DescriptionModel {
    DescriptionModel { origin: origin@, name: name@ }
}

impl View for SyncOperation {
    type V = OperationModel;

    open spec fn view(&self) -> OperationModel {
        match self {
            SyncOperation::CloseDatabase(o, n) => OperationModel::CloseDatabase(describe(*o, *n)),
            SyncOperation::OpenDatabase(o, n, v) => OperationModel::OpenDatabase(
                describe(*o, *n),
                *v,
            ),
            SyncOperation::DeleteDatabase(o, n) => OperationModel::DeleteDatabase(
                describe(*o, *n),
            ),
            SyncOperation::Store(o, n, r) => OperationModel::Store(describe(*o, *n), r@),
            SyncOperation::Commit(o, n, t) => OperationModel::Commit(describe(*o, *n), *t),
            SyncOperation::CreateTransaction(o, n, stores, mode) =>
                OperationModel::CreateTransaction(describe(*o, *n), texts(stores@), *mode),
            SyncOperation::Exit => OperationModel::Exit,
        }
    }
}

/// What the manager wants done about a message.
pub enum ManagerAction<E> {
    /// Make an engine for a database that is not open yet, in the folder named, with a scheduler
    /// of its own, and come back with it to `finish_open`.
    CreateEngine { description: IndexedDBDescription, folder: Vec<String>, version: u64 },
    /// Shut down the scheduler of a database, wait until it is done, have the database deleted
    /// by its engine, and send the reply that `deletion_reply` makes of the result.
    DeleteEngine { description: IndexedDBDescription, engine: E },
    /// Create a transaction in the queue of a database, wake its scheduler, and send the end of
    /// the transaction's channel that operations go into.
    CreateTransaction {
        description: IndexedDBDescription,
        stores: Vec<String>,
        mode: IndexedDBTxnMode,
    },
    /// The rest: send the reply.
    Closed,
    Opened(u64),
    Deleted(BackendResult<()>),
    Store(StoreReply),
    Committed,
    Exited,
    /// Send no reply.
    Nothing,
}

/// What a `ManagerAction` stands for.
pub enum ActionModel {
    CreateEngine { description: DescriptionModel, folder: Seq<Seq<char>>, version: u64 },
    DeleteEngine { description: DescriptionModel, calls: Seq<EngineCall> },
    CreateTransaction {
        description: DescriptionModel,
        stores: Seq<Seq<char>>,
        mode: IndexedDBTxnMode,
    },
    Closed,
    Opened(u64),
    Deleted(Result<(), BackendErrorModel>),
    Store(ReplyModel),
    Committed,
    Exited,
    Nothing,
}

impl<E: KvsEngine> View for ManagerAction<E> {
    type V = ActionModel;

    open spec fn view(&self) -> ActionModel {
        match self {
            ManagerAction::CreateEngine { description, folder, version } =>
                ActionModel::CreateEngine {
                description: description@,
                folder: texts(folder@),
                version: *version,
            },
            ManagerAction::DeleteEngine { description, engine } => ActionModel::DeleteEngine {
                description: description@,
                calls: engine.calls(),
            },
            ManagerAction::CreateTransaction { description, stores, mode } =>
                ActionModel::CreateTransaction {
                description: description@,
                stores: texts(stores@),
                mode: *mode,
            },
            ManagerAction::Closed => ActionModel::Closed,
            ManagerAction::Opened(v) => ActionModel::Opened(*v),
            ManagerAction::Deleted(r) => ActionModel::Deleted(backend_model(*r)),
            ManagerAction::Store(r) => ActionModel::Store(r@),
            ManagerAction::Committed => ActionModel::Committed,
            ManagerAction::Exited => ActionModel::Exited,
            ManagerAction::Nothing => ActionModel::Nothing,
        }
    }
}

/// The open databases, each with the calls made of its engine.
pub type Databases = Map<DescriptionModel, Seq<EngineCall>>;

/// The version to report for a database: the one that its engine told, else `wanted`, else zero.
pub open spec fn version_told(told: Result<u64, Seq<char>>, wanted: Option<u64>) -> u64 {
    match told {
        Ok(v) => v,
        Err(_) => match wanted {
            Some(v) => v,
            None => 0,
        },
    }
}

/// `after` is `before` but for one more engine call of one database, which is open in both.
pub open spec fn called_once(before: Databases, d: DescriptionModel, after: Databases) -> bool {
    &&& before.contains_key(d)
    &&& after.contains_key(d)
    &&& after == before.insert(d, after[d])
    &&& after[d] == before[d].push(after[d].last())
}

/// What a message does to the open databases, and what is done about it.
pub open spec fn handled(
    before: Databases,
    operation: OperationModel,
    after: Databases,
    action: ActionModel,
) -> bool {
    match operation {
        OperationModel::CloseDatabase(d) => after == before.remove(d) && action
            == ActionModel::Closed,
        OperationModel::OpenDatabase(d, wanted) => if before.contains_key(d) {
            &&& called_once(before, d, after)
            &&& after[d].last() matches EngineCall::Version { result }
            &&& action == ActionModel::Opened(version_told(result, wanted))
        } else {
            &&& after == before
            &&& action == ActionModel::CreateEngine {
                description: d,
                folder: path_of(d),
                version: match wanted {
                    Some(v) => v,
                    None => 0,
                },
            }
        },
        OperationModel::DeleteDatabase(d) => {
            &&& after == before.remove(d)
            &&& action == if before.contains_key(d) {
                ActionModel::DeleteEngine { description: d, calls: before[d] }
            } else {
                ActionModel::Deleted(Ok(()))
            }
        },
        OperationModel::Store(d, request) => if before.contains_key(d) {
            &&& called_once(before, d, after)
            &&& action matches ActionModel::Store(reply)
            &&& answered(request, after[d].last(), reply)
        } else {
            &&& after == before
            &&& action == ActionModel::Store(not_found(request))
        },
        OperationModel::Commit(_, _) => after == before && action == ActionModel::Committed,
        OperationModel::CreateTransaction(d, stores, mode) => {
            &&& after == before
            &&& action == if before.contains_key(d) {
                ActionModel::CreateTransaction { description: d, stores, mode }
            } else {
                ActionModel::Nothing
            }
        },
        OperationModel::Exit => after == before && action == ActionModel::Exited,
    }
}

/// The reply to a request to delete a database, from what its engine answered.
pub fn deletion_reply(result: DbResult<()>) -> (r: BackendResult<()>)
    ensures
        backend_model(r) == reported(db_model(result)),
{
    report(result)
}

/// What came in at the manager's port.
pub enum PortEvent {
    Message(SyncOperation),
    /// The other end is gone.
    Disconnected,
    /// Something went wrong with the port.
    Failed,
}

/// What the manager's loop does next.
pub enum LoopAction<E> {
    /// Carry out an action, then wait again.
    Perform(ManagerAction<E>),
    /// Wait again.
    Wait,
    /// Leave the loop.
    Stop,
}

/// The manager: the engines of all open databases.
pub struct IndexedDBManager<E: KvsEngine> {
    databases: KeyedMap<IndexedDBDescription, E>,
}

impl<E: KvsEngine> View for IndexedDBManager<E> {
    type V = Databases;

    closed spec fn view(&self) -> Databases {
        self.databases@.map_values(|engine: E| engine.calls())
    }
}

impl<E: KvsEngine> IndexedDBManager<E> {
    /// A manager with no open database.
    pub fn new() -> (r: Self)
        ensures
            r@ == Map::<DescriptionModel, Seq<EngineCall>>::empty(),
    {
        let r = IndexedDBManager { databases: KeyedMap::new() };
        assert(r@ =~= Map::<DescriptionModel, Seq<EngineCall>>::empty());
        r
    }

    /// Handles a message: changes the open databases and tells what is to be done.
    pub fn handle_sync_operation(&mut self, operation: SyncOperation) -> (r: ManagerAction<E>)
        ensures
            handled(old(self)@, operation@, final(self)@, r@),
    {
        match operation {
            SyncOperation::CloseDatabase(origin, name) => {
                let description = IndexedDBDescription { origin, name };
                let _ = self.databases.remove(&description);
                assert(self@ =~= old(self)@.remove(description@));
                ManagerAction::Closed
            },
            SyncOperation::OpenDatabase(origin, name, version) => {
                let description = IndexedDBDescription { origin, name };
                let version = match version {
                    Some(v) => v,
                    None => 0,
                };
                match self.databases.remove(&description) {
                    Some(mut engine) => {
                        let told = match engine.version() {
                            Ok(v) => v,
                            Err(_) => version,
                        };
                        let ghost d = description@;
                        self.databases.insert(description, engine);
                        assert(self@ =~= old(self)@.insert(d, self@[d]));
                        ManagerAction::Opened(told)
                    },
                    None => {
                        assert(self@ =~= old(self)@);
                        let folder = description.as_path();
                        ManagerAction::CreateEngine { description, folder, version }
                    },
                }
            },
            SyncOperation::DeleteDatabase(origin, name) => {
                let description = IndexedDBDescription { origin, name };
                let found = self.databases.remove(&description);
                assert(self@ =~= old(self)@.remove(description@));
                match found {
                    Some(engine) => ManagerAction::DeleteEngine { description, engine },
                    None => ManagerAction::Deleted(Ok(())),
                }
            },
            SyncOperation::Store(origin, name, request) => {
                let description = IndexedDBDescription { origin, name };
                match self.databases.remove(&description) {
                    Some(mut engine) => {
                        let reply = answer(&mut engine, request);
                        let ghost d = description@;
                        self.databases.insert(description, engine);
                        assert(self@ =~= old(self)@.insert(d, self@[d]));
                        ManagerAction::Store(reply)
                    },
                    None => {
                        assert(self@ =~= old(self)@);
                        ManagerAction::Store(refuse(&request))
                    },
                }
            },
            SyncOperation::Commit(_, _, _) => ManagerAction::Committed,
            SyncOperation::CreateTransaction(origin, name, stores, mode) => {
                let description = IndexedDBDescription { origin, name };
                if self.databases.contains_key(&description) {
                    ManagerAction::CreateTransaction { description, stores, mode }
                } else {
                    ManagerAction::Nothing
                }
            },
            SyncOperation::Exit => ManagerAction::Exited,
        }
    }

    /// One turn of the manager's loop.
    pub fn step(&mut self, event: PortEvent) -> (r: LoopAction<E>)
        ensures
            match event {
                PortEvent::Message(operation) => {
                    &&& r matches LoopAction::Perform(action)
                    &&& handled(old(self)@, operation@, final(self)@, action@)
                },
                PortEvent::Disconnected => r is Stop && final(self)@ == old(self)@,
                PortEvent::Failed => r is Wait && final(self)@ == old(self)@,
            },
    {
        match event {
            PortEvent::Message(operation) => LoopAction::Perform(
                self.handle_sync_operation(operation),
            ),
            PortEvent::Disconnected => LoopAction::Stop,
            PortEvent::Failed => LoopAction::Wait,
        }
    }

    /// Opens a database on an engine just made for it, and tells the version to report.
    pub fn finish_open(
        &mut self,
        description: IndexedDBDescription,
        version: u64,
        engine: E,
    ) -> (r: u64)
        ensures
            ({
                let d = description@;
                let calls = final(self)@[d];
                &&& final(self)@ == old(self)@.insert(d, calls)
                &&& calls == engine.calls().push(calls.last())
                &&& calls.last() matches EngineCall::Version { result }
                &&& r == version_told(result, Some(version))
            }),
    {
        let mut engine = engine;
        let told = match engine.version() {
            Ok(v) => v,
            Err(_) => version,
        };
        let ghost d = description@;
        self.databases.insert(description, engine);
        assert(self@ =~= old(self)@.insert(d, self@[d]));
        told
    }
}

/// The database that a message is about.
pub open spec fn subject(operation: OperationModel) -> Option<DescriptionModel> {
    match operation {
        OperationModel::CloseDatabase(d) => Some(d),
        OperationModel::OpenDatabase(d, _) => Some(d),
        OperationModel::DeleteDatabase(d) => Some(d),
        OperationModel::Store(d, _) => Some(d),
        OperationModel::Commit(d, _) => Some(d),
        OperationModel::CreateTransaction(d, _, _) => Some(d),
        OperationModel::Exit => None,
    }
}

/// A message leaves every database alone but the one that it is about.
pub proof fn law_other_databases_are_untouched(
    before: Databases,
    operation: OperationModel,
    after: Databases,
    action: ActionModel,
    other: DescriptionModel,
)
    requires
        handled(before, operation, after, action),
        subject(operation) != Some(other),
    ensures
        after.contains_key(other) == before.contains_key(other),
        before.contains_key(other) ==> after[other] == before[other],
{
}

/// On a database that was closed or deleted, every further request is refused and changes
/// nothing, and a transaction is not created.
pub proof fn law_closed_database_refuses(
    before: Databases,
    closing: OperationModel,
    between: Databases,
    closed: ActionModel,
    operation: OperationModel,
    after: Databases,
    action: ActionModel,
    d: DescriptionModel,
)
    requires
        closing == OperationModel::CloseDatabase(d) || closing == OperationModel::DeleteDatabase(d),
        handled(before, closing, between, closed),
        handled(between, operation, after, action),
    ensures
        !between.contains_key(d),
        operation matches OperationModel::Store(e, request) ==> e == d ==> after == between
            && action == ActionModel::Store(not_found(request)),
        operation matches OperationModel::CreateTransaction(e, _, _) ==> e == d ==> after
            == between && action == ActionModel::Nothing,
{
}

/// No message opens a database by itself: an engine has to be made first.
pub proof fn law_messages_open_nothing(
    before: Databases,
    operation: OperationModel,
    after: Databases,
    action: ActionModel,
)
    requires
        handled(before, operation, after, action),
    ensures
        after.dom().subset_of(before.dom()),
{
    assert forall|d: DescriptionModel| after.dom().contains(d) implies before.dom().contains(
        d,
    ) by {
        if subject(operation) != Some(d) {
            law_other_databases_are_untouched(before, operation, after, action, d);
        }
    }
}

/// A database that is closed is no longer open, and that is all.
pub proof fn law_close_forgets_the_database(
    before: Databases,
    d: DescriptionModel,
    after: Databases,
    action: ActionModel,
)
    requires
        handled(before, OperationModel::CloseDatabase(d), after, action),
    ensures
        action == ActionModel::Closed,
        after == before.remove(d),
{
}

/// To open a database that is open asks its engine for the version, which is the reply; where the
/// engine cannot tell, the version that was wanted is, and zero where none was. One that is not open
/// is to be made in its folder first.
pub proof fn law_open_tells_the_version(
    before: Databases,
    d: DescriptionModel,
    wanted: Option<u64>,
    after: Databases,
    action: ActionModel,
)
    requires
        handled(before, OperationModel::OpenDatabase(d, wanted), after, action),
    ensures
        ({
            let fallback = if wanted is Some {
                wanted->0
            } else {
                0u64
            };
            if before.contains_key(d) {
                &&& after.dom() == before.dom()
                &&& after[d].drop_last() == before[d]
                &&& after[d].last() matches EngineCall::Version { result }
                &&& result matches Ok(version) ==> action == ActionModel::Opened(version)
                &&& result is Err ==> action == ActionModel::Opened(fallback)
            } else {
                &&& after == before
                &&& action == ActionModel::CreateEngine {
                    description: d,
                    folder: path_of(d),
                    version: fallback,
                }
            }
        }),
{
    if before.contains_key(d) {
        assert(after[d].drop_last() =~= before[d]);
        assert(after.dom() =~= before.dom());
    }
}

/// To delete a database that is open hands over its own engine; one that is not open is deleted
/// already.
pub proof fn law_delete_hands_over_the_engine(
    before: Databases,
    d: DescriptionModel,
    after: Databases,
    action: ActionModel,
)
    requires
        handled(before, OperationModel::DeleteDatabase(d), after, action),
    ensures
        after == before.remove(d),
        before.contains_key(d) ==> action == (ActionModel::DeleteEngine {
            description: d,
            calls: before[d],
        }),
        !before.contains_key(d) ==> action == ActionModel::Deleted(Ok(())),
{
}

/// A request on a database that is open is one call of its engine, and the reply is what the engine
/// said.
pub proof fn law_request_is_one_call(
    before: Databases,
    d: DescriptionModel,
    request: RequestModel,
    after: Databases,
    action: ActionModel,
)
    requires
        before.contains_key(d),
        handled(before, OperationModel::Store(d, request), after, action),
    ensures
        after.contains_key(d),
        after[d].len() == before[d].len() + 1,
        after[d].drop_last() == before[d],
        action matches ActionModel::Store(reply) && answered(request, after[d].last(), reply),
{
    assert(after[d].drop_last() =~= before[d]);
}

/// A transaction is created on a database that is open, on the stores and in the mode that were asked
/// for; on one that is not, nothing is done. A request to commit or to exit is answered, and none of
/// these changes anything here.
pub proof fn law_other_messages_change_nothing(
    before: Databases,
    d: DescriptionModel,
    stores: Seq<Seq<char>>,
    mode: IndexedDBTxnMode,
    number: u64,
    after: Databases,
    action: ActionModel,
)
    ensures
        handled(before, OperationModel::CreateTransaction(d, stores, mode), after, action) <==> {
            &&& after == before
            &&& before.contains_key(d) ==> action == (ActionModel::CreateTransaction {
                description: d,
                stores,
                mode,
            })
            &&& !before.contains_key(d) ==> action == ActionModel::Nothing
        },
        handled(before, OperationModel::Commit(d, number), after, action) <==> after == before
            && action == ActionModel::Committed,
        handled(before, OperationModel::Exit, after, action) <==> after == before && action
            == ActionModel::Exited,
{
}

/// The version that an engine tells is the one to report; where it cannot tell, the one that was
/// wanted is, and zero where none was.
pub proof fn law_engine_knows_the_version(version: u64, text: Seq<char>, wanted: u64)
    ensures
        version_told(Ok(version), Some(wanted)) == version,
        version_told(Ok(version), None) == version,
        version_told(Err(text), Some(wanted)) == wanted,
        version_told(Err(text), None) == 0,
{
}

} // verus!

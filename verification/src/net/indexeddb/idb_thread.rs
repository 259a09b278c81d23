//! The manager of all open databases.
use crate::indexeddb::description::{
    path_of, DescriptionModel, ImmutableOrigin, IndexedDBDescription,
};
use crate::indexeddb::engine::{
    answered, not_found, refuse, EngineCall, ReplyModel, RequestModel, StoreReply, StoreRequest,
    TransactionModel,
};
use crate::indexeddb::types::{
    backend_model, db_model, report, reported, BackendError, BackendErrorModel, BackendResult,
    DbResult,
};
use crate::keyed_map::KeyedMap;
use crate::net::indexeddb::engines::{KvsEngine, KvsTransaction};
use crate::net::indexeddb::environment::{
    attempted, queue, upgraded, EnvironmentModel, IndexedDBEnvironment,
};
use crate::text::texts;
use vstd::prelude::*;

verus! {

/// Makes the handle of a running manager. Its files go below `config_dir`.
pub trait IndexedDBThreadFactory: Sized {
    fn new(config_dir: Option<String>) -> Self;
}

/// The directory that all databases are stored below, as the segments of its path.
pub fn base_dir(config_dir: Option<String>) -> (r: Vec<String>)
    ensures
        texts(r@) == match config_dir {
            Some(dir) => seq![dir@, "IndexedDB"@],
            None => seq!["IndexedDB"@],
        },
{
    let mut path: Vec<String> = Vec::new();
    let ghost dir = config_dir;
    match config_dir {
        Some(dir) => path.push(dir),
        None => {},
    }
    path.push("IndexedDB".to_owned());
    assert(texts(path@) =~= match dir {
        Some(d) => seq![d@, "IndexedDB"@],
        None => seq!["IndexedDB"@],
    });
    path
}

/// How many worker threads to use: as many as the system has room for, or `fallback` where that
/// is not known, but no more than `max`, which counts for at least one.
pub fn worker_count(available: Option<usize>, fallback: i64, max: i64) -> (r: usize)
    ensures
        ({
            let wanted = match available {
                Some(n) => n,
                None => fallback as usize,
            };
            let most = (if max < 1 { 1i64 } else { max }) as usize;
            r == if wanted < most { wanted } else { most }
        }),
{
    let wanted: usize = match available {
        Some(n) => n,
        None => fallback as usize,
    };
    let most: usize = if max < 1 { 1i64 as usize } else { max as usize };
    if wanted < most { wanted } else { most }
}

/// A message to the manager. The channel that a reply goes to is the caller's business.
pub enum IndexedDBThreadMsg {
    CloseDatabase(ImmutableOrigin, String),
    /// Open a database. The version is what to report where the engine cannot tell one.
    OpenDatabase(ImmutableOrigin, String, Option<u64>),
    DeleteDatabase(ImmutableOrigin, String),
    /// Anything that concerns the object stores of a database.
    Store(ImmutableOrigin, String, StoreRequest),
    UpgradeVersion(ImmutableOrigin, String, u64),
    /// Put a transaction into the queue of a database.
    RegisterNewTxn(ImmutableOrigin, String, KvsTransaction),
    Exit,
}

/// What an `IndexedDBThreadMsg` stands for.
pub enum MessageModel {
    CloseDatabase(DescriptionModel),
    OpenDatabase(DescriptionModel, Option<u64>),
    DeleteDatabase(DescriptionModel),
    Store(DescriptionModel, RequestModel),
    UpgradeVersion(DescriptionModel, u64),
    RegisterNewTxn(DescriptionModel, TransactionModel),
    Exit,
}

/// The database that an origin and a name describe.
pub open spec fn describe(origin: ImmutableOrigin, name: String) -> DescriptionModel {
    DescriptionModel { origin: origin@, name: name@ }
}

impl View for IndexedDBThreadMsg {
    type V = MessageModel;

    open spec fn view(&self) -> MessageModel {
        match self {
            IndexedDBThreadMsg::CloseDatabase(o, n) => MessageModel::CloseDatabase(
                describe(*o, *n),
            ),
            IndexedDBThreadMsg::OpenDatabase(o, n, v) => MessageModel::OpenDatabase(
                describe(*o, *n),
                *v,
            ),
            IndexedDBThreadMsg::DeleteDatabase(o, n) => MessageModel::DeleteDatabase(
                describe(*o, *n),
            ),
            IndexedDBThreadMsg::Store(o, n, r) => MessageModel::Store(describe(*o, *n), r@),
            IndexedDBThreadMsg::UpgradeVersion(o, n, v) => MessageModel::UpgradeVersion(
                describe(*o, *n),
                *v,
            ),
            IndexedDBThreadMsg::RegisterNewTxn(o, n, t) => MessageModel::RegisterNewTxn(
                describe(*o, *n),
                t@,
            ),
            IndexedDBThreadMsg::Exit => MessageModel::Exit,
        }
    }
}

/// What the manager wants done about a message.
pub enum ManagerAction<E> {
    /// Make an engine for a database that is not open yet, in the folder named, and come back
    /// with it to `finish_open`.
    CreateEngine { description: IndexedDBDescription, folder: Vec<String>, version: u64 },
    /// Have a database deleted by its engine, and send the reply that `deletion_reply` makes of
    /// the result.
    DeleteEngine(E),
    /// The rest: send the reply.
    Closed,
    Opened(u64),
    Deleted(BackendResult<()>),
    Store(StoreReply),
    Upgraded(BackendResult<u64>),
    /// The number of the channels of the transaction that was queued.
    Registered(BackendResult<u64>),
    Exited,
}

/// What a `ManagerAction` stands for.
pub enum ActionModel {
    CreateEngine { description: DescriptionModel, folder: Seq<Seq<char>>, version: u64 },
    DeleteEngine { calls: Seq<EngineCall> },
    Closed,
    Opened(u64),
    Deleted(Result<(), BackendErrorModel>),
    Store(ReplyModel),
    Upgraded(Result<u64, BackendErrorModel>),
    Registered(Result<u64, BackendErrorModel>),
    Exited,
}

impl<E: KvsEngine> View for ManagerAction<E> {
    type V = ActionModel;

    open spec fn view(&self) -> ActionModel {
        match self {
            ManagerAction::CreateEngine { description, folder, version } =>
                ActionModel::CreateEngine {
                description: description@,
                folder: texts(folder@),
                version: *version,
            },
            ManagerAction::DeleteEngine(engine) => ActionModel::DeleteEngine {
                calls: engine.calls(),
            },
            ManagerAction::Closed => ActionModel::Closed,
            ManagerAction::Opened(v) => ActionModel::Opened(*v),
            ManagerAction::Deleted(r) => ActionModel::Deleted(backend_model(*r)),
            ManagerAction::Store(r) => ActionModel::Store(r@),
            ManagerAction::Upgraded(r) => ActionModel::Upgraded(backend_model(*r)),
            ManagerAction::Registered(r) => ActionModel::Registered(backend_model(*r)),
            ManagerAction::Exited => ActionModel::Exited,
        }
    }
}

/// The open databases.
pub type Databases = Map<DescriptionModel, EnvironmentModel>;

/// The version to report for a database: the one that its engine told, else `wanted`, else zero.
pub open spec fn version_told(told: Result<u64, Seq<char>>, wanted: Option<u64>) -> u64 {
    match told {
        Ok(v) => v,
        Err(_) => match wanted {
            Some(v) => v,
            None => 0,
        },
    }
}

/// `after` is `before` but for one more engine call of one database, which is open in both.
pub open spec fn called_once(before: Databases, d: DescriptionModel, after: Databases) -> bool {
    &&& before.contains_key(d)
    &&& after.contains_key(d)
    &&& after == before.insert(d, after[d])
    &&& after[d].transactions == before[d].transactions
    &&& after[d].calls == before[d].calls.push(after[d].calls.last())
}

/// What a message does to the open databases, and what is done about it.
pub open spec fn handled(
    before: Databases,
    message: MessageModel,
    after: Databases,
    action: ActionModel,
) -> bool {
    match message {
        MessageModel::CloseDatabase(d) => after == before.remove(d) && action
            == ActionModel::Closed,
        MessageModel::OpenDatabase(d, wanted) => if before.contains_key(d) {
            &&& called_once(before, d, after)
            &&& after[d].calls.last() matches EngineCall::Version { result }
            &&& action == ActionModel::Opened(version_told(result, wanted))
        } else {
            &&& after == before
            &&& action == ActionModel::CreateEngine {
                description: d,
                folder: path_of(d),
                version: match wanted {
                    Some(v) => v,
                    None => 0,
                },
            }
        },
        MessageModel::DeleteDatabase(d) => {
            &&& after == before.remove(d)
            &&& action == if before.contains_key(d) {
                ActionModel::DeleteEngine { calls: before[d].calls }
            } else {
                ActionModel::Deleted(Ok(()))
            }
        },
        MessageModel::Store(d, request) => if before.contains_key(d) {
            &&& called_once(before, d, after)
            &&& action matches ActionModel::Store(reply)
            &&& answered(request, after[d].calls.last(), reply)
        } else {
            &&& after == before
            &&& action == ActionModel::Store(not_found(request))
        },
        MessageModel::UpgradeVersion(d, version) => if before.contains_key(d) {
            &&& after.contains_key(d)
            &&& after == before.insert(d, after[d])
            &&& action matches ActionModel::Upgraded(reply)
            &&& upgraded(before[d], version, after[d], reply)
        } else {
            &&& after == before
            &&& action == ActionModel::Upgraded(Err(BackendErrorModel::DbNotFound))
        },
        MessageModel::RegisterNewTxn(d, txn) => if before.contains_key(d) {
            &&& after == before.insert(
                d,
                EnvironmentModel {
                    calls: before[d].calls,
                    transactions: before[d].transactions.push(txn),
                },
            )
            &&& action == ActionModel::Registered(Ok(txn.channel))
        } else {
            &&& after == before
            &&& action == ActionModel::Registered(Err(BackendErrorModel::DbNotFound))
        },
        MessageModel::Exit => after == before && action == ActionModel::Exited,
    }
}

/// The reply to a request to delete a database, from what its engine answered.
pub fn deletion_reply(result: DbResult<()>) -> (r: BackendResult<()>)
    ensures
        backend_model(r) == reported(db_model(result)),
{
    report(result)
}

/// Each open database has had one attempt to start a transaction of its queue.
pub open spec fn all_attempted(before: Databases, after: Databases) -> bool {
    &&& after.dom() == before.dom()
    &&& forall|d: DescriptionModel| #[trigger]
        before.contains_key(d) ==> attempted(before[d], after[d])
}

/// What came in at the manager's port within the time that it waits.
pub enum PortEvent {
    Message(IndexedDBThreadMsg),
    /// The other end is gone.
    Disconnected,
    /// Something went wrong with the port.
    Failed,
    /// Nothing came.
    Empty,
}

/// What the manager's loop does next.
pub enum LoopAction<E> {
    /// Carry out an action, then wait again.
    Perform(ManagerAction<E>),
    /// Wait again.
    Wait,
    /// Leave the loop.
    Stop,
}

/// The manager: the environments of all open databases.
pub struct IndexedDBManager<E: KvsEngine> {
    databases: KeyedMap<IndexedDBDescription, IndexedDBEnvironment<E>>,
}

impl<E: KvsEngine> View for IndexedDBManager<E> {
    type V = Databases;

    closed spec fn view(&self) -> Databases {
        self.databases@.map_values(|env: IndexedDBEnvironment<E>| env@)
    }
}

impl<E: KvsEngine> IndexedDBManager<E> {
    /// A manager with no open database.
    pub fn new() -> (r: Self)
        ensures
            r@ == Map::<DescriptionModel, EnvironmentModel>::empty(),
    {
        let r = IndexedDBManager { databases: KeyedMap::new() };
        assert(r@ =~= Map::<DescriptionModel, EnvironmentModel>::empty());
        r
    }

    /// Handles a message: changes the open databases and tells what is to be done.
    pub fn handle_operation(&mut self, operation: IndexedDBThreadMsg) -> (r: ManagerAction<E>)
        ensures
            handled(old(self)@, operation@, final(self)@, r@),
    {
        match operation {
            IndexedDBThreadMsg::CloseDatabase(origin, name) => {
                let description = IndexedDBDescription { origin, name };
                let _ = self.databases.remove(&description);
                assert(self@ =~= old(self)@.remove(description@));
                ManagerAction::Closed
            },
            IndexedDBThreadMsg::OpenDatabase(origin, name, version) => {
                let description = IndexedDBDescription { origin, name };
                let version = match version {
                    Some(v) => v,
                    None => 0,
                };
                match self.databases.remove(&description) {
                    Some(mut env) => {
                        let told = match env.engine.version() {
                            Ok(v) => v,
                            Err(_) => version,
                        };
                        let ghost d = description@;
                        self.databases.insert(description, env);
                        assert(self@ =~= old(self)@.insert(d, self@[d]));
                        ManagerAction::Opened(told)
                    },
                    None => {
                        assert(self@ =~= old(self)@);
                        let folder = description.as_path();
                        ManagerAction::CreateEngine { description, folder, version }
                    },
                }
            },
            IndexedDBThreadMsg::DeleteDatabase(origin, name) => {
                let description = IndexedDBDescription { origin, name };
                let found = self.databases.remove(&description);
                assert(self@ =~= old(self)@.remove(description@));
                match found {
                    Some(env) => ManagerAction::DeleteEngine(env.engine),
                    None => ManagerAction::Deleted(Ok(())),
                }
            },
            IndexedDBThreadMsg::Store(origin, name, request) => {
                let description = IndexedDBDescription { origin, name };
                match self.databases.remove(&description) {
                    Some(mut env) => {
                        let reply = env.answer(request);
                        let ghost d = description@;
                        self.databases.insert(description, env);
                        assert(self@ =~= old(self)@.insert(d, self@[d]));
                        ManagerAction::Store(reply)
                    },
                    None => {
                        assert(self@ =~= old(self)@);
                        ManagerAction::Store(refuse(&request))
                    },
                }
            },
            IndexedDBThreadMsg::UpgradeVersion(origin, name, version) => {
                let description = IndexedDBDescription { origin, name };
                match self.databases.remove(&description) {
                    Some(mut env) => {
                        let reply = env.upgrade_version(version);
                        let ghost d = description@;
                        self.databases.insert(description, env);
                        assert(self@ =~= old(self)@.insert(d, self@[d]));
                        ManagerAction::Upgraded(reply)
                    },
                    None => {
                        assert(self@ =~= old(self)@);
                        ManagerAction::Upgraded(Err(BackendError::DbNotFound))
                    },
                }
            },
            IndexedDBThreadMsg::RegisterNewTxn(origin, name, txn) => {
                let description = IndexedDBDescription { origin, name };
                match self.databases.remove(&description) {
                    Some(mut env) => {
                        let channel = txn.channel;
                        let ghost d = description@;
                        env.transactions.push(txn);
                        assert(queue(env.transactions@) =~= old(self)@[d].transactions.push(txn@));
                        self.databases.insert(description, env);
                        assert(self@ =~= old(self)@.insert(d, env@));
                        ManagerAction::Registered(Ok(channel))
                    },
                    None => {
                        assert(self@ =~= old(self)@);
                        ManagerAction::Registered(Err(BackendError::DbNotFound))
                    },
                }
            },
            IndexedDBThreadMsg::Exit => ManagerAction::Exited,
        }
    }

    /// Starts, for every open database, the earliest transaction of its queue that may run.
    pub fn start_transactions(&mut self)
        ensures
            all_attempted(old(self)@, final(self)@),
    {
        let mut rest: KeyedMap<IndexedDBDescription, IndexedDBEnvironment<E>> = KeyedMap::new();
        std::mem::swap(&mut rest, &mut self.databases);
        let ghost before = rest@;
        assert(self.databases@ =~= Map::empty());
        loop
            invariant
                forall|d: DescriptionModel|
                    before.contains_key(d) <==> rest@.contains_key(d)
                        || self.databases@.contains_key(d),
                forall|d: DescriptionModel| #[trigger]
                    rest@.contains_key(d) ==> !self.databases@.contains_key(d) && rest@[d]
                        == before[d],
                forall|d: DescriptionModel| #[trigger]
                    self.databases@.contains_key(d) ==> attempted(
                        before[d]@,
                        self.databases@[d]@,
                    ),
            ensures
                rest@ == Map::<DescriptionModel, IndexedDBEnvironment<E>>::empty(),
            decreases rest.order().len(),
        {
            match rest.pop() {
                Some((description, mut env)) => {
                    env.start_transaction();
                    self.databases.insert(description, env);
                },
                None => {
                    break ;
                },
            }
        }
        proof {
            let f = |env: IndexedDBEnvironment<E>| env@;
            assert(old(self)@ == before.map_values(f));
            assert(self@.dom() =~= old(self)@.dom());
        }
    }

    /// One turn of the manager's loop: a message is handled; when nothing came in, the queues
    /// are looked at.
    pub fn step(&mut self, event: PortEvent) -> (r: LoopAction<E>)
        ensures
            match event {
                PortEvent::Message(message) => {
                    &&& r matches LoopAction::Perform(action)
                    &&& handled(old(self)@, message@, final(self)@, action@)
                },
                PortEvent::Disconnected => r is Stop && final(self)@ == old(self)@,
                PortEvent::Failed | PortEvent::Empty => r is Wait && all_attempted(
                    old(self)@,
                    final(self)@,
                ),
            },
    {
        match event {
            PortEvent::Message(message) => LoopAction::Perform(self.handle_operation(message)),
            PortEvent::Disconnected => LoopAction::Stop,
            PortEvent::Failed | PortEvent::Empty => {
                self.start_transactions();
                LoopAction::Wait
            },
        }
    }

    /// Opens a database on an engine just made for it, and tells the version to report.
    pub fn finish_open(
        &mut self,
        description: IndexedDBDescription,
        version: u64,
        engine: E,
    ) -> (r: u64)
        ensures
            ({
                let d = description@;
                let env = final(self)@[d];
                &&& final(self)@ == old(self)@.insert(d, env)
                &&& env.transactions == Seq::<TransactionModel>::empty()
                &&& env.calls == engine.calls().push(env.calls.last())
                &&& env.calls.last() matches EngineCall::Version { result }
                &&& r == version_told(result, Some(version))
            }),
    {
        let mut env = IndexedDBEnvironment::new(engine);
        let told = match env.engine.version() {
            Ok(v) => v,
            Err(_) => version,
        };
        let ghost d = description@;
        self.databases.insert(description, env);
        assert(self@ =~= old(self)@.insert(d, self@[d]));
        told
    }
}

/// The version that an engine tells is the one to report; where it cannot tell, the one that was
/// wanted is, and zero where none was.
pub proof fn law_engine_knows_the_version(version: u64, text: Seq<char>, wanted: u64)
    ensures
        version_told(Ok(version), Some(wanted)) == version,
        version_told(Ok(version), None) == version,
        version_told(Err(text), Some(wanted)) == wanted,
        version_told(Err(text), None) == 0,
{
}

} // verus!

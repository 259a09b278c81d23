//! A transaction as a script sees it. What it wants sent, it hands to the caller; what comes back,
//! the caller hands to it.
use crate::indexeddb::description::{ImmutableOrigin, OriginModel};
use crate::indexeddb::engine::TransactionModel;
use crate::indexeddb::types::{opt_key_path, IndexedDBTxnMode, KeyPath, KeyPathModel};
use crate::keyed_map::StringMap;
use crate::net::indexeddb::environment::startable;
use crate::text::{clone_texts, contains_text, texts};
use vstd::prelude::*;

verus! {

/// In which mode a script runs a transaction.
#[derive(Clone, Copy, Debug, PartialEq, Eq, Structural)]
pub enum IDBTransactionMode {
    Readonly,
    Readwrite,
    Versionchange,
}

impl IDBTransactionMode {
    /// The mode as the storage side calls it.
    pub open spec fn storage_mode(self) -> IndexedDBTxnMode {
        match self {
            IDBTransactionMode::Readonly => IndexedDBTxnMode::Readonly,
            IDBTransactionMode::Readwrite => IndexedDBTxnMode::Readwrite,
            IDBTransactionMode::Versionchange => IndexedDBTxnMode::Versionchange,
        }
    }
}

/// How far a transaction has come.
#[derive(Clone, Copy, Debug, PartialEq, Eq, Structural)]
pub enum IndexedDBTransactionState {
    Active,
    Started,
    Aborted,
    Finished,
}

/// What a script is told where a call fails.
#[derive(Clone, Copy, Debug, PartialEq, Eq, Structural)]
pub enum ScriptError {
    InvalidState,
    NotFound,
    QuotaExceeded,
}

/// Something to be sent, for which a reply is waited for.
pub enum Request {
    /// Put a transaction on these object stores into the queue of a database.
    RegisterNewTxn {
        origin: ImmutableOrigin,
        db_name: String,
        scope: Vec<String>,
        mode: IndexedDBTxnMode,
    },
    UpgradeVersion { origin: ImmutableOrigin, db_name: String, version: u64 },
    HasKeyGenerator { origin: ImmutableOrigin, db_name: String, store_name: String },
    KeyPath { origin: ImmutableOrigin, db_name: String, store_name: String },
    /// Run what is in the transaction's own queue, and tell when that is done.
    Wait,
    /// Commit what is in the transaction's own queue.
    Commit,
}

/// What a `Request` stands for.
pub enum RequestModel {
    RegisterNewTxn {
        origin: OriginModel,
        db_name: Seq<char>,
        scope: Seq<Seq<char>>,
        mode: IndexedDBTxnMode,
    },
    UpgradeVersion { origin: OriginModel, db_name: Seq<char>, version: u64 },
    HasKeyGenerator { origin: OriginModel, db_name: Seq<char>, store_name: Seq<char> },
    KeyPath { origin: OriginModel, db_name: Seq<char>, store_name: Seq<char> },
    Wait,
    Commit,
}

impl View for Request {
    type V = RequestModel;

    open spec fn view(&self) -> RequestModel {
        match self {
            Request::RegisterNewTxn { origin, db_name, scope, mode } => {
                RequestModel::RegisterNewTxn {
                    origin: origin@,
                    db_name: db_name@,
                    scope: texts(scope@),
                    mode: *mode,
                }
            },
            Request::UpgradeVersion { origin, db_name, version } => RequestModel::UpgradeVersion {
                origin: origin@,
                db_name: db_name@,
                version: *version,
            },
            Request::HasKeyGenerator { origin, db_name, store_name } => {
                RequestModel::HasKeyGenerator {
                    origin: origin@,
                    db_name: db_name@,
                    store_name: store_name@,
                }
            },
            Request::KeyPath { origin, db_name, store_name } => RequestModel::KeyPath {
                origin: origin@,
                db_name: db_name@,
                store_name: store_name@,
            },
            Request::Wait => RequestModel::Wait,
            Request::Commit => RequestModel::Commit,
        }
    }
}

/// What a list of requests stands for.
pub open spec fn requests(list: Seq<Request>) -> Seq<RequestModel> {
    list.map_values(|r: Request| r@)
}

/// The parameters that an object store was made with.
pub struct IDBObjectStoreParameters {
    pub auto_increment: bool,
    pub key_path: Option<KeyPath>,
}

/// What an `IDBObjectStoreParameters` stands for.
pub struct ParametersModel {
    pub auto_increment: bool,
    pub key_path: Option<KeyPathModel>,
}

impl View for IDBObjectStoreParameters {
    type V = ParametersModel;

    open spec fn view(&self) -> ParametersModel {
        ParametersModel {
            auto_increment: self.auto_increment,
            key_path: opt_key_path(self.key_path),
        }
    }
}

/// An event that is fired at the transaction.
pub struct FiredEvent {
    pub name: &'static str,
    pub bubbles: bool,
    pub cancelable: bool,
}

/// What a script gets for the name of an object store.
#[derive(Clone, Copy, Debug, PartialEq, Eq, Structural)]
pub enum StoreLookup {
    /// An error.
    Refused(ScriptError),
    /// The object that it got before.
    Handle(u64),
    /// A new object, which is to be made with the parameters of the object store and handed to
    /// `add_store_handle`.
    Make,
}

/// What an `IDBTransaction` stands for.
pub struct ScriptTransaction {
    pub origin: OriginModel,
    pub db_name: Seq<char>,
    pub object_store_names: Seq<Seq<char>>,
    pub mode: IDBTransactionMode,
    pub state: IndexedDBTransactionState,
    pub force_active: bool,
    /// The objects that the script got for object stores, by name.
    pub store_handles: Map<Seq<char>, u64>,
    /// The requests that were placed, in order.
    pub requests: Seq<u64>,
}

/// Whether none of the states that came in is the first one: a transaction never goes back to it.
pub open spec fn no_way_back(received: Seq<IndexedDBTransactionState>) -> bool {
    forall|i: int|
        0 <= i < received.len() ==> (#[trigger] received[i]) != IndexedDBTransactionState::Active
}

impl ScriptTransaction {
    /// In the last of the states that came in, if one did.
    pub open spec fn receive(self, received: Seq<IndexedDBTransactionState>) -> ScriptTransaction {
        if received.len() == 0 {
            self
        } else {
            ScriptTransaction { state: received.last(), ..self }
        }
    }

    /// Whether requests can be placed.
    pub open spec fn is_active(self) -> bool {
        self.state == IndexedDBTransactionState::Active || self.state
            == IndexedDBTransactionState::Started || self.force_active
    }

    /// Whether the transaction is over.
    pub open spec fn is_finished(self) -> bool {
        self.state == IndexedDBTransactionState::Finished || self.state
            == IndexedDBTransactionState::Aborted
    }

    /// The question whether an object store of its database has a key generator.
    pub open spec fn generator_question(self, store_name: Seq<char>) -> RequestModel {
        RequestModel::HasKeyGenerator { origin: self.origin, db_name: self.db_name, store_name }
    }

    /// The question where the keys of an object store of its database are found.
    pub open spec fn path_question(self, store_name: Seq<char>) -> RequestModel {
        RequestModel::KeyPath { origin: self.origin, db_name: self.db_name, store_name }
    }

    /// The requests that change the version of its database.
    pub open spec fn upgrade_requests(self, version: u64) -> Seq<RequestModel> {
        seq![
            RequestModel::Wait,
            RequestModel::UpgradeVersion { origin: self.origin, db_name: self.db_name, version },
        ]
    }

    /// Whether it can be committed, where these requests are over.
    pub open spec fn may_commit(self, finished: Seq<u64>) -> bool {
        forall|i: int|
            0 <= i < self.requests.len() ==> finished.contains(#[trigger] self.requests[i])
    }

    /// Once a script aborts it, and what the script is told.
    pub open spec fn aborted(self) -> (ScriptTransaction, Result<(), ScriptError>) {
        if self.is_finished() {
            (self, Err(ScriptError::InvalidState))
        } else {
            (ScriptTransaction { state: IndexedDBTransactionState::Finished, ..self }, Ok(()))
        }
    }

    /// What a script gets for the name of an object store: an error where the transaction is over
    /// or has no such store, and the same object every time otherwise.
    pub open spec fn lookup(self, name: Seq<char>) -> StoreLookup {
        if self.is_finished() {
            StoreLookup::Refused(ScriptError::InvalidState)
        } else if !self.object_store_names.contains(name) {
            StoreLookup::Refused(ScriptError::NotFound)
        } else if self.store_handles.contains_key(name) {
            StoreLookup::Handle(self.store_handles[name])
        } else {
            StoreLookup::Make
        }
    }
}

/// A transaction as a script sees it.
pub struct IDBTransaction {
    origin: ImmutableOrigin,
    db_name: String,
    object_store_names: Vec<String>,
    mode: IDBTransactionMode,
    state: IndexedDBTransactionState,
    force_active: bool,
    store_handles: StringMap<u64>,
    requests: Vec<u64>,
}

impl View for IDBTransaction {
    type V = ScriptTransaction;

    closed spec fn view(&self) -> ScriptTransaction {
        ScriptTransaction {
            origin: self.origin@,
            db_name: self.db_name@,
            object_store_names: texts(self.object_store_names@),
            mode: self.mode,
            state: self.state,
            force_active: self.force_active,
            store_handles: self.store_handles@,
            requests: self.requests@,
        }
    }
}

impl IDBTransaction {
    /// A new transaction on some object stores of a database, and what is to be sent to have it
    /// queued.
    pub fn new(
        origin: ImmutableOrigin,
        db_name: String,
        mode: IDBTransactionMode,
        scope: Vec<String>,
    ) -> (r: (Self, Request))
        ensures
            r.0@ == (ScriptTransaction {
                origin: origin@,
                db_name: db_name@,
                object_store_names: texts(scope@),
                mode,
                state: IndexedDBTransactionState::Active,
                force_active: true,
                store_handles: Map::empty(),
                requests: Seq::empty(),
            }),
            r.1@ == (RequestModel::RegisterNewTxn {
                origin: origin@,
                db_name: db_name@,
                scope: texts(scope@),
                mode: mode.storage_mode(),
            }),
            r.1 matches Request::RegisterNewTxn { mode: registered, .. } && (registered
                == IndexedDBTxnMode::Readonly <==> mode == IDBTransactionMode::Readonly) && (
            registered == IndexedDBTxnMode::Readwrite <==> mode == IDBTransactionMode::Readwrite)
                && (registered == IndexedDBTxnMode::Versionchange <==> mode
                == IDBTransactionMode::Versionchange),
    {
        let request = Self::register_new(&origin, &db_name, &scope, mode);
        let transaction = IDBTransaction {
            origin,
            db_name,
            object_store_names: scope,
            mode,
            state: IndexedDBTransactionState::Active,
            force_active: true,
            store_handles: StringMap::new(),
            requests: Vec::new(),
        };
        (transaction, request)
    }

    fn register_new(
        origin: &ImmutableOrigin,
        db_name: &String,
        scope: &Vec<String>,
        mode: IDBTransactionMode,
    ) -> (r: Request)
        ensures
            r@ == (RequestModel::RegisterNewTxn {
                origin: origin@,
                db_name: db_name@,
                scope: texts(scope@),
                mode: mode.storage_mode(),
            }),
            r matches Request::RegisterNewTxn { mode: registered, .. } && (registered
                == IndexedDBTxnMode::Readonly <==> mode == IDBTransactionMode::Readonly) && (
            registered == IndexedDBTxnMode::Readwrite <==> mode == IDBTransactionMode::Readwrite)
                && (registered == IndexedDBTxnMode::Versionchange <==> mode
                == IDBTransactionMode::Versionchange),
    {
        let mode = match mode {
            IDBTransactionMode::Readonly => IndexedDBTxnMode::Readonly,
            IDBTransactionMode::Readwrite => IndexedDBTxnMode::Readwrite,
            IDBTransactionMode::Versionchange => IndexedDBTxnMode::Versionchange,
        };
        Request::RegisterNewTxn {
            origin: origin.clone(),
            db_name: db_name.clone(),
            scope: clone_texts(scope),
            mode,
        }
    }

    /// How far the transaction has come, in view of the states that came in since.
    pub fn state(&mut self, received: &Vec<IndexedDBTransactionState>) -> (r:
        IndexedDBTransactionState)
        requires
            no_way_back(received@),
        ensures
            final(self)@ == old(self)@.receive(received@),
            r == final(self)@.state,
    {
        let mut i: usize = 0;
        while i < received.len()
            invariant
                i <= received@.len(),
                self@ == old(self)@.receive(received@.take(i as int)),
            decreases received@.len() - i,
        {
            self.state = received[i];
            assert(received@.take(i + 1).last() == received@[i as int]);
            i += 1;
        }
        assert(received@.take(i as int) =~= received@);
        self.state
    }

    /// Has the transaction count as active, or not.
    pub fn set_active_flag(&mut self, status: bool)
        ensures
            final(self)@ == (ScriptTransaction { force_active: status, ..old(self)@ }),
    {
        self.force_active = status;
    }

    /// Whether requests can be placed.
    pub fn is_active(&mut self, received: &Vec<IndexedDBTransactionState>) -> (r: bool)
        requires
            no_way_back(received@),
        ensures
            final(self)@ == old(self)@.receive(received@),
            r == final(self)@.is_active(),
    {
        match self.state(received) {
            IndexedDBTransactionState::Active => true,
            IndexedDBTransactionState::Started => true,
            _ => self.force_active,
        }
    }

    /// Whether the transaction is over.
    pub fn is_finished(&mut self, received: &Vec<IndexedDBTransactionState>) -> (r: bool)
        requires
            no_way_back(received@),
        ensures
            final(self)@ == old(self)@.receive(received@),
            r == final(self)@.is_finished(),
    {
        match self.state(received) {
            IndexedDBTransactionState::Finished => true,
            IndexedDBTransactionState::Aborted => true,
            _ => false,
        }
    }

    /// Whether the transaction is under way.
    pub fn has_started(&mut self, received: &Vec<IndexedDBTransactionState>) -> (r: bool)
        requires
            no_way_back(received@),
        ensures
            final(self)@ == old(self)@.receive(received@),
            r == (final(self)@.state != IndexedDBTransactionState::Active),
    {
        match self.state(received) {
            IndexedDBTransactionState::Active => false,
            _ => true,
        }
    }

    /// In which mode the transaction runs.
    pub fn get_mode(&self) -> (r: IDBTransactionMode)
        ensures
            r == self@.mode,
    {
        self.mode
    }

    /// The names of the object stores that the transaction is on.
    pub fn object_store_names(&self) -> (r: Vec<String>)
        ensures
            texts(r@) == self@.object_store_names,
    {
        clone_texts(&self.object_store_names)
    }

    /// Takes note of a request that was placed.
    pub fn add_request(&mut self, request: u64)
        ensures
            final(self)@ == (ScriptTransaction {
                requests: old(self)@.requests.push(request),
                ..old(self)@
            }),
    {
        self.requests.push(request);
    }

    /// What is to be sent, one after another, to change the version of the database: what was
    /// placed before is run first.
    pub fn upgrade_db_version(&self, version: u64) -> (r: Vec<Request>)
        ensures
            requests(r@) == seq![
                RequestModel::Wait,
                RequestModel::UpgradeVersion {
                    origin: self@.origin,
                    db_name: self@.db_name,
                    version,
                },
            ],
            requests(r@) == self@.upgrade_requests(version),
    {
        let mut list: Vec<Request> = Vec::new();
        list.push(self.wait());
        list.push(
            Request::UpgradeVersion {
                origin: self.origin.clone(),
                db_name: self.db_name.clone(),
                version,
            },
        );
        assert(requests(list@) =~= seq![
            RequestModel::Wait,
            RequestModel::UpgradeVersion { origin: self@.origin, db_name: self@.db_name, version },
        ]);
        list
    }

    /// What is to be sent to run what was placed.
    pub fn wait(&self) -> (r: Request)
        ensures
            r@ == RequestModel::Wait,
    {
        Request::Wait
    }

    /// The event that tells a script that the transaction was committed.
    pub fn dispatch_complete() -> (r: FiredEvent)
        ensures
            r.name@ == "complete"@,
            !r.bubbles,
            !r.cancelable,
    {
        FiredEvent { name: "complete", bubbles: false, cancelable: false }
    }

    /// What is to be sent first to learn the parameters of an object store.
    pub fn ask_key_generator(&self, store_name: &str) -> (r: Request)
        ensures
            r@ == (RequestModel::HasKeyGenerator {
                origin: self@.origin,
                db_name: self@.db_name,
                store_name: store_name@,
            }),
            r@ == self@.generator_question(store_name@),
    {
        Request::HasKeyGenerator {
            origin: self.origin.clone(),
            db_name: self.db_name.clone(),
            store_name: store_name.to_owned(),
        }
    }

    /// What is to be sent next, if the first reply told whether there is a key generator. Without
    /// it there are no parameters.
    pub fn ask_key_path(&self, store_name: &str, auto_increment: Option<bool>) -> (r: Option<
        Request,
    >)
        ensures
            match r {
                Some(request) => auto_increment is Some && request@ == (RequestModel::KeyPath {
                    origin: self@.origin,
                    db_name: self@.db_name,
                    store_name: store_name@,
                }),
                None => auto_increment is None,
            },
            r matches Some(request) ==> request@ == self@.path_question(store_name@),
    {
        match auto_increment {
            Some(_) => Some(
                Request::KeyPath {
                    origin: self.origin.clone(),
                    db_name: self.db_name.clone(),
                    store_name: store_name.to_owned(),
                },
            ),
            None => None,
        }
    }

    /// The parameters of an object store by the two replies, each of which is missing where it
    /// told of a failure.
    pub fn object_store_parameters(
        auto_increment: Option<bool>,
        key_path: Option<Option<KeyPath>>,
    ) -> (r: Option<IDBObjectStoreParameters>)
        ensures
            match r {
                Some(parameters) => {
                    &&& auto_increment == Some(parameters.auto_increment)
                    &&& key_path matches Some(path) && parameters@.key_path == opt_key_path(path)
                },
                None => auto_increment is None || key_path is None,
            },
    {
        match (auto_increment, key_path) {
            (Some(auto_increment), Some(key_path)) => Some(
                IDBObjectStoreParameters { auto_increment, key_path },
            ),
            _ => None,
        }
    }

    /// What a script gets for the name of an object store.
    pub fn object_store(
        &mut self,
        name: &str,
        received: &Vec<IndexedDBTransactionState>,
    ) -> (r: StoreLookup)
        requires
            no_way_back(received@),
        ensures
            final(self)@ == old(self)@.receive(received@),
            r == final(self)@.lookup(name@),
    {
        if self.is_finished(received) {
            return StoreLookup::Refused(ScriptError::InvalidState);
        }
        if !contains_text(&self.object_store_names, name) {
            return StoreLookup::Refused(ScriptError::NotFound);
        }
        match self.store_handles.get(&name.to_owned()) {
            Some(handle) => StoreLookup::Handle(*handle),
            None => StoreLookup::Make,
        }
    }

    /// Takes note of the object that was made for an object store. One that it has already is
    /// kept.
    pub fn add_store_handle(&mut self, name: String, handle: u64) -> (r: u64)
        ensures
            final(self)@ == (ScriptTransaction {
                store_handles: if old(self)@.store_handles.contains_key(name@) {
                    old(self)@.store_handles
                } else {
                    old(self)@.store_handles.insert(name@, handle)
                },
                ..old(self)@
            }),
            r == final(self)@.store_handles[name@],
    {
        match self.store_handles.get(&name) {
            Some(kept) => {
                return *kept;
            },
            None => {},
        }
        self.store_handles.insert(name, handle);
        handle
    }

    /// What is to be sent to commit the transaction.
    pub fn commit(&self) -> (r: Request)
        ensures
            r@ == RequestModel::Commit,
    {
        Request::Commit
    }

    /// What a script gets once the reply is there: the event that tells of it, or an error.
    pub fn committed(committed: bool) -> (r: Result<FiredEvent, ScriptError>)
        ensures
            match r {
                Ok(event) => committed && event.name@ == "complete"@ && !event.bubbles
                    && !event.cancelable,
                Err(error) => !committed && error == ScriptError::QuotaExceeded,
            },
    {
        if committed {
            Ok(Self::dispatch_complete())
        } else {
            Err(ScriptError::QuotaExceeded)
        }
    }

    /// What is to be sent where all requests that were placed are over; `finished` are those that
    /// are.
    pub fn try_commit(&self, finished: &Vec<u64>) -> (r: Option<Request>)
        ensures
            match r {
                Some(request) => request@ == RequestModel::Commit && forall|i: int|
                    0 <= i < self@.requests.len() ==> finished@.contains(
                        #[trigger] self@.requests[i],
                    ),
                None => exists|i: int|
                    0 <= i < self@.requests.len() && !finished@.contains(
                        #[trigger] self@.requests[i],
                    ),
            },
            r is Some <==> self@.may_commit(finished@),
    {
        let mut i: usize = 0;
        while i < self.requests.len()
            invariant
                i <= self.requests@.len(),
                forall|k: int|
                    0 <= k < i ==> finished@.contains(#[trigger] self@.requests[k]),
            decreases self.requests@.len() - i,
        {
            if !contains_id(finished, self.requests[i]) {
                assert(!finished@.contains(self@.requests[i as int]));
                return None;
            }
            i += 1;
        }
        Some(self.commit())
    }

    /// Ends the transaction, unless it is over.
    pub fn abort(&mut self, received: &Vec<IndexedDBTransactionState>) -> (r: Result<
        (),
        ScriptError,
    >)
        requires
            no_way_back(received@),
        ensures
            ({
                let now = old(self)@.receive(received@);
                if now.is_finished() {
                    &&& final(self)@ == now
                    &&& r == Err::<(), ScriptError>(ScriptError::InvalidState)
                } else {
                    &&& final(self)@ == (ScriptTransaction {
                        state: IndexedDBTransactionState::Finished,
                        ..now
                    })
                    &&& r == Ok::<(), ScriptError>(())
                }
            }),
            (final(self)@, r) == old(self)@.receive(received@).aborted(),
    {
        if self.is_finished(received) {
            return Err(ScriptError::InvalidState);
        }
        self.state = IndexedDBTransactionState::Finished;
        Ok(())
    }
}

fn contains_id(list: &Vec<u64>, wanted: u64) -> (r: bool)
    ensures
        r == list@.contains(wanted),
{
    let mut i: usize = 0;
    while i < list.len()
        invariant
            i <= list@.len(),
            forall|k: int| 0 <= k < i ==> list@[k] != wanted,
        decreases list@.len() - i,
    {
        if list[i] == wanted {
            return true;
        }
        i += 1;
    }
    false
}

/// As long as a transaction is not over, each call with the same name gets the same object, from
/// the first one that was made for it on.
pub proof fn law_same_store_same_handle(
    before: ScriptTransaction,
    after: ScriptTransaction,
    name: Seq<char>,
    handle: u64,
    received: Seq<IndexedDBTransactionState>,
)
    requires
        before.lookup(name) == StoreLookup::Make,
        after == (ScriptTransaction {
            store_handles: before.store_handles.insert(name, handle),
            ..before
        }),
        !after.receive(received).is_finished(),
    ensures
        after.receive(received).lookup(name) == StoreLookup::Handle(handle),
{
}

/// Once a transaction is over, a script gets no object store from it and cannot abort it.
pub proof fn law_finished_transaction_refuses(transaction: ScriptTransaction, name: Seq<char>)
    requires
        transaction.is_finished(),
    ensures
        transaction.lookup(name) == StoreLookup::Refused(ScriptError::InvalidState),
        !transaction.force_active ==> !transaction.is_active(),
{
}

/// A transaction that has left the first state never returns to it.
pub proof fn law_started_stays_started(
    transaction: ScriptTransaction,
    received: Seq<IndexedDBTransactionState>,
)
    requires
        no_way_back(received),
        transaction.state != IndexedDBTransactionState::Active,
    ensures
        transaction.receive(received).state != IndexedDBTransactionState::Active,
{
}

/// A transaction is registered in the mode that the script asked for: to read only where it asked to
/// read only, to read and write where it asked for that, and to change the version where it asked
/// for that.
pub proof fn law_mode_is_what_was_asked_for(mode: IDBTransactionMode)
    ensures
        mode.storage_mode() == IndexedDBTxnMode::Readonly <==> mode == IDBTransactionMode::Readonly,
        mode.storage_mode() == IndexedDBTxnMode::Readwrite <==> mode
            == IDBTransactionMode::Readwrite,
        mode.storage_mode() == IndexedDBTxnMode::Versionchange <==> mode
            == IDBTransactionMode::Versionchange,
{
}

/// A transaction that a script asked to read only runs next to others that do: it can be started
/// whatever stores they hold. One that was asked to write cannot where a store of its scope is held.
pub proof fn law_readers_are_registered_as_readers(
    mode: IDBTransactionMode,
    scope: Seq<Seq<char>>,
    start: Option<i64>,
    channel: u64,
    locked: Map<Seq<char>, IndexedDBTxnMode>,
    store: Seq<char>,
)
    requires
        scope.contains(store),
        locked.contains_key(store),
        forall|s: Seq<char>| #[trigger]
            locked.contains_key(s) ==> locked[s] == IndexedDBTxnMode::Readonly,
    ensures
        startable(
            TransactionModel { mode: mode.storage_mode(), stores: scope, start, channel },
            locked,
        ) <==> mode == IDBTransactionMode::Readonly,
{
    let txn = TransactionModel { mode: mode.storage_mode(), stores: scope, start, channel };
    let k = choose|k: int| 0 <= k < scope.len() && scope[k] == store;
    assert(txn.stores[k] == store);
}

/// Of the states that came in, the last one counts, and nothing else of the transaction changes.
pub proof fn law_last_state_counts(
    transaction: ScriptTransaction,
    earlier: Seq<IndexedDBTransactionState>,
    state: IndexedDBTransactionState,
)
    ensures
        transaction.receive(Seq::empty()) == transaction,
        ({
            let after = transaction.receive(earlier.push(state));
            &&& after.state == state
            &&& after.origin == transaction.origin
            &&& after.db_name == transaction.db_name
            &&& after.object_store_names == transaction.object_store_names
            &&& after.mode == transaction.mode
            &&& after.force_active == transaction.force_active
            &&& after.store_handles == transaction.store_handles
            &&& after.requests == transaction.requests
        }),
{
    assert(earlier.push(state).last() == state);
}

/// A transaction is over once it has finished or was aborted. Until then requests can be placed, and
/// afterwards only where it is made to count as active.
pub proof fn law_active_until_it_is_over(transaction: ScriptTransaction)
    ensures
        transaction.state == IndexedDBTransactionState::Active ==> transaction.is_active()
            && !transaction.is_finished(),
        transaction.state == IndexedDBTransactionState::Started ==> transaction.is_active()
            && !transaction.is_finished(),
        transaction.state == IndexedDBTransactionState::Aborted ==> transaction.is_finished()
            && transaction.is_active() == transaction.force_active,
        transaction.state == IndexedDBTransactionState::Finished ==> transaction.is_finished()
            && transaction.is_active() == transaction.force_active,
{
}

/// A script gets an object store exactly where the transaction is not over and is on that store; it
/// is told that there is none where the transaction is on others only.
pub proof fn law_stores_of_the_scope_are_handed_out(
    transaction: ScriptTransaction,
    name: Seq<char>,
    handle: u64,
)
    ensures
        transaction.lookup(name) == StoreLookup::Refused(ScriptError::InvalidState)
            <==> transaction.is_finished(),
        transaction.lookup(name) == StoreLookup::Refused(ScriptError::NotFound)
            <==> !transaction.is_finished() && !transaction.object_store_names.contains(name),
        transaction.lookup(name) == StoreLookup::Handle(handle) <==> !transaction.is_finished()
            && transaction.object_store_names.contains(name)
            && transaction.store_handles.contains_key(name) && transaction.store_handles[name]
            == handle,
        transaction.lookup(name) == StoreLookup::Make <==> !transaction.is_finished()
            && transaction.object_store_names.contains(name)
            && !transaction.store_handles.contains_key(name),
        transaction.lookup(name) != StoreLookup::Refused(ScriptError::QuotaExceeded),
{
}

/// A request stands for the origin, the database and the object store that it names.
pub proof fn law_requests_stand_for_their_fields(
    origin: ImmutableOrigin,
    db_name: String,
    store_name: String,
    scope: Vec<String>,
    mode: IndexedDBTxnMode,
    version: u64,
)
    ensures
        (Request::RegisterNewTxn { origin, db_name, scope, mode })@
            == (RequestModel::RegisterNewTxn {
            origin: origin@,
            db_name: db_name@,
            scope: texts(scope@),
            mode,
        }),
        (Request::UpgradeVersion { origin, db_name, version })@ == (RequestModel::UpgradeVersion {
            origin: origin@,
            db_name: db_name@,
            version,
        }),
        (Request::HasKeyGenerator { origin, db_name, store_name })@
            == (RequestModel::HasKeyGenerator {
            origin: origin@,
            db_name: db_name@,
            store_name: store_name@,
        }),
        (Request::KeyPath { origin, db_name, store_name })@ == (RequestModel::KeyPath {
            origin: origin@,
            db_name: db_name@,
            store_name: store_name@,
        }),
        Request::Wait@ == RequestModel::Wait,
        Request::Commit@ == RequestModel::Commit,
{
}

/// A transaction asks about the object stores of its own database: each question names the origin and
/// the database that it was made for, and the object store that is asked about.
pub proof fn law_questions_are_about_the_own_database(
    transaction: ScriptTransaction,
    name: Seq<char>,
    version: u64,
)
    ensures
        transaction.generator_question(name) matches RequestModel::HasKeyGenerator {
            origin,
            db_name,
            store_name,
        } && origin == transaction.origin && db_name == transaction.db_name && store_name == name,
        transaction.path_question(name) matches RequestModel::KeyPath {
            origin,
            db_name,
            store_name,
        } && origin == transaction.origin && db_name == transaction.db_name && store_name == name,
        transaction.upgrade_requests(version).len() == 2,
        transaction.upgrade_requests(version)[0] == RequestModel::Wait,
        transaction.upgrade_requests(version)[1] matches RequestModel::UpgradeVersion {
            origin,
            db_name,
            version: v,
        } && origin == transaction.origin && db_name == transaction.db_name && v == version,
{
}

/// A transaction is committed once all of its requests are over, and not while one of them is not.
pub proof fn law_committed_once_all_requests_are_over(
    transaction: ScriptTransaction,
    finished: Seq<u64>,
    request: u64,
)
    ensures
        transaction.requests.contains(request) && !finished.contains(request)
            ==> !transaction.may_commit(finished),
        transaction.requests.to_set().subset_of(finished.to_set()) ==> transaction.may_commit(
            finished,
        ),
        transaction.requests.len() == 0 ==> transaction.may_commit(finished),
{
    if transaction.requests.contains(request) && !finished.contains(request) {
        let i = choose|i: int|
            0 <= i < transaction.requests.len() && transaction.requests[i] == request;
        assert(!finished.contains(transaction.requests[i]));
    }
    if transaction.requests.to_set().subset_of(finished.to_set()) {
        assert forall|i: int| 0 <= i < transaction.requests.len() implies finished.contains(
            #[trigger] transaction.requests[i],
        ) by {
            assert(transaction.requests.to_set().contains(transaction.requests[i]));
            assert(finished.to_set().contains(transaction.requests[i]));
        }
    }
}

/// To abort a transaction ends it: a second attempt is refused, and no object store is handed out any
/// more.
pub proof fn law_aborted_transaction_is_over(transaction: ScriptTransaction, name: Seq<char>)
    requires
        !transaction.is_finished(),
    ensures
        transaction.aborted().1 == Ok::<(), ScriptError>(()),
        ({
            let after = transaction.aborted().0;
            &&& after.is_finished()
            &&& after.aborted() == (after, Err::<(), ScriptError>(ScriptError::InvalidState))
            &&& after.lookup(name) == StoreLookup::Refused(ScriptError::InvalidState)
            &&& after.requests == transaction.requests
            &&& after.store_handles == transaction.store_handles
        }),
{
}

} // verus!

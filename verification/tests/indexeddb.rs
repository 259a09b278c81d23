use servo_storage::folder_names::folder_name;
use servo_storage::indexeddb::description::{ImmutableOrigin, IndexedDBDescription};
use servo_storage::indexeddb::engine::{EngineHistory, StoreEngine, StoreReply, StoreRequest};
use servo_storage::indexeddb::types::{
    BackendError, CreateObjectResult, DbResult, IndexedDBTxnMode, KeyPath,
};
use servo_storage::keyed_map::StringMap;
use servo_storage::net::indexeddb::engines::sqlite::{
    plan_result, CreateObjectStoreResult, CreatePlan, SanitizedName, SqliteEngine, Step, Table,
};
use servo_storage::net::indexeddb::engines::transaction::{
    reported_count, Action, AsyncOperation, Event, KvsRequest, PutItemResult, Query, Reply,
    RunningTransaction,
};
use servo_storage::net::indexeddb::engines::{KvsEngine as QueueEngine, KvsTransaction};
use servo_storage::net::indexeddb::environment::{can_start, IndexedDBEnvironment};
use servo_storage::net::indexeddb::idb_thread::{
    base_dir, deletion_reply, worker_count, IndexedDBManager, IndexedDBThreadMsg, LoopAction,
    ManagerAction, PortEvent,
};
use servo_storage::storage::indexeddb::engines as scheduled;
use servo_storage::storage::indexeddb::idb_thread as storage_thread;
use servo_storage::storage::indexeddb::scheduler::{SchedulerAction, TransactionQueue};
use std::cell::RefCell;
use std::rc::Rc;

#[derive(Clone, Default)]
struct Engine {
    version: Rc<RefCell<Option<u64>>>,
    locked: Rc<RefCell<Vec<(String, IndexedDBTxnMode)>>>,
    run: Rc<RefCell<Vec<u64>>>,
    fails: bool,
}

impl StoreEngine for Engine {
    fn calls(&self) -> EngineHistory {
        unreachable!()
    }

    fn create_store(
        &mut self,
        store_name: &str,
        _key_path: Option<KeyPath>,
        _auto_increment: bool,
    ) -> DbResult<CreateObjectResult> {
        match store_name {
            "there" => Ok(CreateObjectResult::AlreadyExists),
            "bad" => Err("no".to_owned()),
            _ => Ok(CreateObjectResult::Created),
        }
    }

    fn delete_store(&mut self, store_name: &str) -> DbResult<()> {
        if store_name == "bad" { Err("no".to_owned()) } else { Ok(()) }
    }

    fn close_store(&mut self, _store_name: &str) -> DbResult<()> {
        Ok(())
    }

    fn delete_database(self) -> DbResult<()> {
        if self.fails { Err("stuck".to_owned()) } else { Ok(()) }
    }

    fn has_key_generator(&mut self, store_name: &str) -> bool {
        store_name == "auto"
    }

    fn key_path(&mut self, store_name: &str) -> Option<KeyPath> {
        Some(KeyPath::String(format!("{store_name}.id")))
    }

    fn create_index(
        &mut self,
        _store_name: &str,
        index_name: String,
        _key_path: KeyPath,
        unique: bool,
        _multi_entry: bool,
    ) -> DbResult<CreateObjectResult> {
        if unique { Ok(CreateObjectResult::Created) } else { Err(index_name) }
    }

    fn delete_index(&mut self, _store_name: &str, _index_name: String) -> DbResult<()> {
        Ok(())
    }

    fn version(&mut self) -> DbResult<u64> {
        self.version.borrow().ok_or("none".to_owned())
    }

    fn set_version(&mut self, version: u64) -> DbResult<()> {
        *self.version.borrow_mut() = Some(version);
        Ok(())
    }
}

impl QueueEngine for Engine {
    fn locked_store_names(&mut self) -> StringMap<IndexedDBTxnMode> {
        let mut names = StringMap::new();
        for (name, mode) in self.locked.borrow().iter() {
            names.insert(name.clone(), *mode);
        }
        names
    }

    fn process_transaction(&mut self, transaction: KvsTransaction) {
        self.run.borrow_mut().push(transaction.channel);
    }
}

impl scheduled::KvsEngine for Engine {
    fn process_transaction(&mut self, transaction: scheduled::KvsTransaction) -> Option<Vec<u8>> {
        self.run.borrow_mut().push(transaction.channel);
        None
    }
}

fn origin() -> ImmutableOrigin {
    ImmutableOrigin::Tuple("https://servo.org".to_owned())
}

fn transaction(mode: IndexedDBTxnMode, stores: &[&str], channel: u64) -> KvsTransaction {
    KvsTransaction {
        mode,
        stores: stores.iter().map(|store| store.to_string()).collect(),
        start: channel as i64,
        channel,
    }
}

#[test]
fn folders_come_from_names() {
    let namespace = uuid::Uuid::from_bytes(servo_storage::folder_names::NAMESPACE);
    let expected = uuid::Uuid::new_v5(&namespace, b"https://servo.org").to_string();
    assert_eq!(folder_name("https://servo.org"), expected);
    assert_ne!(folder_name("https://servo.org"), folder_name("https://servo.net"));
    let description = IndexedDBDescription { origin: origin(), name: "db".to_owned() };
    assert_eq!(description.as_path(), vec![expected, folder_name("db")]);
    let opaque = IndexedDBDescription { origin: ImmutableOrigin::Opaque(7), name: String::new() };
    assert_eq!(opaque.as_path(), vec![folder_name("null"), folder_name("")]);
    assert_eq!(base_dir(None), vec!["IndexedDB".to_owned()]);
    assert_eq!(base_dir(Some("c".to_owned())), vec!["c".to_owned(), "IndexedDB".to_owned()]);
}

#[test]
fn workers_are_limited() {
    assert_eq!(worker_count(Some(8), 4, 16), 8);
    assert_eq!(worker_count(Some(8), 4, 2), 2);
    assert_eq!(worker_count(None, 4, 16), 4);
    assert_eq!(worker_count(Some(8), 4, 0), 1);
}

#[test]
fn readers_run_together_and_writers_alone() {
    let mut locked = StringMap::new();
    locked.insert("r".to_owned(), IndexedDBTxnMode::Readonly);
    locked.insert("w".to_owned(), IndexedDBTxnMode::Readwrite);
    let reads = |stores: &[&str]| transaction(IndexedDBTxnMode::Readonly, stores, 0);
    let writes = |stores: &[&str]| transaction(IndexedDBTxnMode::Readwrite, stores, 0);
    assert!(can_start(&reads(&["r", "free"]), &locked));
    assert!(!can_start(&reads(&["r", "w"]), &locked));
    assert!(can_start(&writes(&["free"]), &locked));
    assert!(!can_start(&writes(&["free", "r"]), &locked));
    assert!(!can_start(&transaction(IndexedDBTxnMode::Versionchange, &["r"], 0), &locked));
}

#[test]
fn the_earliest_that_can_run_is_started() {
    let engine = Engine::default();
    engine.locked.borrow_mut().push(("a".to_owned(), IndexedDBTxnMode::Readwrite));
    let mut env = IndexedDBEnvironment::new(engine.clone());
    for (stores, channel) in [(["a"], 1), (["b"], 2), (["c"], 3)] {
        env.transactions.push(transaction(IndexedDBTxnMode::Readwrite, &stores, channel));
    }
    env.start_transaction();
    assert_eq!(*engine.run.borrow(), [2]);
    engine.locked.borrow_mut().clear();
    env.start_transaction();
    env.start_transaction();
    env.start_transaction();
    assert_eq!(*engine.run.borrow(), [2, 1, 3]);
    assert!(env.transactions.is_empty());
}

fn open(manager: &mut IndexedDBManager<Engine>, engine: &Engine) -> u64 {
    let message = IndexedDBThreadMsg::OpenDatabase(origin(), "db".to_owned(), Some(3));
    match manager.handle_operation(message) {
        ManagerAction::CreateEngine { description, folder, version } => {
            assert_eq!(folder, vec![folder_name("https://servo.org"), folder_name("db")]);
            assert_eq!(version, 3);
            manager.finish_open(description, version, engine.clone())
        },
        ManagerAction::Opened(version) => version,
        _ => panic!("neither opened nor to be made"),
    }
}

#[test]
fn a_database_is_opened_once() {
    let engine = Engine::default();
    let mut manager = IndexedDBManager::new();
    assert_eq!(open(&mut manager, &engine), 3);
    *engine.version.borrow_mut() = Some(9);
    assert_eq!(open(&mut manager, &engine), 9);
    let close = IndexedDBThreadMsg::CloseDatabase(origin(), "db".to_owned());
    assert!(matches!(manager.handle_operation(close), ManagerAction::Closed));
    let reopen = IndexedDBThreadMsg::OpenDatabase(origin(), "db".to_owned(), None);
    assert!(matches!(
        manager.handle_operation(reopen),
        ManagerAction::CreateEngine { version: 0, .. }
    ));
}

#[test]
fn versions_only_rise() {
    let engine = Engine::default();
    let mut manager = IndexedDBManager::new();
    let upgrade = |version: u64| {
        IndexedDBThreadMsg::UpgradeVersion(origin(), "db".to_owned(), version)
    };
    assert!(matches!(
        manager.handle_operation(upgrade(1)),
        ManagerAction::Upgraded(Err(BackendError::DbNotFound))
    ));
    open(&mut manager, &engine);
    assert!(matches!(manager.handle_operation(upgrade(5)), ManagerAction::Upgraded(Ok(5))));
    assert!(matches!(manager.handle_operation(upgrade(4)), ManagerAction::Upgraded(Ok(5))));
    assert!(matches!(manager.handle_operation(upgrade(6)), ManagerAction::Upgraded(Ok(6))));
    assert!(matches!(
        manager.handle_operation(IndexedDBThreadMsg::UpgradeVersion(
            origin(),
            "db".to_owned(),
            0
        )),
        ManagerAction::Upgraded(Ok(6))
    ));
}

fn ask(manager: &mut IndexedDBManager<Engine>, request: StoreRequest) -> StoreReply {
    let message = IndexedDBThreadMsg::Store(origin(), "db".to_owned(), request);
    match manager.handle_operation(message) {
        ManagerAction::Store(reply) => reply,
        _ => panic!("no reply"),
    }
}

#[test]
fn requests_reach_the_engine() {
    let mut manager = IndexedDBManager::new();
    let name = |text: &str| text.to_owned();
    assert!(matches!(
        ask(&mut manager, StoreRequest::Version),
        StoreReply::Version(Err(BackendError::DbNotFound))
    ));
    assert!(matches!(
        ask(&mut manager, StoreRequest::DeleteObjectStore { store_name: name("x") }),
        StoreReply::Deleted(Err(BackendError::DbNotFound))
    ));
    open(&mut manager, &Engine::default());
    assert!(matches!(
        ask(&mut manager, StoreRequest::HasKeyGenerator { store_name: name("auto") }),
        StoreReply::HasKeyGenerator(Ok(true))
    ));
    assert!(matches!(
        ask(&mut manager, StoreRequest::KeyPath { store_name: name("s") }),
        StoreReply::KeyPath(Ok(Some(KeyPath::String(path)))) if path == "s.id"
    ));
    let create = |store: &str| StoreRequest::CreateObjectStore {
        store_name: name(store),
        key_path: None,
        auto_increment: false,
    };
    assert!(matches!(
        ask(&mut manager, create("new")),
        StoreReply::Created(Ok(CreateObjectResult::Created))
    ));
    assert!(matches!(
        ask(&mut manager, create("there")),
        StoreReply::Created(Ok(CreateObjectResult::AlreadyExists))
    ));
    assert!(matches!(
        ask(&mut manager, create("bad")),
        StoreReply::Created(Err(BackendError::DbErr(text))) if text == "no"
    ));
    let index = |unique: bool| StoreRequest::CreateIndex {
        store_name: name("s"),
        index_name: name("i"),
        key_path: KeyPath::Sequence(vec![name("a"), name("b")]),
        unique,
        multi_entry: false,
    };
    assert!(matches!(ask(&mut manager, index(true)), StoreReply::Created(Ok(_))));
    assert!(matches!(
        ask(&mut manager, index(false)),
        StoreReply::Created(Err(BackendError::DbErr(text))) if text == "i"
    ));
    assert!(matches!(
        ask(
            &mut manager,
            StoreRequest::DeleteIndex { store_name: name("s"), index_name: name("i") }
        ),
        StoreReply::Deleted(Ok(()))
    ));
    assert!(matches!(
        ask(&mut manager, StoreRequest::Version),
        StoreReply::Version(Err(BackendError::DbErr(text))) if text == "none"
    ));
}

#[test]
fn transactions_wait_until_nothing_comes_in() {
    let engine = Engine::default();
    let mut manager = IndexedDBManager::new();
    let register = |channel: u64| {
        IndexedDBThreadMsg::RegisterNewTxn(
            origin(),
            "db".to_owned(),
            transaction(IndexedDBTxnMode::Readwrite, &["s"], channel),
        )
    };
    assert!(matches!(
        manager.handle_operation(register(1)),
        ManagerAction::Registered(Err(BackendError::DbNotFound))
    ));
    open(&mut manager, &engine);
    assert!(matches!(
        manager.step(PortEvent::Message(register(1))),
        LoopAction::Perform(ManagerAction::Registered(Ok(1)))
    ));
    assert!(engine.run.borrow().is_empty());
    assert!(matches!(manager.step(PortEvent::Empty), LoopAction::Wait));
    assert_eq!(*engine.run.borrow(), [1]);
    assert!(matches!(manager.step(PortEvent::Failed), LoopAction::Wait));
    assert!(matches!(manager.step(PortEvent::Disconnected), LoopAction::Stop));
    assert!(matches!(
        manager.handle_operation(IndexedDBThreadMsg::Exit),
        ManagerAction::Exited
    ));
}

#[test]
fn a_deleted_database_is_gone() {
    let mut manager = IndexedDBManager::new();
    let delete = || IndexedDBThreadMsg::DeleteDatabase(origin(), "db".to_owned());
    assert!(matches!(manager.handle_operation(delete()), ManagerAction::Deleted(Ok(()))));
    let engine = Engine { fails: true, ..Engine::default() };
    open(&mut manager, &engine);
    match manager.handle_operation(delete()) {
        ManagerAction::DeleteEngine(engine) => assert!(matches!(
            deletion_reply(engine.delete_database()),
            Err(BackendError::DbErr(text)) if text == "stuck"
        )),
        _ => panic!("the engine was to be handed over"),
    }
    assert!(matches!(manager.handle_operation(delete()), ManagerAction::Deleted(Ok(()))));
}

fn sanitized(name: &str) -> SanitizedName {
    SanitizedName { name: name.to_owned() }
}

fn connected(engine: &mut SqliteEngine, name: &str) {
    engine.finish_create_store(sanitized(name), None).unwrap();
}

#[test]
fn stores_have_a_file_each() {
    let mut engine = SqliteEngine::new("base".to_owned(), "db".to_owned());
    let file = vec!["base".to_owned(), "db".to_owned(), "s.db".to_owned()];
    assert_eq!(engine.store_file(&sanitized("s")), file);
    assert!(matches!(
        engine.create_store(&sanitized("s"), true, true),
        CreatePlan::AlreadyExists
    ));
    match engine.create_store(&sanitized("s"), true, false) {
        CreatePlan::Run(steps) => {
            assert_eq!(steps.len(), 5);
            assert!(matches!(&steps[0], Step::Connect(path) if *path == file));
            assert!(matches!(&steps[1], Step::CreateTable(Table::Store)));
            assert!(matches!(&steps[2], Step::CreateTable(Table::Metadata)));
            assert!(matches!(&steps[3], Step::CreateTable(Table::Index)));
            assert!(matches!(
                &steps[4],
                Step::InsertMetadata { key, value: 1 } if key == "s"
            ));
        },
        CreatePlan::AlreadyExists => panic!("there is no such store"),
    }
    assert_eq!(
        engine.finish_create_store(sanitized("s"), Some("broken".to_owned())),
        Err("broken".to_owned())
    );
    assert!(!engine.is_connected(&"s".to_owned()));
    assert_eq!(
        engine.finish_create_store(sanitized("s"), None),
        Ok(CreateObjectStoreResult::Created)
    );
    assert!(engine.has_key_generator(&sanitized("s"), Some(1)));
    assert!(!engine.has_key_generator(&sanitized("s"), Some(0)));
    assert!(!engine.has_key_generator(&sanitized("s"), None));
    assert!(!engine.has_key_generator(&sanitized("other"), Some(1)));
    assert!(engine.delete_store(&sanitized("other")).is_empty());
    let steps = engine.delete_store(&sanitized("s"));
    assert_eq!(steps.len(), 4);
    assert!(matches!(&steps[3], Step::RemoveFile(path) if *path == file));
    assert!(steps[0].is_required() && steps[2].is_required() && !steps[3].is_required());
    let no = |text: &str| Err(text.to_owned());
    assert_eq!(plan_result(&steps, vec![Ok(()), Ok(()), Ok(()), no("file")]), Ok(()));
    assert_eq!(plan_result(&steps, vec![Ok(()), no("rows")]), no("rows"));
    assert_eq!(plan_result(&steps, vec![Ok(()), Ok(()), no("close")]), no("close"));
    assert!(!engine.is_connected(&"s".to_owned()));
    connected(&mut engine, "a");
    connected(&mut engine, "b");
    assert_eq!(engine.close_store(&sanitized("a")).len(), 1);
    let all = engine.delete_database();
    assert_eq!(all.len(), 1);
    assert_eq!(all[0].0, "b");
}

fn request(store: &str, operation: AsyncOperation) -> KvsRequest {
    KvsRequest { store_name: store.to_owned(), operation }
}

#[test]
fn a_transaction_answers_its_requests_in_order() {
    let mut engine = SqliteEngine::new("base".to_owned(), "db".to_owned());
    connected(&mut engine, "s");
    let put = |key: u8, should_overwrite: bool| AsyncOperation::PutItem {
        key: Ok(vec![key]),
        value: vec![9],
        should_overwrite,
    };
    let mut running = RunningTransaction::new(vec![
        request("s", put(1, false)),
        request("s", put(2, false)),
        request("s", AsyncOperation::GetItem { key: vec![1] }),
        request("s", AsyncOperation::RemoveItem { key: vec![1] }),
        request("s", AsyncOperation::Count),
        request("s", AsyncOperation::Clear),
    ]);
    let mut next = |event: Event| running.process(&engine, event);
    assert!(matches!(next(Event::Proceed), Action::Query(Query::Find(key)) if key == [1]));
    assert!(matches!(
        next(Event::Found(Ok(None))),
        Action::Query(Query::Insert { key, value }) if key == [1] && value == [9]
    ));
    assert!(matches!(
        next(Event::Done(Ok(()))),
        Action::Reply(Reply::Put(Ok(PutItemResult::Success)))
    ));
    assert!(matches!(next(Event::Proceed), Action::Query(Query::Find(key)) if key == [2]));
    assert!(matches!(
        next(Event::Found(Ok(Some(vec![7])))),
        Action::Reply(Reply::Put(Ok(PutItemResult::CannotOverwrite)))
    ));
    assert!(matches!(next(Event::Proceed), Action::Query(Query::Find(_))));
    assert!(matches!(
        next(Event::Found(Ok(Some(vec![7])))),
        Action::Reply(Reply::Get(Ok(Some(value)))) if value == [7]
    ));
    assert!(matches!(next(Event::Proceed), Action::Query(Query::DeleteKey(_))));
    assert!(matches!(
        next(Event::Done(Err("no".to_owned()))),
        Action::Reply(Reply::Removed(Err(text))) if text == "no"
    ));
    assert!(matches!(next(Event::Proceed), Action::Query(Query::FetchAll)));
    assert!(matches!(
        next(Event::Fetched(Ok(vec![true, false, true]))),
        Action::Reply(Reply::Counted(Ok(0)))
    ));
    assert!(matches!(next(Event::Proceed), Action::Query(Query::DeleteAll)));
    assert!(matches!(next(Event::Done(Ok(()))), Action::Reply(Reply::Cleared(Ok(())))));
    assert!(matches!(next(Event::Proceed), Action::End));
}

#[test]
fn a_filtered_count_is_not_known_in_advance() {
    assert_eq!(reported_count(&vec![true, true]), 0);
    assert_eq!(reported_count(&vec![]), 0);
}

#[test]
fn scheduled_transactions_run_in_order() {
    let mut queue = TransactionQueue::new();
    assert!(matches!(queue.next(false), SchedulerAction::Wait));
    for channel in [30, 10, 20] {
        queue.create_transaction(
            IndexedDBTxnMode::Readwrite,
            vec!["s".to_owned()],
            channel,
        );
    }
    assert_eq!(queue.last_number(), 3);
    assert!(matches!(queue.next(true), SchedulerAction::Stop));
    for (number, channel) in [(1, 30), (2, 10), (3, 20)] {
        match queue.next(false) {
            SchedulerAction::Process(id, txn) => {
                assert_eq!((id, txn.channel), (number, channel));
                assert_eq!(txn.stores, ["s"]);
            },
            _ => panic!("nothing to run"),
        }
        assert!(matches!(queue.next(false), SchedulerAction::Busy));
        assert!(matches!(queue.next(true), SchedulerAction::Busy));
        queue.ended();
    }
    assert!(matches!(queue.next(false), SchedulerAction::Wait));
}

#[test]
fn scheduled_databases_are_managed_too() {
    let mut manager: storage_thread::IndexedDBManager<Engine> =
        storage_thread::IndexedDBManager::new();
    let db = || "db".to_owned();
    let create = || {
        storage_thread::SyncOperation::CreateTransaction(
            origin(),
            db(),
            vec!["s".to_owned()],
            IndexedDBTxnMode::Readonly,
        )
    };
    assert!(matches!(manager.handle_sync_operation(create()), storage_thread::ManagerAction::Nothing));
    match manager.handle_sync_operation(storage_thread::SyncOperation::OpenDatabase(origin(), db(), Some(2))) {
        storage_thread::ManagerAction::CreateEngine { description, version, .. } => {
            assert_eq!(manager.finish_open(description, version, Engine::default()), 2);
        },
        _ => panic!("the engine was to be made"),
    }
    assert!(matches!(
        manager.handle_sync_operation(create()),
        storage_thread::ManagerAction::CreateTransaction { mode: IndexedDBTxnMode::Readonly, .. }
    ));
    assert!(matches!(
        manager.handle_sync_operation(storage_thread::SyncOperation::DeleteDatabase(origin(), db())),
        storage_thread::ManagerAction::DeleteEngine { .. }
    ));
    assert!(matches!(
        manager.handle_sync_operation(storage_thread::SyncOperation::DeleteDatabase(origin(), db())),
        storage_thread::ManagerAction::Deleted(Ok(()))
    ));
    assert!(matches!(
        manager.handle_sync_operation(storage_thread::SyncOperation::Exit),
        storage_thread::ManagerAction::Exited
    ));
}

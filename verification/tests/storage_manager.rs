use rusqlite::types::Value as SqlValue;
use rusqlite::{params_from_iter, Connection, OptionalExtension};
use servo_storage::folder_names::folder_name;
use servo_storage::indexeddb::description::ImmutableOrigin;
use servo_storage::sql::{Statement, Value};
use servo_storage::storage::cache::{CacheManager, CacheReply, CacheThreadMsg};
use servo_storage::storage::storage_manager::containers::{ContainerIdent, CreateContainerError};
use servo_storage::storage::storage_manager::registry::{
    Answer, Next, Product, Registry, RegistryError, Task,
};
use servo_storage::storage::storage_manager::storage_manager_thread::{
    Action, Event, StorageManager, StorageManagerThreadMsg,
};

fn path(folders: &[&str]) -> Vec<String> {
    folders.iter().map(|folder| folder.to_string()).collect()
}

fn names(folders: &[&str]) -> Event {
    Event::Listed(path(folders))
}

fn create(ident: ContainerIdent) -> Event {
    Event::Message(StorageManagerThreadMsg::CreateContainer(ident))
}

fn delete(ident: ContainerIdent) -> Event {
    Event::Message(StorageManagerThreadMsg::DeleteContainer(ident))
}

fn kept(name: &str) -> ContainerIdent {
    ContainerIdent::Persistent(name.to_owned())
}

fn private(name: &str) -> ContainerIdent {
    ContainerIdent::Private(name.to_owned())
}

fn started() -> StorageManager {
    let mut manager = StorageManager::new(Some("config".to_owned()));
    assert!(matches!(manager.step(names(&["default"])), Action::OpenRegistry(_)));
    assert!(matches!(manager.step(Event::Opened(Ok(()))), Action::Receive));
    manager
}

#[test]
fn containers_have_a_folder_each() {
    let manager = StorageManager::new(None);
    assert_eq!(manager.storage_dir(), path(&["storage"]));
    assert_eq!(
        manager.container_to_path(&ContainerIdent::Default),
        path(&["storage", "default"])
    );
    assert_eq!(manager.container_to_path(&kept("x")), path(&["storage", "c-x"]));
    let namespace = uuid::Uuid::from_bytes([
        0x37, 0x9e, 0x56, 0xb0, 0x1a, 0x76, 0x44, 0xc2, 0xa0, 0xdb, 0xe2, 0x18, 0xc5, 0xc8, 0xa3,
        0x5d,
    ]);
    let uuid = uuid::Uuid::new_v5(&namespace, b"x").hyphenated().to_string();
    assert_eq!(folder_name("x"), uuid);
    assert_eq!(manager.container_to_path(&private("x")), path(&["storage", &uuid]));
    assert!(matches!(ContainerIdent::from_folder("default"), Some(ContainerIdent::Default)));
    assert!(matches!(
        ContainerIdent::from_folder("c-x"),
        Some(ContainerIdent::Persistent(name)) if name == "x"
    ));
    assert!(ContainerIdent::from_folder(&uuid).is_none());
}

fn opened(manager: &mut StorageManager) -> Action {
    manager.step(Event::Opened(Ok(())))
}

#[test]
fn every_folder_is_loaded_or_removed() {
    let mut manager = StorageManager::new(Some("config".to_owned()));
    let action = manager.step(names(&["p1", "c-a", "c-broken", "p2", "default"]));
    let registry = path(&["config", "storage", "p1", "registry.sqlite"]);
    assert!(matches!(action, Action::OpenRegistry(file) if file == registry));
    let first = path(&["config", "storage", "p1"]);
    assert!(matches!(opened(&mut manager), Action::RemoveFolder(folder) if folder == first));
    let registry = path(&["config", "storage", "c-a", "registry.sqlite"]);
    assert!(matches!(
        manager.step(Event::Removed(Err("busy".to_owned()))),
        Action::OpenRegistry(file) if file == registry
    ));
    assert!(matches!(opened(&mut manager), Action::OpenRegistry(_)));
    assert!(matches!(
        manager.step(Event::Opened(Err("no".to_owned()))),
        Action::OpenRegistry(_)
    ));
    let second = path(&["config", "storage", "p2"]);
    assert!(matches!(opened(&mut manager), Action::RemoveFolder(folder) if folder == second));
    assert!(matches!(manager.step(Event::Removed(Ok(()))), Action::OpenRegistry(_)));
    assert!(matches!(opened(&mut manager), Action::Receive));
    assert!(manager.has_registry(&ContainerIdent::Default));
    assert!(manager.has_registry(&kept("a")));
    assert!(!manager.has_registry(&kept("broken")));
}

#[test]
fn the_default_container_is_made_where_it_is_missing() {
    let mut manager = StorageManager::new(Some("config".to_owned()));
    let default = path(&["config", "storage", "default"]);
    assert!(matches!(
        manager.step(names(&[])),
        Action::CheckExists(folder) if folder == default
    ));
    assert!(matches!(
        manager.step(Event::Exists(false)),
        Action::MakeFolder(folder) if folder == default
    ));
    assert!(matches!(manager.step(Event::Made(Ok(()))), Action::OpenRegistry(_)));
    assert!(matches!(opened(&mut manager), Action::Receive));
    assert!(manager.has_registry(&ContainerIdent::Default));
}

#[test]
fn a_container_that_is_there_is_refused() {
    let mut manager = started();
    assert!(matches!(manager.step(create(kept("x"))), Action::CheckExists(_)));
    assert!(matches!(
        manager.step(Event::Exists(true)),
        Action::ReplyCreated(Err(CreateContainerError::ContainerExists))
    ));
    assert!(!manager.has_registry(&kept("x")));
}

#[test]
fn creation_can_fail() {
    let mut manager = started();
    manager.step(create(kept("x")));
    manager.step(Event::Exists(false));
    assert!(matches!(
        manager.step(Event::Made(Err("full".to_owned()))),
        Action::ReplyCreated(Err(CreateContainerError::Other(text)))
            if text == "Failed to create container directory: full"
    ));
    manager.step(create(kept("x")));
    manager.step(Event::Exists(false));
    manager.step(Event::Made(Ok(())));
    assert!(matches!(
        manager.step(Event::Opened(Err("bad".to_owned()))),
        Action::ReplyCreated(Err(CreateContainerError::Other(text)))
            if text == "Failed to create registry: bad"
    ));
    assert!(!manager.has_registry(&kept("x")));
}

#[test]
fn containers_come_and_go() {
    let mut manager = started();
    for ident in [kept("x"), private("p")] {
        manager.step(create(ident));
        manager.step(Event::Exists(false));
        manager.step(Event::Made(Ok(())));
        assert!(matches!(manager.step(Event::Opened(Ok(()))), Action::ReplyCreated(Ok(()))));
    }
    assert!(manager.has_registry(&kept("x")));
    assert!(manager.has_registry(&private("p")));
    manager.step(delete(kept("x")));
    assert!(matches!(manager.step(Event::Removed(Ok(()))), Action::ReplyDeleted(Ok(()))));
    assert!(!manager.has_registry(&kept("x")));
    manager.step(delete(kept("y")));
    assert!(matches!(
        manager.step(Event::Removed(Err("gone".to_owned()))),
        Action::ReplyDeleted(Err(text)) if text == "Failed to delete container directory: gone"
    ));
    manager.step(delete(ContainerIdent::Default));
    assert!(matches!(manager.step(Event::Removed(Ok(()))), Action::CheckExists(_)));
    manager.step(Event::Exists(false));
    manager.step(Event::Made(Ok(())));
    assert!(matches!(manager.step(Event::Opened(Ok(()))), Action::ReplyDeleted(Ok(()))));
    assert!(manager.has_registry(&ContainerIdent::Default));
    let exit = Event::Message(StorageManagerThreadMsg::Exit);
    let folder = manager.container_to_path(&private("p"));
    assert!(matches!(manager.step(exit), Action::RemoveFolder(path) if path == folder));
    assert!(!manager.is_stopped());
    assert!(matches!(
        manager.step(Event::Removed(Err("busy".to_owned()))),
        Action::ReplyExit
    ));
    assert!(manager.is_stopped());
    assert!(!manager.has_registry(&private("p")));
    assert!(manager.has_registry(&ContainerIdent::Default));
}

#[test]
fn shutdown_cleans_up_first() {
    let mut manager = started();
    for name in ["p", "q"] {
        manager.step(create(private(name)));
        manager.step(Event::Exists(false));
        manager.step(Event::Made(Ok(())));
        assert!(matches!(opened(&mut manager), Action::ReplyCreated(Ok(()))));
    }
    let mut removed = Vec::new();
    let mut action = manager.step(Event::Disconnected);
    while let Action::RemoveFolder(folder) = action {
        removed.push(folder);
        action = manager.step(Event::Removed(Ok(())));
    }
    assert!(matches!(action, Action::Stop));
    assert_eq!(removed.len(), 2);
    for name in ["p", "q"] {
        assert!(removed.contains(&manager.container_to_path(&private(name))));
    }
}

#[test]
fn a_container_can_be_opened_later() {
    let manager = started();
    assert!(manager.open_container(&kept("x"), false).is_none());
    assert_eq!(
        manager.open_container(&kept("x"), true),
        Some(path(&["config", "storage", "c-x", "registry.sqlite"]))
    );
    let mut manager = started();
    assert!(matches!(manager.step(Event::Disconnected), Action::Stop));
}

fn bound(statement: &Statement) -> Vec<SqlValue> {
    statement
        .params
        .iter()
        .map(|value| match value {
            Value::Null => SqlValue::Null,
            Value::Integer(n) => SqlValue::Integer(*n),
            Value::Text(text) => SqlValue::Text(text.clone()),
        })
        .collect()
}

fn answer(connection: &Connection, statement: &Statement) -> Answer {
    let params = params_from_iter(bound(statement));
    if statement.sql.starts_with("SELECT") {
        match connection.query_row(statement.sql, params, |row| row.get(0)).optional() {
            Ok(id) => Answer::Found(id),
            Err(error) => Answer::Failed(error.to_string()),
        }
    } else {
        match connection.execute(statement.sql, params) {
            Ok(_) => Answer::Added(connection.last_insert_rowid()),
            Err(error) => Answer::Failed(error.to_string()),
        }
    }
}

fn perform(connection: &Connection, mut task: Task) -> Result<Product, String> {
    let mut statement = task.statement();
    loop {
        match task.step(answer(connection, &statement)) {
            Next::Run(next) => statement = next,
            Next::Finished(result) => return result,
        }
    }
}

fn registry() -> (Connection, Registry) {
    let connection = Connection::open_in_memory().unwrap();
    let there = connection.prepare(Registry::probe().sql).unwrap().exists([]).unwrap();
    assert!(!there);
    let (registry, batch) = Registry::new(there);
    connection.execute_batch(&batch.unwrap()).unwrap();
    let there = connection.prepare(Registry::probe().sql).unwrap().exists([]).unwrap();
    assert!(there);
    assert!(Registry::new(there).1.is_none());
    (connection, registry)
}

fn count(connection: &Connection, sql: &str) -> i64 {
    connection.query_row(sql, [], |row| row.get(0)).unwrap()
}

#[test]
fn buckets_are_filled() {
    let (connection, registry) = registry();
    let task = registry.create_shelf("https://servo.org");
    match perform(&connection, task).unwrap() {
        Product::Row(id) => {
            assert_eq!(id, 1);
            assert_eq!(count(&connection, "SELECT id FROM shelves"), id);
            let sql = "SELECT COUNT(*) FROM buckets WHERE shelf_id = 1 AND name = 'default' \
                       AND persisted = 0 AND quota IS NULL AND expires IS NULL";
            assert_eq!(count(&connection, sql), 1);
            assert_eq!(count(&connection, "SELECT COUNT(*) FROM buckets"), 1);
            let sql = "SELECT COUNT(*) FROM bottles WHERE bucket_id = 1 \
                       AND identifier IN ('ls', 'opfs', 'cache')";
            assert_eq!(count(&connection, sql), 3);
        },
        Product::Directory(_) => panic!("a shelf is a row"),
    }
    let task = registry.create_bucket(1, "b", true, Some(10), None);
    match perform(&connection, task).unwrap() {
        Product::Row(id) => {
            assert_eq!(id, 2);
            let sql = "SELECT COUNT(*) FROM bottles WHERE bucket_id = 2";
            assert_eq!(count(&connection, sql), 3);
            let sql = "SELECT COUNT(*) FROM buckets WHERE persisted = 1 AND quota = 10 \
                       AND expires IS NULL";
            assert_eq!(count(&connection, sql), 1);
        },
        Product::Directory(_) => panic!("a bucket is a row"),
    }
    let again = registry.create_bucket(1, "b", false, None, None);
    assert!(perform(&connection, again).is_err());
}

fn looked_up(
    connection: &Connection,
    statement: &Statement,
) -> Result<String, RegistryError> {
    let row = connection
        .query_row(statement.sql, params_from_iter(bound(statement)), |row| row.get(0))
        .optional();
    Registry::found_dir(row.map_err(|error| error.to_string()))
}

fn rows(connection: &Connection) -> Vec<i64> {
    ["shelves", "buckets", "bottles", "databases", "directories"]
        .iter()
        .map(|table| count(connection, &format!("SELECT COUNT(*) FROM {table}")))
        .collect()
}

#[test]
fn databases_get_a_directory() {
    let (connection, registry) = registry();
    let origin = "https://servo.org";
    for (bucket, expected) in [
        (None, "storage/https://servo.org/default/db"),
        (Some("b"), "storage/https://servo.org/b/db"),
    ] {
        match perform(&connection, registry.create_indexeddb_dir(origin, bucket, "db")).unwrap() {
            Product::Directory(path) => assert_eq!(path, expected),
            Product::Row(_) => panic!("a directory was asked for"),
        }
        let sql = "SELECT path FROM directories ORDER BY id DESC LIMIT 1";
        let noted: String = connection.query_row(sql, [], |row| row.get(0)).unwrap();
        assert_eq!(noted, expected);
        let statement = registry.get_indexeddb_dir(origin, bucket, "db");
        assert!(matches!(looked_up(&connection, &statement), Err(RegistryError::Failed(_))));
    }
    assert_eq!(rows(&connection), [1, 2, 8, 2, 2]);
    let statement = registry.get_localstorage_dir(origin, None);
    assert!(matches!(looked_up(&connection, &statement), Err(RegistryError::Failed(_))));
}

#[test]
fn a_database_is_registered_once() {
    let (connection, registry) = registry();
    let task = registry.create_indexeddb_dir("https://servo.org", None, "db");
    assert!(perform(&connection, task).is_ok());
    let before = rows(&connection);
    for bucket in [None, Some("default")] {
        let task = registry.create_indexeddb_dir("https://servo.org", bucket, "db");
        assert!(perform(&connection, task).is_err());
        assert_eq!(rows(&connection), before);
    }
}

#[test]
fn directories_are_looked_up() {
    let (_, registry) = registry();
    let statement = registry.get_localstorage_dir("o", None);
    assert_eq!(statement.params.len(), 2);
    assert!(matches!(&statement.params[1], Value::Text(bucket) if bucket == "default"));
    let statement = registry.get_indexeddb_dir("o", Some("b"), "d");
    assert!(matches!(&statement.params[1], Value::Text(bucket) if bucket == "b"));
    assert!(matches!(&statement.params[2], Value::Text(db) if db == "d"));
    assert!(matches!(Registry::found_dir(Ok(Some("p".to_owned()))), Ok(path) if path == "p"));
    assert!(matches!(
        Registry::found_dir(Ok(None)),
        Err(RegistryError::QueryReturnedNoRows)
    ));
    assert!(matches!(
        Registry::found_dir(Err("e".to_owned())),
        Err(RegistryError::Failed(text)) if text == "e"
    ));
}

#[test]
fn cache_requests_are_dropped() {
    let mut manager = CacheManager::new(Some("config".to_owned()));
    let origin = ImmutableOrigin::Opaque(1);
    let message = CacheThreadMsg::HasStore(origin.clone(), "c".to_owned());
    assert_eq!(manager.handle(message), CacheReply::Dropped);
    assert_eq!(manager.handle(CacheThreadMsg::StoreKeys(origin)), CacheReply::Dropped);
    assert_eq!(manager.config_dir(), Some("config"));
}

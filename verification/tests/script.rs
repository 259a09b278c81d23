use servo_storage::indexeddb::description::ImmutableOrigin;
use servo_storage::indexeddb::types::{IndexedDBTxnMode, KeyPath};
use servo_storage::script::cache::{
    Cache, CacheOperation, CacheStorage, CacheStorageOperation, Promised,
};
use servo_storage::script::editor::{Editor, EditorMutation, EmbedderClipboardProvider};
use servo_storage::script::idbtransaction::{
    IDBTransaction, IDBTransactionMode, IndexedDBTransactionState, Request, ScriptError,
    StoreLookup,
};
use servo_storage::script::textinput::{
    InputType, IsComposing, KeyReaction, Lines, SelectionDirection, TextInput, TextPoint,
    UTF8Bytes,
};

fn editor() -> Editor {
    Editor::new(EmbedderClipboardProvider { webview: 1 })
}

fn at(line: usize, index: usize) -> TextPoint {
    TextPoint { line, index: UTF8Bytes(index) }
}

#[test]
fn an_editor_starts_empty() {
    let editor = editor();
    assert_eq!(editor.text_content(), "");
    let state = editor.selection_state();
    assert_eq!((state.start, state.end), (at(0, 0), at(0, 0)));
    assert_eq!(state.direction, SelectionDirection::Undirected);
    let range = editor.sorted_selection_offsets_range();
    assert_eq!((range.start, range.end), (UTF8Bytes(0), UTF8Bytes(0)));
}

#[test]
fn text_is_kept_but_for_line_ends() {
    let mut editor = editor();
    for (given, kept) in [
        ("one", "one"),
        ("one\ntwo\n", "one\ntwo\n"),
        ("one\r\ntwo\rthree", "one\ntwo\nthree"),
        ("\r\r\n\n", "\n\n\n"),
        ("\u{e9}\n", "\u{e9}\n"),
    ] {
        editor.set_text_content(given);
        assert_eq!(editor.text_content(), kept);
    }
}

#[test]
fn offsets_count_bytes() {
    let mut input = TextInput::new(
        Lines::Multiple,
        "\u{e9}a\nbcd",
        None,
        None,
        SelectionDirection::Undirected,
    );
    input.edit_point = at(1, 2);
    input.selection_origin = Some(at(0, 2));
    let mut editor = editor();
    editor.set_text_content("\u{e9}a\nbcd");
    let (handled, mutation) = editor.handle_keydown(input, KeyReaction::RedrawSelection);
    assert!(handled);
    assert!(matches!(mutation, Some(EditorMutation::RedrawSelection)));
    assert_eq!(editor.text_content(), "\u{e9}a\nbcd");
    let range = editor.sorted_selection_offsets_range();
    assert_eq!((range.start, range.end), (UTF8Bytes(2), UTF8Bytes(6)));
    assert_eq!(editor.selection_state().start, at(0, 2));
    editor.set_text_content("x");
    let range = editor.sorted_selection_offsets_range();
    assert_eq!((range.start, range.end), (UTF8Bytes(1), UTF8Bytes(1)));
    let mut back =
        TextInput::new(Lines::Single, "abc\nd", Some(9), Some(1), SelectionDirection::Backward);
    back.selection_origin = Some(at(0, 3));
    assert_eq!(back.get_content(), "abc\nd");
    let state = back.selection_state();
    assert_eq!((state.start, state.end), (at(0, 0), at(0, 3)));
}

#[test]
fn keys_may_change_the_text() {
    let mut editor = editor();
    let text = |text: &str| {
        TextInput::new(Lines::Multiple, text, None, None, SelectionDirection::Undirected)
    };
    let (handled, mutation) = editor.handle_keydown(
        text("a"),
        KeyReaction::DispatchInput(
            Some("a".to_owned()),
            IsComposing::NotComposing,
            InputType::InsertText,
        ),
    );
    assert!(handled);
    match mutation {
        Some(EditorMutation::Input { text, is_composing, input_type }) => {
            assert_eq!(text.as_deref(), Some("a"));
            assert_eq!(is_composing, IsComposing::NotComposing);
            assert_eq!(input_type, InputType::InsertText);
        },
        _ => panic!("the text changed"),
    }
    assert_eq!(editor.text_content(), "a");
    for reaction in [KeyReaction::Nothing, KeyReaction::TriggerDefaultAction] {
        let (handled, mutation) = editor.handle_keydown(text("a"), reaction);
        assert!(!handled && mutation.is_none());
    }
}

fn transaction() -> IDBTransaction {
    let (transaction, request) = IDBTransaction::new(
        ImmutableOrigin::Tuple("https://servo.org".to_owned()),
        "db".to_owned(),
        IDBTransactionMode::Readwrite,
        vec!["s".to_owned(), "t".to_owned()],
    );
    match request {
        Request::RegisterNewTxn { db_name, scope, mode, .. } => {
            assert_eq!(db_name, "db");
            assert_eq!(scope, ["s", "t"]);
            assert_eq!(mode, IndexedDBTxnMode::Readwrite);
        },
        _ => panic!("a transaction is registered"),
    }
    transaction
}

#[test]
fn the_same_store_is_the_same_object() {
    let mut transaction = transaction();
    let none = vec![];
    assert_eq!(
        transaction.object_store("x", &none),
        StoreLookup::Refused(ScriptError::NotFound)
    );
    assert_eq!(transaction.object_store("s", &none), StoreLookup::Make);
    assert_eq!(transaction.add_store_handle("s".to_owned(), 5), 5);
    assert_eq!(transaction.add_store_handle("s".to_owned(), 6), 5);
    assert_eq!(transaction.object_store("s", &none), StoreLookup::Handle(5));
    assert_eq!(transaction.object_store("t", &none), StoreLookup::Make);
    assert_eq!(
        transaction.object_store("s", &vec![IndexedDBTransactionState::Aborted]),
        StoreLookup::Refused(ScriptError::InvalidState)
    );
}

#[test]
fn states_come_in() {
    let (active, started) =
        (IndexedDBTransactionState::Active, IndexedDBTransactionState::Started);
    let (aborted, finished) =
        (IndexedDBTransactionState::Aborted, IndexedDBTransactionState::Finished);
    let mut transaction = transaction();
    assert_eq!(transaction.state(&vec![]), active);
    assert!(transaction.is_active(&vec![]));
    assert!(!transaction.has_started(&vec![]));
    assert_eq!(transaction.state(&vec![started]), started);
    assert!(transaction.has_started(&vec![]) && !transaction.is_finished(&vec![]));
    assert!(transaction.is_finished(&vec![started, aborted]));
    assert!(transaction.is_active(&vec![]));
    transaction.set_active_flag(false);
    assert!(!transaction.is_active(&vec![finished]));
    assert_eq!(transaction.get_mode(), IDBTransactionMode::Readwrite);
    assert_eq!(transaction.object_store_names(), ["s", "t"]);
}

#[test]
fn commits_and_aborts() {
    let mut transaction = transaction();
    transaction.add_request(1);
    transaction.add_request(2);
    assert!(transaction.try_commit(&vec![2]).is_none());
    assert!(matches!(transaction.try_commit(&vec![2, 1]), Some(Request::Commit)));
    let event = IDBTransaction::committed(true).ok().unwrap();
    assert_eq!(event.name, "complete");
    assert!(!event.bubbles && !event.cancelable);
    assert_eq!(IDBTransaction::committed(false).err(), Some(ScriptError::QuotaExceeded));
    assert_eq!(transaction.abort(&vec![]), Ok(()));
    assert_eq!(transaction.abort(&vec![]), Err(ScriptError::InvalidState));
}

#[test]
fn parameters_take_two_replies() {
    let transaction = transaction();
    assert!(matches!(
        transaction.ask_key_generator("s"),
        Request::HasKeyGenerator { store_name, .. } if store_name == "s"
    ));
    assert!(transaction.ask_key_path("s", None).is_none());
    assert!(matches!(
        transaction.ask_key_path("s", Some(true)),
        Some(Request::KeyPath { store_name, .. }) if store_name == "s"
    ));
    let path = KeyPath::Sequence(vec!["a".to_owned()]);
    let parameters =
        IDBTransaction::object_store_parameters(Some(true), Some(Some(path))).unwrap();
    assert!(parameters.auto_increment);
    assert!(matches!(
        parameters.key_path,
        Some(KeyPath::Sequence(keys)) if keys == ["a"]
    ));
    assert!(IDBTransaction::object_store_parameters(Some(true), None).is_none());
    assert!(IDBTransaction::object_store_parameters(None, Some(None)).is_none());
    let sent = transaction.upgrade_db_version(4);
    assert!(matches!(&sent[0], Request::Wait));
    assert!(matches!(&sent[1], Request::UpgradeVersion { version: 4, .. }));
}

#[test]
fn caches_promise() {
    let cache = Cache::new("c".to_owned());
    assert_eq!(cache.name(), "c");
    assert_eq!(cache.request(CacheOperation::Match), Promised::Pending);
    let storage = CacheStorage::new();
    assert_eq!(storage.request(CacheStorageOperation::Match), Promised::Nothing);
    assert_eq!(storage.request(CacheStorageOperation::Open), Promised::Pending);
}

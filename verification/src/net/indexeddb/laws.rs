//! What holds of the manager and of the queues as a whole.
use crate::indexeddb::description::{path_of, DescriptionModel};
use crate::indexeddb::engine::{
    answered, not_found, EngineCall, RequestModel, TransactionModel,
};
use crate::indexeddb::types::{BackendErrorModel, IndexedDBTxnMode};
use crate::net::indexeddb::environment::{
    attempted_next_to, is_earliest, none_started, started, startable, upgraded, EnvironmentModel,
};
use crate::net::indexeddb::idb_thread::{handled, ActionModel, Databases, MessageModel};
use vstd::prelude::*;

verus! {

/// A transaction that was started shares a store with a running one only where both do nothing
/// but read.
pub proof fn law_started_without_conflict(
    before: EnvironmentModel,
    after: EnvironmentModel,
    locked: Map<Seq<char>, IndexedDBTxnMode>,
    i: int,
    store: Seq<char>,
)
    requires
        started(before, after, locked, i),
        before.transactions[i].stores.contains(store),
        locked.contains_key(store),
    ensures
        before.transactions[i].mode == IndexedDBTxnMode::Readonly,
        locked[store] == IndexedDBTxnMode::Readonly,
{
    let txn = before.transactions[i];
    let k = choose|k: int| 0 <= k < txn.stores.len() && txn.stores[k] == store;
    assert(txn.stores[k] == store);
}

/// A transaction that only reads is never held up by others that only read.
pub proof fn law_readers_do_not_block_readers(
    txn: TransactionModel,
    locked: Map<Seq<char>, IndexedDBTxnMode>,
)
    requires
        txn.mode == IndexedDBTxnMode::Readonly,
        forall|s: Seq<char>| #[trigger]
            locked.contains_key(s) ==> locked[s] == IndexedDBTxnMode::Readonly,
    ensures
        startable(txn, locked),
{
}

/// Where nothing is held, the transaction that has waited longest is the one that starts.
pub proof fn law_idle_engine_starts_the_oldest(
    before: EnvironmentModel,
    after: EnvironmentModel,
)
    requires
        before.transactions.len() > 0,
        attempted_next_to(before, after, Map::empty()),
    ensures
        started(before, after, Map::empty(), 0),
{
    let nothing = Map::<Seq<char>, IndexedDBTxnMode>::empty();
    assert(startable(before.transactions[0], nothing));
    assert(!none_started(before, after, nothing));
    let i = choose|i: int| started(before, after, nothing, i);
    assert(started(before, after, nothing, i));
    assert(is_earliest(before.transactions, nothing, i));
    if i > 0 {
        assert(!startable(before.transactions[0], nothing));
    }
}

/// An attempt to start a transaction loses none: the ones that wait afterwards, together with
/// the one that was started, are the ones that waited before, and they wait in the same order.
pub proof fn law_no_transaction_is_lost(
    before: EnvironmentModel,
    after: EnvironmentModel,
    locked: Map<Seq<char>, IndexedDBTxnMode>,
    i: int,
)
    requires
        started(before, after, locked, i),
    ensures
        after.transactions.len() == before.transactions.len() - 1,
        before.transactions =~= after.transactions.take(i) + seq![before.transactions[i]]
            + after.transactions.skip(i),
{
}

/// The database that a message is about.
pub open spec fn subject(message: MessageModel) -> Option<DescriptionModel> {
    match message {
        MessageModel::CloseDatabase(d) => Some(d),
        MessageModel::OpenDatabase(d, _) => Some(d),
        MessageModel::DeleteDatabase(d) => Some(d),
        MessageModel::Store(d, _) => Some(d),
        MessageModel::UpgradeVersion(d, _) => Some(d),
        MessageModel::RegisterNewTxn(d, _) => Some(d),
        MessageModel::Exit => None,
    }
}

/// A message leaves every database alone but the one that it is about.
pub proof fn law_other_databases_are_untouched(
    before: Databases,
    message: MessageModel,
    after: Databases,
    action: ActionModel,
    other: DescriptionModel,
)
    requires
        handled(before, message, after, action),
        subject(message) != Some(other),
    ensures
        after.contains_key(other) == before.contains_key(other),
        before.contains_key(other) ==> after[other] == before[other],
{
}

/// No message opens a database by itself: an engine has to be made first.
pub proof fn law_messages_open_nothing(
    before: Databases,
    message: MessageModel,
    after: Databases,
    action: ActionModel,
)
    requires
        handled(before, message, after, action),
    ensures
        after.dom().subset_of(before.dom()),
{
    assert forall|d: DescriptionModel| after.dom().contains(d) implies before.dom().contains(
        d,
    ) by {
        if subject(message) != Some(d) {
            law_other_databases_are_untouched(before, message, after, action, d);
        }
    }
}

/// On a database that was closed or deleted, every further request is refused and changes
/// nothing.
pub proof fn law_closed_database_refuses(
    before: Databases,
    closing: MessageModel,
    between: Databases,
    closed: ActionModel,
    message: MessageModel,
    after: Databases,
    action: ActionModel,
    d: DescriptionModel,
)
    requires
        closing == MessageModel::CloseDatabase(d) || closing == MessageModel::DeleteDatabase(d),
        handled(before, closing, between, closed),
        handled(between, message, after, action),
    ensures
        !between.contains_key(d),
        message matches MessageModel::Store(e, request) ==> e == d ==> after == between && action
            == ActionModel::Store(not_found(request)),
        message matches MessageModel::UpgradeVersion(e, _) ==> e == d ==> after == between
            && action == ActionModel::Upgraded(Err(BackendErrorModel::DbNotFound)),
        message matches MessageModel::RegisterNewTxn(e, _) ==> e == d ==> after == between
            && action == ActionModel::Registered(Err(BackendErrorModel::DbNotFound)),
{
}

/// A version is only ever set to one higher than the version told just before.
pub proof fn law_version_is_never_lowered(
    before: EnvironmentModel,
    version: u64,
    after: EnvironmentModel,
    reply: Result<u64, BackendErrorModel>,
    k: int,
)
    requires
        upgraded(before, version, after, reply),
        before.calls.len() <= k < after.calls.len(),
        after.calls[k] is SetVersion,
    ensures
        k == before.calls.len() + 1,
        after.calls[k] matches EngineCall::SetVersion { version: v, .. } && v == version,
        after.calls[k - 1] matches EngineCall::Version { result } ==> (result matches Ok(current)
            ==> current < version),
{
    let n = before.calls.len() as int;
    assert(after.calls[n] is Version);
}

/// A database that is closed is no longer open, and that is all.
pub proof fn law_close_forgets_the_database(
    before: Databases,
    d: DescriptionModel,
    after: Databases,
    action: ActionModel,
)
    requires
        handled(before, MessageModel::CloseDatabase(d), after, action),
    ensures
        action == ActionModel::Closed,
        after == before.remove(d),
{
}

/// To open a database that is open asks its engine for the version, which is the reply; where the
/// engine cannot tell, the version that was wanted is, and zero where none was. One that is not open
/// is to be made in its folder first.
pub proof fn law_open_tells_the_version(
    before: Databases,
    d: DescriptionModel,
    wanted: Option<u64>,
    after: Databases,
    action: ActionModel,
)
    requires
        handled(before, MessageModel::OpenDatabase(d, wanted), after, action),
    ensures
        ({
            let fallback = if wanted is Some {
                wanted->0
            } else {
                0u64
            };
            if before.contains_key(d) {
                &&& after.dom() == before.dom()
                &&& after[d].transactions == before[d].transactions
                &&& after[d].calls.drop_last() == before[d].calls
                &&& after[d].calls.last() matches EngineCall::Version { result }
                &&& result matches Ok(version) ==> action == ActionModel::Opened(version)
                &&& result is Err ==> action == ActionModel::Opened(fallback)
            } else {
                &&& after == before
                &&& action == ActionModel::CreateEngine {
                    description: d,
                    folder: path_of(d),
                    version: fallback,
                }
            }
        }),
{
    if before.contains_key(d) {
        assert(after[d].calls.drop_last() =~= before[d].calls);
        assert(after.dom() =~= before.dom());
    }
}

/// To delete a database that is open hands over its own engine; one that is not open is deleted
/// already.
pub proof fn law_delete_hands_over_the_engine(
    before: Databases,
    d: DescriptionModel,
    after: Databases,
    action: ActionModel,
)
    requires
        handled(before, MessageModel::DeleteDatabase(d), after, action),
    ensures
        after == before.remove(d),
        before.contains_key(d) ==> action == (ActionModel::DeleteEngine {
            calls: before[d].calls,
        }),
        !before.contains_key(d) ==> action == ActionModel::Deleted(Ok(())),
{
}

/// A request on a database that is open is one call of its engine, and the reply is what the engine
/// said; the queue of the database stays as it is.
pub proof fn law_request_is_one_call(
    before: Databases,
    d: DescriptionModel,
    request: RequestModel,
    after: Databases,
    action: ActionModel,
)
    requires
        before.contains_key(d),
        handled(before, MessageModel::Store(d, request), after, action),
    ensures
        after.contains_key(d),
        after[d].transactions == before[d].transactions,
        after[d].calls.len() == before[d].calls.len() + 1,
        after[d].calls.drop_last() == before[d].calls,
        action matches ActionModel::Store(reply) && answered(
            request,
            after[d].calls.last(),
            reply,
        ),
{
    assert(after[d].calls.drop_last() =~= before[d].calls);
}

/// A transaction that is registered waits behind all others of its database, as it was given, and its
/// number is the reply. Nothing is run for it yet.
pub proof fn law_registered_transaction_waits_last(
    before: Databases,
    d: DescriptionModel,
    txn: TransactionModel,
    after: Databases,
    action: ActionModel,
)
    requires
        before.contains_key(d),
        handled(before, MessageModel::RegisterNewTxn(d, txn), after, action),
    ensures
        action == ActionModel::Registered(Ok(txn.channel)),
        after.contains_key(d),
        after[d].calls == before[d].calls,
        after[d].transactions.len() == before[d].transactions.len() + 1,
        after[d].transactions.last() == txn,
        after[d].transactions.drop_last() == before[d].transactions,
{
    assert(after[d].transactions.drop_last() =~= before[d].transactions);
}

/// The version of a database is raised where the one that is asked for is higher than the one that
/// the engine tells, or than zero where it cannot tell, and left alone otherwise. The reply is what
/// the engine tells afterwards.
pub proof fn law_version_is_raised(
    before: EnvironmentModel,
    version: u64,
    after: EnvironmentModel,
    reply: Result<u64, BackendErrorModel>,
    told: Result<u64, Seq<char>>,
)
    requires
        upgraded(before, version, after, reply),
        after.calls[before.calls.len() as int] == (EngineCall::Version { result: told }),
    ensures
        ({
            let n = before.calls.len() as int;
            let current = if told is Ok {
                told->Ok_0
            } else {
                0u64
            };
            &&& after.transactions == before.transactions
            &&& after.calls.take(n) == before.calls
            &&& version > current ==> after.calls.len() == n + 3 && (
            after.calls[n + 1] matches EngineCall::SetVersion { version: v, .. } && v == version)
            &&& version <= current ==> after.calls.len() == n + 2
            &&& after.calls.last() matches EngineCall::Version { result } && (result matches Ok(v)
                ==> reply == Ok::<u64, BackendErrorModel>(v)) && (result matches Err(text)
                ==> reply == Err::<u64, BackendErrorModel>(BackendErrorModel::DbErr(text)))
        }),
{
    assert(after.calls.take(before.calls.len() as int) =~= before.calls);
}

/// The version of a database is only changed by a request to, on a database that is open.
pub proof fn law_upgrade_concerns_its_database(
    before: Databases,
    d: DescriptionModel,
    version: u64,
    after: Databases,
    action: ActionModel,
)
    requires
        handled(before, MessageModel::UpgradeVersion(d, version), after, action),
    ensures
        before.contains_key(d) ==> after.contains_key(d) && (action matches ActionModel::Upgraded(
            reply,
        ) && upgraded(before[d], version, after[d], reply)),
        !before.contains_key(d) ==> after == before && action == ActionModel::Upgraded(
            Err(BackendErrorModel::DbNotFound),
        ),
{
}

/// The request to exit is answered, and changes nothing.
pub proof fn law_exit_is_answered(before: Databases, after: Databases, action: ActionModel)
    requires
        handled(before, MessageModel::Exit, after, action),
    ensures
        after == before,
        action == ActionModel::Exited,
{
}

/// A transaction can be started exactly where it shares no store with a running one, or both do
/// nothing but read.
pub proof fn law_startable_unless_it_conflicts(
    txn: TransactionModel,
    locked: Map<Seq<char>, IndexedDBTxnMode>,
)
    ensures
        startable(txn, locked) <==> forall|store: Seq<char>|
            txn.stores.contains(store) && #[trigger] locked.contains_key(store) ==> txn.mode
                == IndexedDBTxnMode::Readonly && locked[store] == IndexedDBTxnMode::Readonly,
{
    if startable(txn, locked) {
        assert forall|store: Seq<char>|
            txn.stores.contains(store) && #[trigger] locked.contains_key(store) implies txn.mode
            == IndexedDBTxnMode::Readonly && locked[store] == IndexedDBTxnMode::Readonly by {
            let k = choose|k: int| 0 <= k < txn.stores.len() && txn.stores[k] == store;
            assert(txn.stores[k] == store);
        }
    }
    if forall|store: Seq<char>|
        txn.stores.contains(store) && #[trigger] locked.contains_key(store) ==> txn.mode
            == IndexedDBTxnMode::Readonly && locked[store] == IndexedDBTxnMode::Readonly {
        assert forall|i: int|
            #![trigger txn.stores[i]]
            0 <= i < txn.stores.len() && locked.contains_key(txn.stores[i]) implies txn.mode
            == IndexedDBTxnMode::Readonly && locked[txn.stores[i]]
            == IndexedDBTxnMode::Readonly by {
            assert(txn.stores.contains(txn.stores[i]));
        }
    }
}

/// Where a transaction that waits can be started, one is: the first that can be is handed to the
/// engine and leaves the queue.
pub proof fn law_waiting_transaction_is_started(
    before: EnvironmentModel,
    after: EnvironmentModel,
    locked: Map<Seq<char>, IndexedDBTxnMode>,
    k: int,
)
    requires
        attempted_next_to(before, after, locked),
        0 <= k < before.transactions.len(),
        startable(before.transactions[k], locked),
        forall|j: int| 0 <= j < k ==> !startable(#[trigger] before.transactions[j], locked),
    ensures
        after.transactions == before.transactions.remove(k),
        after.calls.len() == before.calls.len() + 2,
        after.calls.take(before.calls.len() as int) == before.calls,
        after.calls[before.calls.len() as int] == (EngineCall::LockedStoreNames { result: locked }),
        after.calls.last() == (EngineCall::ProcessTransaction {
            transaction: before.transactions[k],
            result: None,
        }),
{
    assert(!none_started(before, after, locked));
    let i = choose|i: int| started(before, after, locked, i);
    assert(started(before, after, locked, i));
    assert(is_earliest(before.transactions, locked, i));
    if i < k {
        assert(startable(before.transactions[i], locked));
    } else if k < i {
        assert(!startable(before.transactions[k], locked));
    }
    assert(after.calls.take(before.calls.len() as int) =~= before.calls);
}

} // verus!

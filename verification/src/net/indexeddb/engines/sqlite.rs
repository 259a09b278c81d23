//! An engine that keeps every object store of a database in an SQLite file of its own. The engine
//! decides which steps to take on which file; the caller takes them, and hands the results back.
use crate::keyed_map::StringMap;
use crate::text::{clone_texts, join_text, texts};
use vstd::prelude::*;

verus! {

/// A name that is fit to be part of a file name.
pub struct SanitizedName {
    pub name: String,
}

/// What came of a request to create an object store.
#[derive(Clone, Copy, Debug, PartialEq, Eq, Structural)]
pub enum CreateObjectStoreResult {
    Created,
    AlreadyExists,
}

/// The tables in the file of an object store.
#[derive(Clone, Copy, Debug, PartialEq, Eq, Structural)]
pub enum Table {
    Store,
    Metadata,
    Index,
}

/// A step on the file of one object store.
pub enum Step {
    /// Connect to the file, whose path is given by its segments.
    Connect(Vec<String>),
    CreateTable(Table),
    /// Add a row to the metadata table.
    InsertMetadata { key: String, value: i32 },
    DeleteRows(Table),
    Close,
    /// Remove the file, if it is there.
    RemoveFile(Vec<String>),
}

/// What a `Step` stands for.
pub enum StepModel {
    Connect(Seq<Seq<char>>),
    CreateTable(Table),
    InsertMetadata { key: Seq<char>, value: i32 },
    DeleteRows(Table),
    Close,
    RemoveFile(Seq<Seq<char>>),
}

impl View for Step {
    type V = StepModel;

    open spec fn view(&self) -> StepModel {
        match self {
            Step::Connect(path) => StepModel::Connect(texts(path@)),
            Step::CreateTable(table) => StepModel::CreateTable(*table),
            Step::InsertMetadata { key, value } => StepModel::InsertMetadata {
                key: key@,
                value: *value,
            },
            Step::DeleteRows(table) => StepModel::DeleteRows(*table),
            Step::Close => StepModel::Close,
            Step::RemoveFile(path) => StepModel::RemoveFile(texts(path@)),
        }
    }
}

impl StepModel {
    /// Whether a failure of this step is a failure of the plan that it belongs to. That a file
    /// cannot be removed is not.
    pub open spec fn counts(self) -> bool {
        !(self is RemoveFile)
    }
}

impl Step {
    /// Whether a failure of this step is a failure of the plan that it belongs to.
    pub fn is_required(&self) -> (r: bool)
        ensures
            r == self@.counts(),
    {
        match self {
            Step::RemoveFile(_) => false,
            _ => true,
        }
    }
}

/// What the results of some steps stand for.
pub open spec fn results(list: Seq<Result<(), String>>) -> Seq<Result<(), Seq<char>>> {
    list.map_values(
        |r: Result<(), String>|
            match r {
                Ok(_) => Ok(()),
                Err(text) => Err(text@),
            },
    )
}

/// The result of a plan by the results of its steps: the first failure of a step that counts.
pub open spec fn result_of(
    plan: Seq<StepModel>,
    taken: Seq<Result<(), Seq<char>>>,
) -> Result<(), Seq<char>>
    decreases taken.len(),
{
    if plan.len() == 0 || taken.len() == 0 {
        Ok(())
    } else if plan[0].counts() && taken[0] is Err {
        taken[0]
    } else {
        result_of(plan.skip(1), taken.skip(1))
    }
}

/// The result of a plan by the results of its steps, which are taken in order, up to the first
/// failure that counts.
pub fn plan_result(plan: &Vec<Step>, taken: Vec<Result<(), String>>) -> (r: Result<(), String>)
    requires
        taken@.len() <= plan@.len(),
    ensures
        match r {
            Ok(_) => result_of(steps(plan@), results(taken@)) is Ok,
            Err(text) => result_of(steps(plan@), results(taken@)) == Err::<(), Seq<char>>(text@),
        },
{
    let ghost all = steps(plan@);
    let ghost told = results(taken@);
    let mut i: usize = 0;
    assert(all.skip(0) =~= all);
    assert(told.skip(0) =~= told);
    while i < taken.len()
        invariant
            i <= taken@.len() <= plan@.len(),
            all == steps(plan@),
            told == results(taken@),
            result_of(all, told) == result_of(all.skip(i as int), told.skip(i as int)),
        decreases taken@.len() - i,
    {
        assert(all.skip(i as int)[0] == plan@[i as int]@);
        assert(told.skip(i as int)[0] == told[i as int]);
        assert(all.skip(i as int).skip(1) =~= all.skip(i + 1));
        assert(told.skip(i as int).skip(1) =~= told.skip(i + 1));
        if plan[i].is_required() {
            if let Err(text) = &taken[i] {
                return Err(text.clone());
            }
        }
        i += 1;
    }
    Ok(())
}

/// What a list of steps stands for.
pub open spec fn steps(list: Seq<Step>) -> Seq<StepModel> {
    list.map_values(|s: Step| s@)
}

/// The file of an object store: in the directory of the database, under the store's name.
pub open spec fn file_of(db_dir: Seq<Seq<char>>, store: Seq<char>) -> Seq<Seq<char>> {
    db_dir.push(store + ".db"@)
}

/// The steps that create an object store: connect, make the three tables, and note in the
/// metadata whether the store has a key generator.
pub open spec fn creation(
    db_dir: Seq<Seq<char>>,
    store: Seq<char>,
    auto_increment: bool,
) -> Seq<StepModel> {
    seq![
        StepModel::Connect(file_of(db_dir, store)),
        StepModel::CreateTable(Table::Store),
        StepModel::CreateTable(Table::Metadata),
        StepModel::CreateTable(Table::Index),
        StepModel::InsertMetadata {
            key: store,
            value: if auto_increment {
                1i32
            } else {
                0i32
            },
        },
    ]
}

/// The steps that delete an object store: empty its tables, close the connection, and remove the
/// file.
pub open spec fn deletion(db_dir: Seq<Seq<char>>, store: Seq<char>) -> Seq<StepModel> {
    seq![
        StepModel::DeleteRows(Table::Store),
        StepModel::DeleteRows(Table::Metadata),
        StepModel::Close,
        StepModel::RemoveFile(file_of(db_dir, store)),
    ]
}

/// The engine: the directory of the database, and the object stores that have an open
/// connection.
pub struct SqliteEngine {
    db_dir: Vec<String>,
    connections: StringMap<()>,
}

/// What a `SqliteEngine` stands for.
pub struct EngineModel {
    pub db_dir: Seq<Seq<char>>,
    pub connections: Set<Seq<char>>,
}

impl EngineModel {
    /// With one more object store connected.
    pub open spec fn connected(self, store: Seq<char>) -> EngineModel {
        EngineModel { db_dir: self.db_dir, connections: self.connections.insert(store) }
    }

    /// With an object store no longer connected.
    pub open spec fn disconnected(self, store: Seq<char>) -> EngineModel {
        EngineModel { db_dir: self.db_dir, connections: self.connections.remove(store) }
    }

    /// Whether an object store has a key generator, by the value in its metadata.
    pub open spec fn generates_keys(self, store: Seq<char>, metadata: Option<i32>) -> bool {
        self.connections.contains(store) && (metadata matches Some(value) && value > 0)
    }
}

impl View for SqliteEngine {
    type V = EngineModel;

    closed spec fn view(&self) -> EngineModel {
        EngineModel { db_dir: texts(self.db_dir@), connections: self.connections@.dom() }
    }
}

/// What is to be done to create an object store.
pub enum CreatePlan {
    /// Nothing: its file is there.
    AlreadyExists,
    /// Take the steps, and tell `finish_create_store` whether one failed.
    Run(Vec<Step>),
}

/// The result of a plan whose steps are taken in order up to the first that fails.
pub fn outcome(failure: Option<String>) -> (r: Result<(), String>)
    ensures
        match failure {
            Some(text) => r == Err::<(), String>(text),
            None => r is Ok,
        },
{
    match failure {
        Some(text) => Err(text),
        None => Ok(()),
    }
}

impl SqliteEngine {
    /// An engine for the database in the folder `db_dir_name` of `base_dir`, with no object store
    /// connected. The caller has to make the directory.
    pub fn new(base_dir: String, db_dir_name: String) -> (r: Self)
        ensures
            r@ == (EngineModel {
                db_dir: seq![base_dir@, db_dir_name@],
                connections: Set::empty(),
            }),
    {
        let mut db_dir: Vec<String> = Vec::new();
        db_dir.push(base_dir);
        db_dir.push(db_dir_name);
        let r = SqliteEngine { db_dir, connections: StringMap::new() };
        assert(texts(r.db_dir@) =~= seq![base_dir@, db_dir_name@]);
        assert(r@.connections =~= Set::empty());
        r
    }

    /// The file of an object store, as the segments of its path.
    pub fn store_file(&self, store_name: &SanitizedName) -> (r: Vec<String>)
        ensures
            texts(r@) == file_of(self@.db_dir, store_name.name@),
    {
        let mut path = clone_texts(&self.db_dir);
        path.push(join_text(store_name.name.as_str(), ".db"));
        assert(texts(path@) =~= file_of(self@.db_dir, store_name.name@));
        path
    }

    /// What is to be done to create an object store. `exists` tells whether its file is there.
    pub fn create_store(
        &self,
        store_name: &SanitizedName,
        auto_increment: bool,
        exists: bool,
    ) -> (r: CreatePlan)
        ensures
            match r {
                CreatePlan::AlreadyExists => exists,
                CreatePlan::Run(list) => !exists && steps(list@) == creation(
                    self@.db_dir,
                    store_name.name@,
                    auto_increment,
                ),
            },
    {
        if exists {
            return CreatePlan::AlreadyExists;
        }
        let mut list: Vec<Step> = Vec::new();
        list.push(Step::Connect(self.store_file(store_name)));
        list.push(Step::CreateTable(Table::Store));
        list.push(Step::CreateTable(Table::Metadata));
        list.push(Step::CreateTable(Table::Index));
        let value: i32 = if auto_increment { 1 } else { 0 };
        list.push(Step::InsertMetadata { key: store_name.name.clone(), value });
        assert(steps(list@) =~= creation(self@.db_dir, store_name.name@, auto_increment));
        CreatePlan::Run(list)
    }

    /// Ends the creation of an object store: where no step failed, the store is connected.
    pub fn finish_create_store(
        &mut self,
        store_name: SanitizedName,
        failure: Option<String>,
    ) -> (r: Result<CreateObjectStoreResult, String>)
        ensures
            final(self)@.db_dir == old(self)@.db_dir,
            match failure {
                Some(text) => {
                    &&& r == Err::<CreateObjectStoreResult, String>(text)
                    &&& final(self)@ == old(self)@
                },
                None => {
                    &&& r == Ok::<CreateObjectStoreResult, String>(CreateObjectStoreResult::Created)
                    &&& final(self)@.connections == old(self)@.connections.insert(store_name.name@)
                },
            },
            failure is None ==> final(self)@ == old(self)@.connected(store_name.name@),
    {
        match outcome(failure) {
            Err(text) => Err(text),
            Ok(()) => {
                let ghost name = store_name.name@;
                self.connections.insert(store_name.name, ());
                assert(self@.connections =~= old(self)@.connections.insert(name));
                Ok(CreateObjectStoreResult::Created)
            },
        }
    }

    /// The steps that delete an object store, if it is connected. It no longer is afterwards,
    /// whatever comes of the steps. `plan_result` tells what comes of them all.
    pub fn delete_store(&mut self, store_name: &SanitizedName) -> (r: Vec<Step>)
        ensures
            final(self)@ == (EngineModel {
                db_dir: old(self)@.db_dir,
                connections: old(self)@.connections.remove(store_name.name@),
            }),
            steps(r@) == if old(self)@.connections.contains(store_name.name@) {
                deletion(old(self)@.db_dir, store_name.name@)
            } else {
                Seq::empty()
            },
            final(self)@ == old(self)@.disconnected(store_name.name@),
    {
        let mut list: Vec<Step> = Vec::new();
        let found = self.connections.remove(&store_name.name);
        assert(self@.connections =~= old(self)@.connections.remove(store_name.name@));
        if found.is_some() {
            self.push_deletion(&store_name.name, &mut list);
        }
        assert(steps(list@) =~= if old(self)@.connections.contains(store_name.name@) {
            deletion(old(self)@.db_dir, store_name.name@)
        } else {
            Seq::empty()
        });
        list
    }

    fn push_deletion(&self, name: &String, list: &mut Vec<Step>)
        ensures
            steps(final(list)@) == steps(old(list)@) + deletion(self@.db_dir, name@),
    {
        list.push(Step::DeleteRows(Table::Store));
        list.push(Step::DeleteRows(Table::Metadata));
        list.push(Step::Close);
        list.push(Step::RemoveFile(self.store_file(&SanitizedName { name: name.clone() })));
        assert(steps(list@) =~= steps(old(list)@) + deletion(self@.db_dir, name@));
    }

    /// The steps that close an object store, if it is connected. It no longer is afterwards.
    /// `plan_result` tells what comes of them.
    pub fn close_store(&mut self, store_name: &SanitizedName) -> (r: Vec<Step>)
        ensures
            final(self)@ == (EngineModel {
                db_dir: old(self)@.db_dir,
                connections: old(self)@.connections.remove(store_name.name@),
            }),
            steps(r@) == if old(self)@.connections.contains(store_name.name@) {
                seq![StepModel::Close]
            } else {
                Seq::empty()
            },
            final(self)@ == old(self)@.disconnected(store_name.name@),
    {
        let mut list: Vec<Step> = Vec::new();
        let found = self.connections.remove(&store_name.name);
        assert(self@.connections =~= old(self)@.connections.remove(store_name.name@));
        if found.is_some() {
            list.push(Step::Close);
        }
        assert(steps(list@) =~= if old(self)@.connections.contains(store_name.name@) {
            seq![StepModel::Close]
        } else {
            Seq::empty()
        });
        list
    }

    /// The steps that delete the database: those that delete each connected object store, one
    /// store after the other, up to the first whose steps fail as `plan_result` tells it. None is
    /// connected afterwards.
    pub fn delete_database(&mut self) -> (r: Vec<(String, Vec<Step>)>)
        ensures
            final(self)@ == (EngineModel { db_dir: old(self)@.db_dir, connections: Set::empty() }),
            forall|name: Seq<char>|
                old(self)@.connections.contains(name) <==> exists|i: int|
                    0 <= i < r@.len() && (#[trigger] r@[i]).0@ == name,
            forall|i: int, j: int|
                0 <= i < j < r@.len() ==> (#[trigger] r@[i]).0@ != (#[trigger] r@[j]).0@,
            forall|i: int|
                0 <= i < r@.len() ==> steps((#[trigger] r@[i]).1@) == deletion(
                    old(self)@.db_dir,
                    r@[i].0@,
                ),
    {
        let mut all: Vec<(String, Vec<Step>)> = Vec::new();
        let n = self.connections.len();
        let mut i: usize = 0;
        while i < n
            invariant
                i <= n,
                n == self.connections.order().len(),
                self == old(self),
                all@.len() == i,
                forall|j: int| 0 <= j < i ==> (#[trigger] all@[j]).0@ == self.connections.order()[j],
                forall|j: int|
                    0 <= j < i ==> steps((#[trigger] all@[j]).1@) == deletion(
                        self@.db_dir,
                        all@[j].0@,
                    ),
            decreases n - i,
        {
            let (name, _) = self.connections.entry(i);
            let mut list: Vec<Step> = Vec::new();
            assert(steps(list@) =~= Seq::empty());
            self.push_deletion(name, &mut list);
            assert(Seq::<StepModel>::empty() + deletion(self@.db_dir, name@) =~= deletion(
                self@.db_dir,
                name@,
            ));
            all.push((name.clone(), list));
            i += 1;
        }
        proof {
            let order = old(self).connections.order();
            assert forall|name: Seq<char>|
                old(self)@.connections.contains(name) <==> exists|i: int|
                    0 <= i < all@.len() && (#[trigger] all@[i]).0@ == name by {
                if old(self)@.connections.contains(name) {
                    assert(order.contains(name));
                    let k = choose|k: int| 0 <= k < order.len() && order[k] == name;
                    assert(all@[k].0@ == name);
                }
                if exists|i: int| 0 <= i < all@.len() && (#[trigger] all@[i]).0@ == name {
                    let k = choose|k: int| 0 <= k < all@.len() && (#[trigger] all@[k]).0@ == name;
                    assert(order[k] == name);
                    assert(order.contains(name));
                }
            }
            assert forall|i: int, j: int| 0 <= i < j < all@.len() implies (
            #[trigger] all@[i]).0@ != (#[trigger] all@[j]).0@ by {
                assert(order[i] != order[j]);
            }
        }
        self.connections.clear();
        assert(self@.connections =~= Set::empty());
        all
    }

    /// Whether an object store is connected.
    pub fn is_connected(&self, store_name: &String) -> (r: bool)
        ensures
            r == self@.connections.contains(store_name@),
    {
        self.connections.contains_key(store_name)
    }

    /// Whether an object store has a key generator. `metadata` is the value that its metadata
    /// table holds under its name, if there is one; only a connected store can be asked.
    pub fn has_key_generator(&self, store_name: &SanitizedName, metadata: Option<i32>) -> (r: bool)
        ensures
            r == (self@.connections.contains(store_name.name@) && metadata is Some && metadata->0
                > 0),
            r == self@.generates_keys(store_name.name@, metadata),
    {
        if self.is_connected(&store_name.name) {
            match metadata {
                Some(value) => value > 0,
                None => false,
            }
        } else {
            false
        }
    }
}

/// A plan to delete an object store fails exactly where its tables cannot be emptied or its
/// connection not be closed, with the first of these failures. What comes of the removal of its
/// file does not matter.
pub proof fn law_deletion_outlives_its_file(
    db_dir: Seq<Seq<char>>,
    store: Seq<char>,
    taken: Seq<Result<(), Seq<char>>>,
)
    requires
        taken.len() == 4,
    ensures
        result_of(deletion(db_dir, store), taken) == if taken[0] is Err {
            taken[0]
        } else if taken[1] is Err {
            taken[1]
        } else if taken[2] is Err {
            taken[2]
        } else {
            Ok(())
        },
{
    let plan = deletion(db_dir, store);
    assert(plan.skip(1).skip(1) =~= plan.skip(2) && taken.skip(1).skip(1) =~= taken.skip(2));
    assert(plan.skip(2).skip(1) =~= plan.skip(3) && taken.skip(2).skip(1) =~= taken.skip(3));
    assert(plan.skip(3).skip(1).len() == 0);
    assert(result_of(plan.skip(3).skip(1), taken.skip(3).skip(1)) is Ok);
    assert(!plan.skip(3)[0].counts());
    assert(result_of(plan.skip(3), taken.skip(3)) is Ok);
    assert(plan.skip(2)[0] == StepModel::Close && taken.skip(2)[0] == taken[2]);
    assert(result_of(plan.skip(2), taken.skip(2)) == if taken[2] is Err {
        taken[2]
    } else {
        Ok(())
    });
    assert(plan.skip(1)[0] == StepModel::DeleteRows(Table::Metadata) && taken.skip(1)[0]
        == taken[1]);
    assert(result_of(plan.skip(1), taken.skip(1)) == if taken[1] is Err {
        taken[1]
    } else {
        result_of(plan.skip(2), taken.skip(2))
    });
}

/// A plan to close an object store fails exactly where its connection cannot be closed.
pub proof fn law_closing_fails_with_the_connection(taken: Result<(), Seq<char>>)
    ensures
        result_of(seq![StepModel::Close], seq![taken]) == match taken {
            Ok(_) => Ok(()),
            Err(text) => Err(text),
        },
{
    let plan = seq![StepModel::Close];
    assert(plan.skip(1).len() == 0);
    assert(result_of(plan.skip(1), seq![taken].skip(1)) is Ok);
}

/// Plans that are carried out one after another, as those that delete a database are, fail with the
/// first that fails.
pub proof fn law_first_failing_plan_is_the_failure(
    first: Seq<StepModel>,
    second: Seq<StepModel>,
    first_taken: Seq<Result<(), Seq<char>>>,
    second_taken: Seq<Result<(), Seq<char>>>,
)
    requires
        first.len() == first_taken.len(),
    ensures
        result_of(first + second, first_taken + second_taken) == if result_of(
            first,
            first_taken,
        ) is Err {
            result_of(first, first_taken)
        } else {
            result_of(second, second_taken)
        },
    decreases first.len(),
{
    if first.len() == 0 {
        assert(first + second =~= second);
        assert(first_taken + second_taken =~= second_taken);
    } else {
        assert((first + second).skip(1) =~= first.skip(1) + second);
        assert((first_taken + second_taken).skip(1) =~= first_taken.skip(1) + second_taken);
        law_first_failing_plan_is_the_failure(
            first.skip(1),
            second,
            first_taken.skip(1),
            second_taken,
        );
    }
}

/// Each object store of a database has a file of its own, in the directory of the database, and
/// other databases have others.
pub proof fn law_stores_have_files_of_their_own(
    db_dir: Seq<Seq<char>>,
    store: Seq<char>,
    other_dir: Seq<Seq<char>>,
    other: Seq<char>,
)
    ensures
        file_of(db_dir, store).drop_last() == db_dir,
        file_of(db_dir, store).last() == store + ".db"@,
        file_of(db_dir, store) == file_of(other_dir, other) ==> db_dir == other_dir && store
            == other,
{
    let a = file_of(db_dir, store);
    let b = file_of(other_dir, other);
    assert(a.drop_last() =~= db_dir);
    assert(b.drop_last() =~= other_dir);
    if a == b {
        let x = store + ".db"@;
        let y = other + ".db"@;
        assert(a.last() == x && b.last() == y);
        assert(x.len() == store.len() + ".db"@.len());
        assert(y.len() == other.len() + ".db"@.len());
        assert(x.take(store.len() as int) =~= store);
        assert(y.take(other.len() as int) =~= other);
    }
}

/// An object store is created in its file: first the file is connected to, then each of the three
/// tables is made, once. All of these steps have to succeed.
pub proof fn law_creation_makes_file_and_tables(
    db_dir: Seq<Seq<char>>,
    store: Seq<char>,
    auto_increment: bool,
    i: int,
)
    requires
        0 <= i < creation(db_dir, store, auto_increment).len(),
    ensures
        ({
            let plan = creation(db_dir, store, auto_increment);
            &&& plan.len() == 5
            &&& plan[0] == StepModel::Connect(db_dir.push(store + ".db"@))
            &&& plan.contains(StepModel::CreateTable(Table::Store))
            &&& plan.contains(StepModel::CreateTable(Table::Metadata))
            &&& plan.contains(StepModel::CreateTable(Table::Index))
            &&& plan[4] is InsertMetadata
            &&& plan[i].counts()
        }),
{
    let plan = creation(db_dir, store, auto_increment);
    assert(plan[1] == StepModel::CreateTable(Table::Store));
    assert(plan[2] == StepModel::CreateTable(Table::Metadata));
    assert(plan[3] == StepModel::CreateTable(Table::Index));
}

/// Whether an object store has a key generator is remembered under its own name, by a number that is
/// positive exactly where it was created with one.
pub proof fn law_key_generator_is_remembered(
    db_dir: Seq<Seq<char>>,
    store: Seq<char>,
    auto_increment: bool,
)
    ensures
        creation(db_dir, store, auto_increment).last() matches StepModel::InsertMetadata {
            key,
            value,
        } && key == store && (value > 0 <==> auto_increment) && 0 <= value <= 1,
{
}

/// To delete an object store undoes its creation: the tables that hold its records and its metadata
/// are emptied, its connection is closed, and then the very file that was made for it is removed.
pub proof fn law_deletion_removes_what_was_created(
    db_dir: Seq<Seq<char>>,
    store: Seq<char>,
    auto_increment: bool,
    path: Seq<Seq<char>>,
)
    ensures
        ({
            let plan = deletion(db_dir, store);
            let made = creation(db_dir, store, auto_increment);
            &&& plan.len() == 4
            &&& plan[0] == StepModel::DeleteRows(Table::Store)
            &&& plan[1] == StepModel::DeleteRows(Table::Metadata)
            &&& plan[2] == StepModel::Close
            &&& plan[3] == StepModel::RemoveFile(path) <==> made[0] == StepModel::Connect(path)
            &&& plan[3] is RemoveFile
        }),
{
}

/// An object store that was created is connected until it is deleted or closed, and the others are as
/// they were.
pub proof fn law_created_stores_are_connected(
    engine: EngineModel,
    store: Seq<char>,
    other: Seq<char>,
)
    ensures
        engine.connected(store).connections.contains(store),
        !engine.connected(store).disconnected(store).connections.contains(store),
        other != store ==> (engine.connected(store).connections.contains(other)
            <==> engine.connections.contains(other)),
        other != store ==> (engine.disconnected(store).connections.contains(other)
            <==> engine.connections.contains(other)),
        engine.connected(store).db_dir == engine.db_dir,
        engine.disconnected(store).db_dir == engine.db_dir,
{
}

/// An object store that was created has a key generator exactly where it was created with one, by
/// what its creation noted; one that is not connected, or of which nothing is noted, has none.
pub proof fn law_key_generator_is_found_again(
    engine: EngineModel,
    store: Seq<char>,
    auto_increment: bool,
    metadata: Option<i32>,
)
    ensures
        creation(engine.db_dir, store, auto_increment).last() matches StepModel::InsertMetadata {
            value,
            ..
        } && (engine.connected(store).generates_keys(store, Some(value)) <==> auto_increment),
        !engine.generates_keys(store, None),
        !engine.disconnected(store).generates_keys(store, metadata),
{
}

} // verus!

//! The registry of a container: which origins have a shelf in it, which buckets a shelf holds,
//! which bottles a bucket, which databases a bottle, and in which directory a database is. The
//! registry is kept in SQL tables. What to run on them is decided here; the caller runs it and
//! hands the answer back.
use crate::sql::{
    flag, integer_or_null, optional_integer, plain, text_value, with_one, with_three, with_two,
    Statement, StatementModel, Value, ValueModel,
};
use crate::text::{join_text, optional_text};
use vstd::prelude::*;

verus! {

/// Makes the table with a shelf for each origin.
pub const CREATE_SHELVES_TABLE: &'static str = r#"CREATE TABLE shelves (
id INTEGER PRIMARY KEY,
origin TEXT NOT NULL UNIQUE
);"#;

/// Makes the table with the buckets of the shelves.
pub const CREATE_BUCKETS_TABLE: &'static str = r#"
CREATE TABLE buckets (
id INTEGER PRIMARY KEY,
shelf_id INTEGER NOT NULL REFERENCES shelves(id),
name TEXT NOT NULL,
persisted BOOLEAN DEFAULT 0,
quota INTEGER,
expires INTEGER,
UNIQUE (shelf_id, name)
);"#;

/// Makes the table with the bottles of the buckets.
pub const CREATE_BOTTLES_TABLE: &'static str = r#"
CREATE TABLE bottles (
id INTEGER PRIMARY KEY,
bucket_id INTEGER NOT NULL REFERENCES buckets(id),
identifier TEXT NOT NULL,  -- "idb", "ls", "opfs", "cache"
quota INTEGER,
UNIQUE (bucket_id, identifier)
);"#;

/// Makes the table with the databases of the bottles.
pub const CREATE_DATABASES_TABLE: &'static str = r#"
CREATE TABLE databases (
id INTEGER PRIMARY KEY,
bottle_id INTEGER NOT NULL REFERENCES bottles(id),
name TEXT NOT NULL,
UNIQUE (bottle_id, name)
);"#;

/// Makes the table with the directory of each database.
pub const CREATE_DIRECTORIES_TABLE: &'static str = r#"
CREATE TABLE directories (
id INTEGER PRIMARY KEY,
database_id INTEGER NOT NULL UNIQUE REFERENCES databases(id),
path TEXT NOT NULL
);"#;

/// Finds out whether the tables are there.
pub const HAS_SHELVES: &'static str =
    "SELECT name FROM sqlite_master WHERE type='table' AND name='shelves';";

/// Looks up the shelf of an origin.
pub const FIND_SHELF: &'static str =
    "SELECT id FROM shelves WHERE origin = ?1";

/// Adds a shelf for an origin.
pub const ADD_SHELF: &'static str =
    "INSERT INTO shelves (origin) VALUES (?1)";

/// Adds the default bucket to a shelf.
pub const ADD_DEFAULT_BUCKET: &'static str =
    "INSERT INTO buckets (shelf_id, name, persisted, quota, expires) VALUES (?1, 'default', 0, NULL, NULL)";

/// Looks up a bucket of a shelf by its name.
pub const FIND_BUCKET: &'static str =
    "SELECT id FROM buckets WHERE shelf_id = ?1 AND name = ?2";

/// Adds a bucket to a shelf.
pub const ADD_BUCKET: &'static str =
    "INSERT INTO buckets (shelf_id, name, persisted, quota, expires) VALUES (?1, ?2, ?3, ?4, ?5)";

/// Adds a bottle to a bucket.
pub const ADD_BOTTLE: &'static str =
    "INSERT INTO bottles (bucket_id, identifier, quota) VALUES (?1, ?2, NULL)";

/// Looks up the bottle of a bucket that is for IndexedDB.
pub const FIND_IDB_BOTTLE: &'static str =
    "SELECT id FROM bottles WHERE bucket_id = ?1 AND identifier = 'idb'";

/// Adds the bottle that is for IndexedDB to a bucket.
pub const ADD_IDB_BOTTLE: &'static str =
    "INSERT INTO bottles (bucket_id, identifier, quota) VALUES (?1, 'idb', NULL)";

/// Adds a database to a bottle.
pub const ADD_DATABASE: &'static str =
    "INSERT INTO databases (bottle_id, name) VALUES (?1, ?2)";

/// Notes the directory of a database.
pub const ADD_DIRECTORY: &'static str =
    "INSERT INTO directories (database_id, path) VALUES (?1, ?2)";

/// Looks up the directory of the local storage of an origin, in a bucket. There is no blank behind
/// `bu.id` and `s.id`, so that SQLite does not prepare the statement: the lookup fails.
pub const FIND_LOCALSTORAGE_DIR: &'static str =
    "SELECT d.path FROM directories d \
     JOIN databases db ON d.database_id = db.id \
     JOIN bottles b ON db.bottle_id = b.id \
     JOIN buckets bu ON b.bucket_id = bu.id\
     JOIN shelves s ON bu.shelf_id = s.id\
     WHERE s.origin = ?1 AND bu.name = ?2 AND b.identifier = 'ls'";

/// Looks up the directory of a database of an origin, in a bucket. As with the local storage, SQLite
/// does not prepare the statement: the lookup fails.
pub const FIND_INDEXEDDB_DIR: &'static str =
    "SELECT d.path FROM directories d \
     JOIN databases db ON d.database_id = db.id \
     JOIN bottles b ON db.bottle_id = b.id \
     JOIN buckets bu ON b.bucket_id = bu.id\
     JOIN shelves s ON bu.shelf_id = s.id\
     WHERE s.origin = ?1 AND bu.name = ?2 AND b.identifier = 'idb' AND db.name = ?3";

/// The bucket that is meant where none is named.
pub const DEFAULT_BUCKET: &'static str = "default";

/// The bottles that every bucket gets, in the order in which it gets them.
#[derive(Clone, Copy, Debug, PartialEq, Eq, Structural)]
pub enum Bottle {
    LocalStorage,
    FileSystem,
    Cache,
}

impl Bottle {
    /// The text that stands for the bottle in the tables.
    pub open spec fn name(self) -> Seq<char> {
        match self {
            Bottle::LocalStorage => "ls"@,
            Bottle::FileSystem => "opfs"@,
            Bottle::Cache => "cache"@,
        }
    }

    /// The bottle that a bucket gets after this one.
    pub open spec fn following(self) -> Option<Bottle> {
        match self {
            Bottle::LocalStorage => Some(Bottle::FileSystem),
            Bottle::FileSystem => Some(Bottle::Cache),
            Bottle::Cache => None,
        }
    }

    /// The text that stands for the bottle in the tables.
    pub fn identifier(&self) -> (r: &'static str)
        ensures
            r@ == self.name(),
    {
        match self {
            Bottle::LocalStorage => "ls",
            Bottle::FileSystem => "opfs",
            Bottle::Cache => "cache",
        }
    }

    /// The bottle that a bucket gets after this one.
    pub fn successor(&self) -> (r: Option<Bottle>)
        ensures
            r == self.following(),
    {
        match self {
            Bottle::LocalStorage => Some(Bottle::FileSystem),
            Bottle::FileSystem => Some(Bottle::Cache),
            Bottle::Cache => None,
        }
    }
}

/// What a task is to bring about.
pub enum Goal {
    /// A shelf for an origin, with a default bucket.
    Shelf { origin: String },
    /// A bucket on a shelf.
    Bucket {
        shelf_id: i64,
        name: String,
        persisted: bool,
        quota: Option<i64>,
        expires: Option<i64>,
    },
    /// A directory for a database, with the shelf, the bucket and the bottle that it needs.
    Directory { origin: String, bucket: String, db: String },
}

/// What a `Goal` stands for.
pub enum GoalModel {
    Shelf { origin: Seq<char> },
    Bucket {
        shelf_id: i64,
        name: Seq<char>,
        persisted: bool,
        quota: Option<i64>,
        expires: Option<i64>,
    },
    Directory { origin: Seq<char>, bucket: Seq<char>, db: Seq<char> },
}

impl View for Goal {
    type V = GoalModel;

    open spec fn view(&self) -> GoalModel {
        match self {
            Goal::Shelf { origin } => GoalModel::Shelf { origin: origin@ },
            Goal::Bucket { shelf_id, name, persisted, quota, expires } => GoalModel::Bucket {
                shelf_id: *shelf_id,
                name: name@,
                persisted: *persisted,
                quota: *quota,
                expires: *expires,
            },
            Goal::Directory { origin, bucket, db } => GoalModel::Directory {
                origin: origin@,
                bucket: bucket@,
                db: db@,
            },
        }
    }
}

/// The statement that a task waits for the answer to.
#[derive(Clone, Copy, Debug, PartialEq, Eq, Structural)]
pub enum Phase {
    FindShelf,
    AddShelf,
    AddDefaultBucket { shelf_id: i64 },
    /// A bottle goes into the default bucket of a new shelf.
    FillDefaultBucket { shelf_id: i64, bucket_id: i64, bottle: Bottle },
    FindBucket { shelf_id: i64 },
    AddBucket { shelf_id: i64 },
    /// A bottle goes into a new bucket.
    FillBucket { bucket_id: i64, bottle: Bottle },
    FindBottle { bucket_id: i64 },
    AddIdbBottle { bucket_id: i64 },
    AddDatabase { bottle_id: i64 },
    AddDirectory { database_id: i64 },
}

/// The answer to a statement.
pub enum Answer {
    /// A lookup found the row with this id, or none.
    Found(Option<i64>),
    /// A row was added under this id.
    Added(i64),
    /// The statement failed.
    Failed(String),
}

/// What an `Answer` stands for.
pub enum AnswerModel {
    Found(Option<i64>),
    Added(i64),
    Failed(Seq<char>),
}

impl View for Answer {
    type V = AnswerModel;

    open spec fn view(&self) -> AnswerModel {
        match self {
            Answer::Found(id) => AnswerModel::Found(*id),
            Answer::Added(id) => AnswerModel::Added(*id),
            Answer::Failed(text) => AnswerModel::Failed(text@),
        }
    }
}

/// What a task brought about.
pub enum Product {
    /// A row with this id.
    Row(i64),
    /// The directory at this path.
    Directory(String),
}

/// What a `Product` stands for.
pub enum ProductModel {
    Row(i64),
    Directory(Seq<char>),
}

impl View for Product {
    type V = ProductModel;

    open spec fn view(&self) -> ProductModel {
        match self {
            Product::Row(id) => ProductModel::Row(*id),
            Product::Directory(path) => ProductModel::Directory(path@),
        }
    }
}

/// What is to be done next for a task.
pub enum Next {
    /// Run this statement and hand the answer back.
    Run(Statement),
    /// Nothing: this is the result.
    Finished(Result<Product, String>),
}

/// What a `Next` stands for.
pub enum NextModel {
    Run(StatementModel),
    Finished(Result<ProductModel, Seq<char>>),
}

impl View for Next {
    type V = NextModel;

    open spec fn view(&self) -> NextModel {
        match self {
            Next::Run(statement) => NextModel::Run(statement@),
            Next::Finished(Ok(product)) => NextModel::Finished(Ok(product@)),
            Next::Finished(Err(text)) => NextModel::Finished(Err(text@)),
        }
    }
}

/// The directory of a database.
pub open spec fn directory(origin: Seq<char>, bucket: Seq<char>, db: Seq<char>) -> Seq<char> {
    "storage/"@ + origin + "/"@ + bucket + "/"@ + db
}

/// What a `Task` stands for.
pub struct TaskModel {
    pub goal: GoalModel,
    pub phase: Phase,
}

/// Whether an answer is one to the statement of a phase.
pub open spec fn fits(phase: Phase, answer: AnswerModel) -> bool {
    match answer {
        AnswerModel::Found(_) => phase is FindShelf || phase is FindBucket || phase is FindBottle,
        AnswerModel::Added(_) => !(phase is FindShelf || phase is FindBucket || phase
            is FindBottle),
        AnswerModel::Failed(_) => true,
    }
}

/// Where the answer to a statement leads: to another statement, or to the end.
pub enum Turn {
    To(Phase),
    End(Result<ProductModel, Seq<char>>),
}

impl TaskModel {
    /// The phases that lead to the goal.
    pub open spec fn valid(self) -> bool {
        match self.phase {
            Phase::AddShelf | Phase::AddDefaultBucket { .. } | Phase::FillDefaultBucket { .. } => {
                !(self.goal is Bucket)
            },
            Phase::AddBucket { .. } | Phase::FillBucket { .. } => !(self.goal is Shelf),
            _ => self.goal is Directory,
        }
    }

    /// The statement of the phase.
    pub open spec fn statement(self) -> StatementModel {
        match self.phase {
            Phase::FindShelf => StatementModel {
                sql: FIND_SHELF@,
                params: seq![ValueModel::Text(self.origin())],
            },
            Phase::AddShelf => StatementModel {
                sql: ADD_SHELF@,
                params: seq![ValueModel::Text(self.origin())],
            },
            Phase::AddDefaultBucket { shelf_id } => StatementModel {
                sql: ADD_DEFAULT_BUCKET@,
                params: seq![ValueModel::Integer(shelf_id)],
            },
            Phase::FillDefaultBucket { bucket_id, bottle, .. } => StatementModel {
                sql: ADD_BOTTLE@,
                params: seq![ValueModel::Integer(bucket_id), ValueModel::Text(bottle.name())],
            },
            Phase::FindBucket { shelf_id } => StatementModel {
                sql: FIND_BUCKET@,
                params: seq![ValueModel::Integer(shelf_id), ValueModel::Text(self.bucket())],
            },
            Phase::AddBucket { shelf_id } => StatementModel {
                sql: ADD_BUCKET@,
                params: seq![
                    ValueModel::Integer(shelf_id),
                    ValueModel::Text(self.bucket()),
                    ValueModel::Integer(
                        if self.persisted() {
                            1i64
                        } else {
                            0i64
                        },
                    ),
                    optional_integer(self.quota()),
                    optional_integer(self.expires()),
                ],
            },
            Phase::FillBucket { bucket_id, bottle } => StatementModel {
                sql: ADD_BOTTLE@,
                params: seq![ValueModel::Integer(bucket_id), ValueModel::Text(bottle.name())],
            },
            Phase::FindBottle { bucket_id } => StatementModel {
                sql: FIND_IDB_BOTTLE@,
                params: seq![ValueModel::Integer(bucket_id)],
            },
            Phase::AddIdbBottle { bucket_id } => StatementModel {
                sql: ADD_IDB_BOTTLE@,
                params: seq![ValueModel::Integer(bucket_id)],
            },
            Phase::AddDatabase { bottle_id } => StatementModel {
                sql: ADD_DATABASE@,
                params: seq![ValueModel::Integer(bottle_id), ValueModel::Text(self.db())],
            },
            Phase::AddDirectory { database_id } => StatementModel {
                sql: ADD_DIRECTORY@,
                params: seq![
                    ValueModel::Integer(database_id),
                    ValueModel::Text(directory(self.origin(), self.bucket(), self.db())),
                ],
            },
        }
    }

    /// The origin that the shelf is for.
    pub open spec fn origin(self) -> Seq<char> {
        match self.goal {
            GoalModel::Shelf { origin } => origin,
            GoalModel::Directory { origin, .. } => origin,
            GoalModel::Bucket { .. } => Seq::empty(),
        }
    }

    /// The name of the bucket.
    pub open spec fn bucket(self) -> Seq<char> {
        match self.goal {
            GoalModel::Shelf { .. } => Seq::empty(),
            GoalModel::Directory { bucket, .. } => bucket,
            GoalModel::Bucket { name, .. } => name,
        }
    }

    /// The name of the database.
    pub open spec fn db(self) -> Seq<char> {
        match self.goal {
            GoalModel::Directory { db, .. } => db,
            _ => Seq::empty(),
        }
    }

    /// Whether the bucket is persisted. One that is made for a database is not.
    pub open spec fn persisted(self) -> bool {
        self.goal matches GoalModel::Bucket { persisted, .. } && persisted
    }

    /// The quota of the bucket. One that is made for a database has none.
    pub open spec fn quota(self) -> Option<i64> {
        match self.goal {
            GoalModel::Bucket { quota, .. } => quota,
            _ => None,
        }
    }

    /// When the bucket expires. One that is made for a database does not.
    pub open spec fn expires(self) -> Option<i64> {
        match self.goal {
            GoalModel::Bucket { expires, .. } => expires,
            _ => None,
        }
    }

    /// Where the answer to the statement of the phase leads.
    ///
    /// A shelf is followed by its default bucket and the three bottles in it, a bucket by its three
    /// bottles.
    pub open spec fn turn(self, answer: AnswerModel) -> Turn {
        match answer {
            AnswerModel::Failed(text) => Turn::End(Err(text)),
            AnswerModel::Found(Some(id)) => match self.phase {
                Phase::FindShelf => Turn::To(Phase::FindBucket { shelf_id: id }),
                Phase::FindBucket { .. } => Turn::To(Phase::FindBottle { bucket_id: id }),
                _ => Turn::To(Phase::AddDatabase { bottle_id: id }),
            },
            AnswerModel::Found(None) => match self.phase {
                Phase::FindBucket { shelf_id } => Turn::To(Phase::AddBucket { shelf_id }),
                Phase::FindBottle { bucket_id } => Turn::To(Phase::AddIdbBottle { bucket_id }),
                _ => Turn::To(Phase::AddShelf),
            },
            AnswerModel::Added(id) => match self.phase {
                Phase::AddDefaultBucket { shelf_id } => Turn::To(
                    Phase::FillDefaultBucket {
                        shelf_id,
                        bucket_id: id,
                        bottle: Bottle::LocalStorage,
                    },
                ),
                Phase::FillDefaultBucket { shelf_id, bucket_id, bottle } => {
                    match bottle.following() {
                        Some(bottle) => Turn::To(
                            Phase::FillDefaultBucket { shelf_id, bucket_id, bottle },
                        ),
                        None => if self.goal is Shelf {
                            Turn::End(Ok(ProductModel::Row(shelf_id)))
                        } else {
                            Turn::To(Phase::FindBucket { shelf_id })
                        },
                    }
                },
                Phase::AddBucket { .. } => Turn::To(
                    Phase::FillBucket { bucket_id: id, bottle: Bottle::LocalStorage },
                ),
                Phase::FillBucket { bucket_id, bottle } => match bottle.following() {
                    Some(bottle) => Turn::To(Phase::FillBucket { bucket_id, bottle }),
                    None => if self.goal is Bucket {
                        Turn::End(Ok(ProductModel::Row(bucket_id)))
                    } else {
                        Turn::To(Phase::FindBottle { bucket_id })
                    },
                },
                Phase::AddIdbBottle { .. } => Turn::To(Phase::AddDatabase { bottle_id: id }),
                Phase::AddDatabase { .. } => Turn::To(Phase::AddDirectory { database_id: id }),
                Phase::AddDirectory { .. } => Turn::End(
                    Ok(
                        ProductModel::Directory(
                            directory(self.origin(), self.bucket(), self.db()),
                        ),
                    ),
                ),
                _ => Turn::To(Phase::AddDefaultBucket { shelf_id: id }),
            },
        }
    }

    /// The task after an answer, and what is to be done next. At the end it stays where it is.
    pub open spec fn after(self, answer: AnswerModel) -> (TaskModel, NextModel) {
        match self.turn(answer) {
            Turn::To(phase) => {
                let then = TaskModel { goal: self.goal, phase };
                (then, NextModel::Run(then.statement()))
            },
            Turn::End(result) => (self, NextModel::Finished(result)),
        }
    }
}

/// A change of the registry that takes more than one statement.
pub struct Task {
    goal: Goal,
    phase: Phase,
}

impl View for Task {
    type V = TaskModel;

    closed spec fn view(&self) -> TaskModel {
        TaskModel { goal: self.goal@, phase: self.phase }
    }
}

impl Task {
    fn origin(&self) -> (r: String)
        ensures
            r@ == self@.origin(),
    {
        match &self.goal {
            Goal::Shelf { origin } => origin.clone(),
            Goal::Directory { origin, .. } => origin.clone(),
            Goal::Bucket { .. } => {
                let none = "".to_owned();
                proof {
                    reveal_strlit("");
                    assert(none@ =~= Seq::empty());
                }
                none
            },
        }
    }

    fn bucket(&self) -> (r: String)
        ensures
            r@ == self@.bucket(),
    {
        match &self.goal {
            Goal::Shelf { .. } => {
                let none = "".to_owned();
                proof {
                    reveal_strlit("");
                    assert(none@ =~= Seq::empty());
                }
                none
            },
            Goal::Directory { bucket, .. } => bucket.clone(),
            Goal::Bucket { name, .. } => name.clone(),
        }
    }

    fn db(&self) -> (r: String)
        ensures
            r@ == self@.db(),
    {
        match &self.goal {
            Goal::Directory { db, .. } => db.clone(),
            _ => {
                let none = "".to_owned();
                proof {
                    reveal_strlit("");
                    assert(none@ =~= Seq::empty());
                }
                none
            },
        }
    }

    fn directory(&self) -> (r: String)
        ensures
            r@ == directory(self@.origin(), self@.bucket(), self@.db()),
    {
        let mut path = join_text("storage/", self.origin().as_str());
        path.append("/");
        path.append(self.bucket().as_str());
        path.append("/");
        path.append(self.db().as_str());
        path
    }

    fn insert_bucket(&self, shelf_id: i64) -> (r: Statement)
        requires
            self@.phase == (Phase::AddBucket { shelf_id }),
        ensures
            r@ == self@.statement(),
    {
        let (persisted, quota, expires): (bool, Option<i64>, Option<i64>) = match &self.goal {
            Goal::Bucket { persisted, quota, expires, .. } => (*persisted, *quota, *expires),
            _ => (false, None, None),
        };
        let mut params: Vec<Value> = Vec::new();
        params.push(Value::Integer(shelf_id));
        params.push(Value::Text(self.bucket()));
        params.push(Value::Integer(flag(persisted)));
        params.push(integer_or_null(quota));
        params.push(integer_or_null(expires));
        let r = Statement { sql: ADD_BUCKET, params };
        assert(r@.params =~= self@.statement().params);
        r
    }

    /// Which statement the task waits for the answer to.
    pub fn phase(&self) -> (r: Phase)
        ensures
            r == self@.phase,
    {
        self.phase
    }

    /// The statement whose answer the task waits for.
    pub fn statement(&self) -> (r: Statement)
        ensures
            r@ == self@.statement(),
    {
        match self.phase {
            Phase::FindShelf => with_one(FIND_SHELF, Value::Text(self.origin())),
            Phase::AddShelf => with_one(ADD_SHELF, Value::Text(self.origin())),
            Phase::AddDefaultBucket { shelf_id } => with_one(
                ADD_DEFAULT_BUCKET,
                Value::Integer(shelf_id),
            ),
            Phase::FillDefaultBucket { bucket_id, bottle, .. } => with_two(
                ADD_BOTTLE,
                Value::Integer(bucket_id),
                text_value(bottle.identifier()),
            ),
            Phase::FindBucket { shelf_id } => with_two(
                FIND_BUCKET,
                Value::Integer(shelf_id),
                Value::Text(self.bucket()),
            ),
            Phase::AddBucket { shelf_id } => self.insert_bucket(shelf_id),
            Phase::FillBucket { bucket_id, bottle } => with_two(
                ADD_BOTTLE,
                Value::Integer(bucket_id),
                text_value(bottle.identifier()),
            ),
            Phase::FindBottle { bucket_id } => with_one(FIND_IDB_BOTTLE, Value::Integer(bucket_id)),
            Phase::AddIdbBottle { bucket_id } => with_one(
                ADD_IDB_BOTTLE,
                Value::Integer(bucket_id),
            ),
            Phase::AddDatabase { bottle_id } => with_two(
                ADD_DATABASE,
                Value::Integer(bottle_id),
                Value::Text(self.db()),
            ),
            Phase::AddDirectory { database_id } => with_two(
                ADD_DIRECTORY,
                Value::Integer(database_id),
                Value::Text(self.directory()),
            ),
        }
    }

    fn go_on(&mut self, phase: Phase) -> (r: Next)
        ensures
            final(self)@ == (TaskModel { goal: old(self)@.goal, phase }),
            r@ == NextModel::Run(final(self)@.statement()),
    {
        self.phase = phase;
        Next::Run(self.statement())
    }

    fn shelf_added(&mut self, shelf_id: i64) -> (r: Next)
        ensures
            final(self)@ == if old(self)@.goal is Shelf {
                old(self)@
            } else {
                TaskModel { goal: old(self)@.goal, phase: Phase::FindBucket { shelf_id } }
            },
            r@ == if old(self)@.goal is Shelf {
                NextModel::Finished(Ok(ProductModel::Row(shelf_id)))
            } else {
                NextModel::Run(final(self)@.statement())
            },
    {
        match &self.goal {
            Goal::Shelf { .. } => Next::Finished(Ok(Product::Row(shelf_id))),
            _ => self.go_on(Phase::FindBucket { shelf_id }),
        }
    }

    fn bucket_added(&mut self, bucket_id: i64) -> (r: Next)
        ensures
            final(self)@ == if old(self)@.goal is Bucket {
                old(self)@
            } else {
                TaskModel { goal: old(self)@.goal, phase: Phase::FindBottle { bucket_id } }
            },
            r@ == if old(self)@.goal is Bucket {
                NextModel::Finished(Ok(ProductModel::Row(bucket_id)))
            } else {
                NextModel::Run(final(self)@.statement())
            },
    {
        match &self.goal {
            Goal::Bucket { .. } => Next::Finished(Ok(Product::Row(bucket_id))),
            _ => self.go_on(Phase::FindBottle { bucket_id }),
        }
    }

    /// Takes note of the answer to the statement, and tells what is to be done next.
    pub fn step(&mut self, answer: Answer) -> (r: Next)
        requires
            old(self)@.valid(),
            fits(old(self)@.phase, answer@),
        ensures
            (final(self)@, r@) == old(self)@.after(answer@),
            final(self)@.valid(),
    {
        match answer {
            Answer::Failed(text) => Next::Finished(Err(text)),
            Answer::Found(Some(id)) => match self.phase {
                Phase::FindShelf => self.go_on(Phase::FindBucket { shelf_id: id }),
                Phase::FindBucket { .. } => self.go_on(Phase::FindBottle { bucket_id: id }),
                _ => self.go_on(Phase::AddDatabase { bottle_id: id }),
            },
            Answer::Found(None) => match self.phase {
                Phase::FindBucket { shelf_id } => self.go_on(Phase::AddBucket { shelf_id }),
                Phase::FindBottle { bucket_id } => self.go_on(Phase::AddIdbBottle { bucket_id }),
                _ => self.go_on(Phase::AddShelf),
            },
            Answer::Added(id) => match self.phase {
                Phase::AddDefaultBucket { shelf_id } => self.go_on(
                    Phase::FillDefaultBucket {
                        shelf_id,
                        bucket_id: id,
                        bottle: Bottle::LocalStorage,
                    },
                ),
                Phase::FillDefaultBucket { shelf_id, bucket_id, bottle } => {
                    match bottle.successor() {
                        Some(bottle) => self.go_on(
                            Phase::FillDefaultBucket { shelf_id, bucket_id, bottle },
                        ),
                        None => self.shelf_added(shelf_id),
                    }
                },
                Phase::AddBucket { .. } => self.go_on(
                    Phase::FillBucket { bucket_id: id, bottle: Bottle::LocalStorage },
                ),
                Phase::FillBucket { bucket_id, bottle } => match bottle.successor() {
                    Some(bottle) => self.go_on(Phase::FillBucket { bucket_id, bottle }),
                    None => self.bucket_added(bucket_id),
                },
                Phase::AddIdbBottle { .. } => self.go_on(Phase::AddDatabase { bottle_id: id }),
                Phase::AddDatabase { .. } => self.go_on(Phase::AddDirectory { database_id: id }),
                Phase::AddDirectory { .. } => Next::Finished(
                    Ok(Product::Directory(self.directory())),
                ),
                _ => self.go_on(Phase::AddDefaultBucket { shelf_id: id }),
            },
        }
    }
}

/// Why a directory cannot be told.
pub enum RegistryError {
    /// None is noted.
    QueryReturnedNoRows,
    /// The lookup failed.
    Failed(String),
}

/// What a registry that is opened is to be made ready with.
pub open spec fn tables() -> Seq<char> {
    CREATE_SHELVES_TABLE@ + CREATE_BUCKETS_TABLE@ + CREATE_BOTTLES_TABLE@ + CREATE_DATABASES_TABLE@
        + CREATE_DIRECTORIES_TABLE@
}

/// The bucket that is meant.
pub open spec fn named_bucket(bucket: Option<Seq<char>>) -> Seq<char> {
    match bucket {
        Some(name) => name,
        None => DEFAULT_BUCKET@,
    }
}

/// The lookup of the directory of the local storage of an origin, in a bucket.
pub open spec fn localstorage_lookup(origin: Seq<char>, bucket: Option<Seq<char>>) -> StatementModel {
    StatementModel {
        sql: FIND_LOCALSTORAGE_DIR@,
        params: seq![ValueModel::Text(origin), ValueModel::Text(named_bucket(bucket))],
    }
}

/// The lookup of the directory of a database of an origin, in a bucket.
pub open spec fn indexeddb_lookup(
    origin: Seq<char>,
    bucket: Option<Seq<char>>,
    db: Seq<char>,
) -> StatementModel {
    StatementModel {
        sql: FIND_INDEXEDDB_DIR@,
        params: seq![
            ValueModel::Text(origin),
            ValueModel::Text(named_bucket(bucket)),
            ValueModel::Text(db),
        ],
    }
}

/// The registry of a container.
pub struct Registry {}

impl Registry {
    /// The statement that finds out whether the registry in an open file has its tables: it does
    /// where a row comes back.
    pub fn probe() -> (r: Statement)
        ensures
            r@ == (StatementModel { sql: HAS_SHELVES@, params: Seq::empty() }),
    {
        plain(HAS_SHELVES)
    }

    /// The registry in an open file, and the statements to run before it is used. There are none
    /// where it has its tables.
    pub fn new(has_shelves: bool) -> (r: (Self, Option<String>))
        ensures
            match r.1 {
                Some(batch) => !has_shelves && batch@ == tables(),
                None => has_shelves,
            },
    {
        if has_shelves {
            (Registry {}, None)
        } else {
            (Registry {}, Some(Self::create_tables()))
        }
    }

    /// The statements that make the tables.
    pub fn create_tables() -> (r: String)
        ensures
            r@ == tables(),
    {
        let mut batch = join_text(CREATE_SHELVES_TABLE, CREATE_BUCKETS_TABLE);
        batch.append(CREATE_BOTTLES_TABLE);
        batch.append(CREATE_DATABASES_TABLE);
        batch.append(CREATE_DIRECTORIES_TABLE);
        batch
    }

    fn bucket_or_default(bucket: Option<&str>) -> (r: String)
        ensures
            r@ == named_bucket(optional_text(bucket)),
    {
        match bucket {
            Some(name) => name.to_owned(),
            None => DEFAULT_BUCKET.to_owned(),
        }
    }

    /// Begins to make a shelf. The task starts with its `statement`.
    pub fn create_shelf(&self, origin: &str) -> (r: Task)
        ensures
            r@ == (TaskModel { goal: GoalModel::Shelf { origin: origin@ }, phase: Phase::AddShelf }),
            r@.valid(),
    {
        Task { goal: Goal::Shelf { origin: origin.to_owned() }, phase: Phase::AddShelf }
    }

    /// Begins to make a bucket on a shelf. The task starts with its `statement`.
    pub fn create_bucket(
        &self,
        shelf_id: i64,
        name: &str,
        persisted: bool,
        quota: Option<i64>,
        expires: Option<i64>,
    ) -> (r: Task)
        ensures
            r@ == (TaskModel {
                goal: GoalModel::Bucket { shelf_id, name: name@, persisted, quota, expires },
                phase: Phase::AddBucket { shelf_id },
            }),
            r@.valid(),
    {
        Task {
            goal: Goal::Bucket { shelf_id, name: name.to_owned(), persisted, quota, expires },
            phase: Phase::AddBucket { shelf_id },
        }
    }

    /// Begins to make a directory for a database. The task starts with its `statement`.
    pub fn create_indexeddb_dir(&self, origin: &str, bucket: Option<&str>, db: &str) -> (r: Task)
        ensures
            r@ == (TaskModel {
                goal: GoalModel::Directory {
                    origin: origin@,
                    bucket: named_bucket(optional_text(bucket)),
                    db: db@,
                },
                phase: Phase::FindShelf,
            }),
            r@.valid(),
    {
        Task {
            goal: Goal::Directory {
                origin: origin.to_owned(),
                bucket: Self::bucket_or_default(bucket),
                db: db.to_owned(),
            },
            phase: Phase::FindShelf,
        }
    }

    /// The lookup of the directory of an origin's local storage. `found_dir` tells the result.
    pub fn get_localstorage_dir(&self, origin: &str, bucket: Option<&str>) -> (r: Statement)
        ensures
            r@ == (StatementModel {
                sql: FIND_LOCALSTORAGE_DIR@,
                params: seq![
                    ValueModel::Text(origin@),
                    ValueModel::Text(
                        named_bucket(optional_text(bucket)),
                    ),
                ],
            }),
            r@ == localstorage_lookup(origin@, optional_text(bucket)),
    {
        let named = Self::bucket_or_default(bucket);
        with_two(
            FIND_LOCALSTORAGE_DIR,
            text_value(origin),
            Value::Text(named),
        )
    }

    /// The lookup of the directory of a database. `found_dir` tells the result.
    pub fn get_indexeddb_dir(&self, origin: &str, bucket: Option<&str>, db: &str) -> (r: Statement)
        ensures
            r@ == (StatementModel {
                sql: FIND_INDEXEDDB_DIR@,
                params: seq![
                    ValueModel::Text(origin@),
                    ValueModel::Text(
                        named_bucket(optional_text(bucket)),
                    ),
                    ValueModel::Text(db@),
                ],
            }),
            r@ == indexeddb_lookup(origin@, optional_text(bucket), db@),
    {
        let named = Self::bucket_or_default(bucket);
        with_three(
            FIND_INDEXEDDB_DIR,
            text_value(origin),
            Value::Text(named),
            text_value(db),
        )
    }

    /// The directory that a lookup found. `row` holds the first column of its row, if there is
    /// one.
    pub fn found_dir(row: Result<Option<String>, String>) -> (r: Result<String, RegistryError>)
        ensures
            r == match row {
                Ok(Some(path)) => Ok::<String, RegistryError>(path),
                Ok(None) => Err(RegistryError::QueryReturnedNoRows),
                Err(text) => Err(RegistryError::Failed(text)),
            },
    {
        match row {
            Ok(Some(path)) => Ok(path),
            Ok(None) => Err(RegistryError::QueryReturnedNoRows),
            Err(text) => Err(RegistryError::Failed(text)),
        }
    }
}

/// How many statements may still come, the current one among them.
pub open spec fn statements_left(phase: Phase) -> nat {
    match phase {
        Phase::FindShelf => 15,
        Phase::AddShelf => 14,
        Phase::AddDefaultBucket { .. } => 13,
        Phase::FillDefaultBucket { bottle, .. } => match bottle {
            Bottle::LocalStorage => 12,
            Bottle::FileSystem => 11,
            Bottle::Cache => 10,
        },
        Phase::FindBucket { .. } => 9,
        Phase::AddBucket { .. } => 8,
        Phase::FillBucket { bottle, .. } => match bottle {
            Bottle::LocalStorage => 7,
            Bottle::FileSystem => 6,
            Bottle::Cache => 5,
        },
        Phase::FindBottle { .. } => 4,
        Phase::AddIdbBottle { .. } => 3,
        Phase::AddDatabase { .. } => 2,
        Phase::AddDirectory { .. } => 1,
    }
}

/// Every answer brings a task closer to its end.
pub proof fn law_task_ends(task: TaskModel, answer: AnswerModel)
    requires
        task.valid(),
        fits(task.phase, answer),
    ensures
        task.turn(answer) matches Turn::To(phase) ==> statements_left(phase) < statements_left(
            task.phase,
        ),
        statements_left(task.phase) == 1 ==> task.turn(answer) is End,
{
}

/// A statement that fails ends the task with that failure; no other answer does.
pub proof fn law_first_failure_is_the_result(task: TaskModel, answer: AnswerModel)
    requires
        task.valid(),
        fits(task.phase, answer),
    ensures
        answer matches AnswerModel::Failed(text) ==> task.after(answer) == (
            task,
            NextModel::Finished(Err(text)),
        ),
        !(answer is Failed) ==> !(task.after(answer).1 matches NextModel::Finished(Err(_))),
{
}

/// A database whose directory was made is in the directory that is named after its origin, its
/// bucket and itself, and this is the directory that the last statement notes.
pub proof fn law_directory_is_noted(task: TaskModel, answer: AnswerModel, product: ProductModel)
    requires
        task.valid(),
        fits(task.phase, answer),
        task.goal is Directory,
        task.after(answer).1 == NextModel::Finished(Ok(product)),
    ensures
        ({
            let path = directory(task.origin(), task.bucket(), task.db());
            &&& product == ProductModel::Directory(path)
            &&& task.statement().sql == ADD_DIRECTORY@
            &&& task.statement().params[1] == ValueModel::Text(path)
        }),
{
}

/// A new bucket gets the three bottles, and its own id is what comes back.
pub proof fn law_bucket_is_filled(
    task: TaskModel,
    shelf_id: i64,
    bucket_id: i64,
    first: i64,
    second: i64,
    third: i64,
)
    requires
        task.goal is Bucket,
        task.phase == (Phase::AddBucket { shelf_id }),
    ensures
        ({
            let added = task.after(AnswerModel::Added(bucket_id));
            let one = added.0.after(AnswerModel::Added(first));
            let two = one.0.after(AnswerModel::Added(second));
            let three = two.0.after(AnswerModel::Added(third));
            &&& added.1 == NextModel::Run(bottle_in(bucket_id, Bottle::LocalStorage))
            &&& one.1 == NextModel::Run(bottle_in(bucket_id, Bottle::FileSystem))
            &&& two.1 == NextModel::Run(bottle_in(bucket_id, Bottle::Cache))
            &&& three.1 == NextModel::Finished(Ok(ProductModel::Row(bucket_id)))
        }),
{
}

/// The statement that puts a bottle into a bucket.
pub open spec fn bottle_in(bucket_id: i64, bottle: Bottle) -> StatementModel {
    StatementModel {
        sql: ADD_BOTTLE@,
        params: seq![ValueModel::Integer(bucket_id), ValueModel::Text(bottle.name())],
    }
}

/// A new shelf gets a default bucket with the three bottles, and its own id is what comes back.
pub proof fn law_shelf_is_filled(
    task: TaskModel,
    shelf_id: i64,
    bucket_id: i64,
    first: i64,
    second: i64,
    third: i64,
)
    requires
        task.goal is Shelf,
        task.phase == Phase::AddShelf,
    ensures
        ({
            let added = task.after(AnswerModel::Added(shelf_id));
            let filled = added.0.after(AnswerModel::Added(bucket_id));
            let one = filled.0.after(AnswerModel::Added(first));
            let two = one.0.after(AnswerModel::Added(second));
            let three = two.0.after(AnswerModel::Added(third));
            &&& added.1 == NextModel::Run(
                StatementModel {
                    sql: ADD_DEFAULT_BUCKET@,
                    params: seq![ValueModel::Integer(shelf_id)],
                },
            )
            &&& filled.1 == NextModel::Run(bottle_in(bucket_id, Bottle::LocalStorage))
            &&& one.1 == NextModel::Run(bottle_in(bucket_id, Bottle::FileSystem))
            &&& two.1 == NextModel::Run(bottle_in(bucket_id, Bottle::Cache))
            &&& three.1 == NextModel::Finished(Ok(ProductModel::Row(shelf_id)))
        }),
{
}

} // verus!

//! Which database is meant: an origin and a name.
use crate::folder_names::{folder_name, folder_of, is_hyphenated_uuid};
use crate::keyed_map::MapKey;
use crate::text::texts;
use vstd::prelude::*;

verus! {

/// The origin that a database belongs to. An opaque origin is told apart from every other one by
/// its number; any other origin is given by its ASCII serialization.
pub enum ImmutableOrigin {
    Opaque(u64),
    Tuple(String),
}

/// What an `ImmutableOrigin` stands for.
pub enum OriginModel {
    Opaque(u64),
    Tuple(Seq<char>),
}

impl View for ImmutableOrigin {
    type V = OriginModel;

    open spec fn view(&self) -> OriginModel {
        match self {
            ImmutableOrigin::Opaque(id) => OriginModel::Opaque(*id),
            ImmutableOrigin::Tuple(text) => OriginModel::Tuple(text@),
        }
    }
}

/// The ASCII serialization of an origin: `null` for an opaque one.
pub open spec fn serialization(origin: OriginModel) -> Seq<char> {
    match origin {
        OriginModel::Opaque(_) => "null"@,
        OriginModel::Tuple(text) => text,
    }
}

impl ImmutableOrigin {
    /// The ASCII serialization of the origin.
    pub fn ascii_serialization(&self) -> (r: String)
        ensures
            r@ == serialization(self@),
    {
        match self {
            ImmutableOrigin::Opaque(_) => "null".to_owned(),
            ImmutableOrigin::Tuple(text) => text.clone(),
        }
    }

    /// Whether two origins are the same.
    pub fn same_origin(&self, other: &ImmutableOrigin) -> (r: bool)
        ensures
            r == (self@ == other@),
    {
        match self {
            ImmutableOrigin::Opaque(a) => match other {
                ImmutableOrigin::Opaque(b) => *a == *b,
                ImmutableOrigin::Tuple(_) => false,
            },
            ImmutableOrigin::Tuple(a) => match other {
                ImmutableOrigin::Opaque(_) => false,
                ImmutableOrigin::Tuple(b) => *a == *b,
            },
        }
    }
}

impl Clone for ImmutableOrigin {
    fn clone(&self) -> (r: Self)
        ensures
            r == *self,
    {
        match self {
            ImmutableOrigin::Opaque(id) => ImmutableOrigin::Opaque(*id),
            ImmutableOrigin::Tuple(text) => ImmutableOrigin::Tuple(text.clone()),
        }
    }
}

/// A database: the origin it belongs to and its name there.
pub struct IndexedDBDescription {
    pub origin: ImmutableOrigin,
    pub name: String,
}

/// What an `IndexedDBDescription` stands for.
pub struct DescriptionModel {
    pub origin: OriginModel,
    pub name: Seq<char>,
}

impl View for IndexedDBDescription {
    type V = DescriptionModel;

    open spec fn view(&self) -> DescriptionModel {
        DescriptionModel { origin: self.origin@, name: self.name@ }
    }
}

impl MapKey for IndexedDBDescription {
    type Model = DescriptionModel;

    open spec fn model(&self) -> DescriptionModel {
        self@
    }

    fn same_key(&self, other: &Self) -> (r: bool) {
        self.origin.same_origin(&other.origin) && self.name == other.name
    }
}

impl Clone for IndexedDBDescription {
    fn clone(&self) -> (r: Self)
        ensures
            r == *self,
    {
        IndexedDBDescription { origin: self.origin.clone(), name: self.name.clone() }
    }
}

/// The folder of a database below the base directory: a folder for the serialization of its
/// origin, and in it one for its name.
pub open spec fn path_of(description: DescriptionModel) -> Seq<Seq<char>> {
    seq![folder_of(serialization(description.origin)), folder_of(description.name)]
}

impl IndexedDBDescription {
    /// The folder, below the base directory, where all data of this database is stored: the
    /// segments of its path from the outermost on.
    pub fn as_path(&self) -> (r: Vec<String>)
        ensures
            texts(r@) == path_of(self@),
            forall|i: int| 0 <= i < r@.len() ==> is_hyphenated_uuid((#[trigger] r@[i])@),
    {
        let mut path: Vec<String> = Vec::new();
        let serialized = self.origin.ascii_serialization();
        path.push(folder_name(serialized.as_str()));
        path.push(folder_name(self.name.as_str()));
        assert(texts(path@) =~= path_of(self@));
        path
    }
}

/// Where a database is kept: in the folder made from the serialization of its origin, in the folder
/// made from its name. All opaque origins have the same serialization.
pub proof fn law_database_has_its_folder(description: DescriptionModel)
    ensures
        path_of(description).len() == 2,
        path_of(description)[1] == folder_of(description.name),
        description.origin matches OriginModel::Tuple(text) ==> path_of(description)[0]
            == folder_of(text),
        description.origin is Opaque ==> path_of(description)[0] == folder_of("null"@),
{
}

} // verus!

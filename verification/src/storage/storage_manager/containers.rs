//! Containers and the folders that they are kept in.
use crate::folder_names::{folder_name, folder_of, is_hyphenated_uuid};
use crate::keyed_map::MapKey;
use crate::text::{join_text, same_text};
use vstd::prelude::*;

verus! {

/// Which container is meant.
pub enum ContainerIdent {
    /// The one that is always there.
    Default,
    /// One that stays until it is deleted.
    Persistent(String),
    /// One that is gone with the process.
    Private(String),
}

/// What a `ContainerIdent` stands for.
pub enum IdentModel {
    Default,
    Persistent(Seq<char>),
    Private(Seq<char>),
}

impl View for ContainerIdent {
    type V = IdentModel;

    open spec fn view(&self) -> IdentModel {
        match self {
            ContainerIdent::Default => IdentModel::Default,
            ContainerIdent::Persistent(name) => IdentModel::Persistent(name@),
            ContainerIdent::Private(name) => IdentModel::Private(name@),
        }
    }
}

impl Clone for ContainerIdent {
    fn clone(&self) -> (r: Self)
        ensures
            r == *self,
    {
        match self {
            ContainerIdent::Default => ContainerIdent::Default,
            ContainerIdent::Persistent(name) => ContainerIdent::Persistent(name.clone()),
            ContainerIdent::Private(name) => ContainerIdent::Private(name.clone()),
        }
    }
}

impl MapKey for ContainerIdent {
    type Model = IdentModel;

    open spec fn model(&self) -> IdentModel {
        self@
    }

    fn same_key(&self, other: &Self) -> (r: bool) {
        match (self, other) {
            (ContainerIdent::Default, ContainerIdent::Default) => true,
            (ContainerIdent::Persistent(a), ContainerIdent::Persistent(b)) => *a == *b,
            (ContainerIdent::Private(a), ContainerIdent::Private(b)) => *a == *b,
            _ => false,
        }
    }
}

/// Why a container could not be created.
pub enum CreateContainerError {
    /// Its folder is there.
    ContainerExists,
    /// Something else went wrong.
    Other(String),
}

/// What a `CreateContainerError` stands for.
pub enum CreateErrorModel {
    ContainerExists,
    Other(Seq<char>),
}

impl View for CreateContainerError {
    type V = CreateErrorModel;

    open spec fn view(&self) -> CreateErrorModel {
        match self {
            CreateContainerError::ContainerExists => CreateErrorModel::ContainerExists,
            CreateContainerError::Other(text) => CreateErrorModel::Other(text@),
        }
    }
}

/// The folder of a container: `default`, `c-` and the name, or a UUID made from the name.
pub open spec fn container_folder(ident: IdentModel) -> Seq<char> {
    match ident {
        IdentModel::Default => "default"@,
        IdentModel::Persistent(name) => "c-"@ + name,
        IdentModel::Private(name) => folder_of(name),
    }
}

/// The container that a folder found on disk belongs to. A folder that is neither the default
/// container's nor a persistent one's is what a private container left behind.
pub open spec fn container_in(folder: Seq<char>) -> Option<IdentModel> {
    if folder == "default"@ {
        Some(IdentModel::Default)
    } else if "c-"@.is_prefix_of(folder) {
        Some(IdentModel::Persistent(folder.skip("c-"@.len() as int)))
    } else {
        None
    }
}

/// The folder of a container that survives the process is taken for that container's when it is
/// found again.
pub proof fn law_folder_is_recognized(ident: IdentModel)
    requires
        !(ident is Private),
    ensures
        container_in(container_folder(ident)) == Some(ident),
{
    reveal_strlit("default");
    reveal_strlit("c-");
    match ident {
        IdentModel::Persistent(name) => {
            let folder = "c-"@ + name;
            assert(folder[1] == '-');
            assert("default"@[1] == 'e');
            assert(folder.skip(2) =~= name);
            assert(folder.take(2) =~= "c-"@);
        },
        _ => {},
    }
}

/// Two containers that survive the process have folders of their own.
pub proof fn law_folders_are_distinct(a: IdentModel, b: IdentModel)
    requires
        !(a is Private),
        !(b is Private),
        container_folder(a) == container_folder(b),
    ensures
        a == b,
{
    law_folder_is_recognized(a);
    law_folder_is_recognized(b);
}

/// The folder of a private container is never taken for that of another kind of container.
pub proof fn law_uuid_folder_is_private(folder: Seq<char>)
    requires
        is_hyphenated_uuid(folder),
    ensures
        container_in(folder) is None,
{
    reveal_strlit("default");
    reveal_strlit("c-");
    assert("c-"@[1] == '-');
    assert(folder[1] != '-');
    if "c-"@.is_prefix_of(folder) {
        assert(folder.take(2)[1] == folder[1]);
    }
}

impl ContainerIdent {
    /// The folder of the container. A container is told by its folder, except that a private one
    /// is only told to be private.
    pub fn folder(&self) -> (r: String)
        ensures
            r@ == container_folder(self@),
            container_in(r@) == if self@ is Private {
                None
            } else {
                Some(self@)
            },
    {
        match self {
            ContainerIdent::Default => {
                proof {
                    law_folder_is_recognized(IdentModel::Default);
                }
                "default".to_owned()
            },
            ContainerIdent::Persistent(name) => {
                proof {
                    law_folder_is_recognized(IdentModel::Persistent(name@));
                }
                join_text("c-", name.as_str())
            },
            ContainerIdent::Private(name) => {
                let folder = folder_name(name.as_str());
                proof {
                    law_uuid_folder_is_private(folder@);
                }
                folder
            },
        }
    }

    /// The container that a folder found on disk belongs to.
    pub fn from_folder(folder: &str) -> (r: Option<ContainerIdent>)
        ensures
            match r {
                Some(ident) => container_in(folder@) == Some(ident@),
                None => container_in(folder@) is None,
            },
    {
        proof {
            reveal_strlit("c-");
        }
        if same_text(folder, "default") {
            return Some(ContainerIdent::Default);
        }
        let n = folder.unicode_len();
        if n >= 2 && folder.get_char(0) == 'c' && folder.get_char(1) == '-' {
            let name = folder.substring_char(2, n);
            assert(folder@.take(2) =~= "c-"@);
            assert(name@ =~= folder@.skip(2));
            Some(ContainerIdent::Persistent(name.to_owned()))
        } else {
            assert(!"c-"@.is_prefix_of(folder@)) by {
                if "c-"@.is_prefix_of(folder@) {
                    assert(folder@.take(2)[0] == folder@[0]);
                    assert(folder@.take(2)[1] == folder@[1]);
                }
            }
            None
        }
    }
}

/// A folder found on disk is taken for the default container exactly where it is called `default`,
/// for the persistent container of a name exactly where it is called `c-` and that name, and for
/// what a private container left behind otherwise.
pub proof fn law_folders_tell_their_container(folder: Seq<char>, name: Seq<char>)
    ensures
        container_in(folder) == Some(IdentModel::Default) <==> folder == "default"@,
        container_in(folder) == Some(IdentModel::Persistent(name)) <==> folder == "c-"@ + name,
        container_in(folder) != Some(IdentModel::Private(name)),
{
    reveal_strlit("default");
    reveal_strlit("c-");
    assert("c-"@[1] == '-' && "default"@[1] == 'e');
    if folder == "c-"@ + name {
        law_folder_is_recognized(IdentModel::Persistent(name));
    }
    if container_in(folder) == Some(IdentModel::Persistent(name)) {
        assert(folder.take(2) =~= "c-"@);
        assert(folder =~= "c-"@ + folder.skip(2));
    }
}

} // verus!

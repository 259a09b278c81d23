//! The storage manager: loads the containers that it finds, and creates and deletes containers
//! on request. It decides; the caller looks at the disk, opens registries, and reports back.
use crate::folder_names::folder_of;
use crate::keyed_map::KeyedMap;
use crate::storage::storage_manager::containers::{
    container_folder, container_in, ContainerIdent, CreateContainerError, CreateErrorModel,
    IdentModel,
};
use crate::text::{clone_texts, join_text, texts};
use vstd::prelude::*;
use vstd::seq_lib::lemma_seq_contains_after_push;

verus! {

/// Makes the handle of a running storage manager. Its files go below `config_dir`.
pub trait StorageManagerThreadFactory: Sized {
    fn new(config_dir: Option<String>) -> Self;
}

/// A message to the storage manager. The channel that the reply goes to is the caller's business.
pub enum StorageManagerThreadMsg {
    /// Create a storage container.
    CreateContainer(ContainerIdent),
    /// Delete a storage container.
    DeleteContainer(ContainerIdent),
    /// Shut down.
    Exit,
}

/// What a `StorageManagerThreadMsg` stands for.
pub enum MessageModel {
    CreateContainer(IdentModel),
    DeleteContainer(IdentModel),
    Exit,
}

impl View for StorageManagerThreadMsg {
    type V = MessageModel;

    open spec fn view(&self) -> MessageModel {
        match self {
            StorageManagerThreadMsg::CreateContainer(ident) => MessageModel::CreateContainer(
                ident@,
            ),
            StorageManagerThreadMsg::DeleteContainer(ident) => MessageModel::DeleteContainer(
                ident@,
            ),
            StorageManagerThreadMsg::Exit => MessageModel::Exit,
        }
    }
}

/// What a container is created for.
#[derive(Clone, Copy, Debug, PartialEq, Eq, Structural)]
pub enum Purpose {
    /// There is no default container at startup.
    Startup,
    /// It was asked for.
    Request,
    /// The default container was deleted.
    Replacement,
}

/// How far the creation of a container has come.
#[derive(Clone, Copy, Debug, PartialEq, Eq, Structural)]
pub enum Stage {
    /// Whether its folder is there is being found out.
    Existence,
    /// Its folder is being made.
    Folder,
    /// Its registry is being opened.
    Registry,
}

/// What the manager waits for.
pub enum Phase {
    /// The folders in the storage directory.
    Listing,
    /// The registry in the first of the folders still to be looked at to be opened.
    Scanning { folders: Vec<String> },
    /// The folder of a private container that was left behind to be removed. The folders are still
    /// to be looked at.
    Cleaning { folders: Vec<String> },
    /// A stage of the creation of a container to be over.
    Creating { ident: ContainerIdent, stage: Stage, purpose: Purpose },
    /// The folder of a container to be removed.
    Removing { ident: ContainerIdent },
    /// A message.
    Idle,
    /// The folder of the first of these private containers to be removed. Then those of the others
    /// are, and then it stops, with a reply where it was asked to.
    Closing { left: Vec<ContainerIdent>, reply: bool },
    /// Nothing: it has stopped.
    Stopped,
}

/// What a `Phase` stands for.
pub enum PhaseModel {
    Listing,
    /// The folders still to be looked at, the current one first.
    Scanning { folders: Seq<Seq<char>> },
    Cleaning { folders: Seq<Seq<char>> },
    Creating { ident: IdentModel, stage: Stage, purpose: Purpose },
    Removing { ident: IdentModel },
    Idle,
    Closing { left: Seq<IdentModel>, reply: bool },
    Stopped,
}

impl View for Phase {
    type V = PhaseModel;

    open spec fn view(&self) -> PhaseModel {
        match self {
            Phase::Listing => PhaseModel::Listing,
            Phase::Scanning { folders } => PhaseModel::Scanning { folders: texts(folders@) },
            Phase::Cleaning { folders } => PhaseModel::Cleaning { folders: texts(folders@) },
            Phase::Creating { ident, stage, purpose } => PhaseModel::Creating {
                ident: ident@,
                stage: *stage,
                purpose: *purpose,
            },
            Phase::Removing { ident } => PhaseModel::Removing { ident: ident@ },
            Phase::Idle => PhaseModel::Idle,
            Phase::Closing { left, reply } => PhaseModel::Closing {
                left: idents(left@),
                reply: *reply,
            },
            Phase::Stopped => PhaseModel::Stopped,
        }
    }
}

/// The containers that the members of a list stand for.
pub open spec fn idents(list: Seq<ContainerIdent>) -> Seq<IdentModel> {
    list.map_values(|ident: ContainerIdent| ident@)
}

/// What happened.
pub enum Event {
    /// The names of the folders in the storage directory, which was made if it was not there.
    Listed(Vec<String>),
    /// The result of opening a registry.
    Opened(Result<(), String>),
    /// Whether a folder is there.
    Exists(bool),
    /// The result of making a folder.
    Made(Result<(), String>),
    /// The result of removing a folder.
    Removed(Result<(), String>),
    /// A message came in.
    Message(StorageManagerThreadMsg),
    /// No message will come in any more.
    Disconnected,
}

/// What an `Event` stands for.
pub enum EventModel {
    Listed(Seq<Seq<char>>),
    Opened(Result<(), Seq<char>>),
    Exists(bool),
    Made(Result<(), Seq<char>>),
    Removed(Result<(), Seq<char>>),
    Message(MessageModel),
    Disconnected,
}

/// What the result of a step on the disk stands for.
pub open spec fn step_model(r: Result<(), String>) -> Result<(), Seq<char>> {
    match r {
        Ok(_) => Ok(()),
        Err(text) => Err(text@),
    }
}

impl View for Event {
    type V = EventModel;

    open spec fn view(&self) -> EventModel {
        match self {
            Event::Listed(names) => EventModel::Listed(texts(names@)),
            Event::Opened(r) => EventModel::Opened(step_model(*r)),
            Event::Exists(there) => EventModel::Exists(*there),
            Event::Made(r) => EventModel::Made(step_model(*r)),
            Event::Removed(r) => EventModel::Removed(step_model(*r)),
            Event::Message(message) => EventModel::Message(message@),
            Event::Disconnected => EventModel::Disconnected,
        }
    }
}

/// What is to be done next. Paths are given by their segments.
pub enum Action {
    /// Open the registry in this file; where its tables are not there yet, make them.
    OpenRegistry(Vec<String>),
    /// Find out whether this folder is there.
    CheckExists(Vec<String>),
    /// Make this folder and those above it.
    MakeFolder(Vec<String>),
    /// Remove this folder and everything in it. Whatever registry of its is open, is to be
    /// closed first.
    RemoveFolder(Vec<String>),
    /// Wait for a message.
    Receive,
    /// Reply to a request to create a container, then wait for a message.
    ReplyCreated(Result<(), CreateContainerError>),
    /// Reply to a request to delete a container, then wait for a message.
    ReplyDeleted(Result<(), String>),
    /// Reply to the request to shut down, and stop.
    ReplyExit,
    /// Stop.
    Stop,
}

/// What an `Action` stands for.
pub enum ActionModel {
    OpenRegistry(Seq<Seq<char>>),
    CheckExists(Seq<Seq<char>>),
    MakeFolder(Seq<Seq<char>>),
    RemoveFolder(Seq<Seq<char>>),
    Receive,
    ReplyCreated(Result<(), CreateErrorModel>),
    ReplyDeleted(Result<(), Seq<char>>),
    ReplyExit,
    Stop,
}

impl View for Action {
    type V = ActionModel;

    open spec fn view(&self) -> ActionModel {
        match self {
            Action::OpenRegistry(path) => ActionModel::OpenRegistry(texts(path@)),
            Action::CheckExists(path) => ActionModel::CheckExists(texts(path@)),
            Action::MakeFolder(path) => ActionModel::MakeFolder(texts(path@)),
            Action::RemoveFolder(path) => ActionModel::RemoveFolder(texts(path@)),
            Action::Receive => ActionModel::Receive,
            Action::ReplyCreated(r) => ActionModel::ReplyCreated(
                match *r {
                    Ok(_) => Ok(()),
                    Err(e) => Err(e@),
                },
            ),
            Action::ReplyDeleted(r) => ActionModel::ReplyDeleted(step_model(*r)),
            Action::ReplyExit => ActionModel::ReplyExit,
            Action::Stop => ActionModel::Stop,
        }
    }
}

/// The manager: where the containers are kept, which of them are loaded, and what it waits for.
pub struct ManagerModel {
    pub storage_dir: Seq<Seq<char>>,
    pub registries: Set<IdentModel>,
    pub phase: PhaseModel,
}

/// Whether the manager waits for an event of this kind.
pub open spec fn fits(phase: PhaseModel, event: EventModel) -> bool {
    match event {
        EventModel::Listed(_) => phase is Listing,
        EventModel::Opened(_) => phase is Scanning || (phase matches PhaseModel::Creating {
            stage,
            ..
        } && stage == Stage::Registry),
        EventModel::Exists(_) => phase matches PhaseModel::Creating { stage, .. } && stage
            == Stage::Existence,
        EventModel::Made(_) => phase matches PhaseModel::Creating { stage, .. } && stage
            == Stage::Folder,
        EventModel::Removed(_) => phase is Cleaning || phase is Removing || phase is Closing,
        EventModel::Message(_) => phase is Idle,
        EventModel::Disconnected => phase is Idle,
    }
}

/// Whether these are the private ones of some containers, each once.
pub open spec fn lists_private(order: Seq<IdentModel>, registries: Set<IdentModel>) -> bool {
    &&& order.no_duplicates()
    &&& forall|ident: IdentModel| #[trigger]
        order.contains(ident) <==> registries.contains(ident) && ident is Private
}

impl ManagerModel {
    /// There is a folder to look at while the manager scans. While it closes, there is a private
    /// container to go, and those that are to go are the private ones that are loaded.
    pub open spec fn valid(self) -> bool {
        match self.phase {
            PhaseModel::Scanning { folders } => folders.len() > 0,
            PhaseModel::Closing { left, .. } => left.len() > 0 && lists_private(
                left,
                self.registries,
            ),
            _ => true,
        }
    }

    /// The folder of a container.
    pub open spec fn path(self, ident: IdentModel) -> Seq<Seq<char>> {
        self.storage_dir.push(container_folder(ident))
    }

    /// The same, but waiting for something else.
    pub open spec fn waiting(self, phase: PhaseModel) -> ManagerModel {
        ManagerModel { storage_dir: self.storage_dir, registries: self.registries, phase }
    }

    /// The same, with one more container loaded.
    pub open spec fn loaded(self, ident: IdentModel) -> ManagerModel {
        ManagerModel {
            storage_dir: self.storage_dir,
            registries: self.registries.insert(ident),
            phase: self.phase,
        }
    }

    /// The same, with a container no longer loaded.
    pub open spec fn unloaded(self, ident: IdentModel) -> ManagerModel {
        ManagerModel {
            storage_dir: self.storage_dir,
            registries: self.registries.remove(ident),
            phase: self.phase,
        }
    }

    /// Begins to create a container: first it is found out whether its folder is there.
    pub open spec fn create(self, ident: IdentModel, purpose: Purpose) -> (
        ManagerModel,
        ActionModel,
    ) {
        (
            self.waiting(PhaseModel::Creating { ident, stage: Stage::Existence, purpose }),
            ActionModel::CheckExists(self.path(ident)),
        )
    }

    /// Ends the creation of a container: it is loaded if it was created, and whoever asked for
    /// it is told. The default container is created for nobody in particular.
    pub open spec fn created(
        self,
        ident: IdentModel,
        purpose: Purpose,
        result: Result<(), CreateErrorModel>,
    ) -> (ManagerModel, ActionModel) {
        let then = if result is Ok {
            self.loaded(ident)
        } else {
            self
        };
        (
            then.waiting(PhaseModel::Idle),
            match purpose {
                Purpose::Startup => ActionModel::Receive,
                Purpose::Request => ActionModel::ReplyCreated(result),
                Purpose::Replacement => ActionModel::ReplyDeleted(Ok(())),
            },
        )
    }

    /// Ends the scan: the default container is created if it was not found.
    pub open spec fn scanned(self) -> (ManagerModel, ActionModel) {
        if self.registries.contains(IdentModel::Default) {
            (self.waiting(PhaseModel::Idle), ActionModel::Receive)
        } else {
            self.create(IdentModel::Default, Purpose::Startup)
        }
    }

    /// Goes on with the scan of these folders.
    pub open spec fn scan(self, folders: Seq<Seq<char>>) -> (ManagerModel, ActionModel) {
        if folders.len() == 0 {
            self.scanned()
        } else {
            (
                self.waiting(PhaseModel::Scanning { folders }),
                ActionModel::OpenRegistry(
                    self.storage_dir.push(folders[0]).push("registry.sqlite"@),
                ),
            )
        }
    }

    /// Goes on with the removal of these private containers, and stops when none is left.
    pub open spec fn close(self, left: Seq<IdentModel>, reply: bool) -> (ManagerModel, ActionModel) {
        if left.len() == 0 {
            (
                self.waiting(PhaseModel::Stopped),
                if reply {
                    ActionModel::ReplyExit
                } else {
                    ActionModel::Stop
                },
            )
        } else {
            (
                self.waiting(PhaseModel::Closing { left, reply }),
                ActionModel::RemoveFolder(self.path(left[0])),
            )
        }
    }

    /// Where an event takes the manager, and what is to be done about it. `order` is the order in
    /// which the private containers go if the event ends it all.
    pub open spec fn after(self, event: EventModel, order: Seq<IdentModel>) -> (
        ManagerModel,
        ActionModel,
    ) {
        match event {
            EventModel::Listed(folders) => self.scan(folders),
            EventModel::Opened(result) => match self.phase {
                PhaseModel::Scanning { folders } => if result is Err {
                    self.scan(folders.skip(1))
                } else {
                    match container_in(folders[0]) {
                        Some(ident) => self.loaded(ident).scan(folders.skip(1)),
                        None => (
                            self.waiting(PhaseModel::Cleaning { folders: folders.skip(1) }),
                            ActionModel::RemoveFolder(self.storage_dir.push(folders[0])),
                        ),
                    }
                },
                PhaseModel::Creating { ident, purpose, .. } => self.created(
                    ident,
                    purpose,
                    match result {
                        Ok(_) => Ok(()),
                        Err(text) => Err(
                            CreateErrorModel::Other("Failed to create registry: "@ + text),
                        ),
                    },
                ),
                _ => (self, ActionModel::Stop),
            },
            EventModel::Exists(there) => match self.phase {
                PhaseModel::Creating { ident, purpose, .. } => if there {
                    self.created(ident, purpose, Err(CreateErrorModel::ContainerExists))
                } else {
                    (
                        self.waiting(
                            PhaseModel::Creating { ident, stage: Stage::Folder, purpose },
                        ),
                        ActionModel::MakeFolder(self.path(ident)),
                    )
                },
                _ => (self, ActionModel::Stop),
            },
            EventModel::Made(result) => match self.phase {
                PhaseModel::Creating { ident, purpose, .. } => match result {
                    Err(text) => self.created(
                        ident,
                        purpose,
                        Err(
                            CreateErrorModel::Other(
                                "Failed to create container directory: "@ + text,
                            ),
                        ),
                    ),
                    Ok(_) => (
                        self.waiting(
                            PhaseModel::Creating { ident, stage: Stage::Registry, purpose },
                        ),
                        ActionModel::OpenRegistry(self.path(ident).push("registry.sqlite"@)),
                    ),
                },
                _ => (self, ActionModel::Stop),
            },
            EventModel::Removed(result) => match self.phase {
                PhaseModel::Removing { ident } => match result {
                    Err(text) => (
                        self.waiting(PhaseModel::Idle),
                        ActionModel::ReplyDeleted(
                            Err("Failed to delete container directory: "@ + text),
                        ),
                    ),
                    Ok(_) => if ident == IdentModel::Default {
                        self.create(ident, Purpose::Replacement)
                    } else {
                        (self.waiting(PhaseModel::Idle), ActionModel::ReplyDeleted(Ok(())))
                    },
                },
                PhaseModel::Cleaning { folders } => self.scan(folders),
                PhaseModel::Closing { left, reply } => self.unloaded(left[0]).close(
                    left.skip(1),
                    reply,
                ),
                _ => (self, ActionModel::Stop),
            },
            EventModel::Message(MessageModel::CreateContainer(ident)) => self.create(
                ident,
                Purpose::Request,
            ),
            EventModel::Message(MessageModel::DeleteContainer(ident)) => (
                self.unloaded(ident).waiting(PhaseModel::Removing { ident }),
                ActionModel::RemoveFolder(self.path(ident)),
            ),
            EventModel::Message(MessageModel::Exit) => self.close(order, true),
            EventModel::Disconnected => self.close(order, false),
        }
    }
}

/// The storage manager.
pub struct StorageManager {
    storage_dir: Vec<String>,
    registries: KeyedMap<ContainerIdent, ()>,
    phase: Phase,
}

impl View for StorageManager {
    type V = ManagerModel;

    closed spec fn view(&self) -> ManagerModel {
        ManagerModel {
            storage_dir: texts(self.storage_dir@),
            registries: self.registries@.dom(),
            phase: self.phase@,
        }
    }
}

impl StorageManager {
    /// A manager of the containers in the folder `storage` of `config_dir`, with none loaded. It
    /// waits for the list of the folders there.
    pub fn new(config_dir: Option<String>) -> (r: Self)
        ensures
            r@ == (ManagerModel {
                storage_dir: match config_dir {
                    Some(dir) => seq![dir@, "storage"@],
                    None => seq!["storage"@],
                },
                registries: Set::empty(),
                phase: PhaseModel::Listing,
            }),
            r@.valid(),
    {
        let ghost given = config_dir;
        let mut storage_dir: Vec<String> = Vec::new();
        match config_dir {
            Some(dir) => storage_dir.push(dir),
            None => {},
        }
        storage_dir.push("storage".to_owned());
        let r = StorageManager {
            storage_dir,
            registries: KeyedMap::new(),
            phase: Phase::Listing,
        };
        assert(r@.storage_dir =~= match given {
            Some(dir) => seq![dir@, "storage"@],
            None => seq!["storage"@],
        });
        assert(r@.registries =~= Set::empty());
        r
    }

    /// The folder in which all containers are kept.
    pub fn storage_dir(&self) -> (r: Vec<String>)
        ensures
            texts(r@) == self@.storage_dir,
    {
        clone_texts(&self.storage_dir)
    }

    /// The folder of a container.
    pub fn container_to_path(&self, ident: &ContainerIdent) -> (r: Vec<String>)
        ensures
            texts(r@) == self@.path(ident@),
    {
        self.below(ident.folder())
    }

    fn below(&self, folder: String) -> (r: Vec<String>)
        ensures
            texts(r@) == self@.storage_dir.push(folder@),
    {
        let mut path = clone_texts(&self.storage_dir);
        path.push(folder);
        assert(texts(path@) =~= self@.storage_dir.push(folder@));
        path
    }

    fn registry_in(mut folder: Vec<String>) -> (r: Vec<String>)
        ensures
            texts(r@) == texts(folder@).push("registry.sqlite"@),
    {
        let ghost before = folder@;
        folder.push("registry.sqlite".to_owned());
        assert(texts(folder@) =~= texts(before).push("registry.sqlite"@));
        folder
    }

    /// Whether the registry of a container is loaded.
    pub fn has_registry(&self, ident: &ContainerIdent) -> (r: bool)
        ensures
            r == self@.registries.contains(ident@),
    {
        self.registries.contains_key(ident)
    }

    /// Whether the manager has stopped.
    pub fn is_stopped(&self) -> (r: bool)
        ensures
            r == (self@.phase is Stopped),
    {
        match self.phase {
            Phase::Stopped => true,
            _ => false,
        }
    }

    /// The registry to open to load a container that was not loaded yet, where its folder is
    /// there.
    pub fn open_container(&self, ident: &ContainerIdent, there: bool) -> (r: Option<Vec<String>>)
        ensures
            match r {
                Some(path) => there && texts(path@) == self@.path(ident@).push("registry.sqlite"@),
                None => !there,
            },
    {
        if !there {
            return None;
        }
        Some(Self::registry_in(self.container_to_path(ident)))
    }

    fn private_containers(&self) -> (r: Vec<ContainerIdent>)
        ensures
            lists_private(idents(r@), self@.registries),
    {
        let mut found: Vec<ContainerIdent> = Vec::new();
        let n: usize = self.registries.len();
        let ghost order = self.registries.order();
        let mut i: usize = 0;
        while i < n
            invariant
                i <= n,
                n == order.len(),
                order == self.registries.order(),
                order.no_duplicates(),
                idents(found@).no_duplicates(),
                forall|ident: IdentModel|
                    idents(found@).contains(ident) <==> ident is Private && order.take(
                        i as int,
                    ).contains(ident),
            decreases n - i,
        {
            let (ident, _) = self.registries.entry(i);
            let ghost before = idents(found@);
            assert(order.take(i + 1) =~= order.take(i as int).push(order[i as int]));
            assert forall|other: IdentModel|
                order.take(i + 1).contains(other) <==> order.take(i as int).contains(other)
                    || other == order[i as int] by {
                lemma_seq_contains_after_push(order.take(i as int), order[i as int], other);
            }
            assert(!order.take(i as int).contains(order[i as int]));
            if let ContainerIdent::Private(_) = ident {
                found.push(ident.clone());
                assert(idents(found@) =~= before.push(ident@));
                assert(!before.contains(ident@));
                assert forall|other: IdentModel|
                    idents(found@).contains(other) <==> before.contains(other) || other
                        == ident@ by {
                    lemma_seq_contains_after_push(before, ident@, other);
                }
                assert forall|a: int, b: int|
                    0 <= a < b < idents(found@).len() implies idents(found@)[a] != idents(
                    found@,
                )[b] by {
                    assert(before.contains(before[a]));
                }
            }
            assert forall|other: IdentModel|
                idents(found@).contains(other) <==> other is Private && order.take(
                    i + 1,
                ).contains(other) by {
                assert(before.contains(other) <==> other is Private && order.take(
                    i as int,
                ).contains(other));
            }
            i += 1;
        }
        assert(order.take(n as int) =~= order);
        assert(lists_private(idents(found@), self@.registries)) by {
            assert forall|ident: IdentModel| #[trigger]
                idents(found@).contains(ident) <==> self@.registries.contains(ident)
                    && ident is Private by {
                assert(self.registries@.contains_key(ident) <==> order.contains(ident));
            }
        }
        found
    }

    fn load(&mut self, ident: ContainerIdent)
        ensures
            final(self)@ == old(self)@.loaded(ident@),
            final(self).phase == old(self).phase,
    {
        self.registries.insert(ident, ());
        assert(self@.registries =~= old(self)@.registries.insert(ident@));
    }

    fn create(&mut self, ident: ContainerIdent, purpose: Purpose) -> (r: Action)
        ensures
            (final(self)@, r@) == old(self)@.create(ident@, purpose),
    {
        let path = self.container_to_path(&ident);
        self.phase = Phase::Creating { ident, stage: Stage::Existence, purpose };
        Action::CheckExists(path)
    }

    fn created(
        &mut self,
        ident: ContainerIdent,
        purpose: Purpose,
        result: Result<(), CreateContainerError>,
    ) -> (r: Action)
        ensures
            (final(self)@, r@) == old(self)@.created(
                ident@,
                purpose,
                match result {
                    Ok(_) => Ok(()),
                    Err(e) => Err(e@),
                },
            ),
    {
        if result.is_ok() {
            self.load(ident);
        }
        self.phase = Phase::Idle;
        match purpose {
            Purpose::Startup => Action::Receive,
            Purpose::Request => Action::ReplyCreated(result),
            Purpose::Replacement => Action::ReplyDeleted(Ok(())),
        }
    }

    fn scanned(&mut self) -> (r: Action)
        ensures
            (final(self)@, r@) == old(self)@.scanned(),
    {
        if self.has_registry(&ContainerIdent::Default) {
            self.phase = Phase::Idle;
            Action::Receive
        } else {
            self.create(ContainerIdent::Default, Purpose::Startup)
        }
    }

    fn scan(&mut self, folders: Vec<String>) -> (r: Action)
        ensures
            (final(self)@, r@) == old(self)@.scan(texts(folders@)),
            final(self)@.valid(),
    {
        if folders.len() == 0 {
            self.scanned()
        } else {
            let path = Self::registry_in(self.below(folders[0].clone()));
            self.phase = Phase::Scanning { folders };
            Action::OpenRegistry(path)
        }
    }

    fn close(&mut self, left: Vec<ContainerIdent>, reply: bool) -> (r: Action)
        requires
            lists_private(idents(left@), old(self)@.registries),
        ensures
            (final(self)@, r@) == old(self)@.close(idents(left@), reply),
            final(self)@.valid(),
            left@.len() == 0 ==> forall|name: Seq<char>|
                !final(self)@.registries.contains(IdentModel::Private(name)),
    {
        if left.len() == 0 {
            assert forall|name: Seq<char>| !self@.registries.contains(
                IdentModel::Private(name),
            ) by {
                assert(!idents(left@).contains(IdentModel::Private(name)));
            }
            self.phase = Phase::Stopped;
            if reply {
                Action::ReplyExit
            } else {
                Action::Stop
            }
        } else {
            let path = self.container_to_path(&left[0]);
            assert(idents(left@)[0] == left@[0]@);
            self.phase = Phase::Closing { left, reply };
            Action::RemoveFolder(path)
        }
    }

    /// Takes note of what happened and tells what is to be done next. The request to shut down is
    /// replied to when no private container is left.
    pub fn step(&mut self, event: Event) -> (r: Action)
        requires
            old(self)@.valid(),
            fits(old(self)@.phase, event@),
        ensures
            exists|order: Seq<IdentModel>| #[trigger]
                lists_private(order, old(self)@.registries) && (final(self)@, r@) == old(
                    self,
                )@.after(event@, order),
            final(self)@.valid(),
            r@ is ReplyExit || r@ is Stop ==> forall|name: Seq<char>|
                !final(self)@.registries.contains(IdentModel::Private(name)),
    {
        let order = self.private_containers();
        let ghost listed = idents(order@);
        assert(lists_private(listed, old(self)@.registries));
        let ghost before = self@;
        let mut phase = Phase::Idle;
        std::mem::swap(&mut phase, &mut self.phase);
        match event {
            Event::Listed(folders) => self.scan(folders),
            Event::Opened(result) => match phase {
                Phase::Scanning { mut folders } => {
                    let ghost left = texts(folders@);
                    let folder = folders.remove(0);
                    assert(texts(folders@) =~= left.skip(1));
                    if result.is_err() {
                        self.scan(folders)
                    } else {
                        match ContainerIdent::from_folder(folder.as_str()) {
                            Some(ident) => {
                                self.load(ident);
                                self.scan(folders)
                            },
                            None => {
                                let path = self.below(folder);
                                self.phase = Phase::Cleaning { folders };
                                Action::RemoveFolder(path)
                            },
                        }
                    }
                },
                Phase::Creating { ident, purpose, .. } => match result {
                    Ok(()) => self.created(ident, purpose, Ok(())),
                    Err(text) => {
                        let text = join_text("Failed to create registry: ", text.as_str());
                        self.created(ident, purpose, Err(CreateContainerError::Other(text)))
                    },
                },
                _ => {
                    assert(false);
                    Action::Stop
                },
            },
            Event::Exists(there) => match phase {
                Phase::Creating { ident, purpose, .. } => {
                    if there {
                        self.created(ident, purpose, Err(CreateContainerError::ContainerExists))
                    } else {
                        let path = self.container_to_path(&ident);
                        self.phase = Phase::Creating { ident, stage: Stage::Folder, purpose };
                        Action::MakeFolder(path)
                    }
                },
                _ => {
                    assert(false);
                    Action::Stop
                },
            },
            Event::Made(result) => match phase {
                Phase::Creating { ident, purpose, .. } => match result {
                    Err(text) => {
                        let text = join_text(
                            "Failed to create container directory: ",
                            text.as_str(),
                        );
                        self.created(ident, purpose, Err(CreateContainerError::Other(text)))
                    },
                    Ok(()) => {
                        let path = Self::registry_in(self.container_to_path(&ident));
                        self.phase = Phase::Creating { ident, stage: Stage::Registry, purpose };
                        Action::OpenRegistry(path)
                    },
                },
                _ => {
                    assert(false);
                    Action::Stop
                },
            },
            Event::Removed(result) => match phase {
                Phase::Removing { ident } => match result {
                    Err(text) => {
                        let text = join_text(
                            "Failed to delete container directory: ",
                            text.as_str(),
                        );
                        self.phase = Phase::Idle;
                        Action::ReplyDeleted(Err(text))
                    },
                    Ok(()) => match ident {
                        ContainerIdent::Default => self.create(
                            ContainerIdent::Default,
                            Purpose::Replacement,
                        ),
                        _ => {
                            self.phase = Phase::Idle;
                            Action::ReplyDeleted(Ok(()))
                        },
                    },
                },
                Phase::Cleaning { folders } => self.scan(folders),
                Phase::Closing { mut left, reply } => {
                    let ghost all = idents(left@);
                    let gone = left.remove(0);
                    assert(idents(left@) =~= all.skip(1));
                    assert(gone@ == all[0]);
                    let _ = self.registries.remove(&gone);
                    assert(self@.registries =~= before.registries.remove(all[0]));
                    proof {
                        lemma_rest_is_private(all, before.registries);
                    }
                    self.close(left, reply)
                },
                _ => {
                    assert(false);
                    Action::Stop
                },
            },
            Event::Message(message) => match message {
                StorageManagerThreadMsg::CreateContainer(ident) => self.create(
                    ident,
                    Purpose::Request,
                ),
                StorageManagerThreadMsg::DeleteContainer(ident) => {
                    let path = self.container_to_path(&ident);
                    let _ = self.registries.remove(&ident);
                    assert(self@.registries =~= before.registries.remove(ident@));
                    self.phase = Phase::Removing { ident };
                    Action::RemoveFolder(path)
                },
                StorageManagerThreadMsg::Exit => self.close(order, true),
            },
            Event::Disconnected => self.close(order, false),
        }
    }
}

proof fn lemma_rest_is_private(all: Seq<IdentModel>, registries: Set<IdentModel>)
    requires
        all.len() > 0,
        lists_private(all, registries),
    ensures
        lists_private(all.skip(1), registries.remove(all[0])),
{
    let rest = all.skip(1);
    assert forall|a: int, b: int| 0 <= a < b < rest.len() implies rest[a] != rest[b] by {
        assert(all[a + 1] != all[b + 1]);
    }
    assert forall|ident: IdentModel| #[trigger]
        rest.contains(ident) <==> registries.remove(all[0]).contains(ident)
            && ident is Private by {
        if rest.contains(ident) {
            let i = choose|i: int| 0 <= i < rest.len() && rest[i] == ident;
            assert(all[i + 1] == ident && all[0] != all[i + 1]);
            assert(all.contains(ident));
        }
        if registries.remove(all[0]).contains(ident) && ident is Private {
            assert(all.contains(ident));
            let i = choose|i: int| 0 <= i < all.len() && all[i] == ident;
            assert(rest[i - 1] == ident);
        }
    }
}

/// A request to create a container whose folder is there is refused, and nothing changes: which
/// containers are loaded is what it was before the request.
pub proof fn law_existing_container_is_refused(
    manager: ManagerModel,
    ident: IdentModel,
    order: Seq<IdentModel>,
)
    requires
        manager.phase is Idle,
    ensures
        ({
            let asked = manager.after(
                EventModel::Message(MessageModel::CreateContainer(ident)),
                order,
            );
            let told = asked.0.after(EventModel::Exists(true), order);
            &&& asked.1 == ActionModel::CheckExists(manager.path(ident))
            &&& told.1 == ActionModel::ReplyCreated(Err(CreateErrorModel::ContainerExists))
            &&& told.0 == manager
        }),
{
}

/// A request to create a container whose folder is not there is answered with success exactly
/// when its folder was made and its registry opened. Then it is loaded, and otherwise nothing
/// changes.
pub proof fn law_new_container_is_loaded(
    manager: ManagerModel,
    ident: IdentModel,
    made: Result<(), Seq<char>>,
    opened: Result<(), Seq<char>>,
    order: Seq<IdentModel>,
)
    requires
        manager.phase is Idle,
    ensures
        ({
            let asked = manager.after(
                EventModel::Message(MessageModel::CreateContainer(ident)),
                order,
            ).0;
            let checked = asked.after(EventModel::Exists(false), order);
            let folder = checked.0.after(EventModel::Made(made), order);
            let told = if made is Ok {
                folder.0.after(EventModel::Opened(opened), order)
            } else {
                folder
            };
            &&& checked.1 == ActionModel::MakeFolder(manager.path(ident))
            &&& made is Ok ==> folder.1 == ActionModel::OpenRegistry(
                manager.path(ident).push("registry.sqlite"@),
            )
            &&& told.1 matches ActionModel::ReplyCreated(reply)
            &&& reply is Ok <==> made is Ok && opened is Ok
            &&& reply is Ok ==> told.0 == manager.loaded(ident)
            &&& reply is Err ==> told.0 == manager
        }),
{
}

/// After a container was deleted it is not loaded, but for the default container: where its
/// folder could be removed and made anew and the registry in it opened, it is loaded again.
pub proof fn law_deleted_container_is_gone(
    manager: ManagerModel,
    ident: IdentModel,
    order: Seq<IdentModel>,
)
    requires
        manager.phase is Idle,
    ensures
        ({
            let asked = manager.after(
                EventModel::Message(MessageModel::DeleteContainer(ident)),
                order,
            );
            let removed = asked.0.after(EventModel::Removed(Ok(())), order);
            let renewed = removed.0.after(EventModel::Exists(false), order).0.after(EventModel::Made(Ok(())), order).0.after(EventModel::Opened(Ok(())), order);
            &&& asked.1 == ActionModel::RemoveFolder(manager.path(ident))
            &&& ident != IdentModel::Default ==> removed == (
                manager.unloaded(ident),
                ActionModel::ReplyDeleted(Ok(())),
            )
            &&& ident == IdentModel::Default ==> renewed == (
                manager.loaded(ident),
                ActionModel::ReplyDeleted(Ok(())),
            )
        }),
{
    assert(manager.unloaded(ident).loaded(ident).registries =~= manager.loaded(ident).registries);
}

/// Only what a step creates or finds is loaded by it, and only what it is asked to delete, or
/// removes at the end, is unloaded.
pub proof fn law_step_changes_one_container(
    manager: ManagerModel,
    event: EventModel,
    ident: IdentModel,
    order: Seq<IdentModel>,
)
    requires
        fits(manager.phase, event),
    ensures
        ({
            let now = manager.after(event, order).0;
            &&& manager.registries.contains(ident) && !now.registries.contains(ident) ==> {
                ||| event == EventModel::Message(MessageModel::DeleteContainer(ident))
                ||| (event is Removed && (manager.phase matches PhaseModel::Closing { left, .. }
                    && left[0] == ident))
            }
            &&& !manager.registries.contains(ident) && now.registries.contains(ident) ==> {
                &&& event matches EventModel::Opened(result)
                &&& result is Ok
                &&& match manager.phase {
                    PhaseModel::Scanning { folders } => container_in(folders[0]) == Some(ident),
                    PhaseModel::Creating { ident: created, .. } => created == ident,
                    _ => false,
                }
            }
            &&& now.storage_dir == manager.storage_dir
        }),
{
}

/// The manager once the folders that it still has to look at are behind it, what it then wants
/// done, and the folders that it had removed on the way, each by its path. `opens` and `removes`
/// tell what comes of opening the registry in a folder and of removing a folder.
pub open spec fn startup(
    now: (ManagerModel, ActionModel),
    opens: spec_fn(Seq<char>) -> Result<(), Seq<char>>,
    removes: spec_fn(Seq<Seq<char>>) -> Result<(), Seq<char>>,
    removed: Seq<Seq<Seq<char>>>,
) -> ((ManagerModel, ActionModel), Seq<Seq<Seq<char>>>)
    decreases folders_left(now.0.phase),
{
    match now.0.phase {
        PhaseModel::Scanning { folders } => if folders.len() > 0 {
            startup(
                now.0.after(EventModel::Opened(opens(folders[0])), Seq::empty()),
                opens,
                removes,
                removed,
            )
        } else {
            (now, removed)
        },
        PhaseModel::Cleaning { .. } => match now.1 {
            ActionModel::RemoveFolder(path) => startup(
                now.0.after(EventModel::Removed(removes(path)), Seq::empty()),
                opens,
                removes,
                removed.push(path),
            ),
            _ => (now, removed),
        },
        _ => (now, removed),
    }
}

/// How much of the scan is still to come.
pub open spec fn folders_left(phase: PhaseModel) -> nat {
    match phase {
        PhaseModel::Scanning { folders } => 2 * folders.len(),
        PhaseModel::Cleaning { folders } => 2 * folders.len() + 1,
        _ => 0,
    }
}

/// Whether the registry in the folder at `i` opens, and the folder belongs to this container, or to
/// none that stays.
pub open spec fn found_at(
    folders: Seq<Seq<char>>,
    opens: spec_fn(Seq<char>) -> Result<(), Seq<char>>,
    i: int,
    owner: Option<IdentModel>,
) -> bool {
    0 <= i < folders.len() && opens(folders[i]) is Ok && container_in(folders[i]) == owner
}

/// Whether the path is that of the folder at `i`, which is what a private container left behind.
pub open spec fn left_at(
    folders: Seq<Seq<char>>,
    opens: spec_fn(Seq<char>) -> Result<(), Seq<char>>,
    i: int,
    storage_dir: Seq<Seq<char>>,
    path: Seq<Seq<char>>,
) -> bool {
    found_at(folders, opens, i, None) && path == storage_dir.push(folders[i])
}

proof fn lemma_startup(
    manager: ManagerModel,
    folders: Seq<Seq<char>>,
    opens: spec_fn(Seq<char>) -> Result<(), Seq<char>>,
    removes: spec_fn(Seq<Seq<char>>) -> Result<(), Seq<char>>,
    removed: Seq<Seq<Seq<char>>>,
    ident: IdentModel,
    path: Seq<Seq<char>>,
)
    ensures
        ({
            let (end, gone) = startup(manager.scan(folders), opens, removes, removed);
            &&& end.0.storage_dir == manager.storage_dir
            &&& end == end.0.scanned()
            &&& end.0.registries.contains(ident) <==> manager.registries.contains(ident) || exists|
                i: int,
            | #[trigger] found_at(folders, opens, i, Some(ident))
            &&& gone.contains(path) <==> removed.contains(path) || exists|i: int| #[trigger]
                left_at(folders, opens, i, manager.storage_dir, path)
        }),
    decreases folders.len(),
{
    if folders.len() > 0 {
        let first = folders[0];
        let rest = folders.skip(1);
        let scanning = manager.scan(folders).0;
        let next = scanning.after(EventModel::Opened(opens(first)), Seq::empty());
        assert(startup(manager.scan(folders), opens, removes, removed) == startup(
            next,
            opens,
            removes,
            removed,
        ));
        assert forall|i: int| #[trigger] found_at(rest, opens, i, Some(ident)) implies found_at(
            folders,
            opens,
            i + 1,
            Some(ident),
        ) by {}
        assert forall|i: int| #[trigger]
            left_at(rest, opens, i, manager.storage_dir, path) implies left_at(
            folders,
            opens,
            i + 1,
            manager.storage_dir,
            path,
        ) by {
            assert(found_at(rest, opens, i, None));
        }
        assert forall|i: int| i > 0 && #[trigger]
            found_at(folders, opens, i, Some(ident)) implies found_at(
            rest,
            opens,
            i - 1,
            Some(ident),
        ) by {}
        assert forall|i: int| i > 0 && #[trigger]
            left_at(folders, opens, i, manager.storage_dir, path) implies left_at(
            rest,
            opens,
            i - 1,
            manager.storage_dir,
            path,
        ) by {
            assert(found_at(folders, opens, i, None));
        }
        if opens(first) is Err {
            assert(next == manager.scan(rest));
            lemma_startup(manager, rest, opens, removes, removed, ident, path);
            assert(!found_at(folders, opens, 0, Some(ident)));
            assert(!left_at(folders, opens, 0, manager.storage_dir, path));
        } else {
            match container_in(first) {
                Some(owner) => {
                    assert(next == manager.loaded(owner).scan(rest));
                    lemma_startup(
                        manager.loaded(owner),
                        rest,
                        opens,
                        removes,
                        removed,
                        ident,
                        path,
                    );
                    assert(found_at(folders, opens, 0, Some(ident)) <==> owner == ident);
                    assert(!left_at(folders, opens, 0, manager.storage_dir, path));
                },
                None => {
                    let at = manager.storage_dir.push(first);
                    assert(next.1 == ActionModel::RemoveFolder(at));
                    assert(next.0.after(EventModel::Removed(removes(at)), Seq::empty())
                        == manager.scan(rest));
                    assert(startup(next, opens, removes, removed) == startup(
                        manager.scan(rest),
                        opens,
                        removes,
                        removed.push(at),
                    ));
                    lemma_startup(manager, rest, opens, removes, removed.push(at), ident, path);
                    lemma_seq_contains_after_push(removed, at, path);
                    assert(!found_at(folders, opens, 0, Some(ident)));
                    assert(found_at(folders, opens, 0, None));
                    assert(left_at(folders, opens, 0, manager.storage_dir, path) <==> path == at);
                },
            }
        }
    }
}

/// At startup every folder is looked at. Of those whose registry opens, each that belongs to the
/// default container or a persistent one is loaded, and each other one, which a private container
/// left behind, is removed; nothing else is loaded or removed. Then the manager waits for messages
/// if the default container was found, and creates it otherwise.
pub proof fn law_every_folder_is_loaded_or_removed(
    manager: ManagerModel,
    folders: Seq<Seq<char>>,
    opens: spec_fn(Seq<char>) -> Result<(), Seq<char>>,
    removes: spec_fn(Seq<Seq<char>>) -> Result<(), Seq<char>>,
    ident: IdentModel,
    path: Seq<Seq<char>>,
)
    requires
        manager.phase is Listing,
        manager.registries == Set::<IdentModel>::empty(),
    ensures
        ({
            let listed = manager.after(EventModel::Listed(folders), Seq::empty());
            let (end, removed) = startup(listed, opens, removes, Seq::empty());
            &&& end.0.registries.contains(ident) <==> exists|i: int| #[trigger]
                found_at(folders, opens, i, Some(ident))
            &&& removed.contains(path) <==> exists|i: int| #[trigger]
                left_at(folders, opens, i, manager.storage_dir, path)
            &&& end == if end.0.registries.contains(IdentModel::Default) {
                (end.0.waiting(PhaseModel::Idle), ActionModel::Receive)
            } else {
                end.0.create(IdentModel::Default, Purpose::Startup)
            }
        }),
{
    lemma_startup(manager, folders, opens, removes, Seq::empty(), ident, path);
}

/// What a private container of an earlier run left behind is not found again: whatever the folders
/// are, none is loaded at startup.
pub proof fn law_private_containers_do_not_survive(
    manager: ManagerModel,
    folders: Seq<Seq<char>>,
    opens: spec_fn(Seq<char>) -> Result<(), Seq<char>>,
    removes: spec_fn(Seq<Seq<char>>) -> Result<(), Seq<char>>,
    name: Seq<char>,
)
    requires
        manager.phase is Listing,
        manager.registries == Set::<IdentModel>::empty(),
    ensures
        !startup(
            manager.after(EventModel::Listed(folders), Seq::empty()),
            opens,
            removes,
            Seq::empty(),
        ).0.0.registries.contains(IdentModel::Private(name)),
{
    lemma_startup(
        manager,
        folders,
        opens,
        removes,
        Seq::empty(),
        IdentModel::Private(name),
        Seq::empty(),
    );
}

/// The manager once the private containers that it still has to remove are behind it, what it then
/// wants done, and the folders that it had removed on the way. `removes` tells what comes of
/// removing a folder.
pub open spec fn shutdown(
    now: (ManagerModel, ActionModel),
    removes: spec_fn(Seq<Seq<char>>) -> Result<(), Seq<char>>,
    removed: Seq<Seq<Seq<char>>>,
) -> ((ManagerModel, ActionModel), Seq<Seq<Seq<char>>>)
    decreases containers_left(now.0.phase),
{
    match (now.0.phase, now.1) {
        (
            PhaseModel::Closing { left, .. },
            ActionModel::RemoveFolder(path),
        ) => if left.len() > 0 {
            shutdown(
                now.0.after(EventModel::Removed(removes(path)), Seq::empty()),
                removes,
                removed.push(path),
            )
        } else {
            (now, removed)
        },
        _ => (now, removed),
    }
}

/// How many private containers are still to be removed.
pub open spec fn containers_left(phase: PhaseModel) -> nat {
    match phase {
        PhaseModel::Closing { left, .. } => left.len(),
        _ => 0,
    }
}

proof fn lemma_shutdown(
    manager: ManagerModel,
    left: Seq<IdentModel>,
    reply: bool,
    removes: spec_fn(Seq<Seq<char>>) -> Result<(), Seq<char>>,
    removed: Seq<Seq<Seq<char>>>,
    ident: IdentModel,
)
    requires
        lists_private(left, manager.registries),
    ensures
        ({
            let (end, gone) = shutdown(manager.close(left, reply), removes, removed);
            &&& end.0.phase is Stopped
            &&& end.1 == if reply {
                ActionModel::ReplyExit
            } else {
                ActionModel::Stop
            }
            &&& end.0.registries.contains(ident) <==> manager.registries.contains(ident) && !(
            ident is Private)
            &&& removed.contains(manager.path(ident)) || left.contains(ident) ==> gone.contains(
                manager.path(ident),
            )
        }),
    decreases left.len(),
{
    if left.len() == 0 {
        assert(!left.contains(ident));
    } else {
        let closing = manager.close(left, reply).0;
        let path = manager.path(left[0]);
        let next = manager.unloaded(left[0]);
        lemma_rest_is_private(left, manager.registries);
        assert(closing.after(EventModel::Removed(removes(path)), Seq::empty()) == next.close(
            left.skip(1),
            reply,
        ));
        lemma_shutdown(next, left.skip(1), reply, removes, removed.push(path), ident);
        lemma_seq_contains_after_push(removed, path, manager.path(ident));
        assert(left.contains(left[0]));
        if left.contains(ident) && ident != left[0] {
            let i = choose|i: int| 0 <= i < left.len() && left[i] == ident;
            assert(left.skip(1)[i - 1] == ident);
        }
    }
}

/// When the manager is asked to shut down, or nobody can ask it for anything any more, it has the
/// folder of every private container that is loaded removed. It replies to the request, once, when
/// that is done, with no private container loaded any more, and the others as they were; then it
/// waits for nothing.
pub proof fn law_shutdown_cleans_up_first(
    manager: ManagerModel,
    asked: bool,
    order: Seq<IdentModel>,
    removes: spec_fn(Seq<Seq<char>>) -> Result<(), Seq<char>>,
    ident: IdentModel,
    event: EventModel,
)
    requires
        manager.phase is Idle,
        lists_private(order, manager.registries),
    ensures
        ({
            let begun = manager.after(
                if asked {
                    EventModel::Message(MessageModel::Exit)
                } else {
                    EventModel::Disconnected
                },
                order,
            );
            let (end, removed) = shutdown(begun, removes, Seq::empty());
            &&& end.1 == if asked {
                ActionModel::ReplyExit
            } else {
                ActionModel::Stop
            }
            &&& begun.1 is ReplyExit ==> begun == end
            &&& end.0.registries.contains(ident) <==> manager.registries.contains(ident) && !(
            ident is Private)
            &&& manager.registries.contains(ident) && ident is Private ==> removed.contains(
                manager.path(ident),
            )
            &&& !fits(end.0.phase, event)
        }),
{
    lemma_shutdown(manager, order, asked, removes, Seq::empty(), ident);
    assert(order.contains(ident) <==> manager.registries.contains(ident) && ident is Private);
}

/// A container is kept below the storage directory: the default one in `default`, a persistent one
/// in a folder with its name behind `c-`, and a private one in a folder made from its name.
pub proof fn law_containers_are_below_the_storage_directory(
    manager: ManagerModel,
    name: Seq<char>,
)
    ensures
        manager.path(IdentModel::Default) == manager.storage_dir.push("default"@),
        manager.path(IdentModel::Persistent(name)) == manager.storage_dir.push("c-"@ + name),
        manager.path(IdentModel::Private(name)) == manager.storage_dir.push(folder_of(name)),
{
}

/// What becomes of a request to create a container. Each step is taken in the folder of the container
/// and follows from the one before; where all succeed, the container is loaded beside the others,
/// and where one fails, they are as before and the reply names the step and tells why.
pub proof fn law_creation_goes_step_by_step(
    manager: ManagerModel,
    ident: IdentModel,
    text: Seq<char>,
    order: Seq<IdentModel>,
)
    requires
        manager.phase is Idle,
    ensures
        ({
            let folder = manager.path(ident);
            let asked = manager.after(
                EventModel::Message(MessageModel::CreateContainer(ident)),
                order,
            );
            let there = asked.0.after(EventModel::Exists(true), order);
            let free = asked.0.after(EventModel::Exists(false), order);
            let not_made = free.0.after(EventModel::Made(Err(text)), order);
            let made = free.0.after(EventModel::Made(Ok(())), order);
            let not_opened = made.0.after(EventModel::Opened(Err(text)), order);
            let opened = made.0.after(EventModel::Opened(Ok(())), order);
            &&& asked.1 == ActionModel::CheckExists(folder)
            &&& fits(asked.0.phase, EventModel::Exists(true))
            &&& there.1 == ActionModel::ReplyCreated(Err(CreateErrorModel::ContainerExists))
            &&& there.0.registries == manager.registries && there.0.phase is Idle
            &&& free.1 == ActionModel::MakeFolder(folder)
            &&& fits(free.0.phase, EventModel::Made(Ok(())))
            &&& not_made.1 == ActionModel::ReplyCreated(
                Err(CreateErrorModel::Other("Failed to create container directory: "@ + text)),
            )
            &&& not_made.0.registries == manager.registries && not_made.0.phase is Idle
            &&& made.1 == ActionModel::OpenRegistry(folder.push("registry.sqlite"@))
            &&& fits(made.0.phase, EventModel::Opened(Ok(())))
            &&& not_opened.1 == ActionModel::ReplyCreated(
                Err(CreateErrorModel::Other("Failed to create registry: "@ + text)),
            )
            &&& not_opened.0.registries == manager.registries && not_opened.0.phase is Idle
            &&& opened.1 == ActionModel::ReplyCreated(Ok(()))
            &&& opened.0.registries == manager.registries.insert(ident) && opened.0.phase is Idle
            &&& opened.0.storage_dir == manager.storage_dir
        }),
{
}

/// What becomes of a request to delete a container. It is no longer loaded, whatever comes of it, and
/// its folder is removed, or the reply tells why it was not. The default container is made anew, and
/// that it cannot be is no failure of the request.
pub proof fn law_deletion_goes_step_by_step(
    manager: ManagerModel,
    ident: IdentModel,
    text: Seq<char>,
    order: Seq<IdentModel>,
)
    requires
        manager.phase is Idle,
    ensures
        ({
            let folder = manager.path(ident);
            let left = manager.registries.remove(ident);
            let asked = manager.after(
                EventModel::Message(MessageModel::DeleteContainer(ident)),
                order,
            );
            let failed = asked.0.after(EventModel::Removed(Err(text)), order);
            let removed = asked.0.after(EventModel::Removed(Ok(())), order);
            &&& asked.1 == ActionModel::RemoveFolder(folder)
            &&& asked.0.registries == left
            &&& fits(asked.0.phase, EventModel::Removed(Ok(())))
            &&& failed.1 == ActionModel::ReplyDeleted(
                Err("Failed to delete container directory: "@ + text),
            )
            &&& failed.0.registries == left && failed.0.phase is Idle
            &&& removed.0.registries == left
            &&& ident != IdentModel::Default ==> removed.1 == ActionModel::ReplyDeleted(Ok(()))
                && removed.0.phase is Idle
            &&& ident == IdentModel::Default ==> {
                let free = removed.0.after(EventModel::Exists(false), order);
                let made = free.0.after(EventModel::Made(Ok(())), order);
                let opened = made.0.after(EventModel::Opened(Ok(())), order);
                let there = removed.0.after(EventModel::Exists(true), order);
                let not_made = free.0.after(EventModel::Made(Err(text)), order);
                let not_opened = made.0.after(EventModel::Opened(Err(text)), order);
                &&& removed.1 == ActionModel::CheckExists(folder)
                &&& free.1 == ActionModel::MakeFolder(folder)
                &&& made.1 == ActionModel::OpenRegistry(folder.push("registry.sqlite"@))
                &&& opened.1 == ActionModel::ReplyDeleted(Ok(()))
                &&& opened.0.registries == left.insert(ident) && opened.0.phase is Idle
                &&& there.1 == ActionModel::ReplyDeleted(Ok(()))
                &&& there.0.registries == left && there.0.phase is Idle
                &&& not_made.1 == ActionModel::ReplyDeleted(Ok(()))
                &&& not_made.0.registries == left && not_made.0.phase is Idle
                &&& not_opened.1 == ActionModel::ReplyDeleted(Ok(()))
                &&& not_opened.0.registries == left && not_opened.0.phase is Idle
            }
        }),
{
}

/// The default container that is missing at startup is made in its folder and loaded; that it cannot
/// be keeps the manager from nothing else. Nobody is told.
pub proof fn law_missing_default_is_made_at_startup(
    manager: ManagerModel,
    text: Seq<char>,
    order: Seq<IdentModel>,
)
    requires
        manager.phase is Listing,
        !manager.registries.contains(IdentModel::Default),
    ensures
        ({
            let folder = manager.storage_dir.push("default"@);
            let asked = manager.after(EventModel::Listed(Seq::empty()), order);
            let there = asked.0.after(EventModel::Exists(true), order);
            let free = asked.0.after(EventModel::Exists(false), order);
            let not_made = free.0.after(EventModel::Made(Err(text)), order);
            let made = free.0.after(EventModel::Made(Ok(())), order);
            let not_opened = made.0.after(EventModel::Opened(Err(text)), order);
            let opened = made.0.after(EventModel::Opened(Ok(())), order);
            &&& asked.1 == ActionModel::CheckExists(folder)
            &&& free.1 == ActionModel::MakeFolder(folder)
            &&& made.1 == ActionModel::OpenRegistry(folder.push("registry.sqlite"@))
            &&& opened.1 == ActionModel::Receive
            &&& opened.0.registries == manager.registries.insert(IdentModel::Default)
            &&& opened.0.phase is Idle
            &&& there.1 == ActionModel::Receive && not_made.1 == ActionModel::Receive
                && not_opened.1 == ActionModel::Receive
            &&& there.0.registries == manager.registries && there.0.phase is Idle
            &&& not_made.0.registries == manager.registries && not_made.0.phase is Idle
            &&& not_opened.0.registries == manager.registries && not_opened.0.phase is Idle
        }),
{
}

/// While folders are looked at, the registry of the first that is left is opened next, in that very
/// folder.
pub proof fn law_next_folder_is_opened(
    manager: ManagerModel,
    folders: Seq<Seq<char>>,
    order: Seq<IdentModel>,
)
    requires
        manager.phase is Listing,
        folders.len() > 0,
    ensures
        ({
            let listed = manager.after(EventModel::Listed(folders), order);
            &&& listed.1 == ActionModel::OpenRegistry(
                manager.storage_dir.push(folders[0]).push("registry.sqlite"@),
            )
            &&& listed.0.registries == manager.registries
            &&& fits(listed.0.phase, EventModel::Opened(Ok(())))
        }),
{
}

/// A message stands for the request that it is, about the container that it names, and a container
/// for its kind and its name.
pub proof fn law_messages_stand_for_their_fields(ident: ContainerIdent, name: String)
    ensures
        StorageManagerThreadMsg::CreateContainer(ident)@ == MessageModel::CreateContainer(ident@),
        StorageManagerThreadMsg::DeleteContainer(ident)@ == MessageModel::DeleteContainer(ident@),
        StorageManagerThreadMsg::Exit@ == MessageModel::Exit,
        ContainerIdent::Default@ == IdentModel::Default,
        ContainerIdent::Persistent(name)@ == IdentModel::Persistent(name@),
        ContainerIdent::Private(name)@ == IdentModel::Private(name@),
{
}

/// A manager that waits for messages takes every one of them, and the end of them all.
pub proof fn law_idle_manager_takes_every_message(manager: ManagerModel, message: MessageModel)
    requires
        manager.phase is Idle,
    ensures
        manager.valid(),
        fits(manager.phase, EventModel::Message(message)),
        fits(manager.phase, EventModel::Disconnected),
{
}

/// What the manager wants done is what it then waits for: the outcome of each action fits, whatever
/// it is.
pub proof fn law_outcomes_fit_the_actions(
    manager: ManagerModel,
    event: EventModel,
    order: Seq<IdentModel>,
    result: Result<(), Seq<char>>,
    there: bool,
    message: MessageModel,
)
    requires
        manager.valid(),
        fits(manager.phase, event),
        lists_private(order, manager.registries),
    ensures
        ({
            let (then, action) = manager.after(event, order);
            match action {
                ActionModel::OpenRegistry(_) => fits(then.phase, EventModel::Opened(result)),
                ActionModel::CheckExists(_) => fits(then.phase, EventModel::Exists(there)),
                ActionModel::MakeFolder(_) => fits(then.phase, EventModel::Made(result)),
                ActionModel::RemoveFolder(_) => fits(then.phase, EventModel::Removed(result)),
                ActionModel::Receive => fits(then.phase, EventModel::Message(message)),
                ActionModel::ReplyCreated(_) => fits(then.phase, EventModel::Message(message)),
                ActionModel::ReplyDeleted(_) => fits(then.phase, EventModel::Message(message)),
                ActionModel::ReplyExit => then.phase is Stopped,
                ActionModel::Stop => then.phase is Stopped,
            }
        }),
{
}

} // verus!

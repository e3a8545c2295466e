//! The tree: the registry of providers, and the resolution of tree-wide
//! addresses into provider operations across mount points.
use vstd::prelude::*;

use crate::archive::{
    ARCHIVE_ROOT, ArchiveEntry, ArchiveProvider, Feed, ParentAnswer, Timestamp, entries_wf, entry_exists,
    entry_index, feed_named, issue_name, visible,
};
use crate::ids::{DirectoryId, FullDirectoryId, FullNoteId, NoteId, ProviderId};
use crate::kb::{Directory, DirectoryRef, ItemRef, Note, NoteRef, ProviderError, ProviderUserContext};
use crate::store::{
    DbProvider, add_mount_point_post, create_directory_post, dir_name_taken, create_note_post, delete_directory_post, delete_note_post,
    dir_parent, dir_row_index, move_directory_post, move_note_post, note_row_index,
    rename_directory_post, rename_note_post, update_note_post,
};

verus! {

/// One of the providers a tree can hold.
pub enum ProviderImpl {
    Db(DbProvider),
    Archive(ArchiveProvider),
}

impl ProviderImpl {
    pub open spec fn wf(&self) -> bool {
        match self {
            ProviderImpl::Db(p) => p.wf(),
            ProviderImpl::Archive(a) => a.wf(),
        }
    }

    pub open spec fn id_spec(&self) -> Option<ProviderId> {
        match self {
            ProviderImpl::Db(p) => p.id_spec(),
            ProviderImpl::Archive(a) => a.id_spec(),
        }
    }

    /// The id of the provider's own root directory.
    pub open spec fn root_spec(&self) -> DirectoryId {
        match self {
            ProviderImpl::Db(_) => DirectoryId(0),
            ProviderImpl::Archive(_) => DirectoryId(ARCHIVE_ROOT),
        }
    }

    pub fn name(&self) -> (r: String)
        ensures
            r@ == match self {
                ProviderImpl::Db(_) => "db"@,
                ProviderImpl::Archive(_) => "newsletter-archive"@,
            },
    {
        match self {
            ProviderImpl::Db(p) => p.name(),
            ProviderImpl::Archive(a) => a.name(),
        }
    }
}

/// A listing, or the error that came instead, as plain values.
pub open spec fn read_view(r: Result<Directory, ProviderError>) -> Result<Seq<(Seq<char>, ItemRef)>, ProviderError> {
    match r {
        Ok(d) => Ok(d.view()),
        Err(e) => Err(e),
    }
}

/// What provider `p` itself gives when asked to list directory `dir`.
pub open spec fn local_read(p: ProviderImpl, uctx: ProviderUserContext, dir: DirectoryId) -> Result<Seq<(Seq<char>, ItemRef)>, ProviderError> {
    match p {
        ProviderImpl::Db(d) => if d.mount_spec(dir) is Some {
            Err(ProviderError::OperationNotSupported)
        } else if d.has_dir(dir) {
            Ok(d.listing(dir))
        } else {
            Err(ProviderError::NoSuchDirectory(dir))
        },
        ProviderImpl::Archive(a) => if dir.0 == ARCHIVE_ROOT {
            Ok(a.listing(dir, uctx.permissions))
        } else if dir.0 >= a.feeds_spec().len() {
            Err(ProviderError::NoSuchDirectory(dir))
        } else if !visible(a.feeds_spec()[dir.0 as int], uctx.permissions) {
            Err(ProviderError::PermissionDenied)
        } else {
            Ok(a.listing(dir, uctx.permissions))
        },
    }
}

/// The answer of provider `p` on the parent of directory `dir`.
pub open spec fn local_parent(p: ProviderImpl, dir: DirectoryId) -> Result<ParentAnswer, ProviderError> {
    match p {
        ProviderImpl::Db(d) => if dir.0 == 0 {
            Ok(ParentAnswer::Local(None))
        } else if d.has_dir(dir) {
            Ok(ParentAnswer::Local(Some(DirectoryId(dir_parent(d.dirs_spec(), dir.0).unwrap()))))
        } else {
            Err(ProviderError::NoSuchDirectory(dir))
        },
        ProviderImpl::Archive(a) => if dir.0 == ARCHIVE_ROOT {
            Ok(ParentAnswer::AskHost(a.mounted_on_spec().0, a.mounted_on_spec().1))
        } else if dir.0 < a.feeds_spec().len() {
            Ok(ParentAnswer::Local(Some(DirectoryId(ARCHIVE_ROOT))))
        } else {
            Err(ProviderError::NoSuchDirectory(dir))
        },
    }
}

/// A parent answered within provider `pid`, as a tree-wide address.
pub open spec fn in_provider(pid: ProviderId, a: Result<ParentAnswer, ProviderError>) -> Result<Option<FullDirectoryId>, ProviderError> {
    match a {
        Ok(ParentAnswer::Local(Some(d))) => Ok(Some(FullDirectoryId { provider: pid, directory: d })),
        Ok(ParentAnswer::Local(None)) => Ok(None),
        Ok(ParentAnswer::AskHost(_, _)) => Err(ProviderError::OperationNotSupported),
        Err(e) => Err(e),
    }
}

/// The name of the directory under the root where the archive is mounted.
pub open spec fn archive_dir_name() -> Seq<char> {
    "Архив рассылок"@
}

/// `d` and `a` are the relational provider `db` and the archive of `feeds`
/// and `issues` as a new tree holds them: the archive is mounted, as
/// provider `1`, on the directory under the root called by
/// `archive_dir_name`, the one already there or else a new one, and nothing
/// else of `db` changes.
pub open spec fn tree_built(db: DbProvider, feeds: Seq<Feed>, issues: Seq<ArchiveEntry>, d: DbProvider, a: ArchiveProvider) -> bool {
    let md = a.mounted_on_spec().1;
    &&& a.feeds_spec() == feeds
    &&& a.entries_spec() == issues
    &&& a.mounted_on_spec().0 == ProviderId(0)
    &&& d.notes_spec() == db.notes_spec()
    &&& d.next_note_spec() == db.next_note_spec()
    &&& forall|x: DirectoryId| #[trigger] d.mount_spec(x) == if x == md {
        Some(ProviderId(1))
    } else {
        db.mount_spec(x)
    }
    &&& dir_name_taken(db.dirs_spec(), 0, archive_dir_name(), 0) ==> {
        &&& d.dirs_spec() == db.dirs_spec()
        &&& d.next_dir_spec() == db.next_dir_spec()
        &&& exists|i: int| 0 <= i < db.dirs_spec().len() && #[trigger] db.dirs_spec()[i].id == md.0
            && db.dirs_spec()[i].parent == 0 && db.dirs_spec()[i].name@ == archive_dir_name()
    }
    &&& !dir_name_taken(db.dirs_spec(), 0, archive_dir_name(), 0) ==> {
        &&& md.0 == db.next_dir_spec()
        &&& d.dirs_spec().len() == db.dirs_spec().len() + 1
        &&& d.dirs_spec().drop_last() == db.dirs_spec()
        &&& d.dirs_spec().last().id == md.0
        &&& d.dirs_spec().last().parent == 0
        &&& d.dirs_spec().last().name@ == archive_dir_name()
        &&& d.next_dir_spec() == db.next_dir_spec() + 1
    }
}

/// The registry of providers. A provider's id is its place in the registry;
/// provider `0`, a relational one, holds the global root.
pub struct Tree {
    providers: Vec<ProviderImpl>,
}

impl Tree {
    pub closed spec fn providers_spec(&self) -> Seq<ProviderImpl> {
        self.providers@
    }

    pub open spec fn wf(&self) -> bool {
        &&& 0 < self.providers_spec().len() <= u64::MAX
        &&& self.providers_spec()[0] is Db
        &&& forall|i: int| 0 <= i < self.providers_spec().len() ==> (#[trigger] self.providers_spec()[i]).wf()
            && self.providers_spec()[i].id_spec() == Some(ProviderId(i as u64))
    }

    pub open spec fn registered(&self, pid: ProviderId) -> bool {
        pid.0 < self.providers_spec().len()
    }

    pub open spec fn provider(&self, pid: ProviderId) -> ProviderImpl {
        self.providers_spec()[pid.0 as int]
    }

    /// Whether only provider `pid` may have changed.
    pub open spec fn others_same(&self, other: &Tree, pid: ProviderId) -> bool {
        &&& self.providers_spec().len() == other.providers_spec().len()
        &&& forall|i: int| 0 <= i < self.providers_spec().len() && i != pid.0 ==> #[trigger] self.providers_spec()[i] == other.providers_spec()[i]
    }

    /// What reading tree-wide directory `dir` gives: a mount point lists the
    /// root of the provider mounted there.
    pub open spec fn read_spec(&self, uctx: ProviderUserContext, dir: FullDirectoryId) -> Result<Seq<(Seq<char>, ItemRef)>, ProviderError> {
        if !self.registered(dir.provider) {
            Err(ProviderError::NoSuchProvider(dir.provider))
        } else {
            match self.provider(dir.provider) {
                ProviderImpl::Db(d) => match d.mount_spec(dir.directory) {
                    Some(q) => if self.registered(q) {
                        local_read(self.provider(q), uctx, self.provider(q).root_spec())
                    } else {
                        Err(ProviderError::NoSuchProvider(q))
                    },
                    None => local_read(self.provider(dir.provider), uctx, dir.directory),
                },
                ProviderImpl::Archive(_) => local_read(self.provider(dir.provider), uctx, dir.directory),
            }
        }
    }

    /// What asking for the parent of `dir` gives: the root of a mounted
    /// provider has the parent that its host gives the mount directory.
    pub open spec fn parent_spec(&self, dir: FullDirectoryId) -> Result<Option<FullDirectoryId>, ProviderError> {
        if !self.registered(dir.provider) {
            Err(ProviderError::NoSuchProvider(dir.provider))
        } else {
            match local_parent(self.provider(dir.provider), dir.directory) {
                Ok(ParentAnswer::AskHost(h, hd)) => if self.registered(h) {
                    in_provider(h, local_parent(self.provider(h), hd))
                } else {
                    Err(ProviderError::NoSuchProvider(h))
                },
                a => in_provider(dir.provider, a),
            }
        }
    }

    /// A tree of the relational provider `db`, at the root, and of an
    /// archive of `feeds` holding `issues`, mounted on the directory under
    /// the root called "Архив рассылок" (made if missing). Also gives each
    /// provider's name with its id.
    pub fn new(db: DbProvider, feeds: Vec<Feed>, issues: Vec<ArchiveEntry>) -> (r: Result<(Tree, Vec<(String, ProviderId)>), ProviderError>)
        requires
            db.wf(),
            feeds@.len() < ARCHIVE_ROOT,
        ensures
            r is Ok <==> entries_wf(issues@, u64::MAX) && (db.next_dir_spec() < u64::MAX
                || dir_name_taken(db.dirs_spec(), 0, archive_dir_name(), 0)),
            r matches Ok((t, names)) ==> {
                &&& t.wf()
                &&& t.providers_spec().len() == 2
                &&& names@.len() == 2
                &&& names@[0].0@ == "db"@ && names@[0].1 == ProviderId(0)
                &&& names@[1].0@ == "newsletter-archive"@ && names@[1].1 == ProviderId(1)
                &&& t.provider(ProviderId(1)) matches ProviderImpl::Archive(a)
                &&& t.provider(ProviderId(0)) matches ProviderImpl::Db(d)
                &&& tree_built(db, feeds@, issues@, d, a)
            },
    {
        let mut db = db;
        db.assign_id(ProviderId(0));
        let dir_name = "Архив рассылок";
        let mount_dir = match db.create_directory(DirectoryId(0), dir_name) {
            Ok(d) => d.id,
            Err(e) => match db.child_directory(DirectoryId(0), dir_name) {
                Some(d) => d,
                None => {
                    return Err(e);
                },
            },
        };
        let _ = db.add_mount_point(mount_dir, ProviderId(1));
        let mut archive = match ArchiveProvider::new(feeds, issues, (ProviderId(0), mount_dir)) {
            Ok(a) => a,
            Err(e) => {
                return Err(e);
            },
        };
        archive.assign_id(ProviderId(1));
        let db_name = db.name();
        let archive_name = archive.name();
        let mut providers: Vec<ProviderImpl> = Vec::new();
        providers.push(ProviderImpl::Db(db));
        providers.push(ProviderImpl::Archive(archive));
        let mut names: Vec<(String, ProviderId)> = Vec::new();
        names.push((db_name, ProviderId(0)));
        names.push((archive_name, ProviderId(1)));
        proof {
            reveal_strlit("db");
        }
        let t = Tree { providers };
        proof {
            assert(t.providers_spec()[0].wf());
            assert(t.providers_spec()[1].wf());
        }
        Ok((t, names))
    }

    /// A tree of the relational provider `db` alone.
    pub fn with_store(db: DbProvider) -> (r: Tree)
        requires
            db.wf(),
        ensures
            r.wf(),
            r.providers_spec().len() == 1,
            r.provider(ProviderId(0)) matches ProviderImpl::Db(d) && d.same_content(&db),
    {
        let mut db = db;
        db.assign_id(ProviderId(0));
        let mut providers: Vec<ProviderImpl> = Vec::new();
        providers.push(ProviderImpl::Db(db));
        let t = Tree { providers };
        proof {
            assert(t.providers_spec()[0].wf());
        }
        t
    }

    /// The id of the provider that holds the global root.
    pub fn root_provider(&self) -> (r: ProviderId)
        ensures
            r == ProviderId(0),
    {
        ProviderId(0)
    }

    /// The global root directory.
    pub fn root_directory(&self) -> (r: (ProviderId, DirectoryId))
        ensures
            r == (ProviderId(0), DirectoryId(0)),
    {
        (ProviderId(0), DirectoryId(0))
    }

    pub fn root_directory_ref(&self) -> (r: DirectoryRef)
        ensures
            r == (DirectoryRef { id: DirectoryId(0), provider_id: ProviderId(0) }),
    {
        DirectoryRef { id: DirectoryId(0), provider_id: ProviderId(0) }
    }

    fn lookup(&self, pid: ProviderId) -> (r: Option<usize>)
        requires
            self.wf(),
        ensures
            r matches Some(i) ==> self.registered(pid) && i == pid.0,
            r is None ==> !self.registered(pid),
    {
        if pid.0 < self.providers.len() as u64 {
            Some(pid.0 as usize)
        } else {
            None
        }
    }

    /// A reference to directory `directory_id` of provider `provider_id`.
    pub fn make_directory_ref(&self, provider_id: ProviderId, directory_id: DirectoryId) -> (r: Result<DirectoryRef, ProviderError>)
        requires
            self.wf(),
        ensures
            self.registered(provider_id) ==> r == Ok::<DirectoryRef, ProviderError>(DirectoryRef { id: directory_id, provider_id }),
            !self.registered(provider_id) ==> r == Err::<DirectoryRef, ProviderError>(ProviderError::NoSuchProvider(provider_id)),
    {
        match self.lookup(provider_id) {
            Some(_) => Ok(DirectoryRef { id: directory_id, provider_id }),
            None => Err(ProviderError::NoSuchProvider(provider_id)),
        }
    }

    /// A reference to note `note_id` of provider `provider_id`.
    pub fn make_note_ref(&self, provider_id: ProviderId, note_id: NoteId) -> (r: Result<NoteRef, ProviderError>)
        requires
            self.wf(),
        ensures
            self.registered(provider_id) ==> r == Ok::<NoteRef, ProviderError>(NoteRef { id: note_id, provider_id }),
            !self.registered(provider_id) ==> r == Err::<NoteRef, ProviderError>(ProviderError::NoSuchProvider(provider_id)),
    {
        match self.lookup(provider_id) {
            Some(_) => Ok(NoteRef { id: note_id, provider_id }),
            None => Err(ProviderError::NoSuchProvider(provider_id)),
        }
    }

    fn read_local(&self, i: usize, uctx: ProviderUserContext, dir: DirectoryId) -> (r: Result<Directory, ProviderError>)
        requires
            self.wf(),
            i < self.providers_spec().len(),
        ensures
            read_view(r) == local_read(self.providers_spec()[i as int], uctx, dir),
    {
        match &self.providers[i] {
            ProviderImpl::Db(d) => d.read_directory(dir),
            ProviderImpl::Archive(a) => a.read_directory(uctx, dir),
        }
    }

    /// Lists a directory; a mount point lists the root of the provider
    /// mounted there.
    pub fn read_directory(&self, uctx: ProviderUserContext, dir: FullDirectoryId) -> (r: Result<Directory, ProviderError>)
        requires
            self.wf(),
        ensures
            read_view(r) == self.read_spec(uctx, dir),
    {
        let i = match self.lookup(dir.provider) {
            None => {
                return Err(ProviderError::NoSuchProvider(dir.provider));
            },
            Some(i) => i,
        };
        let mounted = match &self.providers[i] {
            ProviderImpl::Db(d) => d.mount_point(dir.directory),
            ProviderImpl::Archive(_) => None,
        };
        match mounted {
            Some(q) => match self.lookup(q) {
                None => Err(ProviderError::NoSuchProvider(q)),
                Some(j) => {
                    let root = match &self.providers[j] {
                        ProviderImpl::Db(_) => DirectoryId(0),
                        ProviderImpl::Archive(_) => DirectoryId(ARCHIVE_ROOT),
                    };
                    self.read_local(j, uctx, root)
                },
            },
            None => self.read_local(i, uctx, dir.directory),
        }
    }

    fn parent_local(&self, i: usize, dir: DirectoryId) -> (r: Result<ParentAnswer, ProviderError>)
        requires
            self.wf(),
            i < self.providers_spec().len(),
        ensures
            r == local_parent(self.providers_spec()[i as int], dir),
    {
        match &self.providers[i] {
            ProviderImpl::Db(d) => match d.get_directory_parent(dir) {
                Ok(p) => Ok(ParentAnswer::Local(p)),
                Err(e) => Err(e),
            },
            ProviderImpl::Archive(a) => a.get_directory_parent(dir),
        }
    }

    /// The parent of a directory, across mount points; `None` for the global root.
    pub fn directory_parent(&self, dir: FullDirectoryId) -> (r: Result<Option<FullDirectoryId>, ProviderError>)
        requires
            self.wf(),
        ensures
            r == self.parent_spec(dir),
    {
        let i = match self.lookup(dir.provider) {
            None => {
                return Err(ProviderError::NoSuchProvider(dir.provider));
            },
            Some(i) => i,
        };
        let (pid, answer) = match self.parent_local(i, dir.directory) {
            Ok(ParentAnswer::AskHost(h, hd)) => match self.lookup(h) {
                None => {
                    return Err(ProviderError::NoSuchProvider(h));
                },
                Some(j) => (h, self.parent_local(j, hd)),
            },
            a => (dir.provider, a),
        };
        match answer {
            Ok(ParentAnswer::Local(Some(d))) => Ok(Some(FullDirectoryId { provider: pid, directory: d })),
            Ok(ParentAnswer::Local(None)) => Ok(None),
            Ok(ParentAnswer::AskHost(_, _)) => Err(ProviderError::OperationNotSupported),
            Err(e) => Err(e),
        }
    }

    /// The directory that holds a note.
    pub fn note_parent(&self, note: FullNoteId) -> (r: Result<FullDirectoryId, ProviderError>)
        requires
            self.wf(),
        ensures
            tree_note_parent_post(self, note, r),
    {
        let i = match self.lookup(note.provider) {
            None => {
                return Err(ProviderError::NoSuchProvider(note.provider));
            },
            Some(i) => i,
        };
        let d = match &self.providers[i] {
            ProviderImpl::Db(d) => d.get_note_parent(note.note),
            ProviderImpl::Archive(a) => a.get_note_parent(note.note),
        };
        match d {
            Ok(d) => Ok(FullDirectoryId { provider: note.provider, directory: d }),
            Err(e) => Err(e),
        }
    }

    /// The name of a directory; `None` for the global root. The root of a
    /// mounted provider has the name of its mount directory.
    pub fn directory_name(&self, dir: FullDirectoryId) -> (r: Result<Option<String>, ProviderError>)
        requires
            self.wf(),
        ensures
            tree_directory_name_post(self, dir, r),
    {
        let i = match self.lookup(dir.provider) {
            None => {
                return Err(ProviderError::NoSuchProvider(dir.provider));
            },
            Some(i) => i,
        };
        match &self.providers[i] {
            ProviderImpl::Db(d) => d.get_directory_name(dir.directory),
            ProviderImpl::Archive(a) => {
                if dir.directory.0 != ARCHIVE_ROOT {
                    return a.get_directory_name(dir.directory);
                }
                let (h, hd) = a.mounted_on();
                match self.lookup(h) {
                    None => Err(ProviderError::NoSuchProvider(h)),
                    Some(j) => match &self.providers[j] {
                        ProviderImpl::Db(hp) => hp.get_directory_name(hd),
                        ProviderImpl::Archive(_) => Err(ProviderError::OperationNotSupported),
                    },
                }
            },
        }
    }

    /// The name of a note.
    pub fn note_name(&self, note: FullNoteId) -> (r: Result<String, ProviderError>)
        requires
            self.wf(),
        ensures
            tree_note_name_post(self, note, r),
    {
        let i = match self.lookup(note.provider) {
            None => {
                return Err(ProviderError::NoSuchProvider(note.provider));
            },
            Some(i) => i,
        };
        match &self.providers[i] {
            ProviderImpl::Db(d) => d.get_note_name(note.note),
            ProviderImpl::Archive(a) => a.get_note_name(note.note),
        }
    }

    /// The text of a note.
    pub fn read_note(&self, uctx: ProviderUserContext, note: FullNoteId) -> (r: Result<Note, ProviderError>)
        requires
            self.wf(),
        ensures
            tree_read_note_post(self, uctx, note, r),
    {
        let i = match self.lookup(note.provider) {
            None => {
                return Err(ProviderError::NoSuchProvider(note.provider));
            },
            Some(i) => i,
        };
        match &self.providers[i] {
            ProviderImpl::Db(d) => d.read_note(note.note),
            ProviderImpl::Archive(a) => a.read_note(uctx, note.note),
        }
    }
}



/// What the tree's `create_directory` gives and leaves, from the tree `old` before it.
pub open spec fn tree_create_directory_post(old: &Tree, new: &Tree, destination: FullDirectoryId, name: Seq<char>, r: Result<DirectoryRef, ProviderError>) -> bool {
    &&& new.wf()
    &&& new.others_same(old, destination.provider)
    &&& !old.registered(destination.provider) ==> r == Err::<DirectoryRef, ProviderError>(ProviderError::NoSuchProvider(destination.provider)) && new.providers_spec() == old.providers_spec()
    &&& old.registered(destination.provider) ==> match old.provider(destination.provider) {
        ProviderImpl::Db(d) => new.provider(destination.provider) matches ProviderImpl::Db(d2) && create_directory_post(&d, &d2, destination.directory, name, r),
        ProviderImpl::Archive(_) => r == Err::<DirectoryRef, ProviderError>(ProviderError::OperationNotSupported) && new.providers_spec() == old.providers_spec(),
    }
}

/// What the tree's `create_note` gives and leaves, from the tree `old` before it.
pub open spec fn tree_create_note_post(old: &Tree, new: &Tree, destination: FullDirectoryId, name: Seq<char>, content: Seq<char>, r: Result<NoteRef, ProviderError>) -> bool {
    &&& new.wf()
    &&& new.others_same(old, destination.provider)
    &&& !old.registered(destination.provider) ==> r == Err::<NoteRef, ProviderError>(ProviderError::NoSuchProvider(destination.provider)) && new.providers_spec() == old.providers_spec()
    &&& old.registered(destination.provider) ==> match old.provider(destination.provider) {
        ProviderImpl::Db(d) => new.provider(destination.provider) matches ProviderImpl::Db(d2) && create_note_post(&d, &d2, destination.directory, content, name, r),
        ProviderImpl::Archive(_) => r == Err::<NoteRef, ProviderError>(ProviderError::OperationNotSupported) && new.providers_spec() == old.providers_spec(),
    }
}

/// What the tree's `rename_directory` gives and leaves, from the tree `old` before it.
pub open spec fn tree_rename_directory_post(old: &Tree, new: &Tree, directory: FullDirectoryId, new_name: Seq<char>, r: Result<(), ProviderError>) -> bool {
    &&& new.wf()
    &&& new.others_same(old, directory.provider)
    &&& !old.registered(directory.provider) ==> r == Err::<(), ProviderError>(ProviderError::NoSuchProvider(directory.provider)) && new.providers_spec() == old.providers_spec()
    &&& old.registered(directory.provider) ==> match old.provider(directory.provider) {
        ProviderImpl::Db(d) => new.provider(directory.provider) matches ProviderImpl::Db(d2) && rename_directory_post(&d, &d2, directory.directory, new_name, r),
        ProviderImpl::Archive(_) => r == Err::<(), ProviderError>(ProviderError::OperationNotSupported) && new.providers_spec() == old.providers_spec(),
    }
}

/// What the tree's `rename_note` gives and leaves, from the tree `old` before it.
pub open spec fn tree_rename_note_post(old: &Tree, new: &Tree, note: FullNoteId, new_name: Seq<char>, r: Result<(), ProviderError>) -> bool {
    &&& new.wf()
    &&& new.others_same(old, note.provider)
    &&& !old.registered(note.provider) ==> r == Err::<(), ProviderError>(ProviderError::NoSuchProvider(note.provider)) && new.providers_spec() == old.providers_spec()
    &&& old.registered(note.provider) ==> match old.provider(note.provider) {
        ProviderImpl::Db(d) => new.provider(note.provider) matches ProviderImpl::Db(d2) && rename_note_post(&d, &d2, note.note, new_name, r),
        ProviderImpl::Archive(_) => r == Err::<(), ProviderError>(ProviderError::OperationNotSupported) && new.providers_spec() == old.providers_spec(),
    }
}

/// What the tree's `update_note` gives and leaves, from the tree `old` before it.
pub open spec fn tree_update_note_post(old: &Tree, new: &Tree, note_id: FullNoteId, content: Seq<char>, r: Result<(), ProviderError>) -> bool {
    &&& new.wf()
    &&& new.others_same(old, note_id.provider)
    &&& !old.registered(note_id.provider) ==> r == Err::<(), ProviderError>(ProviderError::NoSuchProvider(note_id.provider)) && new.providers_spec() == old.providers_spec()
    &&& old.registered(note_id.provider) ==> match old.provider(note_id.provider) {
        ProviderImpl::Db(d) => new.provider(note_id.provider) matches ProviderImpl::Db(d2) && update_note_post(&d, &d2, note_id.note, content, r),
        ProviderImpl::Archive(_) => r == Err::<(), ProviderError>(ProviderError::OperationNotSupported) && new.providers_spec() == old.providers_spec(),
    }
}

/// What the tree's `delete_directory` gives and leaves, from the tree `old` before it.
pub open spec fn tree_delete_directory_post(old: &Tree, new: &Tree, directory: FullDirectoryId, r: Result<(), ProviderError>) -> bool {
    &&& new.wf()
    &&& new.others_same(old, directory.provider)
    &&& !old.registered(directory.provider) ==> r == Err::<(), ProviderError>(ProviderError::NoSuchProvider(directory.provider)) && new.providers_spec() == old.providers_spec()
    &&& old.registered(directory.provider) ==> match old.provider(directory.provider) {
        ProviderImpl::Db(d) => new.provider(directory.provider) matches ProviderImpl::Db(d2) && delete_directory_post(&d, &d2, directory.directory, r),
        ProviderImpl::Archive(_) => r == Err::<(), ProviderError>(ProviderError::OperationNotSupported) && new.providers_spec() == old.providers_spec(),
    }
}

/// What the tree's `delete_note` gives and leaves, from the tree `old` before it.
pub open spec fn tree_delete_note_post(old: &Tree, new: &Tree, note: FullNoteId, r: Result<(), ProviderError>) -> bool {
    &&& new.wf()
    &&& new.others_same(old, note.provider)
    &&& !old.registered(note.provider) ==> r == Err::<(), ProviderError>(ProviderError::NoSuchProvider(note.provider)) && new.providers_spec() == old.providers_spec()
    &&& old.registered(note.provider) ==> match old.provider(note.provider) {
        ProviderImpl::Db(d) => new.provider(note.provider) matches ProviderImpl::Db(d2) && delete_note_post(&d, &d2, note.note, r),
        ProviderImpl::Archive(_) => r == Err::<(), ProviderError>(ProviderError::OperationNotSupported) && new.providers_spec() == old.providers_spec(),
    }
}

/// What the tree's `move_directory` gives and leaves, from the tree `old` before it.
pub open spec fn tree_move_directory_post(old: &Tree, new: &Tree, directory: FullDirectoryId, destination: FullDirectoryId, r: Result<(), ProviderError>) -> bool {
    &&& new.wf()
    &&& new.others_same(old, directory.provider)
    &&& directory.provider != destination.provider ==> r == Err::<(), ProviderError>(ProviderError::CrossProviderMove) && new.providers_spec() == old.providers_spec()
    &&& directory.provider == destination.provider && !old.registered(directory.provider) ==> r == Err::<(), ProviderError>(ProviderError::NoSuchProvider(directory.provider)) && new.providers_spec() == old.providers_spec()
    &&& directory.provider == destination.provider && old.registered(directory.provider) ==> match old.provider(directory.provider) {
        ProviderImpl::Db(d) => new.provider(directory.provider) matches ProviderImpl::Db(d2) && move_directory_post(&d, &d2, directory.directory, destination.directory, r),
        ProviderImpl::Archive(_) => r == Err::<(), ProviderError>(ProviderError::OperationNotSupported) && new.providers_spec() == old.providers_spec(),
    }
}

/// What the tree's `move_note` gives and leaves, from the tree `old` before it.
pub open spec fn tree_move_note_post(old: &Tree, new: &Tree, note: FullNoteId, destination: FullDirectoryId, r: Result<(), ProviderError>) -> bool {
    &&& new.wf()
    &&& new.others_same(old, note.provider)
    &&& note.provider != destination.provider ==> r == Err::<(), ProviderError>(ProviderError::CrossProviderMove) && new.providers_spec() == old.providers_spec()
    &&& note.provider == destination.provider && !old.registered(note.provider) ==> r == Err::<(), ProviderError>(ProviderError::NoSuchProvider(note.provider)) && new.providers_spec() == old.providers_spec()
    &&& note.provider == destination.provider && old.registered(note.provider) ==> match old.provider(note.provider) {
        ProviderImpl::Db(d) => new.provider(note.provider) matches ProviderImpl::Db(d2) && move_note_post(&d, &d2, note.note, destination.directory, r),
        ProviderImpl::Archive(_) => r == Err::<(), ProviderError>(ProviderError::OperationNotSupported) && new.providers_spec() == old.providers_spec(),
    }
}

impl Tree {
    /// Creates directory `name` in `destination`.
    pub fn create_directory(&mut self, destination: FullDirectoryId, name: &str) -> (r: Result<DirectoryRef, ProviderError>)
        requires
            old(self).wf(),
        ensures
            tree_create_directory_post(old(self), final(self), destination, name@, r),
    {
        let i = match self.lookup(destination.provider) {
            None => {
                return Err(ProviderError::NoSuchProvider(destination.provider));
            },
            Some(i) => i,
        };
        if let ProviderImpl::Archive(_) = &self.providers[i] {
            return Err(ProviderError::OperationNotSupported);
        }
        let ghost before = self.providers@;
        let r = match &mut self.providers[i] {
            ProviderImpl::Db(d) => d.create_directory(destination.directory, name),
            ProviderImpl::Archive(_) => Err(ProviderError::OperationNotSupported),
        };
        proof {
            assert forall|j: int| 0 <= j < self.providers@.len() && j != i implies #[trigger] self.providers@[j] == before[j] by {}
            assert(self.providers@[i as int].wf());
        }
        r
    }

    /// Creates note `name` in `destination`.
    pub fn create_note(&mut self, destination: FullDirectoryId, name: &str, note: Note) -> (r: Result<NoteRef, ProviderError>)
        requires
            old(self).wf(),
        ensures
            tree_create_note_post(old(self), final(self), destination, name@, note.view(), r),
    {
        let i = match self.lookup(destination.provider) {
            None => {
                return Err(ProviderError::NoSuchProvider(destination.provider));
            },
            Some(i) => i,
        };
        if let ProviderImpl::Archive(_) = &self.providers[i] {
            return Err(ProviderError::OperationNotSupported);
        }
        let ghost before = self.providers@;
        let r = match &mut self.providers[i] {
            ProviderImpl::Db(d) => d.create_note(destination.directory, note, name),
            ProviderImpl::Archive(_) => Err(ProviderError::OperationNotSupported),
        };
        proof {
            assert forall|j: int| 0 <= j < self.providers@.len() && j != i implies #[trigger] self.providers@[j] == before[j] by {}
            assert(self.providers@[i as int].wf());
        }
        r
    }

    /// Renames a directory.
    pub fn rename_directory(&mut self, directory: FullDirectoryId, new_name: &str) -> (r: Result<(), ProviderError>)
        requires
            old(self).wf(),
        ensures
            tree_rename_directory_post(old(self), final(self), directory, new_name@, r),
    {
        let i = match self.lookup(directory.provider) {
            None => {
                return Err(ProviderError::NoSuchProvider(directory.provider));
            },
            Some(i) => i,
        };
        if let ProviderImpl::Archive(_) = &self.providers[i] {
            return Err(ProviderError::OperationNotSupported);
        }
        let ghost before = self.providers@;
        let r = match &mut self.providers[i] {
            ProviderImpl::Db(d) => d.rename_directory(directory.directory, new_name),
            ProviderImpl::Archive(_) => Err(ProviderError::OperationNotSupported),
        };
        proof {
            assert forall|j: int| 0 <= j < self.providers@.len() && j != i implies #[trigger] self.providers@[j] == before[j] by {}
            assert(self.providers@[i as int].wf());
        }
        r
    }

    /// Renames a note.
    pub fn rename_note(&mut self, note: FullNoteId, new_name: &str) -> (r: Result<(), ProviderError>)
        requires
            old(self).wf(),
        ensures
            tree_rename_note_post(old(self), final(self), note, new_name@, r),
    {
        let i = match self.lookup(note.provider) {
            None => {
                return Err(ProviderError::NoSuchProvider(note.provider));
            },
            Some(i) => i,
        };
        if let ProviderImpl::Archive(_) = &self.providers[i] {
            return Err(ProviderError::OperationNotSupported);
        }
        let ghost before = self.providers@;
        let r = match &mut self.providers[i] {
            ProviderImpl::Db(d) => d.rename_note(note.note, new_name),
            ProviderImpl::Archive(_) => Err(ProviderError::OperationNotSupported),
        };
        proof {
            assert forall|j: int| 0 <= j < self.providers@.len() && j != i implies #[trigger] self.providers@[j] == before[j] by {}
            assert(self.providers@[i as int].wf());
        }
        r
    }

    /// Replaces the text of a note.
    pub fn update_note(&mut self, note_id: FullNoteId, note: Note) -> (r: Result<(), ProviderError>)
        requires
            old(self).wf(),
        ensures
            tree_update_note_post(old(self), final(self), note_id, note.view(), r),
    {
        let i = match self.lookup(note_id.provider) {
            None => {
                return Err(ProviderError::NoSuchProvider(note_id.provider));
            },
            Some(i) => i,
        };
        if let ProviderImpl::Archive(_) = &self.providers[i] {
            return Err(ProviderError::OperationNotSupported);
        }
        let ghost before = self.providers@;
        let r = match &mut self.providers[i] {
            ProviderImpl::Db(d) => d.update_note(note_id.note, note),
            ProviderImpl::Archive(_) => Err(ProviderError::OperationNotSupported),
        };
        proof {
            assert forall|j: int| 0 <= j < self.providers@.len() && j != i implies #[trigger] self.providers@[j] == before[j] by {}
            assert(self.providers@[i as int].wf());
        }
        r
    }

    /// Deletes a directory with everything below it.
    pub fn delete_directory(&mut self, directory: FullDirectoryId) -> (r: Result<(), ProviderError>)
        requires
            old(self).wf(),
        ensures
            tree_delete_directory_post(old(self), final(self), directory, r),
    {
        let i = match self.lookup(directory.provider) {
            None => {
                return Err(ProviderError::NoSuchProvider(directory.provider));
            },
            Some(i) => i,
        };
        if let ProviderImpl::Archive(_) = &self.providers[i] {
            return Err(ProviderError::OperationNotSupported);
        }
        let ghost before = self.providers@;
        let r = match &mut self.providers[i] {
            ProviderImpl::Db(d) => d.delete_directory(directory.directory),
            ProviderImpl::Archive(_) => Err(ProviderError::OperationNotSupported),
        };
        proof {
            assert forall|j: int| 0 <= j < self.providers@.len() && j != i implies #[trigger] self.providers@[j] == before[j] by {}
            assert(self.providers@[i as int].wf());
        }
        r
    }

    /// Deletes a note.
    pub fn delete_note(&mut self, note: FullNoteId) -> (r: Result<(), ProviderError>)
        requires
            old(self).wf(),
        ensures
            tree_delete_note_post(old(self), final(self), note, r),
    {
        let i = match self.lookup(note.provider) {
            None => {
                return Err(ProviderError::NoSuchProvider(note.provider));
            },
            Some(i) => i,
        };
        if let ProviderImpl::Archive(_) = &self.providers[i] {
            return Err(ProviderError::OperationNotSupported);
        }
        let ghost before = self.providers@;
        let r = match &mut self.providers[i] {
            ProviderImpl::Db(d) => d.delete_note(note.note),
            ProviderImpl::Archive(_) => Err(ProviderError::OperationNotSupported),
        };
        proof {
            assert forall|j: int| 0 <= j < self.providers@.len() && j != i implies #[trigger] self.providers@[j] == before[j] by {}
            assert(self.providers@[i as int].wf());
        }
        r
    }

    /// Moves a directory; both must belong to one provider.
    pub fn move_directory(&mut self, directory: FullDirectoryId, destination: FullDirectoryId) -> (r: Result<(), ProviderError>)
        requires
            old(self).wf(),
        ensures
            tree_move_directory_post(old(self), final(self), directory, destination, r),
    {
        if directory.provider != destination.provider {
            return Err(ProviderError::CrossProviderMove);
        }
        let i = match self.lookup(directory.provider) {
            None => {
                return Err(ProviderError::NoSuchProvider(directory.provider));
            },
            Some(i) => i,
        };
        if let ProviderImpl::Archive(_) = &self.providers[i] {
            return Err(ProviderError::OperationNotSupported);
        }
        let ghost before = self.providers@;
        let r = match &mut self.providers[i] {
            ProviderImpl::Db(d) => d.move_directory(directory.directory, destination.directory),
            ProviderImpl::Archive(_) => Err(ProviderError::OperationNotSupported),
        };
        proof {
            assert forall|j: int| 0 <= j < self.providers@.len() && j != i implies #[trigger] self.providers@[j] == before[j] by {}
            assert(self.providers@[i as int].wf());
        }
        r
    }

    /// Moves a note; it and the destination must belong to one provider.
    pub fn move_note(&mut self, note: FullNoteId, destination: FullDirectoryId) -> (r: Result<(), ProviderError>)
        requires
            old(self).wf(),
        ensures
            tree_move_note_post(old(self), final(self), note, destination, r),
    {
        if note.provider != destination.provider {
            return Err(ProviderError::CrossProviderMove);
        }
        let i = match self.lookup(note.provider) {
            None => {
                return Err(ProviderError::NoSuchProvider(note.provider));
            },
            Some(i) => i,
        };
        if let ProviderImpl::Archive(_) = &self.providers[i] {
            return Err(ProviderError::OperationNotSupported);
        }
        let ghost before = self.providers@;
        let r = match &mut self.providers[i] {
            ProviderImpl::Db(d) => d.move_note(note.note, destination.directory),
            ProviderImpl::Archive(_) => Err(ProviderError::OperationNotSupported),
        };
        proof {
            assert forall|j: int| 0 <= j < self.providers@.len() && j != i implies #[trigger] self.providers@[j] == before[j] by {}
            assert(self.providers@[i as int].wf());
        }
        r
    }
}

impl Tree {
    /// Stores a new issue of newsletter `feed` in archive provider `archive`.
    pub fn store_issue(&mut self, archive: ProviderId, feed: &str, note: Note, timestamp: Timestamp) -> (r: Result<NoteId, ProviderError>)
        requires
            old(self).wf(),
            timestamp.wf(),
        ensures
            tree_store_issue_post(old(self), final(self), archive, feed@, note.view(), timestamp, r),
    {
        let i = match self.lookup(archive) {
            None => {
                return Err(ProviderError::NoSuchProvider(archive));
            },
            Some(i) => i,
        };
        if let ProviderImpl::Db(_) = &self.providers[i] {
            return Err(ProviderError::OperationNotSupported);
        }
        let ghost before = self.providers@;
        let r = match &mut self.providers[i] {
            ProviderImpl::Archive(a) => a.store(feed, note, timestamp),
            ProviderImpl::Db(_) => Err(ProviderError::OperationNotSupported),
        };
        proof {
            assert forall|j: int| 0 <= j < self.providers@.len() && j != i implies #[trigger] self.providers@[j] == before[j] by {}
            assert(self.providers@[i as int].wf());
        }
        r
    }
}

/// Listing a mount point gives exactly the listing of the root of the
/// provider mounted there (when that root is no mount point itself).
pub proof fn lemma_mount_point_lists_mounted_root(t: &Tree, uctx: ProviderUserContext, dir: FullDirectoryId, q: ProviderId)
    requires
        t.wf(),
        t.registered(dir.provider),
        t.provider(dir.provider) matches ProviderImpl::Db(d) && d.mount_spec(dir.directory) == Some(q),
        t.registered(q),
        t.provider(q) matches ProviderImpl::Db(dq) ==> dq.mount_spec(DirectoryId(0)) is None,
    ensures
        t.read_spec(uctx, dir) == t.read_spec(uctx, FullDirectoryId { provider: q, directory: t.provider(q).root_spec() }),
{
}

/// The parent of the root of a mounted archive is what the host provider
/// gives as the parent of the mount directory.
pub proof fn lemma_mounted_root_parent(t: &Tree, q: ProviderId)
    requires
        t.wf(),
        t.registered(q),
        t.provider(q) matches ProviderImpl::Archive(a) && t.registered(a.mounted_on_spec().0)
            && t.provider(a.mounted_on_spec().0) is Db,
    ensures
        t.provider(q) matches ProviderImpl::Archive(a) && t.parent_spec(FullDirectoryId { provider: q, directory: DirectoryId(ARCHIVE_ROOT) })
            == t.parent_spec(FullDirectoryId { provider: a.mounted_on_spec().0, directory: a.mounted_on_spec().1 }),
{
}

/// What the tree's `note_parent` gives on the tree `t`.
pub open spec fn tree_note_parent_post(t: &Tree, note: FullNoteId, r: Result<FullDirectoryId, ProviderError>) -> bool {
    &&& (!t.registered(note.provider) ==> r == Err::<FullDirectoryId, ProviderError>(ProviderError::NoSuchProvider(note.provider)))
    &&& (t.registered(note.provider) ==> match t.provider(note.provider) {
                ProviderImpl::Db(d) => {
                    &&& !d.has_note(note.note) ==> r == Err::<FullDirectoryId, ProviderError>(ProviderError::NoSuchNote(note.note))
                    &&& d.has_note(note.note) ==> r == Ok::<FullDirectoryId, ProviderError>(FullDirectoryId {
                        provider: note.provider,
                        directory: DirectoryId(d.notes_spec()[note_row_index(d.notes_spec(), note.note.0)].parent),
                    })
                },
                ProviderImpl::Archive(a) => {
                    &&& !entry_exists(a.entries_spec(), note.note.0) ==> r == Err::<FullDirectoryId, ProviderError>(ProviderError::NoSuchNote(note.note))
                    &&& entry_exists(a.entries_spec(), note.note.0) ==> {
                        let e = a.entries_spec()[entry_index(a.entries_spec(), note.note.0)];
                        &&& feed_named(a.feeds_spec(), e.feed@) matches Some(f) ==> r == Ok::<FullDirectoryId, ProviderError>(
                            FullDirectoryId { provider: note.provider, directory: DirectoryId(f as u64) })
                        &&& feed_named(a.feeds_spec(), e.feed@) is None ==> (r matches Err(ProviderError::Corrupt { .. }))
                    }
                },
            })
}

/// What the tree's `directory_name` gives on the tree `t`.
pub open spec fn tree_directory_name_post(t: &Tree, dir: FullDirectoryId, r: Result<Option<String>, ProviderError>) -> bool {
    &&& (!t.registered(dir.provider) ==> r == Err::<Option<String>, ProviderError>(ProviderError::NoSuchProvider(dir.provider)))
    &&& (t.registered(dir.provider) ==> match t.provider(dir.provider) {
                ProviderImpl::Db(d) => {
                    &&& dir.directory.0 == 0 ==> (r matches Ok(None))
                    &&& dir.directory.0 != 0 && !d.has_dir(dir.directory) ==> r == Err::<Option<String>, ProviderError>(ProviderError::NoSuchDirectory(dir.directory))
                    &&& dir.directory.0 != 0 && d.has_dir(dir.directory) ==> (r matches Ok(Some(n))
                        && n@ == d.dirs_spec()[dir_row_index(d.dirs_spec(), dir.directory.0)].name@)
                },
                ProviderImpl::Archive(a) => {
                    &&& dir.directory.0 != ARCHIVE_ROOT && dir.directory.0 >= a.feeds_spec().len()
                        ==> r == Err::<Option<String>, ProviderError>(ProviderError::NoSuchDirectory(dir.directory))
                    &&& dir.directory.0 != ARCHIVE_ROOT && dir.directory.0 < a.feeds_spec().len()
                        ==> (r matches Ok(Some(n)) && n@ == a.feeds_spec()[dir.directory.0 as int].description@)
                    &&& dir.directory.0 == ARCHIVE_ROOT && t.registered(a.mounted_on_spec().0) ==> match t.provider(a.mounted_on_spec().0) {
                        ProviderImpl::Db(h) => {
                            let md = a.mounted_on_spec().1;
                            &&& md.0 != 0 && h.has_dir(md) ==> (r matches Ok(Some(n)) && n@ == h.dirs_spec()[dir_row_index(h.dirs_spec(), md.0)].name@)
                            &&& md.0 != 0 && !h.has_dir(md) ==> r == Err::<Option<String>, ProviderError>(ProviderError::NoSuchDirectory(md))
                            &&& md.0 == 0 ==> (r matches Ok(None))
                        },
                        ProviderImpl::Archive(_) => r == Err::<Option<String>, ProviderError>(ProviderError::OperationNotSupported),
                    }
                    &&& dir.directory.0 == ARCHIVE_ROOT && !t.registered(a.mounted_on_spec().0)
                        ==> r == Err::<Option<String>, ProviderError>(ProviderError::NoSuchProvider(a.mounted_on_spec().0))
                },
            })
}

/// What the tree's `note_name` gives on the tree `t`.
pub open spec fn tree_note_name_post(t: &Tree, note: FullNoteId, r: Result<String, ProviderError>) -> bool {
    &&& (!t.registered(note.provider) ==> r == Err::<String, ProviderError>(ProviderError::NoSuchProvider(note.provider)))
    &&& (t.registered(note.provider) ==> match t.provider(note.provider) {
                ProviderImpl::Db(d) => {
                    &&& !d.has_note(note.note) ==> r == Err::<String, ProviderError>(ProviderError::NoSuchNote(note.note))
                    &&& d.has_note(note.note) ==> (r matches Ok(n) && n@ == d.notes_spec()[note_row_index(d.notes_spec(), note.note.0)].name@)
                },
                ProviderImpl::Archive(a) => {
                    &&& !entry_exists(a.entries_spec(), note.note.0) ==> r == Err::<String, ProviderError>(ProviderError::NoSuchNote(note.note))
                    &&& entry_exists(a.entries_spec(), note.note.0) ==> {
                        let e = a.entries_spec()[entry_index(a.entries_spec(), note.note.0)];
                        r matches Ok(n) && n@ == issue_name(e.id, e.timestamp)
                    }
                },
            })
}

/// What the tree's `read_note` gives on the tree `t`.
pub open spec fn tree_read_note_post(t: &Tree, uctx: ProviderUserContext, note: FullNoteId, r: Result<Note, ProviderError>) -> bool {
    &&& (!t.registered(note.provider) ==> r == Err::<Note, ProviderError>(ProviderError::NoSuchProvider(note.provider)))
    &&& (t.registered(note.provider) ==> match t.provider(note.provider) {
                ProviderImpl::Db(d) => {
                    &&& !d.has_note(note.note) ==> r == Err::<Note, ProviderError>(ProviderError::NoSuchNote(note.note))
                    &&& d.has_note(note.note) ==> (r matches Ok(n) && n.view() == d.notes_spec()[note_row_index(d.notes_spec(), note.note.0)].content@)
                },
                ProviderImpl::Archive(a) => {
                    &&& !entry_exists(a.entries_spec(), note.note.0) ==> r == Err::<Note, ProviderError>(ProviderError::NoSuchNote(note.note))
                    &&& entry_exists(a.entries_spec(), note.note.0) ==> {
                        let e = a.entries_spec()[entry_index(a.entries_spec(), note.note.0)];
                        &&& (feed_named(a.feeds_spec(), e.feed@) matches Some(f) && !visible(a.feeds_spec()[f], uctx.permissions))
                            ==> r == Err::<Note, ProviderError>(ProviderError::PermissionDenied)
                        &&& (feed_named(a.feeds_spec(), e.feed@) matches Some(f) && visible(a.feeds_spec()[f], uctx.permissions))
                            ==> (r matches Ok(n) && n.view() == e.content@)
                    }
                },
            })
}

/// What the tree's `store_issue` gives and leaves, from the tree `old` before it.
pub open spec fn tree_store_issue_post(old: &Tree, new: &Tree, archive: ProviderId, feed: Seq<char>, content: Seq<char>, timestamp: Timestamp, r: Result<NoteId, ProviderError>) -> bool {
    &&& (new.wf())
    &&& (new.others_same(old, archive))
    &&& (!old.registered(archive) ==> r == Err::<NoteId, ProviderError>(ProviderError::NoSuchProvider(archive))
                && new.providers_spec() == old.providers_spec())
    &&& (old.registered(archive) ==> match old.provider(archive) {
                ProviderImpl::Db(_) => r == Err::<NoteId, ProviderError>(ProviderError::OperationNotSupported)
                    && new.providers_spec() == old.providers_spec(),
                ProviderImpl::Archive(a) => new.provider(archive) matches ProviderImpl::Archive(a2) && {
                    &&& a.next_entry_spec() == u64::MAX ==> (r matches Err(ProviderError::StorageError { .. })) && a2 == a
                    &&& a.next_entry_spec() < u64::MAX ==> {
                        &&& r == Ok::<NoteId, ProviderError>(NoteId(a.next_entry_spec()))
                        &&& a2.entries_spec().drop_last() == a.entries_spec()
                        &&& a2.entries_spec().len() == a.entries_spec().len() + 1
                        &&& a2.entries_spec().last().id == a.next_entry_spec()
                        &&& a2.entries_spec().last().feed@ == feed
                        &&& a2.entries_spec().last().content@ == content
                        &&& a2.entries_spec().last().timestamp == timestamp
                        &&& a2.feeds_spec() == a.feeds_spec()
                        &&& a2.mounted_on_spec() == a.mounted_on_spec()
                    }
                },
            })
}


impl Tree {
    /// The provider with id `pid`, if it is registered.
    pub fn provider_ref(&self, pid: ProviderId) -> (r: Option<&ProviderImpl>)
        requires
            self.wf(),
        ensures
            self.registered(pid) ==> r == Some(&self.provider(pid)),
            !self.registered(pid) ==> r is None,
    {
        match self.lookup(pid) {
            Some(i) => Some(&self.providers[i]),
            None => None,
        }
    }
}


impl DirectoryRef {
    /// Lists this directory.
    pub fn read(&self, tree: &Tree, uctx: ProviderUserContext) -> (r: Result<Directory, ProviderError>)
        requires
            tree.wf(),
        ensures
            read_view(r) == tree.read_spec(uctx, self.full_spec()),
    {
        tree.read_directory(uctx, self.full())
    }

    /// The parent of this directory; `None` for the global root.
    pub fn parent(&self, tree: &Tree) -> (r: Result<Option<FullDirectoryId>, ProviderError>)
        requires
            tree.wf(),
        ensures
            r == tree.parent_spec(self.full_spec()),
    {
        tree.directory_parent(self.full())
    }

    /// The name of this directory; `None` for the global root.
    pub fn name(&self, tree: &Tree) -> (r: Result<Option<String>, ProviderError>)
        requires
            tree.wf(),
        ensures
            tree_directory_name_post(tree, self.full_spec(), r),
    {
        tree.directory_name(self.full())
    }

    /// Creates note `name` in this directory.
    pub fn create_note(&self, tree: &mut Tree, note: Note, name: &str) -> (r: Result<NoteRef, ProviderError>)
        requires
            old(tree).wf(),
        ensures
            tree_create_note_post(old(tree), final(tree), self.full_spec(), name@, note.view(), r),
    {
        tree.create_note(self.full(), name, note)
    }

    /// Creates subdirectory `name` in this directory.
    pub fn create_directory(&self, tree: &mut Tree, name: &str) -> (r: Result<DirectoryRef, ProviderError>)
        requires
            old(tree).wf(),
        ensures
            tree_create_directory_post(old(tree), final(tree), self.full_spec(), name@, r),
    {
        tree.create_directory(self.full(), name)
    }

    /// Renames this directory.
    pub fn rename(&self, tree: &mut Tree, new_name: &str) -> (r: Result<(), ProviderError>)
        requires
            old(tree).wf(),
        ensures
            tree_rename_directory_post(old(tree), final(tree), self.full_spec(), new_name@, r),
    {
        tree.rename_directory(self.full(), new_name)
    }

    /// Moves this directory into `destination` of the same provider.
    pub fn move_to(&self, tree: &mut Tree, destination: DirectoryId) -> (r: Result<(), ProviderError>)
        requires
            old(tree).wf(),
        ensures
            tree_move_directory_post(old(tree), final(tree), self.full_spec(),
                FullDirectoryId { provider: self.provider_id, directory: destination }, r),
    {
        tree.move_directory(self.full(), FullDirectoryId { provider: self.provider_id, directory: destination })
    }

    /// Deletes this directory with everything below it.
    pub fn delete(&self, tree: &mut Tree) -> (r: Result<(), ProviderError>)
        requires
            old(tree).wf(),
        ensures
            tree_delete_directory_post(old(tree), final(tree), self.full_spec(), r),
    {
        tree.delete_directory(self.full())
    }
}

impl NoteRef {
    /// The directory that holds this note.
    pub fn parent(&self, tree: &Tree) -> (r: Result<FullDirectoryId, ProviderError>)
        requires
            tree.wf(),
        ensures
            tree_note_parent_post(tree, self.full_spec(), r),
    {
        tree.note_parent(self.full())
    }

    /// The text of this note.
    pub fn read(&self, tree: &Tree, uctx: ProviderUserContext) -> (r: Result<Note, ProviderError>)
        requires
            tree.wf(),
        ensures
            tree_read_note_post(tree, uctx, self.full_spec(), r),
    {
        tree.read_note(uctx, self.full())
    }

    /// The name of this note.
    pub fn name(&self, tree: &Tree) -> (r: Result<String, ProviderError>)
        requires
            tree.wf(),
        ensures
            tree_note_name_post(tree, self.full_spec(), r),
    {
        tree.note_name(self.full())
    }

    /// Replaces the text of this note.
    pub fn write(&self, tree: &mut Tree, new_note: Note) -> (r: Result<(), ProviderError>)
        requires
            old(tree).wf(),
        ensures
            tree_update_note_post(old(tree), final(tree), self.full_spec(), new_note.view(), r),
    {
        tree.update_note(self.full(), new_note)
    }

    /// Renames this note.
    pub fn rename(&self, tree: &mut Tree, new_name: &str) -> (r: Result<(), ProviderError>)
        requires
            old(tree).wf(),
        ensures
            tree_rename_note_post(old(tree), final(tree), self.full_spec(), new_name@, r),
    {
        tree.rename_note(self.full(), new_name)
    }

    /// Moves this note into `destination` of the same provider.
    pub fn move_to(&self, tree: &mut Tree, destination: DirectoryId) -> (r: Result<(), ProviderError>)
        requires
            old(tree).wf(),
        ensures
            tree_move_note_post(old(tree), final(tree), self.full_spec(),
                FullDirectoryId { provider: self.provider_id, directory: destination }, r),
    {
        tree.move_note(self.full(), FullDirectoryId { provider: self.provider_id, directory: destination })
    }

    /// Deletes this note.
    pub fn delete(&self, tree: &mut Tree) -> (r: Result<(), ProviderError>)
        requires
            old(tree).wf(),
        ensures
            tree_delete_note_post(old(tree), final(tree), self.full_spec(), r),
    {
        tree.delete_note(self.full())
    }
}


/// What the tree's `add_mount_point` gives and leaves, from the tree `old` before it.
pub open spec fn tree_add_mount_point_post(old: &Tree, new: &Tree, mount_dir: FullDirectoryId, provider: ProviderId, r: Result<(), ProviderError>) -> bool {
    &&& new.wf()
    &&& new.others_same(old, mount_dir.provider)
    &&& !old.registered(mount_dir.provider) ==> r == Err::<(), ProviderError>(ProviderError::NoSuchProvider(mount_dir.provider))
        && new.providers_spec() == old.providers_spec()
    &&& old.registered(mount_dir.provider) ==> match old.provider(mount_dir.provider) {
        ProviderImpl::Db(d) => new.provider(mount_dir.provider) matches ProviderImpl::Db(d2)
            && add_mount_point_post(&d, &d2, mount_dir.directory, provider, r),
        ProviderImpl::Archive(_) => r == Err::<(), ProviderError>(ProviderError::OperationNotSupported)
            && new.providers_spec() == old.providers_spec(),
    }
}

impl Tree {
    /// Mounts provider `provider` on directory `mount_dir`.
    pub fn add_mount_point(&mut self, mount_dir: FullDirectoryId, provider: ProviderId) -> (r: Result<(), ProviderError>)
        requires
            old(self).wf(),
        ensures
            tree_add_mount_point_post(old(self), final(self), mount_dir, provider, r),
    {
        let i = match self.lookup(mount_dir.provider) {
            None => {
                return Err(ProviderError::NoSuchProvider(mount_dir.provider));
            },
            Some(i) => i,
        };
        if let ProviderImpl::Archive(_) = &self.providers[i] {
            return Err(ProviderError::OperationNotSupported);
        }
        let ghost before = self.providers@;
        let r = match &mut self.providers[i] {
            ProviderImpl::Db(d) => d.add_mount_point(mount_dir.directory, provider),
            ProviderImpl::Archive(_) => Err(ProviderError::OperationNotSupported),
        };
        proof {
            assert forall|j: int| 0 <= j < self.providers@.len() && j != i implies #[trigger] self.providers@[j] == before[j] by {}
            assert(self.providers@[i as int].wf());
        }
        r
    }
}

impl DirectoryRef {
    /// Mounts provider `provider` on this directory.
    pub fn mount_here(&self, tree: &mut Tree, provider: ProviderId) -> (r: Result<(), ProviderError>)
        requires
            old(tree).wf(),
        ensures
            tree_add_mount_point_post(old(tree), final(tree), self.full_spec(), provider, r),
    {
        tree.add_mount_point(self.full(), provider)
    }
}
} // verus!

//! The relational provider: directories and notes held in adjacency tables,
//! each row naming its parent, with sibling names unique per kind.
use vstd::prelude::*;

use crate::ids::{DirectoryId, NoteId, ProviderId};
use crate::kb::{Directory, DirectoryRef, FormattedText, ItemRef, Note, NoteRef, ProviderError, listing_view};

verus! {

/// A row of the directory table: the directory, its parent and its name.
#[derive(Debug)]
pub struct DirRow {
    pub id: u64,
    pub parent: u64,
    pub name: String,
}

/// A row of the note table: the note, its parent directory, its name and text.
#[derive(Debug)]
pub struct NoteRow {
    pub id: u64,
    pub parent: u64,
    pub name: String,
    pub content: String,
}

/// Whether directory `id` exists: the root always does.
pub open spec fn dir_exists(dirs: Seq<DirRow>, id: u64) -> bool {
    id == 0 || exists|i: int| 0 <= i < dirs.len() && dirs[i].id == id
}

pub open spec fn dir_row_index(dirs: Seq<DirRow>, id: u64) -> int {
    choose|i: int| 0 <= i < dirs.len() && dirs[i].id == id
}

/// The parent of directory `id`, if it has a row.
pub open spec fn dir_parent(dirs: Seq<DirRow>, id: u64) -> Option<u64> {
    if exists|i: int| 0 <= i < dirs.len() && dirs[i].id == id {
        Some(dirs[dir_row_index(dirs, id)].parent)
    } else {
        None
    }
}

pub open spec fn note_exists(notes: Seq<NoteRow>, id: u64) -> bool {
    exists|i: int| 0 <= i < notes.len() && notes[i].id == id
}

pub open spec fn note_row_index(notes: Seq<NoteRow>, id: u64) -> int {
    choose|i: int| 0 <= i < notes.len() && notes[i].id == id
}

/// Whether a directory other than `except` under `parent` is called `name`.
pub open spec fn dir_name_taken(dirs: Seq<DirRow>, parent: u64, name: Seq<char>, except: u64) -> bool {
    exists|i: int|
        0 <= i < dirs.len() && dirs[i].parent == parent && dirs[i].name@ == name && dirs[i].id
            != except
}

/// Whether a note other than `except` under `parent` is called `name`.
pub open spec fn note_name_taken(
    notes: Seq<NoteRow>,
    parent: u64,
    name: Seq<char>,
    except: u64,
) -> bool {
    exists|i: int|
        0 <= i < notes.len() && notes[i].parent == parent && notes[i].name@ == name
            && notes[i].id != except
}

/// The rules of the directory table.
pub open spec fn dirs_wf(dirs: Seq<DirRow>, next_id: u64) -> bool {
    &&& 0 < next_id
    &&& forall|i: int| 0 <= i < dirs.len() ==> 0 < #[trigger] dirs[i].id < next_id
    &&& forall|i: int, j: int|
        0 <= i < dirs.len() && 0 <= j < dirs.len() && i != j ==> #[trigger] dirs[i].id
            != #[trigger] dirs[j].id
    &&& forall|i: int| 0 <= i < dirs.len() ==> dir_exists(dirs, #[trigger] dirs[i].parent)
    &&& forall|i: int, j: int|
        0 <= i < dirs.len() && 0 <= j < dirs.len() && i != j && dirs[i].parent == dirs[j].parent
            ==> #[trigger] dirs[i].name@ != #[trigger] dirs[j].name@
}

/// The rules of the note table.
pub open spec fn notes_wf(notes: Seq<NoteRow>, dirs: Seq<DirRow>, next_id: u64) -> bool {
    &&& 0 < next_id
    &&& forall|i: int| 0 <= i < notes.len() ==> 0 < #[trigger] notes[i].id < next_id
    &&& forall|i: int, j: int|
        0 <= i < notes.len() && 0 <= j < notes.len() && i != j ==> #[trigger] notes[i].id
            != #[trigger] notes[j].id
    &&& forall|i: int| 0 <= i < notes.len() ==> dir_exists(dirs, #[trigger] notes[i].parent)
    &&& forall|i: int, j: int|
        0 <= i < notes.len() && 0 <= j < notes.len() && i != j && notes[i].parent
            == notes[j].parent ==> #[trigger] notes[i].name@ != #[trigger] notes[j].name@
}

/// The provider of a mount point, if the directory is one.
pub open spec fn mount_of(mounts: Seq<(DirectoryId, ProviderId)>, dir: DirectoryId) -> Option<
    ProviderId,
> {
    if exists|i: int| 0 <= i < mounts.len() && mounts[i].0 == dir {
        Some(mounts[choose|i: int| 0 <= i < mounts.len() && mounts[i].0 == dir].1)
    } else {
        None
    }
}

pub open spec fn mounts_wf(mounts: Seq<(DirectoryId, ProviderId)>) -> bool {
    forall|i: int, j: int|
        0 <= i < mounts.len() && 0 <= j < mounts.len() && i != j ==> #[trigger] mounts[i].0
            != #[trigger] mounts[j].0
}

/// The directories under `parent`, in table order.
pub open spec fn dir_entries(dirs: Seq<DirRow>, parent: u64, pid: ProviderId) -> Seq<
    (Seq<char>, ItemRef),
>
    decreases dirs.len(),
{
    if dirs.len() == 0 {
        seq![]
    } else {
        let rest = dir_entries(dirs.drop_last(), parent, pid);
        let r = dirs.last();
        if r.parent == parent {
            rest.push(
                (r.name@, ItemRef::Directory(DirectoryRef { id: DirectoryId(r.id), provider_id: pid })),
            )
        } else {
            rest
        }
    }
}

/// The notes under `parent`, in table order.
pub open spec fn note_entries(notes: Seq<NoteRow>, parent: u64, pid: ProviderId) -> Seq<
    (Seq<char>, ItemRef),
>
    decreases notes.len(),
{
    if notes.len() == 0 {
        seq![]
    } else {
        let rest = note_entries(notes.drop_last(), parent, pid);
        let r = notes.last();
        if r.parent == parent {
            rest.push((r.name@, ItemRef::Note(NoteRef { id: NoteId(r.id), provider_id: pid })))
        } else {
            rest
        }
    }
}

/// The listing of a directory: its notes, then its subdirectories.
pub open spec fn local_listing(
    dirs: Seq<DirRow>,
    notes: Seq<NoteRow>,
    parent: u64,
    pid: ProviderId,
) -> Seq<(Seq<char>, ItemRef)> {
    note_entries(notes, parent, pid) + dir_entries(dirs, parent, pid)
}

/// The relational provider. Directory `0` is its root.
pub struct DbProvider {
    id: Option<ProviderId>,
    dirs: Vec<DirRow>,
    notes: Vec<NoteRow>,
    next_dir_id: u64,
    next_note_id: u64,
    mount_points: Vec<(DirectoryId, ProviderId)>,
}

impl DbProvider {
    pub closed spec fn id_spec(&self) -> Option<ProviderId> {
        self.id
    }

    pub closed spec fn dirs_spec(&self) -> Seq<DirRow> {
        self.dirs@
    }

    pub closed spec fn notes_spec(&self) -> Seq<NoteRow> {
        self.notes@
    }

    pub closed spec fn next_dir_spec(&self) -> u64 {
        self.next_dir_id
    }

    pub closed spec fn next_note_spec(&self) -> u64 {
        self.next_note_id
    }

    pub closed spec fn mounts_spec(&self) -> Seq<(DirectoryId, ProviderId)> {
        self.mount_points@
    }

    pub open spec fn wf(&self) -> bool {
        &&& dirs_wf(self.dirs_spec(), self.next_dir_spec())
        &&& dirs_acyclic(self.dirs_spec())
        &&& notes_wf(self.notes_spec(), self.dirs_spec(), self.next_note_spec())
        &&& mounts_wf(self.mounts_spec())
    }

    pub open spec fn has_dir(&self, id: DirectoryId) -> bool {
        dir_exists(self.dirs_spec(), id.0)
    }

    pub open spec fn has_note(&self, id: NoteId) -> bool {
        note_exists(self.notes_spec(), id.0)
    }

    pub open spec fn mount_spec(&self, dir: DirectoryId) -> Option<ProviderId> {
        mount_of(self.mounts_spec(), dir)
    }

    /// What `read_directory` lists for a directory that is no mount point.
    pub open spec fn listing(&self, dir: DirectoryId) -> Seq<(Seq<char>, ItemRef)> {
        local_listing(self.dirs_spec(), self.notes_spec(), dir.0, self.id_spec().unwrap())
    }

    /// Everything but the assigned id.
    pub open spec fn same_content(&self, other: &DbProvider) -> bool {
        &&& self.dirs_spec() == other.dirs_spec()
        &&& self.notes_spec() == other.notes_spec()
        &&& self.next_dir_spec() == other.next_dir_spec()
        &&& self.next_note_spec() == other.next_note_spec()
        &&& self.mounts_spec() == other.mounts_spec()
    }

    /// An empty provider: the root directory alone.
    pub fn new() -> (r: Self)
        ensures
            r.wf(),
            r.id_spec() is None,
            r.dirs_spec().len() == 0,
            r.notes_spec().len() == 0,
            r.mounts_spec().len() == 0,
            r.next_dir_spec() == 1,
            r.next_note_spec() == 1,
    {
        DbProvider {
            id: None,
            dirs: Vec::new(),
            notes: Vec::new(),
            next_dir_id: 1,
            next_note_id: 1,
            mount_points: Vec::new(),
        }
    }

    pub fn name(&self) -> (r: String)
        ensures
            r@ == "db"@,
    {
        String::from_str("db")
    }

    pub fn id(&self) -> (r: ProviderId)
        requires
            self.id_spec() is Some,
        ensures
            r == self.id_spec().unwrap(),
    {
        self.id.unwrap()
    }

    pub fn assign_id(&mut self, provider_id: ProviderId)
        ensures
            final(self).id_spec() == Some(provider_id),
            final(self).same_content(old(self)),
    {
        self.id = Some(provider_id);
    }

    /// The root directory of this provider.
    pub fn root_directory(&self) -> (r: DirectoryRef)
        requires
            self.id_spec() is Some,
        ensures
            r == (DirectoryRef { id: DirectoryId(0), provider_id: self.id_spec().unwrap() }),
    {
        DirectoryRef { id: DirectoryId(0), provider_id: self.id() }
    }

    fn find_dir(&self, id: u64) -> (r: Option<usize>)
        ensures
            r matches Some(i) ==> i < self.dirs@.len() && self.dirs@[i as int].id == id,
            r is None ==> forall|i: int| 0 <= i < self.dirs@.len() ==> self.dirs@[i].id != id,
    {
        let mut i: usize = 0;
        while i < self.dirs.len()
            invariant
                i <= self.dirs@.len(),
                forall|j: int| 0 <= j < i ==> self.dirs@[j].id != id,
            decreases self.dirs@.len() - i,
        {
            if self.dirs[i].id == id {
                return Some(i);
            }
            i = i + 1;
        }
        None
    }

    fn find_note(&self, id: u64) -> (r: Option<usize>)
        ensures
            r matches Some(i) ==> i < self.notes@.len() && self.notes@[i as int].id == id,
            r is None ==> forall|i: int| 0 <= i < self.notes@.len() ==> self.notes@[i].id != id,
    {
        let mut i: usize = 0;
        while i < self.notes.len()
            invariant
                i <= self.notes@.len(),
                forall|j: int| 0 <= j < i ==> self.notes@[j].id != id,
            decreases self.notes@.len() - i,
        {
            if self.notes[i].id == id {
                return Some(i);
            }
            i = i + 1;
        }
        None
    }

    /// Whether `dir` is a mount point, and of which provider.
    pub fn mount_point(&self, dir: DirectoryId) -> (r: Option<ProviderId>)
        requires
            self.wf(),
        ensures
            r == self.mount_spec(dir),
    {
        let mut i: usize = 0;
        while i < self.mount_points.len()
            invariant
                i <= self.mount_points@.len(),
                mounts_wf(self.mount_points@),
                forall|j: int| 0 <= j < i ==> self.mount_points@[j].0 != dir,
            decreases self.mount_points@.len() - i,
        {
            if self.mount_points[i].0 == dir {
                proof {
                    let k = choose|k: int|
                        0 <= k < self.mount_points@.len() && self.mount_points@[k].0 == dir;
                    assert(k == i);
                }
                return Some(self.mount_points[i].1);
            }
            i = i + 1;
        }
        None
    }

    fn dir_name_in_use(&self, parent: u64, name: &str, except: u64) -> (r: bool)
        ensures
            r == dir_name_taken(self.dirs@, parent, name@, except),
    {
        let mut i: usize = 0;
        while i < self.dirs.len()
            invariant
                i <= self.dirs@.len(),
                forall|j: int|
                    0 <= j < i ==> !(self.dirs@[j].parent == parent && self.dirs@[j].name@ == name@
                        && self.dirs@[j].id != except),
            decreases self.dirs@.len() - i,
        {
            let row = &self.dirs[i];
            if row.parent == parent && row.id != except && crate::text::same_text(
                row.name.as_str(),
                name,
            ) {
                return true;
            }
            i = i + 1;
        }
        false
    }

    fn note_name_in_use(&self, parent: u64, name: &str, except: u64) -> (r: bool)
        ensures
            r == note_name_taken(self.notes@, parent, name@, except),
    {
        let mut i: usize = 0;
        while i < self.notes.len()
            invariant
                i <= self.notes@.len(),
                forall|j: int|
                    0 <= j < i ==> !(self.notes@[j].parent == parent && self.notes@[j].name@
                        == name@ && self.notes@[j].id != except),
            decreases self.notes@.len() - i,
        {
            let row = &self.notes[i];
            if row.parent == parent && row.id != except && crate::text::same_text(
                row.name.as_str(),
                name,
            ) {
                return true;
            }
            i = i + 1;
        }
        false
    }

    /// Lists the notes, then the subdirectories, of directory `id`. A mount
    /// point is refused: what it lists is the root of the provider mounted
    /// there, which the tree that holds both providers reads.
    pub fn read_directory(&self, id: DirectoryId) -> (r: Result<Directory, ProviderError>)
        requires
            self.wf(),
            self.id_spec() is Some,
        ensures
            self.mount_spec(id) is Some ==> r == Err::<Directory, ProviderError>(
                ProviderError::OperationNotSupported,
            ),
            self.mount_spec(id) is None && !self.has_dir(id) ==> r == Err::<Directory, ProviderError>(
                ProviderError::NoSuchDirectory(id),
            ),
            self.mount_spec(id) is None && self.has_dir(id) ==> (r matches Ok(d) && d.view() == self.listing(id)),
    {
        if self.mount_point(id).is_some() {
            return Err(ProviderError::OperationNotSupported);
        }
        if id.0 != 0 && self.find_dir(id.0).is_none() {
            return Err(ProviderError::NoSuchDirectory(id));
        }
        let pid = self.id();
        let mut children: Vec<(String, ItemRef)> = Vec::new();
        let mut i: usize = 0;
        while i < self.notes.len()
            invariant
                i <= self.notes@.len(),
                pid == self.id_spec().unwrap(),
                listing_view(children@) == note_entries(self.notes@.take(i as int), id.0, pid),
            decreases self.notes@.len() - i,
        {
            let row = &self.notes[i];
            proof {
                assert(self.notes@.take(i + 1).drop_last() =~= self.notes@.take(i as int));
            }
            if row.parent == id.0 {
                let entry = (row.name.clone(), ItemRef::Note(NoteRef { id: NoteId(row.id), provider_id: pid }));
                let ghost before = children@;
                children.push(entry);
                proof {
                    assert(listing_view(children@) =~= listing_view(before).push((entry.0@, entry.1)));
                }
            }
            i = i + 1;
        }
        proof {
            assert(self.notes@.take(self.notes@.len() as int) =~= self.notes@);
        }
        let ghost notes_part = listing_view(children@);
        let mut j: usize = 0;
        while j < self.dirs.len()
            invariant
                j <= self.dirs@.len(),
                pid == self.id_spec().unwrap(),
                notes_part == note_entries(self.notes@, id.0, pid),
                listing_view(children@) == notes_part + dir_entries(self.dirs@.take(j as int), id.0, pid),
            decreases self.dirs@.len() - j,
        {
            let row = &self.dirs[j];
            proof {
                assert(self.dirs@.take(j + 1).drop_last() =~= self.dirs@.take(j as int));
            }
            if row.parent == id.0 {
                let entry = (
                    row.name.clone(),
                    ItemRef::Directory(DirectoryRef { id: DirectoryId(row.id), provider_id: pid }),
                );
                let ghost before = children@;
                children.push(entry);
                proof {
                    assert(listing_view(children@) =~= listing_view(before).push((entry.0@, entry.1)));
                }
            }
            j = j + 1;
        }
        proof {
            assert(self.dirs@.take(self.dirs@.len() as int) =~= self.dirs@);
        }
        Ok(Directory { children })
    }
}


/// `new` is `old` with one more directory row, last in the table.
pub open spec fn with_new_dir(old: &DbProvider, new: &DbProvider, parent: u64, name: Seq<char>) -> bool {
    &&& new.dirs_spec().len() == old.dirs_spec().len() + 1
    &&& new.dirs_spec().drop_last() == old.dirs_spec()
    &&& new.dirs_spec().last().id == old.next_dir_spec()
    &&& new.dirs_spec().last().parent == parent
    &&& new.dirs_spec().last().name@ == name
    &&& new.next_dir_spec() == old.next_dir_spec() + 1
    &&& new.notes_spec() == old.notes_spec()
    &&& new.next_note_spec() == old.next_note_spec()
    &&& new.mounts_spec() == old.mounts_spec()
    &&& new.id_spec() == old.id_spec()
}

/// `new` is `old` with one more note row, last in the table.
pub open spec fn with_new_note(
    old: &DbProvider,
    new: &DbProvider,
    parent: u64,
    name: Seq<char>,
    content: Seq<char>,
) -> bool {
    &&& new.notes_spec().len() == old.notes_spec().len() + 1
    &&& new.notes_spec().drop_last() == old.notes_spec()
    &&& new.notes_spec().last().id == old.next_note_spec()
    &&& new.notes_spec().last().parent == parent
    &&& new.notes_spec().last().name@ == name
    &&& new.notes_spec().last().content@ == content
    &&& new.next_note_spec() == old.next_note_spec() + 1
    &&& new.dirs_spec() == old.dirs_spec()
    &&& new.next_dir_spec() == old.next_dir_spec()
    &&& new.mounts_spec() == old.mounts_spec()
    &&& new.id_spec() == old.id_spec()
}

/// `new` is `old` with row `i` of the directory table replaced by `row`.
pub open spec fn with_dir_row(old: &DbProvider, new: &DbProvider, i: int, id: u64, parent: u64, name: Seq<char>) -> bool {
    &&& new.dirs_spec().len() == old.dirs_spec().len()
    &&& forall|j: int| 0 <= j < old.dirs_spec().len() && j != i ==> #[trigger] new.dirs_spec()[j] == old.dirs_spec()[j]
    &&& new.dirs_spec()[i].id == id
    &&& new.dirs_spec()[i].parent == parent
    &&& new.dirs_spec()[i].name@ == name
    &&& new.next_dir_spec() == old.next_dir_spec()
    &&& new.notes_spec() == old.notes_spec()
    &&& new.next_note_spec() == old.next_note_spec()
    &&& new.mounts_spec() == old.mounts_spec()
    &&& new.id_spec() == old.id_spec()
}

/// `new` is `old` with row `i` of the note table replaced.
pub open spec fn with_note_row(
    old: &DbProvider,
    new: &DbProvider,
    i: int,
    parent: u64,
    name: Seq<char>,
    content: Seq<char>,
) -> bool {
    &&& new.notes_spec().len() == old.notes_spec().len()
    &&& forall|j: int| 0 <= j < old.notes_spec().len() && j != i ==> #[trigger] new.notes_spec()[j] == old.notes_spec()[j]
    &&& new.notes_spec()[i].id == old.notes_spec()[i].id
    &&& new.notes_spec()[i].parent == parent
    &&& new.notes_spec()[i].name@ == name
    &&& new.notes_spec()[i].content@ == content
    &&& new.next_note_spec() == old.next_note_spec()
    &&& new.dirs_spec() == old.dirs_spec()
    &&& new.next_dir_spec() == old.next_dir_spec()
    &&& new.mounts_spec() == old.mounts_spec()
    &&& new.id_spec() == old.id_spec()
}

proof fn lemma_dir_exists_push(dirs: Seq<DirRow>, row: DirRow, x: u64)
    requires
        dir_exists(dirs, x),
    ensures
        dir_exists(dirs.push(row), x),
{
    if x != 0 {
        let i = choose|i: int| 0 <= i < dirs.len() && dirs[i].id == x;
        assert(dirs.push(row)[i].id == x);
    }
}

proof fn lemma_dir_exists_same_ids(dirs: Seq<DirRow>, other: Seq<DirRow>, x: u64)
    requires
        dir_exists(dirs, x),
        dirs.len() == other.len(),
        forall|j: int| 0 <= j < dirs.len() ==> #[trigger] other[j].id == dirs[j].id,
    ensures
        dir_exists(other, x),
{
    if x != 0 {
        let i = choose|i: int| 0 <= i < dirs.len() && dirs[i].id == x;
        assert(other[i].id == x);
    }
}

proof fn lemma_unique_row(dirs: Seq<DirRow>, next: u64, i: int)
    requires
        dirs_wf(dirs, next),
        0 <= i < dirs.len(),
    ensures
        dir_row_index(dirs, dirs[i].id) == i,
        dir_parent(dirs, dirs[i].id) == Some(dirs[i].parent),
{
    let k = dir_row_index(dirs, dirs[i].id);
    assert(0 <= k < dirs.len() && dirs[k].id == dirs[i].id);
}

proof fn lemma_unique_note_row(notes: Seq<NoteRow>, dirs: Seq<DirRow>, next: u64, i: int)
    requires
        notes_wf(notes, dirs, next),
        0 <= i < notes.len(),
    ensures
        note_row_index(notes, notes[i].id) == i,
{
    let k = note_row_index(notes, notes[i].id);
    assert(0 <= k < notes.len() && notes[k].id == notes[i].id);
}

impl DbProvider {
    /// Creates a subdirectory `name` in directory `target`.
    #[verifier::rlimit(50)]
    pub fn create_directory(&mut self, target: DirectoryId, name: &str) -> (r: Result<DirectoryRef, ProviderError>)
        requires
            old(self).wf(),
            old(self).id_spec() is Some,
        ensures
            final(self).wf(),
            final(self).id_spec() == old(self).id_spec(),
            create_directory_post(old(self), final(self), target, name@, r),
    {
        if target.0 != 0 && self.find_dir(target.0).is_none() {
            return Err(ProviderError::NoSuchDirectory(target));
        }
        if self.dir_name_in_use(target.0, name, 0) {
            return Err(ProviderError::TargetNameAlreadyExists(String::from_str(name)));
        }
        if self.next_dir_id == u64::MAX {
            let d = "no directory ids are left";
            return Err(ProviderError::StorageError { description: String::from_str(d) });
        }
        let id = self.next_dir_id;
        let row = DirRow { id, parent: target.0, name: String::from_str(name) };
        let ghost before = self.dirs@;
        self.dirs.push(row);
        self.next_dir_id = id + 1;
        proof {
            let dirs = self.dirs@;
            assert(dirs.drop_last() =~= before);
            assert forall|i: int| 0 <= i < dirs.len() implies 0 < #[trigger] dirs[i].id < self.next_dir_id by {
                if i < before.len() {
                    assert(dirs[i] == before[i]);
                }
            }
            assert forall|i: int, j: int|
                0 <= i < dirs.len() && 0 <= j < dirs.len() && i != j
                implies #[trigger] dirs[i].id != #[trigger] dirs[j].id by {
                if i < before.len() {
                    assert(dirs[i] == before[i]);
                }
                if j < before.len() {
                    assert(dirs[j] == before[j]);
                }
            }
            assert forall|i: int| 0 <= i < dirs.len() implies dir_exists(dirs, #[trigger] dirs[i].parent) by {
                if i < before.len() {
                    assert(dirs[i] == before[i]);
                    lemma_dir_exists_push(before, row, before[i].parent);
                } else {
                    lemma_dir_exists_push(before, row, target.0);
                }
            }
            assert forall|i: int, j: int|
                0 <= i < dirs.len() && 0 <= j < dirs.len() && i != j && dirs[i].parent == dirs[j].parent
                implies #[trigger] dirs[i].name@ != #[trigger] dirs[j].name@ by {
                if i == before.len() as int {
                    assert(dirs[j] == before[j]);
                } else if j == before.len() as int {
                    assert(dirs[i] == before[i]);
                } else {
                    assert(dirs[i] == before[i] && dirs[j] == before[j]);
                }
            }
            let notes = self.notes@;
            assert forall|i: int| 0 <= i < notes.len() implies dir_exists(dirs, #[trigger] notes[i].parent) by {
                lemma_dir_exists_push(before, row, notes[i].parent);
            }
            lemma_push_keeps_acyclic(before, dirs, id);
        }
        Ok(DirectoryRef { id: DirectoryId(id), provider_id: self.id() })
    }

    /// Creates note `name` with the text of `note` in directory `target`.
    pub fn create_note(&mut self, target: DirectoryId, note: Note, name: &str) -> (r: Result<NoteRef, ProviderError>)
        requires
            old(self).wf(),
            old(self).id_spec() is Some,
        ensures
            final(self).wf(),
            final(self).id_spec() == old(self).id_spec(),
            create_note_post(old(self), final(self), target, note.view(), name@, r),
    {
        if target.0 != 0 && self.find_dir(target.0).is_none() {
            return Err(ProviderError::NoSuchDirectory(target));
        }
        if self.note_name_in_use(target.0, name, 0) {
            return Err(ProviderError::TargetNameAlreadyExists(String::from_str(name)));
        }
        if self.next_note_id == u64::MAX {
            let d = "no note ids are left";
            return Err(ProviderError::StorageError { description: String::from_str(d) });
        }
        let id = self.next_note_id;
        let row = NoteRow { id, parent: target.0, name: String::from_str(name), content: note.text.raw_text };
        let ghost before = self.notes@;
        self.notes.push(row);
        self.next_note_id = id + 1;
        proof {
            let notes = self.notes@;
            assert(notes.drop_last() =~= before);
            assert forall|i: int| 0 <= i < notes.len() implies 0 < #[trigger] notes[i].id < self.next_note_id by {
                if i < before.len() {
                    assert(notes[i] == before[i]);
                }
            }
            assert forall|i: int, j: int|
                0 <= i < notes.len() && 0 <= j < notes.len() && i != j
                implies #[trigger] notes[i].id != #[trigger] notes[j].id by {
                if i < before.len() {
                    assert(notes[i] == before[i]);
                }
                if j < before.len() {
                    assert(notes[j] == before[j]);
                }
            }
            assert forall|i: int| 0 <= i < notes.len() implies dir_exists(self.dirs@, #[trigger] notes[i].parent) by {
                if i < before.len() {
                    assert(notes[i] == before[i]);
                }
            }
            assert forall|i: int, j: int|
                0 <= i < notes.len() && 0 <= j < notes.len() && i != j && notes[i].parent == notes[j].parent
                implies #[trigger] notes[i].name@ != #[trigger] notes[j].name@ by {
                if i == before.len() as int {
                    assert(notes[j] == before[j]);
                } else if j == before.len() as int {
                    assert(notes[i] == before[i]);
                } else {
                    assert(notes[i] == before[i] && notes[j] == before[j]);
                }
            }
        }
        Ok(NoteRef { id: NoteId(id), provider_id: self.id() })
    }

    /// The parent of a directory; `None` for the root.
    pub fn get_directory_parent(&self, id: DirectoryId) -> (r: Result<Option<DirectoryId>, ProviderError>)
        requires
            self.wf(),
        ensures
            id.0 == 0 ==> r == Ok::<Option<DirectoryId>, ProviderError>(None),
            id.0 != 0 && !self.has_dir(id) ==> r == Err::<Option<DirectoryId>, ProviderError>(ProviderError::NoSuchDirectory(id)),
            id.0 != 0 && self.has_dir(id) ==> r == Ok::<Option<DirectoryId>, ProviderError>(Some(DirectoryId(dir_parent(self.dirs_spec(), id.0).unwrap()))),
    {
        if id.0 == 0 {
            return Ok(None);
        }
        match self.find_dir(id.0) {
            None => Err(ProviderError::NoSuchDirectory(id)),
            Some(i) => {
                proof {
                    lemma_unique_row(self.dirs@, self.next_dir_id, i as int);
                }
                Ok(Some(DirectoryId(self.dirs[i].parent)))
            },
        }
    }

    /// The directory that holds a note.
    pub fn get_note_parent(&self, id: NoteId) -> (r: Result<DirectoryId, ProviderError>)
        requires
            self.wf(),
        ensures
            !self.has_note(id) ==> r == Err::<DirectoryId, ProviderError>(ProviderError::NoSuchNote(id)),
            self.has_note(id) ==> r == Ok::<DirectoryId, ProviderError>(
                DirectoryId(self.notes_spec()[note_row_index(self.notes_spec(), id.0)].parent)),
    {
        match self.find_note(id.0) {
            None => Err(ProviderError::NoSuchNote(id)),
            Some(i) => {
                proof {
                    lemma_unique_note_row(self.notes@, self.dirs@, self.next_note_id, i as int);
                }
                Ok(DirectoryId(self.notes[i].parent))
            },
        }
    }

    /// The name of a directory; `None` for the root.
    pub fn get_directory_name(&self, id: DirectoryId) -> (r: Result<Option<String>, ProviderError>)
        requires
            self.wf(),
        ensures
            id.0 == 0 ==> r matches Ok(None),
            id.0 != 0 && !self.has_dir(id) ==> r == Err::<Option<String>, ProviderError>(ProviderError::NoSuchDirectory(id)),
            id.0 != 0 && self.has_dir(id) ==> (r matches Ok(Some(n)) && n@ == self.dirs_spec()[dir_row_index(self.dirs_spec(), id.0)].name@),
    {
        if id.0 == 0 {
            return Ok(None);
        }
        match self.find_dir(id.0) {
            None => Err(ProviderError::NoSuchDirectory(id)),
            Some(i) => {
                proof {
                    lemma_unique_row(self.dirs@, self.next_dir_id, i as int);
                }
                Ok(Some(self.dirs[i].name.clone()))
            },
        }
    }

    /// The name of a note.
    pub fn get_note_name(&self, id: NoteId) -> (r: Result<String, ProviderError>)
        requires
            self.wf(),
        ensures
            !self.has_note(id) ==> r == Err::<String, ProviderError>(ProviderError::NoSuchNote(id)),
            self.has_note(id) ==> (r matches Ok(n) && n@ == self.notes_spec()[note_row_index(self.notes_spec(), id.0)].name@),
    {
        match self.find_note(id.0) {
            None => Err(ProviderError::NoSuchNote(id)),
            Some(i) => {
                proof {
                    lemma_unique_note_row(self.notes@, self.dirs@, self.next_note_id, i as int);
                }
                Ok(self.notes[i].name.clone())
            },
        }
    }

    /// The text of a note.
    pub fn read_note(&self, id: NoteId) -> (r: Result<Note, ProviderError>)
        requires
            self.wf(),
        ensures
            !self.has_note(id) ==> r == Err::<Note, ProviderError>(ProviderError::NoSuchNote(id)),
            self.has_note(id) ==> (r matches Ok(n) && n.view() == self.notes_spec()[note_row_index(self.notes_spec(), id.0)].content@),
    {
        match self.find_note(id.0) {
            None => Err(ProviderError::NoSuchNote(id)),
            Some(i) => {
                proof {
                    lemma_unique_note_row(self.notes@, self.dirs@, self.next_note_id, i as int);
                }
                Ok(Note { text: FormattedText { raw_text: self.notes[i].content.clone() } })
            },
        }
    }
}


/// The ancestor of `x` that is `k` steps up, if there is one.
pub open spec fn ancestor_at(dirs: Seq<DirRow>, x: u64, k: nat) -> Option<u64>
    decreases k,
{
    if k == 0 {
        Some(x)
    } else {
        match dir_parent(dirs, x) {
            Some(p) => ancestor_at(dirs, p, (k - 1) as nat),
            None => None,
        }
    }
}

/// Whether `x` is `a` or lies below it.
pub open spec fn is_descendant(dirs: Seq<DirRow>, x: u64, a: u64) -> bool {
    exists|k: nat| ancestor_at(dirs, x, k) == Some(a)
}

/// Whether following parents up from `x` ends at the root.
pub open spec fn reaches_root(dirs: Seq<DirRow>, x: u64) -> bool {
    exists|k: nat| ancestor_at(dirs, x, k) == Some(0u64)
}

/// The parent links form no cycle: from every directory they lead to the root.
pub open spec fn dirs_acyclic(dirs: Seq<DirRow>) -> bool {
    forall|i: int| 0 <= i < dirs.len() ==> reaches_root(dirs, #[trigger] dirs[i].id)
}

/// The root has no parent in a table whose ids are positive.
proof fn lemma_root_has_no_parent(dirs: Seq<DirRow>, next: u64)
    requires
        dirs_wf(dirs, next),
    ensures
        dir_parent(dirs, 0) is None,
{
    if exists|i: int| 0 <= i < dirs.len() && dirs[i].id == 0 {
        let i = choose|i: int| 0 <= i < dirs.len() && dirs[i].id == 0;
        assert(0 < dirs[i].id);
    }
}

/// If `x` is not `t`, `x` lies at or below `t` exactly when its parent does.
proof fn lemma_descendant_via_parent(dirs: Seq<DirRow>, x: u64, p: u64, t: u64)
    requires
        x != t,
        dir_parent(dirs, x) == Some(p),
    ensures
        is_descendant(dirs, x, t) == is_descendant(dirs, p, t),
{
    if is_descendant(dirs, x, t) {
        let m = choose|m: nat| ancestor_at(dirs, x, m) == Some(t);
        assert(m > 0);
        assert(ancestor_at(dirs, p, (m - 1) as nat) == Some(t));
    }
    if is_descendant(dirs, p, t) {
        let m = choose|m: nat| ancestor_at(dirs, p, m) == Some(t);
        assert(ancestor_at(dirs, x, m + 1) == Some(t));
    }
}

/// A chain to the root that avoids `a` is kept when only the parent of `a` changes.
proof fn lemma_chain_avoiding(old: Seq<DirRow>, new: Seq<DirRow>, a: u64, x: u64, k: nat)
    requires
        ancestor_at(old, x, k) == Some(0u64),
        !is_descendant(old, x, a),
        forall|y: u64| y != a ==> #[trigger] dir_parent(new, y) == dir_parent(old, y),
    ensures
        ancestor_at(new, x, k) == Some(0u64),
    decreases k,
{
    assert(ancestor_at(old, x, 0) == Some(x));
    if k > 0 {
        let p = dir_parent(old, x).unwrap();
        assert(dir_parent(new, x) == dir_parent(old, x));
        if is_descendant(old, p, a) {
            let m = choose|m: nat| ancestor_at(old, p, m) == Some(a);
            assert(ancestor_at(old, x, m + 1) == Some(a));
        }
        lemma_chain_avoiding(old, new, a, p, (k - 1) as nat);
    }
}

/// When only the parent of `a` changes and `a` still leads to the root,
/// every directory that led to the root still does.
proof fn lemma_chain_rerouted(old: Seq<DirRow>, new: Seq<DirRow>, a: u64, x: u64, k: nat)
    requires
        ancestor_at(old, x, k) == Some(0u64),
        reaches_root(new, a),
        forall|y: u64| y != a ==> #[trigger] dir_parent(new, y) == dir_parent(old, y),
    ensures
        reaches_root(new, x),
    decreases k,
{
    if x == a {
    } else if k == 0 {
        assert(ancestor_at(new, x, 0) == Some(0u64));
    } else {
        let p = dir_parent(old, x).unwrap();
        assert(dir_parent(new, x) == dir_parent(old, x));
        lemma_chain_rerouted(old, new, a, p, (k - 1) as nat);
        let m = choose|m: nat| ancestor_at(new, p, m) == Some(0u64);
        assert(ancestor_at(new, x, m + 1) == Some(0u64));
    }
}

/// Replacing row `i` by one with the same id changes only the parent of that id.
proof fn lemma_replaced_parents(old: Seq<DirRow>, new: Seq<DirRow>, next: u64, i: int)
    requires
        dirs_wf(old, next),
        0 <= i < old.len(),
        new.len() == old.len(),
        forall|j: int| 0 <= j < old.len() && j != i ==> #[trigger] new[j] == old[j],
        new[i].id == old[i].id,
    ensures
        forall|y: u64| y != old[i].id ==> #[trigger] dir_parent(new, y) == dir_parent(old, y),
        dir_parent(new, old[i].id) == Some(new[i].parent),
{
    assert forall|j: int| 0 <= j < new.len() implies #[trigger] new[j].id == old[j].id by {
        if j != i {
            assert(new[j] == old[j]);
        }
    }
    assert forall|y: u64| y != old[i].id implies #[trigger] dir_parent(new, y) == dir_parent(old, y) by {
        if exists|t: int| 0 <= t < old.len() && old[t].id == y {
            let t = choose|t: int| 0 <= t < old.len() && old[t].id == y;
            assert(new[t].id == y);
            let u = dir_row_index(new, y);
            let v = dir_row_index(old, y);
            assert(new[u].id == y && old[v].id == y);
            assert(old[u].id == y);
            assert(u == v);
            assert(u != i);
            assert(new[u] == old[u]);
        } else {
            if exists|t: int| 0 <= t < new.len() && new[t].id == y {
                let t = choose|t: int| 0 <= t < new.len() && new[t].id == y;
                assert(old[t].id == y);
            }
        }
    }
    let u = dir_row_index(new, old[i].id);
    assert(new[i].id == old[i].id);
    assert(new[u].id == old[i].id);
    assert(old[u].id == old[i].id);
}

/// Moving directory row `i` under `b`, which does not lie below it, keeps the
/// parent links free of cycles.
proof fn lemma_move_keeps_acyclic(old: Seq<DirRow>, new: Seq<DirRow>, next: u64, i: int, b: u64)
    requires
        dirs_wf(old, next),
        dirs_acyclic(old),
        0 <= i < old.len(),
        new.len() == old.len(),
        forall|j: int| 0 <= j < old.len() && j != i ==> #[trigger] new[j] == old[j],
        new[i].id == old[i].id,
        new[i].parent == b,
        dir_exists(old, b),
        !is_descendant(old, b, old[i].id),
    ensures
        dirs_acyclic(new),
{
    let a = old[i].id;
    lemma_replaced_parents(old, new, next, i);
    let kb: nat = if b == 0 {
        assert(ancestor_at(old, 0, 0) == Some(0u64));
        0
    } else {
        let t = choose|t: int| 0 <= t < old.len() && old[t].id == b;
        assert(reaches_root(old, old[t].id));
        choose|k: nat| ancestor_at(old, b, k) == Some(0u64)
    };
    lemma_chain_avoiding(old, new, a, b, kb);
    assert(ancestor_at(new, a, kb + 1) == Some(0u64));
    assert forall|j: int| 0 <= j < new.len() implies reaches_root(new, #[trigger] new[j].id) by {
        assert(new[j].id == old[j].id) by {
            if j != i {
                assert(new[j] == old[j]);
            }
        }
        assert(reaches_root(old, old[j].id));
        let k = choose|k: nat| ancestor_at(old, old[j].id, k) == Some(0u64);
        lemma_chain_rerouted(old, new, a, old[j].id, k);
    }
}


/// The ancestors of an existing directory exist.
proof fn lemma_ancestors_exist(dirs: Seq<DirRow>, next: u64, x: u64, k: nat)
    requires
        dirs_wf(dirs, next),
        dir_exists(dirs, x),
        ancestor_at(dirs, x, k) is Some,
    ensures
        dir_exists(dirs, ancestor_at(dirs, x, k).unwrap()),
    decreases k,
{
    if k > 0 {
        lemma_root_has_no_parent(dirs, next);
        let i = choose|i: int| 0 <= i < dirs.len() && dirs[i].id == x;
        lemma_unique_row(dirs, next, i);
        lemma_ancestors_exist(dirs, next, dirs[i].parent, (k - 1) as nat);
    }
}

/// Parents that are the same everywhere give the same ancestors.
proof fn lemma_same_parents_chain(old: Seq<DirRow>, new: Seq<DirRow>, x: u64, k: nat)
    requires
        forall|y: u64| #[trigger] dir_parent(new, y) == dir_parent(old, y),
    ensures
        ancestor_at(new, x, k) == ancestor_at(old, x, k),
    decreases k,
{
    if k > 0 {
        assert(dir_parent(new, x) == dir_parent(old, x));
        if let Some(p) = dir_parent(old, x) {
            lemma_same_parents_chain(old, new, p, (k - 1) as nat);
        }
    }
}

/// Renaming row `i` keeps the parent links free of cycles.
proof fn lemma_rename_keeps_acyclic(old: Seq<DirRow>, new: Seq<DirRow>, next: u64, i: int)
    requires
        dirs_wf(old, next),
        dirs_acyclic(old),
        0 <= i < old.len(),
        new.len() == old.len(),
        forall|j: int| 0 <= j < old.len() && j != i ==> #[trigger] new[j] == old[j],
        new[i].id == old[i].id,
        new[i].parent == old[i].parent,
    ensures
        dirs_acyclic(new),
{
    lemma_replaced_parents(old, new, next, i);
    lemma_unique_row(old, next, i);
    assert forall|y: u64| #[trigger] dir_parent(new, y) == dir_parent(old, y) by {
        if y != old[i].id {
            assert(dir_parent(new, y) == dir_parent(old, y));
        }
    }
    assert forall|j: int| 0 <= j < new.len() implies reaches_root(new, #[trigger] new[j].id) by {
        assert(new[j].id == old[j].id) by {
            if j != i {
                assert(new[j] == old[j]);
            }
        }
        assert(reaches_root(old, old[j].id));
        let k = choose|k: nat| ancestor_at(old, old[j].id, k) == Some(0u64);
        lemma_same_parents_chain(old, new, old[j].id, k);
    }
}

/// Adding a row with a fresh id under an existing directory keeps the parent
/// links free of cycles.
proof fn lemma_push_keeps_acyclic(old: Seq<DirRow>, new: Seq<DirRow>, next: u64)
    requires
        dirs_wf(old, next),
        dirs_acyclic(old),
        new.len() == old.len() + 1,
        new.drop_last() == old,
        new.last().id == next,
        dirs_wf(new, (next + 1) as u64),
        dir_exists(old, new.last().parent),
    ensures
        dirs_acyclic(new),
{
    let a = new.last().id;
    let n = old.len() as int;
    assert(new[n] == new.last());
    assert forall|j: int| 0 <= j < n implies #[trigger] new[j] == old[j] by {}
    assert(dir_parent(old, a) is None) by {
        if exists|t: int| 0 <= t < old.len() && old[t].id == a {
            let t = choose|t: int| 0 <= t < old.len() && old[t].id == a;
            assert(old[t].id < next);
        }
    }
    assert(!dir_exists(old, a)) by {
        if exists|t: int| 0 <= t < old.len() && old[t].id == a {
            let t = choose|t: int| 0 <= t < old.len() && old[t].id == a;
            assert(old[t].id < next);
        }
    }
    assert forall|y: u64| y != a implies #[trigger] dir_parent(new, y) == dir_parent(old, y) by {
        if exists|t: int| 0 <= t < old.len() && old[t].id == y {
            let t = choose|t: int| 0 <= t < old.len() && old[t].id == y;
            assert(new[t].id == y);
            let u = dir_row_index(new, y);
            let v = dir_row_index(old, y);
            assert(new[u].id == y);
            assert(u == t);
            assert(old[v].id == y);
            assert(old[v].id == old[t].id);
            assert(v == t);
        } else {
            if exists|t: int| 0 <= t < new.len() && new[t].id == y {
                let t = choose|t: int| 0 <= t < new.len() && new[t].id == y;
                assert(t != n);
                assert(old[t].id == y);
            }
        }
    }
    assert(dir_parent(new, a) == Some(new.last().parent)) by {
        let u = dir_row_index(new, a);
        assert(new[n].id == a);
        assert(new[u].id == a);
        assert(u == n);
    }
    assert forall|x: u64, k: nat| dir_exists(old, x) && ancestor_at(old, x, k) == Some(0u64)
        implies #[trigger] ancestor_at(new, x, k) == Some(0u64) by {
        if is_descendant(old, x, a) {
            let m = choose|m: nat| ancestor_at(old, x, m) == Some(a);
            lemma_ancestors_exist(old, next, x, m);
        }
        lemma_chain_avoiding(old, new, a, x, k);
    }
    let p = new.last().parent;
    let kp: nat = if p == 0 {
        assert(ancestor_at(old, 0, 0) == Some(0u64));
        0
    } else {
        let t = choose|t: int| 0 <= t < old.len() && old[t].id == p;
        assert(reaches_root(old, old[t].id));
        choose|k: nat| ancestor_at(old, p, k) == Some(0u64)
    };
    assert(ancestor_at(new, p, kp) == Some(0u64));
    assert(ancestor_at(new, a, kp + 1) == Some(0u64));
    assert forall|j: int| 0 <= j < new.len() implies reaches_root(new, #[trigger] new[j].id) by {
        if j < n {
            assert(reaches_root(old, old[j].id));
            let k = choose|k: nat| ancestor_at(old, old[j].id, k) == Some(0u64);
            assert(ancestor_at(new, old[j].id, k) == Some(0u64));
        }
    }
}

/// A chain to the root in `od` stays one in a table whose rows come from `od`
/// and whose parents all exist, if it starts at a directory there.
proof fn lemma_subset_chain(od: Seq<DirRow>, next: u64, nd: Seq<DirRow>, x: u64, k: nat)
    requires
        dirs_wf(od, next),
        dir_rows_ok(nd, next),
        forall|j: int| 0 <= j < nd.len() ==> dir_exists(nd, #[trigger] nd[j].parent),
        forall|j: int| 0 <= j < nd.len() ==> od.contains(#[trigger] nd[j]),
        dir_exists(nd, x),
        ancestor_at(od, x, k) == Some(0u64),
    ensures
        ancestor_at(nd, x, k) == Some(0u64),
    decreases k,
{
    if k > 0 {
        lemma_root_has_no_parent(od, next);
        assert(x != 0);
        let j = choose|j: int| 0 <= j < nd.len() && nd[j].id == x;
        assert(od.contains(nd[j]));
        let t = choose|t: int| 0 <= t < od.len() && od[t] == nd[j];
        lemma_unique_row(od, next, t);
        let u = dir_row_index(nd, x);
        assert(nd[u].id == x);
        assert(u == j);
        assert(dir_exists(nd, nd[j].parent));
        lemma_subset_chain(od, next, nd, nd[j].parent, (k - 1) as nat);
    }
}

/// Unmarked entries.
pub open spec fn unmarked(s: Seq<bool>) -> nat
    decreases s.len(),
{
    if s.len() == 0 {
        0
    } else {
        unmarked(s.drop_last()) + if s.last() {
            0nat
        } else {
            1nat
        }
    }
}

proof fn lemma_unmarked_update(s: Seq<bool>, i: int)
    requires
        0 <= i < s.len(),
        !s[i],
    ensures
        unmarked(s.update(i, true)) + 1 == unmarked(s),
    decreases s.len(),
{
    let t = s.update(i, true);
    if i == s.len() - 1 {
        assert(t.drop_last() =~= s.drop_last());
    } else {
        assert(t.drop_last() =~= s.drop_last().update(i, true));
        lemma_unmarked_update(s.drop_last(), i);
    }
}

/// Whether the parent of row `i` is the root or a marked row.
pub open spec fn parent_marked(dirs: Seq<DirRow>, marked: Seq<bool>, i: int) -> bool {
    dirs[i].parent == 0 || exists|j: int| 0 <= j < dirs.len() && dirs[j].id == dirs[i].parent && marked[j]
}

/// When no unmarked row has a marked parent, every row that leads to the
/// root is marked.
proof fn lemma_marking_complete(dirs: Seq<DirRow>, next: u64, marked: Seq<bool>, i: int, k: nat)
    requires
        dirs_wf(dirs, next),
        marked.len() == dirs.len(),
        forall|t: int| 0 <= t < dirs.len() && !marked[t] ==> !parent_marked(dirs, marked, t),
        0 <= i < dirs.len(),
        ancestor_at(dirs, dirs[i].id, k) == Some(0u64),
    ensures
        marked[i],
    decreases k,
{
    assert(dirs[i].id > 0);
    lemma_unique_row(dirs, next, i);
    let p = dirs[i].parent;
    if p != 0 {
        assert(dir_exists(dirs, p));
        let j = choose|j: int| 0 <= j < dirs.len() && dirs[j].id == p;
        lemma_marking_complete(dirs, next, marked, j, (k - 1) as nat);
        assert(parent_marked(dirs, marked, i));
    } else {
        assert(parent_marked(dirs, marked, i));
    }
}

fn row_of(dirs: &Vec<DirRow>, id: u64) -> (r: Option<usize>)
    ensures
        r matches Some(i) ==> i < dirs@.len() && dirs@[i as int].id == id,
        r is None ==> forall|i: int| 0 <= i < dirs@.len() ==> dirs@[i].id != id,
{
    let mut i: usize = 0;
    while i < dirs.len()
        invariant
            i <= dirs@.len(),
            forall|j: int| 0 <= j < i ==> dirs@[j].id != id,
        decreases dirs@.len() - i,
    {
        if dirs[i].id == id {
            return Some(i);
        }
        i = i + 1;
    }
    None
}

/// Whether every directory of a table leads to the root.
fn all_reach_root(dirs: &Vec<DirRow>, Ghost(next): Ghost<u64>) -> (r: bool)
    requires
        dirs_wf(dirs@, next),
    ensures
        r == dirs_acyclic(dirs@),
{
    let n = dirs.len();
    let mut marked: Vec<bool> = Vec::new();
    while marked.len() < n
        invariant
            marked@.len() <= n == dirs@.len(),
            forall|t: int| 0 <= t < marked@.len() ==> !marked@[t],
        decreases n - marked@.len(),
    {
        marked.push(false);
    }
    proof {
        lemma_root_has_no_parent(dirs@, next);
    }
    loop
        invariant
            n == dirs@.len() == marked@.len(),
            dirs_wf(dirs@, next),
            forall|t: int| 0 <= t < n && #[trigger] marked@[t] ==> reaches_root(dirs@, dirs@[t].id),
        ensures
            n == dirs@.len() == marked@.len(),
            forall|t: int| 0 <= t < n && #[trigger] marked@[t] ==> reaches_root(dirs@, dirs@[t].id),
            forall|t: int| 0 <= t < n && !marked@[t] ==> !parent_marked(dirs@, marked@, t),
        decreases unmarked(marked@),
    {
        let ghost start = marked@;
        let mut progress = false;
        let mut i: usize = 0;
        while i < n
            invariant
                i <= n == dirs@.len() == marked@.len(),
                dirs_wf(dirs@, next),
                forall|t: int| 0 <= t < n && #[trigger] marked@[t] ==> reaches_root(dirs@, dirs@[t].id),
                !progress ==> marked@ == start,
                progress ==> unmarked(marked@) < unmarked(start),
                !progress ==> forall|t: int| 0 <= t < i && !marked@[t] ==> !parent_marked(dirs@, marked@, t),
            decreases n - i,
        {
            if !marked[i] {
                let p = dirs[i].parent;
                let ok = if p == 0 {
                    true
                } else {
                    match row_of(dirs, p) {
                        Some(j) => marked[j],
                        None => false,
                    }
                };
                proof {
                    lemma_unique_row(dirs@, next, i as int);
                    if !ok && parent_marked(dirs@, marked@, i as int) {
                        let j = choose|j: int| 0 <= j < dirs@.len() && dirs@[j].id == dirs@[i as int].parent && marked@[j];
                        assert(p != 0);
                    }
                }
                if ok {
                    proof {
                        if p == 0 {
                            assert(ancestor_at(dirs@, 0, 0) == Some(0u64));
                            assert(dir_parent(dirs@, dirs@[i as int].id) == Some(0u64));
                            assert(ancestor_at(dirs@, dirs@[i as int].id, 1) == ancestor_at(dirs@, 0, 0));
                        } else {
                            let j = choose|j: int| 0 <= j < dirs@.len() && dirs@[j].id == p && marked@[j];
                            assert(reaches_root(dirs@, dirs@[j].id));
                            let m = choose|m: nat| ancestor_at(dirs@, p, m) == Some(0u64);
                            assert(ancestor_at(dirs@, dirs@[i as int].id, m + 1) == Some(0u64));
                        }
                        lemma_unmarked_update(marked@, i as int);
                    }
                    marked.set(i, true);
                    progress = true;
                }
            }
            i = i + 1;
        }
        if !progress {
            break;
        }
    }
    let mut i: usize = 0;
    while i < n
        invariant
            i <= n == dirs@.len() == marked@.len(),
            dirs_wf(dirs@, next),
            forall|t: int| 0 <= t < n && !marked@[t] ==> !parent_marked(dirs@, marked@, t),
            forall|t: int| 0 <= t < n && #[trigger] marked@[t] ==> reaches_root(dirs@, dirs@[t].id),
            forall|t: int| 0 <= t < i ==> marked@[t],
        decreases n - i,
    {
        if !marked[i] {
            proof {
                if dirs_acyclic(dirs@) {
                    assert(reaches_root(dirs@, dirs@[i as int].id));
                    let k = choose|k: nat| ancestor_at(dirs@, dirs@[i as int].id, k) == Some(0u64);
                    lemma_marking_complete(dirs@, next, marked@, i as int, k);
                }
            }
            return false;
        }
        i = i + 1;
    }
    proof {
        assert forall|t: int| 0 <= t < n implies reaches_root(dirs@, #[trigger] dirs@[t].id) by {
            assert(marked@[t]);
        }
    }
    true
}

proof fn lemma_replace_dir_row(
    old: Seq<DirRow>,
    new: Seq<DirRow>,
    next: u64,
    notes: Seq<NoteRow>,
    next_note: u64,
    i: int,
)
    requires
        dirs_wf(old, next),
        notes_wf(notes, old, next_note),
        0 <= i < old.len(),
        new.len() == old.len(),
        forall|j: int| 0 <= j < old.len() && j != i ==> #[trigger] new[j] == old[j],
        new[i].id == old[i].id,
        dir_exists(old, new[i].parent),
        !dir_name_taken(old, new[i].parent, new[i].name@, old[i].id),
    ensures
        dirs_wf(new, next),
        notes_wf(notes, new, next_note),
{
    assert forall|j: int| 0 <= j < new.len() implies #[trigger] new[j].id == old[j].id by {
        if j != i {
            assert(new[j] == old[j]);
        }
    }
    assert forall|j: int| 0 <= j < new.len() implies 0 < #[trigger] new[j].id < next by {
        assert(new[j].id == old[j].id);
    }
    assert forall|a: int, b: int| 0 <= a < new.len() && 0 <= b < new.len() && a != b implies #[trigger] new[a].id != #[trigger] new[b].id by {
        assert(new[a].id == old[a].id);
        assert(new[b].id == old[b].id);
    }
    assert forall|j: int| 0 <= j < new.len() implies dir_exists(new, #[trigger] new[j].parent) by {
        if j != i {
            assert(new[j] == old[j]);
            lemma_dir_exists_same_ids(old, new, old[j].parent);
        } else {
            lemma_dir_exists_same_ids(old, new, new[i].parent);
        }
    }
    assert forall|a: int, b: int|
        0 <= a < new.len() && 0 <= b < new.len() && a != b && new[a].parent == new[b].parent
        implies #[trigger] new[a].name@ != #[trigger] new[b].name@ by {
        if a == i {
            assert(new[b] == old[b]);
            assert(old[b].id != old[i].id);
        } else if b == i {
            assert(new[a] == old[a]);
            assert(old[a].id != old[i].id);
        } else {
            assert(new[a] == old[a] && new[b] == old[b]);
        }
    }
    assert forall|j: int| 0 <= j < notes.len() implies dir_exists(new, #[trigger] notes[j].parent) by {
        lemma_dir_exists_same_ids(old, new, notes[j].parent);
    }
}

proof fn lemma_replace_note_row(
    old: Seq<NoteRow>,
    new: Seq<NoteRow>,
    dirs: Seq<DirRow>,
    next: u64,
    i: int,
)
    requires
        notes_wf(old, dirs, next),
        0 <= i < old.len(),
        new.len() == old.len(),
        forall|j: int| 0 <= j < old.len() && j != i ==> #[trigger] new[j] == old[j],
        new[i].id == old[i].id,
        dir_exists(dirs, new[i].parent),
        !note_name_taken(old, new[i].parent, new[i].name@, old[i].id),
    ensures
        notes_wf(new, dirs, next),
{
    assert forall|j: int| 0 <= j < new.len() implies #[trigger] new[j].id == old[j].id by {
        if j != i {
            assert(new[j] == old[j]);
        }
    }
    assert forall|j: int| 0 <= j < new.len() implies 0 < #[trigger] new[j].id < next by {
        assert(new[j].id == old[j].id);
    }
    assert forall|a: int, b: int| 0 <= a < new.len() && 0 <= b < new.len() && a != b implies #[trigger] new[a].id != #[trigger] new[b].id by {
        assert(new[a].id == old[a].id);
        assert(new[b].id == old[b].id);
    }
    assert forall|j: int| 0 <= j < new.len() implies dir_exists(dirs, #[trigger] new[j].parent) by {
        if j != i {
            assert(new[j] == old[j]);
        }
    }
    assert forall|a: int, b: int|
        0 <= a < new.len() && 0 <= b < new.len() && a != b && new[a].parent == new[b].parent
        implies #[trigger] new[a].name@ != #[trigger] new[b].name@ by {
        if a == i {
            assert(new[b] == old[b]);
            assert(old[b].id != old[i].id);
        } else if b == i {
            assert(new[a] == old[a]);
            assert(old[a].id != old[i].id);
        } else {
            assert(new[a] == old[a] && new[b] == old[b]);
        }
    }
}

impl DbProvider {
    /// Renames directory `id`.
    pub fn rename_directory(&mut self, id: DirectoryId, new_name: &str) -> (r: Result<(), ProviderError>)
        requires
            old(self).wf(),
        ensures
            final(self).wf(),
            final(self).id_spec() == old(self).id_spec(),
            rename_directory_post(old(self), final(self), id, new_name@, r),
    {
        if id.0 == 0 {
            return Err(ProviderError::CannotRenameRoot);
        }
        if self.mount_point(id).is_some() {
            return Err(ProviderError::OperationNotSupported);
        }
        let i = match self.find_dir(id.0) {
            None => {
                return Err(ProviderError::NoSuchDirectory(id));
            },
            Some(i) => i,
        };
        proof {
            lemma_unique_row(self.dirs@, self.next_dir_id, i as int);
        }
        let parent = self.dirs[i].parent;
        if self.dir_name_in_use(parent, new_name, id.0) {
            return Err(ProviderError::TargetNameAlreadyExists(String::from_str(new_name)));
        }
        let ghost before = self.dirs@;
        self.dirs.set(i, DirRow { id: id.0, parent, name: String::from_str(new_name) });
        proof {
            lemma_replace_dir_row(before, self.dirs@, self.next_dir_id, self.notes@, self.next_note_id, i as int);
            lemma_rename_keeps_acyclic(before, self.dirs@, self.next_dir_id, i as int);
        }
        Ok(())
    }

    /// Renames note `id`.
    pub fn rename_note(&mut self, id: NoteId, new_name: &str) -> (r: Result<(), ProviderError>)
        requires
            old(self).wf(),
        ensures
            final(self).wf(),
            final(self).id_spec() == old(self).id_spec(),
            rename_note_post(old(self), final(self), id, new_name@, r),
    {
        let i = match self.find_note(id.0) {
            None => {
                return Err(ProviderError::NoSuchNote(id));
            },
            Some(i) => i,
        };
        proof {
            lemma_unique_note_row(self.notes@, self.dirs@, self.next_note_id, i as int);
        }
        let parent = self.notes[i].parent;
        if self.note_name_in_use(parent, new_name, id.0) {
            return Err(ProviderError::TargetNameAlreadyExists(String::from_str(new_name)));
        }
        let content = self.notes[i].content.clone();
        let ghost before = self.notes@;
        self.notes.set(i, NoteRow { id: id.0, parent, name: String::from_str(new_name), content });
        proof {
            lemma_replace_note_row(before, self.notes@, self.dirs@, self.next_note_id, i as int);
        }
        Ok(())
    }

    /// Replaces the text of note `id`.
    pub fn update_note(&mut self, id: NoteId, note: Note) -> (r: Result<(), ProviderError>)
        requires
            old(self).wf(),
        ensures
            final(self).wf(),
            final(self).id_spec() == old(self).id_spec(),
            update_note_post(old(self), final(self), id, note.view(), r),
    {
        let i = match self.find_note(id.0) {
            None => {
                return Err(ProviderError::NoSuchNote(id));
            },
            Some(i) => i,
        };
        proof {
            lemma_unique_note_row(self.notes@, self.dirs@, self.next_note_id, i as int);
            let row = self.notes@[i as int];
            if note_name_taken(self.notes@, row.parent, row.name@, id.0) {
                let k = choose|k: int| 0 <= k < self.notes@.len() && self.notes@[k].parent == row.parent && self.notes@[k].name@ == row.name@ && self.notes@[k].id != id.0;
                assert(k != i);
            }
        }
        let parent = self.notes[i].parent;
        let name = self.notes[i].name.clone();
        let ghost before = self.notes@;
        self.notes.set(i, NoteRow { id: id.0, parent, name, content: note.text.raw_text });
        proof {
            lemma_replace_note_row(before, self.notes@, self.dirs@, self.next_note_id, i as int);
        }
        Ok(())
    }

    /// Whether `from` is `target` or lies below it, found by following
    /// parents up from `from`.
    fn meets_on_way_up(&self, from: u64, target: u64) -> (r: bool)
        requires
            self.wf(),
            dir_exists(self.dirs@, from),
        ensures
            r == is_descendant(self.dirs@, from, target),
    {
        proof {
            lemma_root_has_no_parent(self.dirs@, self.next_dir_id);
        }
        let ghost mut k: nat = if from == 0 {
            assert(ancestor_at(self.dirs@, 0, 0) == Some(0u64));
            0
        } else {
            let t = choose|t: int| 0 <= t < self.dirs@.len() && self.dirs@[t].id == from;
            assert(reaches_root(self.dirs@, self.dirs@[t].id));
            choose|k: nat| ancestor_at(self.dirs@, from, k) == Some(0u64)
        };
        let mut cur = from;
        loop
            invariant
                self.wf(),
                dir_exists(self.dirs@, cur),
                ancestor_at(self.dirs@, cur, k) == Some(0u64),
                is_descendant(self.dirs@, from, target) == is_descendant(self.dirs@, cur, target),
                dir_parent(self.dirs@, 0) is None,
            decreases k,
        {
            if cur == target {
                proof {
                    assert(ancestor_at(self.dirs@, cur, 0) == Some(target));
                }
                return true;
            }
            if cur == 0 {
                proof {
                    if is_descendant(self.dirs@, 0, target) {
                        let m = choose|m: nat| ancestor_at(self.dirs@, 0, m) == Some(target);
                        assert(m > 0);
                    }
                }
                return false;
            }
            let i = match self.find_dir(cur) {
                Some(i) => i,
                None => {
                    return false;
                },
            };
            proof {
                lemma_unique_row(self.dirs@, self.next_dir_id, i as int);
                lemma_descendant_via_parent(self.dirs@, cur, self.dirs@[i as int].parent, target);
                assert(k > 0);
                k = (k - 1) as nat;
            }
            cur = self.dirs[i].parent;
        }
    }

}


proof fn lemma_remove_note_row(old: Seq<NoteRow>, dirs: Seq<DirRow>, next: u64, i: int)
    requires
        notes_wf(old, dirs, next),
        0 <= i < old.len(),
    ensures
        notes_wf(old.remove(i), dirs, next),
{
    let new = old.remove(i);
    assert forall|j: int| 0 <= j < new.len() implies #[trigger] new[j] == old[if j < i { j } else { j + 1 }] by {
    }
    assert forall|a: int, b: int| 0 <= a < new.len() && 0 <= b < new.len() && a != b implies #[trigger] new[a].id != #[trigger] new[b].id by {
        let x = if a < i { a } else { a + 1 };
        let y = if b < i { b } else { b + 1 };
        assert(new[a] == old[x] && new[b] == old[y]);
    }
    assert forall|a: int, b: int|
        0 <= a < new.len() && 0 <= b < new.len() && a != b && new[a].parent == new[b].parent
        implies #[trigger] new[a].name@ != #[trigger] new[b].name@ by {
        let x = if a < i { a } else { a + 1 };
        let y = if b < i { b } else { b + 1 };
        assert(new[a] == old[x] && new[b] == old[y]);
    }
    assert forall|j: int| 0 <= j < new.len() implies 0 < #[trigger] new[j].id < next by {
        let x = if j < i { j } else { j + 1 };
        assert(new[j] == old[x]);
    }
    assert forall|j: int| 0 <= j < new.len() implies dir_exists(dirs, #[trigger] new[j].parent) by {
        let x = if j < i { j } else { j + 1 };
        assert(new[j] == old[x]);
    }
}

impl DbProvider {
    /// Moves directory `id` into directory `destination`.
    pub fn move_directory(&mut self, id: DirectoryId, destination: DirectoryId) -> (r: Result<(), ProviderError>)
        requires
            old(self).wf(),
        ensures
            final(self).wf(),
            final(self).id_spec() == old(self).id_spec(),
            move_directory_post(old(self), final(self), id, destination, r),
    {
        if id.0 == 0 {
            return Err(ProviderError::CannotMoveRoot);
        }
        if self.mount_point(id).is_some() {
            return Err(ProviderError::OperationNotSupported);
        }
        let i = match self.find_dir(id.0) {
            None => {
                return Err(ProviderError::NoSuchDirectory(id));
            },
            Some(i) => i,
        };
        proof {
            lemma_unique_row(self.dirs@, self.next_dir_id, i as int);
        }
        if destination.0 != 0 && self.find_dir(destination.0).is_none() {
            return Err(ProviderError::NoSuchDirectory(destination));
        }
        if self.meets_on_way_up(destination.0, id.0) {
            return Err(ProviderError::WouldCreateLoop);
        }
        let name = self.dirs[i].name.clone();
        if self.dir_name_in_use(destination.0, name.as_str(), id.0) {
            return Err(ProviderError::TargetNameAlreadyExists(name));
        }
        let ghost before = self.dirs@;
        self.dirs.set(i, DirRow { id: id.0, parent: destination.0, name });
        proof {
            lemma_replace_dir_row(before, self.dirs@, self.next_dir_id, self.notes@, self.next_note_id, i as int);
            lemma_move_keeps_acyclic(before, self.dirs@, self.next_dir_id, i as int, destination.0);
        }
        Ok(())
    }

    /// Moves note `id` into directory `destination`.
    pub fn move_note(&mut self, id: NoteId, destination: DirectoryId) -> (r: Result<(), ProviderError>)
        requires
            old(self).wf(),
        ensures
            final(self).wf(),
            final(self).id_spec() == old(self).id_spec(),
            move_note_post(old(self), final(self), id, destination, r),
    {
        let i = match self.find_note(id.0) {
            None => {
                return Err(ProviderError::NoSuchNote(id));
            },
            Some(i) => i,
        };
        proof {
            lemma_unique_note_row(self.notes@, self.dirs@, self.next_note_id, i as int);
        }
        if destination.0 != 0 && self.find_dir(destination.0).is_none() {
            return Err(ProviderError::NoSuchDirectory(destination));
        }
        let name = self.notes[i].name.clone();
        if self.note_name_in_use(destination.0, name.as_str(), id.0) {
            return Err(ProviderError::TargetNameAlreadyExists(name));
        }
        let content = self.notes[i].content.clone();
        let ghost before = self.notes@;
        self.notes.set(i, NoteRow { id: id.0, parent: destination.0, name, content });
        proof {
            lemma_replace_note_row(before, self.notes@, self.dirs@, self.next_note_id, i as int);
        }
        Ok(())
    }

    /// Deletes note `id`.
    pub fn delete_note(&mut self, id: NoteId) -> (r: Result<(), ProviderError>)
        requires
            old(self).wf(),
        ensures
            final(self).wf(),
            final(self).id_spec() == old(self).id_spec(),
            delete_note_post(old(self), final(self), id, r),
    {
        let i = match self.find_note(id.0) {
            None => {
                return Err(ProviderError::NoSuchNote(id));
            },
            Some(i) => i,
        };
        proof {
            lemma_unique_note_row(self.notes@, self.dirs@, self.next_note_id, i as int);
            lemma_remove_note_row(self.notes@, self.dirs@, self.next_note_id, i as int);
        }
        self.notes.remove(i);
        Ok(())
    }

    /// Mounts provider `provider` on directory `mount_dir`.
    pub fn add_mount_point(&mut self, mount_dir: DirectoryId, provider: ProviderId) -> (r: Result<(), ProviderError>)
        requires
            old(self).wf(),
        ensures
            final(self).wf(),
            final(self).id_spec() == old(self).id_spec(),
            add_mount_point_post(old(self), final(self), mount_dir, provider, r),
    {
        let mut i: usize = 0;
        while i < self.mount_points.len()
            invariant
                i <= self.mount_points@.len(),
                self.wf(),
                *self == *old(self),
                forall|j: int| 0 <= j < i ==> self.mount_points@[j].0 != mount_dir,
            decreases self.mount_points@.len() - i,
        {
            if self.mount_points[i].0 == mount_dir {
                let ghost before = self.mount_points@;
                self.mount_points.set(i, (mount_dir, provider));
                proof {
                    let after = self.mount_points@;
                    assert forall|a: int, b: int| 0 <= a < after.len() && 0 <= b < after.len() && a != b implies #[trigger] after[a].0 != #[trigger] after[b].0 by {
                        assert(after[a].0 == before[a].0 && after[b].0 == before[b].0);
                    }
                    assert forall|d: DirectoryId| #[trigger] mount_of(after, d) == if d == mount_dir {
                        Some(provider)
                    } else {
                        mount_of(before, d)
                    } by {
                        if d == mount_dir {
                            assert(after[i as int].0 == d);
                            let k = choose|k: int| 0 <= k < after.len() && after[k].0 == d;
                            assert(k == i);
                        } else {
                            assert(before[i as int].0 == mount_dir);
                            assert forall|k: int| 0 <= k < after.len() && k != i implies #[trigger] after[k] == before[k] by {}
                            if exists|k: int| 0 <= k < after.len() && after[k].0 == d {
                                let k1 = choose|k: int| 0 <= k < after.len() && after[k].0 == d;
                                assert(k1 != i);
                                assert(after[k1] == before[k1]);
                                assert(before[k1].0 == d);
                                let k2 = choose|k: int| 0 <= k < before.len() && before[k].0 == d;
                                assert(k1 == k2);
                            }
                            if exists|k: int| 0 <= k < before.len() && before[k].0 == d {
                                let k2 = choose|k: int| 0 <= k < before.len() && before[k].0 == d;
                                assert(k2 != i);
                                assert(after[k2] == before[k2]);
                                assert(after[k2].0 == d);
                            }
                        }
                    }
                }
                return Ok(());
            }
            i = i + 1;
        }
        let ghost before = self.mount_points@;
        self.mount_points.push((mount_dir, provider));
        proof {
            let after = self.mount_points@;
            assert forall|a: int, b: int| 0 <= a < after.len() && 0 <= b < after.len() && a != b implies #[trigger] after[a].0 != #[trigger] after[b].0 by {
                if a < before.len() {
                    assert(after[a] == before[a]);
                }
                if b < before.len() {
                    assert(after[b] == before[b]);
                }
            }
            assert forall|d: DirectoryId| #[trigger] mount_of(after, d) == if d == mount_dir {
                Some(provider)
            } else {
                mount_of(before, d)
            } by {
                if d == mount_dir {
                    assert(after[before.len() as int].0 == d);
                    let k = choose|k: int| 0 <= k < after.len() && after[k].0 == d;
                    if k < before.len() {
                        assert(after[k] == before[k]);
                    }
                } else {
                    if exists|k: int| 0 <= k < after.len() && after[k].0 == d {
                        let k1 = choose|k: int| 0 <= k < after.len() && after[k].0 == d;
                        assert(k1 < before.len());
                        assert(after[k1] == before[k1]);
                        let k2 = choose|k: int| 0 <= k < before.len() && before[k].0 == d;
                        assert(after[k2] == before[k2]);
                        assert(k1 == k2);
                    }
                    if exists|k: int| 0 <= k < before.len() && before[k].0 == d {
                        let k2 = choose|k: int| 0 <= k < before.len() && before[k].0 == d;
                        assert(after[k2] == before[k2]);
                    }
                }
            }
        }
        Ok(())
    }
}


/// The rules of the directory table, but for parents existing.
pub open spec fn dir_rows_ok(dirs: Seq<DirRow>, next_id: u64) -> bool {
    &&& 0 < next_id
    &&& forall|i: int| 0 <= i < dirs.len() ==> 0 < #[trigger] dirs[i].id < next_id
    &&& forall|i: int, j: int|
        0 <= i < dirs.len() && 0 <= j < dirs.len() && i != j ==> #[trigger] dirs[i].id
            != #[trigger] dirs[j].id
    &&& forall|i: int, j: int|
        0 <= i < dirs.len() && 0 <= j < dirs.len() && i != j && dirs[i].parent == dirs[j].parent
            ==> #[trigger] dirs[i].name@ != #[trigger] dirs[j].name@
}

/// The rules of the note table, but for parents existing.
pub open spec fn note_rows_ok(notes: Seq<NoteRow>, next_id: u64) -> bool {
    &&& 0 < next_id
    &&& forall|i: int| 0 <= i < notes.len() ==> 0 < #[trigger] notes[i].id < next_id
    &&& forall|i: int, j: int|
        0 <= i < notes.len() && 0 <= j < notes.len() && i != j ==> #[trigger] notes[i].id
            != #[trigger] notes[j].id
    &&& forall|i: int, j: int|
        0 <= i < notes.len() && 0 <= j < notes.len() && i != j && notes[i].parent
            == notes[j].parent ==> #[trigger] notes[i].name@ != #[trigger] notes[j].name@
}

/// `new` is `old` after deleting directory `id` with everything below it.
pub open spec fn deleted_subtree(old: &DbProvider, new: &DbProvider, id: u64) -> bool {
    let od = old.dirs_spec();
    let on = old.notes_spec();
    &&& forall|k: int| 0 <= k < od.len() ==> (dir_exists(new.dirs_spec(), #[trigger] od[k].id)
        <==> !is_descendant(od, od[k].id, id))
    &&& forall|j: int| 0 <= j < new.dirs_spec().len() ==> od.contains(#[trigger] new.dirs_spec()[j])
    &&& forall|k: int| 0 <= k < on.len() ==> (note_exists(new.notes_spec(), #[trigger] on[k].id)
        <==> dir_exists(new.dirs_spec(), on[k].parent))
    &&& forall|j: int| 0 <= j < new.notes_spec().len() ==> on.contains(#[trigger] new.notes_spec()[j])
    &&& new.next_dir_spec() == old.next_dir_spec()
    &&& new.next_note_spec() == old.next_note_spec()
    &&& new.mounts_spec() == old.mounts_spec()
    &&& new.id_spec() == old.id_spec()
}

proof fn lemma_remove_dir_row(old: Seq<DirRow>, next: u64, i: int)
    requires
        dir_rows_ok(old, next),
        0 <= i < old.len(),
    ensures
        dir_rows_ok(old.remove(i), next),
        forall|j: int| 0 <= j < old.len() - 1 ==> #[trigger] old.remove(i)[j] == old[if j < i { j } else { j + 1 }],
        forall|x: u64| x != old[i].id && dir_exists(old, x) ==> #[trigger] dir_exists(old.remove(i), x),
        forall|x: u64| #[trigger] dir_exists(old.remove(i), x) ==> dir_exists(old, x),
{
    let new = old.remove(i);
    assert forall|j: int| 0 <= j < new.len() implies #[trigger] new[j] == old[if j < i { j } else { j + 1 }] by {
    }
    assert forall|a: int, b: int| 0 <= a < new.len() && 0 <= b < new.len() && a != b implies #[trigger] new[a].id != #[trigger] new[b].id by {
        let x = if a < i { a } else { a + 1 };
        let y = if b < i { b } else { b + 1 };
        assert(new[a] == old[x] && new[b] == old[y]);
    }
    assert forall|a: int, b: int|
        0 <= a < new.len() && 0 <= b < new.len() && a != b && new[a].parent == new[b].parent
        implies #[trigger] new[a].name@ != #[trigger] new[b].name@ by {
        let x = if a < i { a } else { a + 1 };
        let y = if b < i { b } else { b + 1 };
        assert(new[a] == old[x] && new[b] == old[y]);
    }
    assert forall|j: int| 0 <= j < new.len() implies 0 < #[trigger] new[j].id < next by {
        let x = if j < i { j } else { j + 1 };
        assert(new[j] == old[x]);
    }
    assert forall|x: u64| x != old[i].id && dir_exists(old, x) implies #[trigger] dir_exists(new, x) by {
        if x != 0 {
            let k = choose|k: int| 0 <= k < old.len() && old[k].id == x;
            let j = if k < i { k } else { k - 1 };
            assert(new[j] == old[k]);
        }
    }
    assert forall|x: u64| #[trigger] dir_exists(new, x) implies dir_exists(old, x) by {
        if x != 0 {
            let j = choose|j: int| 0 <= j < new.len() && new[j].id == x;
            let k = if j < i { j } else { j + 1 };
            assert(new[j] == old[k]);
        }
    }
}

proof fn lemma_remove_note(old: Seq<NoteRow>, next: u64, i: int)
    requires
        note_rows_ok(old, next),
        0 <= i < old.len(),
    ensures
        note_rows_ok(old.remove(i), next),
        forall|j: int| 0 <= j < old.len() - 1 ==> #[trigger] old.remove(i)[j] == old[if j < i { j } else { j + 1 }],
        forall|x: u64| x != old[i].id && note_exists(old, x) ==> #[trigger] note_exists(old.remove(i), x),
{
    let new = old.remove(i);
    assert forall|j: int| 0 <= j < new.len() implies #[trigger] new[j] == old[if j < i { j } else { j + 1 }] by {
    }
    assert forall|a: int, b: int| 0 <= a < new.len() && 0 <= b < new.len() && a != b implies #[trigger] new[a].id != #[trigger] new[b].id by {
        let x = if a < i { a } else { a + 1 };
        let y = if b < i { b } else { b + 1 };
        assert(new[a] == old[x] && new[b] == old[y]);
    }
    assert forall|a: int, b: int|
        0 <= a < new.len() && 0 <= b < new.len() && a != b && new[a].parent == new[b].parent
        implies #[trigger] new[a].name@ != #[trigger] new[b].name@ by {
        let x = if a < i { a } else { a + 1 };
        let y = if b < i { b } else { b + 1 };
        assert(new[a] == old[x] && new[b] == old[y]);
    }
    assert forall|j: int| 0 <= j < new.len() implies 0 < #[trigger] new[j].id < next by {
        let x = if j < i { j } else { j + 1 };
        assert(new[j] == old[x]);
    }
    assert forall|x: u64| x != old[i].id && note_exists(old, x) implies #[trigger] note_exists(new, x) by {
        let k = choose|k: int| 0 <= k < old.len() && old[k].id == x;
        let j = if k < i { k } else { k - 1 };
        assert(new[j] == old[k]);
    }
}

/// A row below a doomed parent is doomed too.
proof fn lemma_descendant_step(od: Seq<DirRow>, next: u64, t: int, id: u64)
    requires
        dirs_wf(od, next),
        0 <= t < od.len(),
        is_descendant(od, od[t].parent, id),
    ensures
        is_descendant(od, od[t].id, id),
{
    let m = choose|m: nat| ancestor_at(od, od[t].parent, m) == Some(id);
    lemma_unique_row(od, next, t);
    assert(ancestor_at(od, od[t].id, m + 1) == ancestor_at(od, od[t].parent, m));
}

/// In a table whose rows come from `od` and whose parents all exist, every
/// ancestor of a present directory is present.
proof fn lemma_ancestors_present(od: Seq<DirRow>, next: u64, nd: Seq<DirRow>, x: u64, m: nat)
    requires
        dirs_wf(od, next),
        forall|j: int| 0 <= j < nd.len() ==> dir_exists(nd, #[trigger] nd[j].parent),
        forall|j: int| 0 <= j < nd.len() ==> od.contains(#[trigger] nd[j]),
        dir_exists(nd, x),
        ancestor_at(od, x, m) is Some,
    ensures
        dir_exists(nd, ancestor_at(od, x, m).unwrap()),
    decreases m,
{
    if m > 0 {
        if x == 0 {
            assert(dir_parent(od, 0) is None) by {
                if exists|i: int| 0 <= i < od.len() && od[i].id == 0 {
                    let i = choose|i: int| 0 <= i < od.len() && od[i].id == 0;
                    assert(0 < od[i].id);
                }
            }
        } else {
            let j = choose|j: int| 0 <= j < nd.len() && nd[j].id == x;
            assert(od.contains(nd[j]));
            let t = choose|t: int| 0 <= t < od.len() && od[t] == nd[j];
            lemma_unique_row(od, next, t);
            assert(dir_exists(nd, nd[j].parent));
            lemma_ancestors_present(od, next, nd, nd[j].parent, (m - 1) as nat);
        }
    }
}

impl DbProvider {
    /// Removes, in one pass, the directory rows whose parent is gone.
    fn prune_orphan_dirs(&mut self, Ghost(od): Ghost<Seq<DirRow>>, Ghost(id): Ghost<u64>) -> (removed: bool)
        requires
            dirs_wf(od, old(self).next_dir_id),
            dir_rows_ok(old(self).dirs@, old(self).next_dir_id),
            forall|j: int| 0 <= j < old(self).dirs@.len() ==> od.contains(#[trigger] old(self).dirs@[j]),
            forall|j: int| 0 <= j < old(self).dirs@.len() ==> #[trigger] old(self).dirs@[j].id != id,
            forall|k: int| 0 <= k < od.len() && !dir_exists(old(self).dirs@, #[trigger] od[k].id) ==> is_descendant(od, od[k].id, id),
        ensures
            dir_rows_ok(final(self).dirs@, final(self).next_dir_id),
            forall|j: int| 0 <= j < final(self).dirs@.len() ==> od.contains(#[trigger] final(self).dirs@[j]),
            forall|j: int| 0 <= j < final(self).dirs@.len() ==> #[trigger] final(self).dirs@[j].id != id,
            forall|k: int| 0 <= k < od.len() && !dir_exists(final(self).dirs@, #[trigger] od[k].id) ==> is_descendant(od, od[k].id, id),
            removed ==> final(self).dirs@.len() < old(self).dirs@.len(),
            !removed ==> final(self).dirs@ == old(self).dirs@,
            !removed ==> forall|j: int| 0 <= j < final(self).dirs@.len() ==> dir_exists(final(self).dirs@, #[trigger] final(self).dirs@[j].parent),
            final(self).notes@ == old(self).notes@,
            final(self).next_dir_id == old(self).next_dir_id,
            final(self).next_note_id == old(self).next_note_id,
            final(self).mount_points@ == old(self).mount_points@,
            final(self).id == old(self).id,
    {
        let mut removed = false;
        let mut i: usize = 0;
        while i < self.dirs.len()
            invariant
                i <= self.dirs@.len(),
                dirs_wf(od, self.next_dir_id),
                dir_rows_ok(self.dirs@, self.next_dir_id),
                forall|j: int| 0 <= j < self.dirs@.len() ==> od.contains(#[trigger] self.dirs@[j]),
                forall|j: int| 0 <= j < self.dirs@.len() ==> #[trigger] self.dirs@[j].id != id,
                forall|k: int| 0 <= k < od.len() && !dir_exists(self.dirs@, #[trigger] od[k].id) ==> is_descendant(od, od[k].id, id),
                removed ==> self.dirs@.len() < old(self).dirs@.len(),
                !removed ==> self.dirs@ == old(self).dirs@,
                !removed ==> forall|j: int| 0 <= j < i ==> dir_exists(self.dirs@, #[trigger] self.dirs@[j].parent),
                self.notes@ == old(self).notes@,
                self.next_dir_id == old(self).next_dir_id,
                self.next_note_id == old(self).next_note_id,
                self.mount_points@ == old(self).mount_points@,
                self.id == old(self).id,
            decreases self.dirs@.len() - i,
        {
            let p = self.dirs[i].parent;
            if p != 0 && self.find_dir(p).is_none() {
                let ghost before = self.dirs@;
                proof {
                    let r = before[i as int];
                    assert(od.contains(r));
                    let t = choose|t: int| 0 <= t < od.len() && od[t] == r;
                    assert(dir_exists(od, od[t].parent));
                    let k = choose|k: int| 0 <= k < od.len() && od[k].id == p;
                    assert(!dir_exists(before, od[k].id));
                    assert(is_descendant(od, p, id));
                    lemma_descendant_step(od, self.next_dir_id, t, id);
                    lemma_remove_dir_row(before, self.next_dir_id, i as int);
                }
                self.dirs.remove(i);
                proof {
                    let after = self.dirs@;
                    assert forall|j: int| 0 <= j < after.len() implies od.contains(#[trigger] after[j]) by {
                        let x = if j < i { j } else { j + 1 };
                        assert(after[j] == before[x]);
                    }
                    assert forall|j: int| 0 <= j < after.len() implies #[trigger] after[j].id != id by {
                        let x = if j < i { j } else { j + 1 };
                        assert(after[j] == before[x]);
                    }
                    assert forall|k: int| 0 <= k < od.len() && !dir_exists(after, #[trigger] od[k].id) implies is_descendant(od, od[k].id, id) by {
                        if od[k].id != before[i as int].id {
                            if dir_exists(before, od[k].id) {
                                assert(dir_exists(after, od[k].id));
                            }
                        } else {
                            let t = choose|t: int| 0 <= t < od.len() && od[t] == before[i as int];
                            assert(od[t].id == od[k].id);
                            assert(t == k);
                        }
                    }
                }
                removed = true;
            } else {
                i = i + 1;
            }
        }
        removed
    }

    /// Removes the note rows whose directory is gone.
    fn prune_orphan_notes(&mut self)
        requires
            note_rows_ok(old(self).notes@, old(self).next_note_id),
        ensures
            note_rows_ok(final(self).notes@, final(self).next_note_id),
            forall|j: int| 0 <= j < final(self).notes@.len() ==> old(self).notes@.contains(#[trigger] final(self).notes@[j]),
            forall|j: int| 0 <= j < final(self).notes@.len() ==> dir_exists(final(self).dirs@, #[trigger] final(self).notes@[j].parent),
            forall|k: int| 0 <= k < old(self).notes@.len() && !note_exists(final(self).notes@, #[trigger] old(self).notes@[k].id)
                ==> !dir_exists(final(self).dirs@, old(self).notes@[k].parent),
            final(self).dirs@ == old(self).dirs@,
            final(self).next_dir_id == old(self).next_dir_id,
            final(self).next_note_id == old(self).next_note_id,
            final(self).mount_points@ == old(self).mount_points@,
            final(self).id == old(self).id,
    {
        let ghost on = self.notes@;
        let mut i: usize = 0;
        while i < self.notes.len()
            invariant
                i <= self.notes@.len(),
                note_rows_ok(on, self.next_note_id),
                note_rows_ok(self.notes@, self.next_note_id),
                forall|j: int| 0 <= j < self.notes@.len() ==> on.contains(#[trigger] self.notes@[j]),
                forall|j: int| 0 <= j < i ==> dir_exists(self.dirs@, #[trigger] self.notes@[j].parent),
                forall|k: int| 0 <= k < on.len() && !note_exists(self.notes@, #[trigger] on[k].id)
                    ==> !dir_exists(self.dirs@, on[k].parent),
                on == old(self).notes@,
                self.dirs@ == old(self).dirs@,
                self.next_dir_id == old(self).next_dir_id,
                self.next_note_id == old(self).next_note_id,
                self.mount_points@ == old(self).mount_points@,
                self.id == old(self).id,
            decreases self.notes@.len() - i,
        {
            let p = self.notes[i].parent;
            if p != 0 && self.find_dir(p).is_none() {
                let ghost before = self.notes@;
                proof {
                    lemma_remove_note(before, self.next_note_id, i as int);
                }
                self.notes.remove(i);
                proof {
                    let after = self.notes@;
                    assert forall|j: int| 0 <= j < after.len() implies on.contains(#[trigger] after[j]) by {
                        let x = if j < i { j } else { j + 1 };
                        assert(after[j] == before[x]);
                    }
                    assert forall|j: int| 0 <= j < i implies dir_exists(self.dirs@, #[trigger] after[j].parent) by {
                        assert(after[j] == before[j]);
                    }
                    assert forall|k: int| 0 <= k < on.len() && !note_exists(after, #[trigger] on[k].id)
                        implies !dir_exists(self.dirs@, on[k].parent) by {
                        if on[k].id != before[i as int].id {
                            if note_exists(before, on[k].id) {
                                assert(note_exists(after, on[k].id));
                            }
                        } else {
                            let t = choose|t: int| 0 <= t < on.len() && on[t] == before[i as int];
                            assert(on[t].id == on[k].id);
                            assert(t == k);
                        }
                    }
                }
            } else {
                i = i + 1;
            }
        }
    }

    /// Deletes directory `id` with everything below it.
    pub fn delete_directory(&mut self, id: DirectoryId) -> (r: Result<(), ProviderError>)
        requires
            old(self).wf(),
        ensures
            final(self).wf(),
            final(self).id_spec() == old(self).id_spec(),
            delete_directory_post(old(self), final(self), id, r),
    {
        if id.0 == 0 {
            return Err(ProviderError::CannotDeleteRoot);
        }
        if self.mount_point(id).is_some() {
            return Err(ProviderError::OperationNotSupported);
        }
        let i = match self.find_dir(id.0) {
            None => {
                return Err(ProviderError::NoSuchDirectory(id));
            },
            Some(i) => i,
        };
        let ghost od = self.dirs@;
        let ghost on = self.notes@;
        proof {
            lemma_remove_dir_row(od, self.next_dir_id, i as int);
            assert(ancestor_at(od, id.0, 0) == Some(id.0));
        }
        self.dirs.remove(i);
        proof {
            let after = self.dirs@;
            assert forall|j: int| 0 <= j < after.len() implies od.contains(#[trigger] after[j]) by {
                let x = if j < i { j } else { j + 1 };
                assert(after[j] == od[x]);
            }
            assert forall|j: int| 0 <= j < after.len() implies #[trigger] after[j].id != id.0 by {
                let x = if j < i { j } else { j + 1 };
                assert(after[j] == od[x]);
            }
            assert forall|k: int| 0 <= k < od.len() && !dir_exists(after, #[trigger] od[k].id) implies is_descendant(od, od[k].id, id.0) by {
                if od[k].id != id.0 {
                    assert(dir_exists(od, od[k].id));
                    assert(dir_exists(after, od[k].id));
                } else {
                    assert(ancestor_at(od, od[k].id, 0) == Some(id.0));
                }
            }
        }
        loop
            invariant
                dirs_wf(od, self.next_dir_id),
                dir_rows_ok(self.dirs@, self.next_dir_id),
                forall|j: int| 0 <= j < self.dirs@.len() ==> od.contains(#[trigger] self.dirs@[j]),
                forall|j: int| 0 <= j < self.dirs@.len() ==> #[trigger] self.dirs@[j].id != id.0,
                forall|k: int| 0 <= k < od.len() && !dir_exists(self.dirs@, #[trigger] od[k].id) ==> is_descendant(od, od[k].id, id.0),
                self.notes@ == on,
                note_rows_ok(on, self.next_note_id),
                self.next_dir_id == old(self).next_dir_id,
                self.next_note_id == old(self).next_note_id,
                self.mount_points@ == old(self).mount_points@,
                self.id == old(self).id,
                mounts_wf(self.mount_points@),
                dirs_acyclic(od),
                id.0 != 0,
            ensures
                forall|j: int| 0 <= j < self.dirs@.len() ==> dir_exists(self.dirs@, #[trigger] self.dirs@[j].parent),
            decreases self.dirs@.len(),
        {
            let removed = self.prune_orphan_dirs(Ghost(od), Ghost(id.0));
            if !removed {
                break;
            }
        }
        proof {
            let nd = self.dirs@;
            assert forall|k: int| 0 <= k < od.len() && dir_exists(nd, #[trigger] od[k].id) implies !is_descendant(od, od[k].id, id.0) by {
                if is_descendant(od, od[k].id, id.0) {
                    let m = choose|m: nat| ancestor_at(od, od[k].id, m) == Some(id.0);
                    lemma_ancestors_present(od, self.next_dir_id, nd, od[k].id, m);
                    assert(dir_exists(nd, id.0));
                    let j = choose|j: int| 0 <= j < nd.len() && nd[j].id == id.0;
                    assert(nd[j].id != id.0);
                }
            }
        }
        proof {
            let nd = self.dirs@;
            assert forall|j: int| 0 <= j < nd.len() implies reaches_root(nd, #[trigger] nd[j].id) by {
                assert(od.contains(nd[j]));
                let t = choose|t: int| 0 <= t < od.len() && od[t] == nd[j];
                assert(reaches_root(od, od[t].id));
                let k = choose|k: nat| ancestor_at(od, nd[j].id, k) == Some(0u64);
                lemma_subset_chain(od, self.next_dir_id, nd, nd[j].id, k);
            }
        }
        self.prune_orphan_notes();
        proof {
            let nd = self.dirs@;
            let nn = self.notes@;
            assert forall|k: int| 0 <= k < on.len() && note_exists(nn, #[trigger] on[k].id) implies dir_exists(nd, on[k].parent) by {
                let j = choose|j: int| 0 <= j < nn.len() && nn[j].id == on[k].id;
                assert(on.contains(nn[j]));
                let t = choose|t: int| 0 <= t < on.len() && on[t] == nn[j];
                assert(on[t].id == on[k].id);
                assert(t == k);
            }
        }
        Ok(())
    }
}


/// Moving a directory into itself or into any directory below it is refused
/// with `WouldCreateLoop`, and nothing changes.
pub proof fn lemma_move_into_descendant_is_refused(
    old: &DbProvider,
    new: &DbProvider,
    a: DirectoryId,
    b: DirectoryId,
    r: Result<(), ProviderError>,
)
    requires
        old.wf(),
        move_directory_post(old, new, a, b, r),
        a.0 != 0,
        old.mount_spec(a) is None,
        old.has_dir(a),
        old.has_dir(b),
        is_descendant(old.dirs_spec(), b.0, a.0),
    ensures
        r == Err::<(), ProviderError>(ProviderError::WouldCreateLoop),
        *new == *old,
{
}

/// Each directory entry of a listing comes from a row under that parent.
pub proof fn lemma_dir_entries_rows(dirs: Seq<DirRow>, parent: u64, pid: ProviderId, i: int)
    requires
        0 <= i < dir_entries(dirs, parent, pid).len(),
    ensures
        exists|j: int|
            0 <= j < dirs.len() && dirs[j].parent == parent && (#[trigger] dir_entries(dirs, parent, pid)[i])
                == (dirs[j].name@, ItemRef::Directory(DirectoryRef { id: DirectoryId(dirs[j].id), provider_id: pid })),
    decreases dirs.len(),
{
    let rest = dir_entries(dirs.drop_last(), parent, pid);
    if i < rest.len() {
        lemma_dir_entries_rows(dirs.drop_last(), parent, pid, i);
        let j = choose|j: int|
            0 <= j < dirs.drop_last().len() && dirs.drop_last()[j].parent == parent && (#[trigger] rest[i])
                == (dirs.drop_last()[j].name@, ItemRef::Directory(DirectoryRef { id: DirectoryId(dirs.drop_last()[j].id), provider_id: pid }));
        assert(dirs[j] == dirs.drop_last()[j]);
    } else {
        let j = dirs.len() - 1;
        assert(dirs[j] == dirs.last());
    }
}

/// Each note entry of a listing comes from a row under that parent.
pub proof fn lemma_note_entries_rows(notes: Seq<NoteRow>, parent: u64, pid: ProviderId, i: int)
    requires
        0 <= i < note_entries(notes, parent, pid).len(),
    ensures
        exists|j: int|
            0 <= j < notes.len() && notes[j].parent == parent && (#[trigger] note_entries(notes, parent, pid)[i])
                == (notes[j].name@, ItemRef::Note(NoteRef { id: NoteId(notes[j].id), provider_id: pid })),
    decreases notes.len(),
{
    let rest = note_entries(notes.drop_last(), parent, pid);
    if i < rest.len() {
        lemma_note_entries_rows(notes.drop_last(), parent, pid, i);
        let j = choose|j: int|
            0 <= j < notes.drop_last().len() && notes.drop_last()[j].parent == parent && (#[trigger] rest[i])
                == (notes.drop_last()[j].name@, ItemRef::Note(NoteRef { id: NoteId(notes.drop_last()[j].id), provider_id: pid }));
        assert(notes[j] == notes.drop_last()[j]);
    } else {
        let j = notes.len() - 1;
        assert(notes[j] == notes.last());
    }
}

/// Right after a directory `name` is created in `target`, the listing of
/// `target` is the old listing with exactly one more entry, the new
/// directory, and no directory of the old listing is called `name`.
pub proof fn lemma_listing_after_create_directory(old: &DbProvider, new: &DbProvider, target: DirectoryId, name: Seq<char>)
    requires
        old.wf(),
        old.id_spec() is Some,
        with_new_dir(old, new, target.0, name),
        !dir_name_taken(old.dirs_spec(), target.0, name, 0),
    ensures
        new.listing(target) == old.listing(target).push(
            (name, ItemRef::Directory(DirectoryRef { id: DirectoryId(old.next_dir_spec()), provider_id: old.id_spec().unwrap() })),
        ),
        forall|i: int| 0 <= i < old.listing(target).len() && (#[trigger] old.listing(target)[i]).1 is Directory
            ==> old.listing(target)[i].0 != name,
{
    let pid = old.id_spec().unwrap();
    let nd = new.dirs_spec();
    assert(nd.drop_last() == old.dirs_spec());
    assert(new.listing(target) =~= old.listing(target).push(
        (name, ItemRef::Directory(DirectoryRef { id: DirectoryId(old.next_dir_spec()), provider_id: pid })),
    ));
    let notes_part = note_entries(old.notes_spec(), target.0, pid);
    assert forall|i: int| 0 <= i < old.listing(target).len() && (#[trigger] old.listing(target)[i]).1 is Directory
        implies old.listing(target)[i].0 != name by {
        if i < notes_part.len() {
            lemma_note_entries_rows(old.notes_spec(), target.0, pid, i);
        } else {
            let d = i - notes_part.len();
            assert(old.listing(target)[i] == dir_entries(old.dirs_spec(), target.0, pid)[d]);
            lemma_dir_entries_rows(old.dirs_spec(), target.0, pid, d);
        }
    }
}

/// Right after a note `name` is created in `target`, the note part of the
/// listing of `target` has exactly one more entry, the new note, and no note
/// of the old listing is called `name`; the directories are listed as before.
pub proof fn lemma_listing_after_create_note(
    old: &DbProvider,
    new: &DbProvider,
    target: DirectoryId,
    name: Seq<char>,
    content: Seq<char>,
)
    requires
        old.wf(),
        old.id_spec() is Some,
        with_new_note(old, new, target.0, name, content),
        !note_name_taken(old.notes_spec(), target.0, name, 0),
    ensures
        note_entries(new.notes_spec(), target.0, new.id_spec().unwrap()) == note_entries(
            old.notes_spec(),
            target.0,
            old.id_spec().unwrap(),
        ).push((name, ItemRef::Note(NoteRef { id: NoteId(old.next_note_spec()), provider_id: old.id_spec().unwrap() }))),
        dir_entries(new.dirs_spec(), target.0, new.id_spec().unwrap()) == dir_entries(old.dirs_spec(), target.0, old.id_spec().unwrap()),
        forall|i: int| 0 <= i < old.listing(target).len() && (#[trigger] old.listing(target)[i]).1 is Note
            ==> old.listing(target)[i].0 != name,
{
    let pid = old.id_spec().unwrap();
    let nn = new.notes_spec();
    assert(nn.drop_last() == old.notes_spec());
    let notes_part = note_entries(old.notes_spec(), target.0, pid);
    assert forall|i: int| 0 <= i < old.listing(target).len() && (#[trigger] old.listing(target)[i]).1 is Note
        implies old.listing(target)[i].0 != name by {
        if i < notes_part.len() {
            lemma_note_entries_rows(old.notes_spec(), target.0, pid, i);
        } else {
            let d = i - notes_part.len();
            assert(old.listing(target)[i] == dir_entries(old.dirs_spec(), target.0, pid)[d]);
            lemma_dir_entries_rows(old.dirs_spec(), target.0, pid, d);
        }
    }
}

/// After a directory is deleted, no listing holds it or anything below it.
pub proof fn lemma_listing_after_delete_directory(old: &DbProvider, new: &DbProvider, id: DirectoryId, any: DirectoryId, x: u64)
    requires
        old.wf(),
        new.wf(),
        new.id_spec() is Some,
        deleted_subtree(old, new, id.0),
        is_descendant(old.dirs_spec(), x, id.0),
    ensures
        forall|i: int| 0 <= i < new.listing(any).len() ==> (#[trigger] new.listing(any)[i]).1
            != ItemRef::Directory(DirectoryRef { id: DirectoryId(x), provider_id: new.id_spec().unwrap() }),
{
    let pid = new.id_spec().unwrap();
    let nd = new.dirs_spec();
    let notes_part = note_entries(new.notes_spec(), any.0, pid);
    assert forall|i: int| 0 <= i < new.listing(any).len() implies (#[trigger] new.listing(any)[i]).1
        != ItemRef::Directory(DirectoryRef { id: DirectoryId(x), provider_id: pid }) by {
        if i < notes_part.len() {
            lemma_note_entries_rows(new.notes_spec(), any.0, pid, i);
        } else {
            let d = i - notes_part.len();
            assert(new.listing(any)[i] == dir_entries(nd, any.0, pid)[d]);
            lemma_dir_entries_rows(nd, any.0, pid, d);
            let j = choose|j: int|
                0 <= j < nd.len() && nd[j].parent == any.0 && (#[trigger] dir_entries(nd, any.0, pid)[d])
                    == (nd[j].name@, ItemRef::Directory(DirectoryRef { id: DirectoryId(nd[j].id), provider_id: pid }));
            if nd[j].id == x {
                assert(old.dirs_spec().contains(nd[j]));
                let k = choose|k: int| 0 <= k < old.dirs_spec().len() && old.dirs_spec()[k] == nd[j];
                assert(dir_exists(nd, old.dirs_spec()[k].id));
            }
        }
    }
}

/// After a note is deleted, no listing holds it.
pub proof fn lemma_listing_after_delete_note(old: &DbProvider, new: &DbProvider, id: NoteId, any: DirectoryId)
    requires
        old.wf(),
        old.id_spec() is Some,
        old.has_note(id),
        new.notes_spec() == old.notes_spec().remove(note_row_index(old.notes_spec(), id.0)),
        new.dirs_spec() == old.dirs_spec(),
        new.id_spec() == old.id_spec(),
    ensures
        forall|i: int| 0 <= i < new.listing(any).len() ==> (#[trigger] new.listing(any)[i]).1
            != ItemRef::Note(NoteRef { id: id, provider_id: new.id_spec().unwrap() }),
{
    let pid = new.id_spec().unwrap();
    let on = old.notes_spec();
    let nn = new.notes_spec();
    let r = note_row_index(on, id.0);
    let notes_part = note_entries(nn, any.0, pid);
    assert forall|i: int| 0 <= i < new.listing(any).len() implies (#[trigger] new.listing(any)[i]).1
        != ItemRef::Note(NoteRef { id: id, provider_id: pid }) by {
        if i < notes_part.len() {
            lemma_note_entries_rows(nn, any.0, pid, i);
            let j = choose|j: int|
                0 <= j < nn.len() && nn[j].parent == any.0 && (#[trigger] note_entries(nn, any.0, pid)[i])
                    == (nn[j].name@, ItemRef::Note(NoteRef { id: NoteId(nn[j].id), provider_id: pid }));
            let t = if j < r { j } else { j + 1 };
            assert(nn[j] == on[t]);
            assert(t != r);
        } else {
            let d = i - notes_part.len();
            assert(new.listing(any)[i] == dir_entries(new.dirs_spec(), any.0, pid)[d]);
            lemma_dir_entries_rows(new.dirs_spec(), any.0, pid, d);
        }
    }
}

/// What `create_directory` gives and leaves, from the provider `old` before it.
pub open spec fn create_directory_post(old: &DbProvider, new: &DbProvider, target: DirectoryId, name: Seq<char>, r: Result<DirectoryRef, ProviderError>) -> bool {
    &&& (!old.has_dir(target) ==> r == Err::<DirectoryRef, ProviderError>(ProviderError::NoSuchDirectory(target)))
    &&& (old.has_dir(target) && dir_name_taken(old.dirs_spec(), target.0, name, 0) ==> (r matches Err(ProviderError::TargetNameAlreadyExists(n)) && n@ == name))
    &&& (old.has_dir(target) && !dir_name_taken(old.dirs_spec(), target.0, name, 0)
                && old.next_dir_spec() == u64::MAX ==> r matches Err(ProviderError::StorageError { .. }))
    &&& (old.has_dir(target) && !dir_name_taken(old.dirs_spec(), target.0, name, 0)
                && old.next_dir_spec() < u64::MAX ==> {
                &&& r == Ok::<DirectoryRef, ProviderError>(DirectoryRef { id: DirectoryId(old.next_dir_spec()), provider_id: old.id_spec().unwrap() })
                &&& with_new_dir(old, new, target.0, name)
            })
    &&& (r is Err ==> *new == *old)
}

/// What `create_note` gives and leaves, from the provider `old` before it.
pub open spec fn create_note_post(old: &DbProvider, new: &DbProvider, target: DirectoryId, content: Seq<char>, name: Seq<char>, r: Result<NoteRef, ProviderError>) -> bool {
    &&& (!old.has_dir(target) ==> r == Err::<NoteRef, ProviderError>(ProviderError::NoSuchDirectory(target)))
    &&& (old.has_dir(target) && note_name_taken(old.notes_spec(), target.0, name, 0) ==> (r matches Err(ProviderError::TargetNameAlreadyExists(n)) && n@ == name))
    &&& (old.has_dir(target) && !note_name_taken(old.notes_spec(), target.0, name, 0)
                && old.next_note_spec() == u64::MAX ==> r matches Err(ProviderError::StorageError { .. }))
    &&& (old.has_dir(target) && !note_name_taken(old.notes_spec(), target.0, name, 0)
                && old.next_note_spec() < u64::MAX ==> {
                &&& r == Ok::<NoteRef, ProviderError>(NoteRef { id: NoteId(old.next_note_spec()), provider_id: old.id_spec().unwrap() })
                &&& with_new_note(old, new, target.0, name, content)
            })
    &&& (r is Err ==> *new == *old)
}

/// What `rename_directory` gives and leaves, from the provider `old` before it.
pub open spec fn rename_directory_post(old: &DbProvider, new: &DbProvider, id: DirectoryId, new_name: Seq<char>, r: Result<(), ProviderError>) -> bool {
    &&& (id.0 == 0 ==> r == Err::<(), ProviderError>(ProviderError::CannotRenameRoot))
    &&& (id.0 != 0 && old.mount_spec(id) is Some ==> r == Err::<(), ProviderError>(ProviderError::OperationNotSupported))
    &&& (id.0 != 0 && old.mount_spec(id) is None && !old.has_dir(id) ==> r == Err::<(), ProviderError>(ProviderError::NoSuchDirectory(id)))
    &&& (id.0 != 0 && old.mount_spec(id) is None && old.has_dir(id) ==> {
                let i = dir_row_index(old.dirs_spec(), id.0);
                let parent = old.dirs_spec()[i].parent;
                &&& dir_name_taken(old.dirs_spec(), parent, new_name, id.0) ==> (r matches Err(ProviderError::TargetNameAlreadyExists(n)) && n@ == new_name)
                &&& !dir_name_taken(old.dirs_spec(), parent, new_name, id.0) ==> r is Ok
                    && with_dir_row(old, new, i, id.0, parent, new_name)
            })
    &&& (r is Err ==> *new == *old)
}

/// What `rename_note` gives and leaves, from the provider `old` before it.
pub open spec fn rename_note_post(old: &DbProvider, new: &DbProvider, id: NoteId, new_name: Seq<char>, r: Result<(), ProviderError>) -> bool {
    &&& (!old.has_note(id) ==> r == Err::<(), ProviderError>(ProviderError::NoSuchNote(id)))
    &&& (old.has_note(id) ==> {
                let i = note_row_index(old.notes_spec(), id.0);
                let row = old.notes_spec()[i];
                &&& note_name_taken(old.notes_spec(), row.parent, new_name, id.0) ==> (r matches Err(ProviderError::TargetNameAlreadyExists(n)) && n@ == new_name)
                &&& !note_name_taken(old.notes_spec(), row.parent, new_name, id.0) ==> r is Ok
                    && with_note_row(old, new, i, row.parent, new_name, row.content@)
            })
    &&& (r is Err ==> *new == *old)
}

/// What `update_note` gives and leaves, from the provider `old` before it.
pub open spec fn update_note_post(old: &DbProvider, new: &DbProvider, id: NoteId, content: Seq<char>, r: Result<(), ProviderError>) -> bool {
    &&& (!old.has_note(id) ==> r == Err::<(), ProviderError>(ProviderError::NoSuchNote(id)))
    &&& (old.has_note(id) ==> {
                let i = note_row_index(old.notes_spec(), id.0);
                let row = old.notes_spec()[i];
                r is Ok && with_note_row(old, new, i, row.parent, row.name@, content)
            })
    &&& (r is Err ==> *new == *old)
}

/// What `move_directory` gives and leaves, from the provider `old` before it.
pub open spec fn move_directory_post(old: &DbProvider, new: &DbProvider, id: DirectoryId, destination: DirectoryId, r: Result<(), ProviderError>) -> bool {
    &&& (id.0 == 0 ==> r == Err::<(), ProviderError>(ProviderError::CannotMoveRoot))
    &&& (id.0 != 0 && old.mount_spec(id) is Some ==> r == Err::<(), ProviderError>(ProviderError::OperationNotSupported))
    &&& (id.0 != 0 && old.mount_spec(id) is None && !old.has_dir(id) ==> r == Err::<(), ProviderError>(ProviderError::NoSuchDirectory(id)))
    &&& (id.0 != 0 && old.mount_spec(id) is None && old.has_dir(id) && !old.has_dir(destination)
                ==> r == Err::<(), ProviderError>(ProviderError::NoSuchDirectory(destination)))
    &&& (id.0 != 0 && old.mount_spec(id) is None && old.has_dir(id) && old.has_dir(destination) ==> {
                let dirs = old.dirs_spec();
                let i = dir_row_index(dirs, id.0);
                let below = is_descendant(dirs, destination.0, id.0);
                &&& below ==> r == Err::<(), ProviderError>(ProviderError::WouldCreateLoop)
                &&& !below && dir_name_taken(dirs, destination.0, dirs[i].name@, id.0)
                    ==> (r matches Err(ProviderError::TargetNameAlreadyExists(n)) && n@ == dirs[i].name@)
                &&& !below && !dir_name_taken(dirs, destination.0, dirs[i].name@, id.0)
                    ==> r is Ok && with_dir_row(old, new, i, id.0, destination.0, dirs[i].name@)
            })
    &&& (r is Err ==> *new == *old)
}

/// What `move_note` gives and leaves, from the provider `old` before it.
pub open spec fn move_note_post(old: &DbProvider, new: &DbProvider, id: NoteId, destination: DirectoryId, r: Result<(), ProviderError>) -> bool {
    &&& (!old.has_note(id) ==> r == Err::<(), ProviderError>(ProviderError::NoSuchNote(id)))
    &&& (old.has_note(id) && !old.has_dir(destination) ==> r == Err::<(), ProviderError>(ProviderError::NoSuchDirectory(destination)))
    &&& (old.has_note(id) && old.has_dir(destination) ==> {
                let notes = old.notes_spec();
                let i = note_row_index(notes, id.0);
                &&& note_name_taken(notes, destination.0, notes[i].name@, id.0)
                    ==> (r matches Err(ProviderError::TargetNameAlreadyExists(n)) && n@ == notes[i].name@)
                &&& !note_name_taken(notes, destination.0, notes[i].name@, id.0)
                    ==> r is Ok && with_note_row(old, new, i, destination.0, notes[i].name@, notes[i].content@)
            })
    &&& (r is Err ==> *new == *old)
}

/// What `delete_note` gives and leaves, from the provider `old` before it.
pub open spec fn delete_note_post(old: &DbProvider, new: &DbProvider, id: NoteId, r: Result<(), ProviderError>) -> bool {
    &&& (!old.has_note(id) ==> r == Err::<(), ProviderError>(ProviderError::NoSuchNote(id)))
    &&& (old.has_note(id) ==> r is Ok && new.notes_spec() == old.notes_spec().remove(
                note_row_index(old.notes_spec(), id.0)) && new.dirs_spec() == old.dirs_spec()
                && new.mounts_spec() == old.mounts_spec() && new.id_spec() == old.id_spec()
                && new.next_dir_spec() == old.next_dir_spec() && new.next_note_spec() == old.next_note_spec())
    &&& (r is Err ==> *new == *old)
}

/// What `delete_directory` gives and leaves, from the provider `old` before it.
pub open spec fn delete_directory_post(old: &DbProvider, new: &DbProvider, id: DirectoryId, r: Result<(), ProviderError>) -> bool {
    &&& (id.0 == 0 ==> r == Err::<(), ProviderError>(ProviderError::CannotDeleteRoot))
    &&& (id.0 != 0 && old.mount_spec(id) is Some ==> r == Err::<(), ProviderError>(ProviderError::OperationNotSupported))
    &&& (id.0 != 0 && old.mount_spec(id) is None && !old.has_dir(id) ==> r == Err::<(), ProviderError>(ProviderError::NoSuchDirectory(id)))
    &&& (id.0 != 0 && old.mount_spec(id) is None && old.has_dir(id) ==> r is Ok && deleted_subtree(old, new, id.0))
    &&& (r is Err ==> *new == *old)
}


impl DbProvider {
    /// The subdirectory of `parent` called `name`, if there is one.
    pub fn child_directory(&self, parent: DirectoryId, name: &str) -> (r: Option<DirectoryId>)
        requires
            self.wf(),
        ensures
            r matches Some(d) ==> exists|i: int| 0 <= i < self.dirs_spec().len() && #[trigger] self.dirs_spec()[i].id == d.0
                && self.dirs_spec()[i].parent == parent.0 && self.dirs_spec()[i].name@ == name@,
            r is None ==> !dir_name_taken(self.dirs_spec(), parent.0, name@, 0),
    {
        let mut i: usize = 0;
        while i < self.dirs.len()
            invariant
                i <= self.dirs@.len(),
                self.wf(),
                forall|j: int| 0 <= j < i ==> !(self.dirs@[j].parent == parent.0 && self.dirs@[j].name@ == name@),
            decreases self.dirs@.len() - i,
        {
            if self.dirs[i].parent == parent.0 && crate::text::same_text(self.dirs[i].name.as_str(), name) {
                return Some(DirectoryId(self.dirs[i].id));
            }
            i = i + 1;
        }
        None
    }
}


/// Whether stored tables keep the rules of the provider: every id positive,
/// unique and below the largest `u64`, every parent present, parent links
/// free of cycles, and sibling names unique per kind.
pub open spec fn tables_valid(dirs: Seq<DirRow>, notes: Seq<NoteRow>) -> bool {
    &&& dirs_wf(dirs, u64::MAX)
    &&& dirs_acyclic(dirs)
    &&& notes_wf(notes, dirs, u64::MAX)
}

impl DbProvider {
    /// A provider over stored tables, if they keep its rules.
    pub fn from_rows(dirs: Vec<DirRow>, notes: Vec<NoteRow>) -> (r: Result<DbProvider, ProviderError>)
        ensures
            r is Ok <==> tables_valid(dirs@, notes@),
            r matches Err(e) ==> e is Corrupt,
            r matches Ok(p) ==> p.wf() && p.dirs_spec() == dirs@ && p.notes_spec() == notes@ && p.id_spec() is None
                && p.mounts_spec().len() == 0,
    {
        let mut next_dir: u64 = 1;
        let mut i: usize = 0;
        while i < dirs.len()
            invariant
                i <= dirs@.len(),
                0 < next_dir <= u64::MAX,
                forall|a: int| 0 <= a < i ==> 0 < #[trigger] dirs@[a].id < next_dir,
                forall|a: int| 0 <= a < i ==> #[trigger] dirs@[a].id < u64::MAX,
                forall|a: int, b: int| 0 <= a < i && 0 <= b < i && a != b ==> #[trigger] dirs@[a].id != #[trigger] dirs@[b].id,
                forall|a: int, b: int| 0 <= a < i && 0 <= b < i && a != b && dirs@[a].parent == dirs@[b].parent
                    ==> #[trigger] dirs@[a].name@ != #[trigger] dirs@[b].name@,
            decreases dirs@.len() - i,
        {
            let row = &dirs[i];
            if row.id == 0 || row.id == u64::MAX {
                return Err(ProviderError::Corrupt { description: String::from_str("a directory id is out of range") });
            }
            let mut j: usize = 0;
            while j < i
                invariant
                    j <= i < dirs@.len(),
                    *row == dirs@[i as int],
                    forall|b: int| 0 <= b < j ==> dirs@[b].id != dirs@[i as int].id,
                    forall|b: int| 0 <= b < j && dirs@[b].parent == dirs@[i as int].parent ==> dirs@[b].name@ != dirs@[i as int].name@,
                decreases i - j,
            {
                if dirs[j].id == row.id {
                    proof {
                        assert(dirs@[j as int].id == dirs@[i as int].id);
                        assert(!dirs_wf(dirs@, u64::MAX));
                    }
                    return Err(ProviderError::Corrupt { description: String::from_str("two directories share an id") });
                }
                if dirs[j].parent == row.parent && crate::text::same_text(dirs[j].name.as_str(), row.name.as_str()) {
                    proof {
                        assert(dirs@[j as int].name@ == dirs@[i as int].name@);
                        assert(!dirs_wf(dirs@, u64::MAX));
                    }
                    return Err(ProviderError::Corrupt { description: String::from_str("two sibling directories share a name") });
                }
                j = j + 1;
            }
            if row.id >= next_dir {
                next_dir = row.id + 1;
            }
            i = i + 1;
        }
        let mut k: usize = 0;
        while k < dirs.len()
            invariant
                k <= dirs@.len(),
                0 < next_dir <= u64::MAX,
                forall|a: int| 0 <= a < dirs@.len() ==> 0 < #[trigger] dirs@[a].id < next_dir,
                forall|a: int| 0 <= a < dirs@.len() ==> #[trigger] dirs@[a].id < u64::MAX,
                forall|a: int, b: int| 0 <= a < dirs@.len() && 0 <= b < dirs@.len() && a != b ==> #[trigger] dirs@[a].id != #[trigger] dirs@[b].id,
                forall|a: int, b: int| 0 <= a < dirs@.len() && 0 <= b < dirs@.len() && a != b && dirs@[a].parent == dirs@[b].parent
                    ==> #[trigger] dirs@[a].name@ != #[trigger] dirs@[b].name@,
                forall|a: int| 0 <= a < k ==> dir_exists(dirs@, #[trigger] dirs@[a].parent),
            decreases dirs@.len() - k,
        {
            let p = dirs[k].parent;
            if p != 0 {
                let mut found = false;
                let mut j: usize = 0;
                while j < dirs.len()
                    invariant
                        j <= dirs@.len(),
                        k < dirs@.len(),
                        p == dirs@[k as int].parent,
                        found ==> dir_exists(dirs@, p),
                        !found ==> forall|b: int| 0 <= b < j ==> dirs@[b].id != p,
                    decreases dirs@.len() - j,
                {
                    if dirs[j].id == p {
                        found = true;
                    }
                    j = j + 1;
                }
                if !found {
                    proof {
                        assert(!dir_exists(dirs@, dirs@[k as int].parent));
                    }
                    return Err(ProviderError::Corrupt { description: String::from_str("a directory's parent is missing") });
                }
            }
            k = k + 1;
        }
        proof {
            assert(dirs_wf(dirs@, next_dir));
        }
        if !all_reach_root(&dirs, Ghost(next_dir)) {
            proof {
                assert forall|a: int| 0 <= a < dirs@.len() implies #[trigger] dirs@[a].id < u64::MAX by {}
            }
            return Err(ProviderError::Corrupt { description: String::from_str("the parents of some directories form a cycle") });
        }
        let mut next_note: u64 = 1;
        let mut i: usize = 0;
        while i < notes.len()
            invariant
                i <= notes@.len(),
                0 < next_note <= u64::MAX,
                dirs_wf(dirs@, next_dir),
                dirs_acyclic(dirs@),
                0 < next_dir <= u64::MAX,
                forall|a: int| 0 <= a < dirs@.len() ==> #[trigger] dirs@[a].id < u64::MAX,
                forall|a: int| 0 <= a < i ==> 0 < #[trigger] notes@[a].id < next_note,
                forall|a: int| 0 <= a < i ==> #[trigger] notes@[a].id < u64::MAX,
                forall|a: int, b: int| 0 <= a < i && 0 <= b < i && a != b ==> #[trigger] notes@[a].id != #[trigger] notes@[b].id,
                forall|a: int, b: int| 0 <= a < i && 0 <= b < i && a != b && notes@[a].parent == notes@[b].parent
                    ==> #[trigger] notes@[a].name@ != #[trigger] notes@[b].name@,
                forall|a: int| 0 <= a < i ==> dir_exists(dirs@, #[trigger] notes@[a].parent),
            decreases notes@.len() - i,
        {
            let row = &notes[i];
            if row.id == 0 || row.id == u64::MAX {
                return Err(ProviderError::Corrupt { description: String::from_str("a note id is out of range") });
            }
            let mut j: usize = 0;
            while j < i
                invariant
                    j <= i < notes@.len(),
                    *row == notes@[i as int],
                    forall|b: int| 0 <= b < j ==> notes@[b].id != notes@[i as int].id,
                    forall|b: int| 0 <= b < j && notes@[b].parent == notes@[i as int].parent ==> notes@[b].name@ != notes@[i as int].name@,
                decreases i - j,
            {
                if notes[j].id == row.id {
                    proof {
                        assert(notes@[j as int].id == notes@[i as int].id);
                        assert(!notes_wf(notes@, dirs@, u64::MAX));
                    }
                    return Err(ProviderError::Corrupt { description: String::from_str("two notes share an id") });
                }
                if notes[j].parent == row.parent && crate::text::same_text(notes[j].name.as_str(), row.name.as_str()) {
                    proof {
                        assert(notes@[j as int].name@ == notes@[i as int].name@);
                        assert(!notes_wf(notes@, dirs@, u64::MAX));
                    }
                    return Err(ProviderError::Corrupt { description: String::from_str("two sibling notes share a name") });
                }
                j = j + 1;
            }
            let p = row.parent;
            if p != 0 {
                let mut found = false;
                let mut j: usize = 0;
                while j < dirs.len()
                    invariant
                        j <= dirs@.len(),
                        found ==> dir_exists(dirs@, p),
                        !found ==> forall|b: int| 0 <= b < j ==> dirs@[b].id != p,
                    decreases dirs@.len() - j,
                {
                    if dirs[j].id == p {
                        found = true;
                    }
                    j = j + 1;
                }
                if !found {
                    proof {
                        assert(!dir_exists(dirs@, notes@[i as int].parent));
                    }
                    return Err(ProviderError::Corrupt { description: String::from_str("a note's directory is missing") });
                }
            }
            if row.id >= next_note {
                next_note = row.id + 1;
            }
            i = i + 1;
        }
        Ok(DbProvider { id: None, dirs, notes, next_dir_id: next_dir, next_note_id: next_note, mount_points: Vec::new() })
    }

    /// The rows of the directory table.
    pub fn dir_rows(&self) -> (r: &Vec<DirRow>)
        ensures
            r@ == self.dirs_spec(),
    {
        &self.dirs
    }

    /// The rows of the note table.
    pub fn note_rows(&self) -> (r: &Vec<NoteRow>)
        ensures
            r@ == self.notes_spec(),
    {
        &self.notes
    }
}



/// What `add_mount_point` gives and leaves, from the provider `old` before it.
pub open spec fn add_mount_point_post(old: &DbProvider, new: &DbProvider, mount_dir: DirectoryId, provider: ProviderId, r: Result<(), ProviderError>) -> bool {
    &&& r is Ok
    &&& forall|d: DirectoryId| #[trigger] new.mount_spec(d) == if d == mount_dir {
        Some(provider)
    } else {
        old.mount_spec(d)
    }
    &&& new.dirs_spec() == old.dirs_spec()
    &&& new.notes_spec() == old.notes_spec()
    &&& new.next_dir_spec() == old.next_dir_spec()
    &&& new.next_note_spec() == old.next_note_spec()
    &&& new.id_spec() == old.id_spec()
}
} // verus!

//! The archive provider: a read-only view of past newsletter issues, one
//! directory per newsletter under a synthetic root, each issue a note.
use vstd::prelude::*;

use crate::ids::{DirectoryId, NoteId, ProviderId};
use crate::kb::{Directory, DirectoryRef, FormattedText, ItemRef, Note, NoteRef, ProviderError, ProviderUserContext, listing_view};
use crate::text::{decimal_of, decimal_text, same_text};
use crate::user::Permissions;

verus! {

/// The id of the synthetic root directory of the archive.
pub const ARCHIVE_ROOT: u64 = 0xffff_ffff_ffff_ffff;

/// A wall-clock time: the fields of a date and a time of day.
#[derive(Debug, Clone, Copy, PartialEq, Eq, Structural)]
pub struct Timestamp {
    pub year: u32,
    pub month: u32,
    pub day: u32,
    pub hour: u32,
    pub minute: u32,
    pub second: u32,
}

impl Timestamp {
    pub open spec fn wf(self) -> bool {
        &&& self.year <= 9999
        &&& 1 <= self.month <= 12
        &&& 1 <= self.day <= 31
        &&& self.hour < 24
        &&& self.minute < 60
        &&& self.second < 61
    }
}

/// A newsletter: its name, the title of its archive directory, and the
/// permissions a user needs to see it.
#[derive(Debug)]
pub struct Feed {
    pub name: String,
    pub description: String,
    pub audience: Permissions,
}

/// A past issue of a newsletter.
#[derive(Debug)]
pub struct ArchiveEntry {
    pub id: u64,
    pub feed: String,
    pub content: String,
    pub timestamp: Timestamp,
}

/// `n` in decimal, with leading zeros up to `width` digits.
pub open spec fn padded(n: nat, width: nat) -> Seq<char>
    decreases width,
{
    if decimal_of(n).len() >= width || width == 0 {
        decimal_of(n)
    } else {
        seq!['0'] + padded(n, (width - 1) as nat)
    }
}

/// `YYYY-MM-DD hh:mm:ss`.
pub open spec fn timestamp_text(t: Timestamp) -> Seq<char> {
    padded(t.year as nat, 4) + seq!['-'] + padded(t.month as nat, 2) + seq!['-'] + padded(t.day as nat, 2)
        + seq![' '] + padded(t.hour as nat, 2) + seq![':'] + padded(t.minute as nat, 2) + seq![':']
        + padded(t.second as nat, 2)
}

/// The name of an issue: its time, then its number.
pub open spec fn issue_name(id: u64, t: Timestamp) -> Seq<char> {
    timestamp_text(t) + seq![' ', '(', '№', ' '] + decimal_of(id as nat) + seq![')']
}

fn padded_text(n: u32, width: usize) -> (r: String)
    requires
        width <= 4,
    ensures
        r@ == padded(n as nat, width as nat),
    decreases width,
{
    let s = decimal_text(n as u64);
    if s.unicode_len() >= width || width == 0 {
        s
    } else {
        let mut z = String::from_str("0");
        proof {
            reveal_strlit("0");
        }
        let rest = padded_text(n, width - 1);
        z.append(rest.as_str());
        proof {
            assert(z@ =~= seq!['0'] + padded(n as nat, (width - 1) as nat));
        }
        z
    }
}

/// The name under which an issue is listed.
pub fn issue_name_text(id: u64, t: Timestamp) -> (r: String)
    ensures
        r@ == issue_name(id, t),
{
    let mut s = padded_text(t.year, 4);
    s.append("-");
    s.append(padded_text(t.month, 2).as_str());
    s.append("-");
    s.append(padded_text(t.day, 2).as_str());
    s.append(" ");
    s.append(padded_text(t.hour, 2).as_str());
    s.append(":");
    s.append(padded_text(t.minute, 2).as_str());
    s.append(":");
    s.append(padded_text(t.second, 2).as_str());
    s.append(" (№ ");
    s.append(decimal_text(id).as_str());
    s.append(")");
    proof {
        reveal_strlit("-");
        reveal_strlit(" ");
        reveal_strlit(":");
        reveal_strlit(" (№ ");
        reveal_strlit(")");
        assert(s@ =~= issue_name(id, t));
    }
    s
}

/// Whether a user with `permissions` may see `feed`.
pub open spec fn visible(feed: Feed, permissions: Permissions) -> bool {
    permissions.covers_spec(feed.audience)
}

/// The listing of the archive root: one directory per visible newsletter,
/// named by its title, in the order the newsletters were given.
pub open spec fn root_entries(feeds: Seq<Feed>, permissions: Permissions, pid: ProviderId) -> Seq<(Seq<char>, ItemRef)>
    decreases feeds.len(),
{
    if feeds.len() == 0 {
        seq![]
    } else {
        let rest = root_entries(feeds.drop_last(), permissions, pid);
        let f = feeds.last();
        if visible(f, permissions) {
            rest.push((f.description@, ItemRef::Directory(DirectoryRef { id: DirectoryId((feeds.len() - 1) as u64), provider_id: pid })))
        } else {
            rest
        }
    }
}

/// The issues of newsletter `name`, in the order they were stored.
pub open spec fn issue_entries(entries: Seq<ArchiveEntry>, name: Seq<char>, pid: ProviderId) -> Seq<(Seq<char>, ItemRef)>
    decreases entries.len(),
{
    if entries.len() == 0 {
        seq![]
    } else {
        let rest = issue_entries(entries.drop_last(), name, pid);
        let e = entries.last();
        if e.feed@ == name {
            rest.push((issue_name(e.id, e.timestamp), ItemRef::Note(NoteRef { id: NoteId(e.id), provider_id: pid })))
        } else {
            rest
        }
    }
}

/// The rules of the issue table: ids unique and below `next_id`, times valid.
pub open spec fn entries_wf(entries: Seq<ArchiveEntry>, next_id: u64) -> bool {
    &&& 0 < next_id
    &&& forall|i: int| 0 <= i < entries.len() ==> 0 < #[trigger] entries[i].id < next_id
    &&& forall|i: int, j: int| 0 <= i < entries.len() && 0 <= j < entries.len() && i != j
        ==> #[trigger] entries[i].id != #[trigger] entries[j].id
    &&& forall|i: int| 0 <= i < entries.len() ==> (#[trigger] entries[i]).timestamp.wf()
}

pub open spec fn entry_exists(entries: Seq<ArchiveEntry>, id: u64) -> bool {
    exists|i: int| 0 <= i < entries.len() && entries[i].id == id
}

pub open spec fn entry_index(entries: Seq<ArchiveEntry>, id: u64) -> int {
    choose|i: int| 0 <= i < entries.len() && entries[i].id == id
}

/// The newsletter whose name is `name`, if any: the first such.
pub open spec fn feed_named(feeds: Seq<Feed>, name: Seq<char>) -> Option<int> {
    if exists|i: int| 0 <= i < feeds.len() && feeds[i].name@ == name {
        Some(choose|i: int| 0 <= i < feeds.len() && feeds[i].name@ == name && forall|j: int| 0 <= j < i ==> feeds[j].name@ != name)
    } else {
        None
    }
}

/// The parent of an archive directory: for the root it is the parent of the
/// directory the archive is mounted on, which the host provider answers.
#[derive(Debug, Clone, Copy, PartialEq, Eq, Structural)]
pub enum ParentAnswer {
    Local(Option<DirectoryId>),
    AskHost(ProviderId, DirectoryId),
}

/// The archive provider.
pub struct ArchiveProvider {
    id: Option<ProviderId>,
    feeds: Vec<Feed>,
    entries: Vec<ArchiveEntry>,
    next_entry_id: u64,
    mounted_on: (ProviderId, DirectoryId),
}

impl ArchiveProvider {
    pub closed spec fn id_spec(&self) -> Option<ProviderId> {
        self.id
    }

    pub closed spec fn feeds_spec(&self) -> Seq<Feed> {
        self.feeds@
    }

    pub closed spec fn entries_spec(&self) -> Seq<ArchiveEntry> {
        self.entries@
    }

    pub closed spec fn next_entry_spec(&self) -> u64 {
        self.next_entry_id
    }

    pub closed spec fn mounted_on_spec(&self) -> (ProviderId, DirectoryId) {
        self.mounted_on
    }

    pub open spec fn wf(&self) -> bool {
        &&& self.feeds_spec().len() < ARCHIVE_ROOT
        &&& entries_wf(self.entries_spec(), self.next_entry_spec())
    }

    /// The listing of one of the archive's directories.
    pub open spec fn listing(&self, dir: DirectoryId, permissions: Permissions) -> Seq<(Seq<char>, ItemRef)> {
        if dir.0 == ARCHIVE_ROOT {
            root_entries(self.feeds_spec(), permissions, self.id_spec().unwrap())
        } else {
            issue_entries(self.entries_spec(), self.feeds_spec()[dir.0 as int].name@, self.id_spec().unwrap())
        }
    }

    /// An archive of `feeds` holding the stored `issues`, mounted on
    /// `mounted_on`, if the issues keep the rules of the issue table.
    pub fn new(feeds: Vec<Feed>, issues: Vec<ArchiveEntry>, mounted_on: (ProviderId, DirectoryId)) -> (r: Result<Self, ProviderError>)
        requires
            feeds@.len() < ARCHIVE_ROOT,
        ensures
            r is Ok <==> entries_wf(issues@, u64::MAX),
            r matches Err(e) ==> e is Corrupt,
            r matches Ok(a) ==> a.wf() && a.id_spec() is None && a.feeds_spec() == feeds@ && a.entries_spec() == issues@
                && a.mounted_on_spec() == mounted_on,
    {
        let mut next: u64 = 1;
        let mut i: usize = 0;
        while i < issues.len()
            invariant
                i <= issues@.len(),
                0 < next <= u64::MAX,
                forall|a: int| 0 <= a < i ==> 0 < #[trigger] issues@[a].id < next,
                forall|a: int| 0 <= a < i ==> #[trigger] issues@[a].id < u64::MAX,
                forall|a: int, b: int| 0 <= a < i && 0 <= b < i && a != b ==> #[trigger] issues@[a].id != #[trigger] issues@[b].id,
                forall|a: int| 0 <= a < i ==> (#[trigger] issues@[a]).timestamp.wf(),
            decreases issues@.len() - i,
        {
            let e = &issues[i];
            let t = e.timestamp;
            if e.id == 0 || e.id == u64::MAX || !(t.year <= 9999 && 1 <= t.month && t.month <= 12 && 1 <= t.day
                && t.day <= 31 && t.hour < 24 && t.minute < 60 && t.second < 61) {
                return Err(ProviderError::Corrupt { description: String::from_str("an issue has an invalid id or time") });
            }
            let mut j: usize = 0;
            while j < i
                invariant
                    j <= i < issues@.len(),
                    *e == issues@[i as int],
                    forall|b: int| 0 <= b < j ==> issues@[b].id != issues@[i as int].id,
                decreases i - j,
            {
                if issues[j].id == e.id {
                    proof {
                        assert(issues@[j as int].id == issues@[i as int].id);
                        assert(!entries_wf(issues@, u64::MAX));
                    }
                    return Err(ProviderError::Corrupt { description: String::from_str("two issues share an id") });
                }
                j = j + 1;
            }
            if e.id >= next {
                next = e.id + 1;
            }
            i = i + 1;
        }
        Ok(ArchiveProvider { id: None, feeds, entries: issues, next_entry_id: next, mounted_on })
    }

    /// The stored issues.
    pub fn entries(&self) -> (r: &Vec<ArchiveEntry>)
        ensures
            r@ == self.entries_spec(),
    {
        &self.entries
    }

    pub fn name(&self) -> (r: String)
        ensures
            r@ == "newsletter-archive"@,
    {
        String::from_str("newsletter-archive")
    }

    pub fn id(&self) -> (r: ProviderId)
        requires
            self.id_spec() is Some,
        ensures
            r == self.id_spec().unwrap(),
    {
        self.id.unwrap()
    }

    pub fn assign_id(&mut self, provider_id: ProviderId)
        ensures
            final(self).id_spec() == Some(provider_id),
            final(self).feeds_spec() == old(self).feeds_spec(),
            final(self).entries_spec() == old(self).entries_spec(),
            final(self).next_entry_spec() == old(self).next_entry_spec(),
            final(self).mounted_on_spec() == old(self).mounted_on_spec(),
    {
        self.id = Some(provider_id);
    }

    pub fn mounted_on(&self) -> (r: (ProviderId, DirectoryId))
        ensures
            r == self.mounted_on_spec(),
    {
        self.mounted_on
    }

    pub fn root_directory(&self) -> (r: DirectoryRef)
        requires
            self.id_spec() is Some,
        ensures
            r == (DirectoryRef { id: DirectoryId(ARCHIVE_ROOT), provider_id: self.id_spec().unwrap() }),
    {
        DirectoryRef { id: DirectoryId(ARCHIVE_ROOT), provider_id: self.id() }
    }

    fn is_visible(&self, i: usize, uctx: ProviderUserContext) -> (r: bool)
        requires
            i < self.feeds@.len(),
        ensures
            r == visible(self.feeds@[i as int], uctx.permissions),
    {
        uctx.permissions.covers(&self.feeds[i].audience)
    }

    fn find_entry(&self, id: u64) -> (r: Option<usize>)
        requires
            self.wf(),
        ensures
            r matches Some(i) ==> i < self.entries@.len() && self.entries@[i as int].id == id && entry_index(self.entries@, id) == i,
            r is None ==> !entry_exists(self.entries@, id),
    {
        let mut i: usize = 0;
        while i < self.entries.len()
            invariant
                i <= self.entries@.len(),
                self.wf(),
                forall|j: int| 0 <= j < i ==> self.entries@[j].id != id,
            decreases self.entries@.len() - i,
        {
            if self.entries[i].id == id {
                proof {
                    let k = entry_index(self.entries@, id);
                    assert(self.entries@[k].id == id);
                }
                return Some(i);
            }
            i = i + 1;
        }
        None
    }

    fn find_feed(&self, name: &str) -> (r: Option<usize>)
        ensures
            r matches Some(i) ==> feed_named(self.feeds@, name@) == Some(i as int) && i < self.feeds@.len(),
            r is None ==> feed_named(self.feeds@, name@) is None,
    {
        let mut i: usize = 0;
        while i < self.feeds.len()
            invariant
                i <= self.feeds@.len(),
                forall|j: int| 0 <= j < i ==> self.feeds@[j].name@ != name@,
            decreases self.feeds@.len() - i,
        {
            if same_text(self.feeds[i].name.as_str(), name) {
                proof {
                    let k = choose|k: int| 0 <= k < self.feeds@.len() && self.feeds@[k].name@ == name@ && forall|j: int| 0 <= j < k ==> self.feeds@[j].name@ != name@;
                    assert(self.feeds@[i as int].name@ == name@);
                    if k < i {
                    }
                    if i < k {
                        assert(self.feeds@[i as int].name@ != name@);
                    }
                }
                return Some(i);
            }
            i = i + 1;
        }
        None
    }

    /// Lists an archive directory: the root lists the newsletters the user
    /// may see; a newsletter's directory lists its issues, and only to a
    /// user who may see it.
    pub fn read_directory(&self, uctx: ProviderUserContext, id: DirectoryId) -> (r: Result<Directory, ProviderError>)
        requires
            self.wf(),
            self.id_spec() is Some,
        ensures
            id.0 != ARCHIVE_ROOT && id.0 >= self.feeds_spec().len() ==> r == Err::<Directory, ProviderError>(ProviderError::NoSuchDirectory(id)),
            id.0 != ARCHIVE_ROOT && id.0 < self.feeds_spec().len() && !visible(self.feeds_spec()[id.0 as int], uctx.permissions)
                ==> r == Err::<Directory, ProviderError>(ProviderError::PermissionDenied),
            id.0 == ARCHIVE_ROOT || (id.0 < self.feeds_spec().len() && visible(self.feeds_spec()[id.0 as int], uctx.permissions))
                ==> (r matches Ok(d) && d.view() == self.listing(id, uctx.permissions)),
    {
        let pid = self.id();
        let mut children: Vec<(String, ItemRef)> = Vec::new();
        if id.0 == ARCHIVE_ROOT {
            let mut i: usize = 0;
            while i < self.feeds.len()
                invariant
                    i <= self.feeds@.len(),
                    pid == self.id_spec().unwrap(),
                    listing_view(children@) == root_entries(self.feeds@.take(i as int), uctx.permissions, pid),
                decreases self.feeds@.len() - i,
            {
                proof {
                    assert(self.feeds@.take(i + 1).drop_last() =~= self.feeds@.take(i as int));
                }
                if self.is_visible(i, uctx) {
                    let entry = (self.feeds[i].description.clone(), ItemRef::Directory(DirectoryRef { id: DirectoryId(i as u64), provider_id: pid }));
                    let ghost before = children@;
                    children.push(entry);
                    proof {
                        assert(listing_view(children@) =~= listing_view(before).push((entry.0@, entry.1)));
                    }
                }
                i = i + 1;
            }
            proof {
                assert(self.feeds@.take(self.feeds@.len() as int) =~= self.feeds@);
            }
            return Ok(Directory { children });
        }
        if id.0 >= self.feeds.len() as u64 {
            return Err(ProviderError::NoSuchDirectory(id));
        }
        let f = id.0 as usize;
        if !self.is_visible(f, uctx) {
            return Err(ProviderError::PermissionDenied);
        }
        let name = self.feeds[f].name.as_str();
        let mut i: usize = 0;
        while i < self.entries.len()
            invariant
                i <= self.entries@.len(),
                self.wf(),
                pid == self.id_spec().unwrap(),
                name@ == self.feeds@[f as int].name@,
                listing_view(children@) == issue_entries(self.entries@.take(i as int), name@, pid),
            decreases self.entries@.len() - i,
        {
            proof {
                assert(self.entries@.take(i + 1).drop_last() =~= self.entries@.take(i as int));
            }
            let e = &self.entries[i];
            if same_text(e.feed.as_str(), name) {
                let entry = (issue_name_text(e.id, e.timestamp), ItemRef::Note(NoteRef { id: NoteId(e.id), provider_id: pid }));
                let ghost before = children@;
                children.push(entry);
                proof {
                    assert(listing_view(children@) =~= listing_view(before).push((entry.0@, entry.1)));
                }
            }
            i = i + 1;
        }
        proof {
            assert(self.entries@.take(self.entries@.len() as int) =~= self.entries@);
        }
        Ok(Directory { children })
    }

    /// The parent of an archive directory.
    pub fn get_directory_parent(&self, id: DirectoryId) -> (r: Result<ParentAnswer, ProviderError>)
        requires
            self.wf(),
            self.id_spec() is Some,
        ensures
            id.0 == ARCHIVE_ROOT ==> r == Ok::<ParentAnswer, ProviderError>(ParentAnswer::AskHost(self.mounted_on_spec().0, self.mounted_on_spec().1)),
            id.0 != ARCHIVE_ROOT && id.0 < self.feeds_spec().len() ==> r == Ok::<ParentAnswer, ProviderError>(ParentAnswer::Local(Some(DirectoryId(ARCHIVE_ROOT)))),
            id.0 != ARCHIVE_ROOT && id.0 >= self.feeds_spec().len() ==> r == Err::<ParentAnswer, ProviderError>(ProviderError::NoSuchDirectory(id)),
    {
        if id.0 == ARCHIVE_ROOT {
            Ok(ParentAnswer::AskHost(self.mounted_on.0, self.mounted_on.1))
        } else if id.0 < self.feeds.len() as u64 {
            Ok(ParentAnswer::Local(Some(DirectoryId(ARCHIVE_ROOT))))
        } else {
            Err(ProviderError::NoSuchDirectory(id))
        }
    }

    /// The newsletter directory that holds an issue.
    pub fn get_note_parent(&self, id: NoteId) -> (r: Result<DirectoryId, ProviderError>)
        requires
            self.wf(),
        ensures
            !entry_exists(self.entries_spec(), id.0) ==> r == Err::<DirectoryId, ProviderError>(ProviderError::NoSuchNote(id)),
            entry_exists(self.entries_spec(), id.0) ==> {
                let e = self.entries_spec()[entry_index(self.entries_spec(), id.0)];
                &&& feed_named(self.feeds_spec(), e.feed@) matches Some(f) ==> r == Ok::<DirectoryId, ProviderError>(DirectoryId(f as u64))
                &&& feed_named(self.feeds_spec(), e.feed@) is None ==> (r matches Err(ProviderError::Corrupt { .. }))
            },
    {
        match self.find_entry(id.0) {
            None => Err(ProviderError::NoSuchNote(id)),
            Some(i) => match self.find_feed(self.entries[i].feed.as_str()) {
                Some(f) => Ok(DirectoryId(f as u64)),
                None => Err(ProviderError::Corrupt { description: String::from_str("an issue of an unknown newsletter") }),
            },
        }
    }

    /// The title of a newsletter directory; `None` asks the host for the name
    /// of the mount directory.
    pub fn get_directory_name(&self, id: DirectoryId) -> (r: Result<Option<String>, ProviderError>)
        requires
            self.wf(),
        ensures
            id.0 == ARCHIVE_ROOT ==> r matches Ok(None),
            id.0 != ARCHIVE_ROOT && id.0 >= self.feeds_spec().len() ==> r == Err::<Option<String>, ProviderError>(ProviderError::NoSuchDirectory(id)),
            id.0 != ARCHIVE_ROOT && id.0 < self.feeds_spec().len() ==> (r matches Ok(Some(n)) && n@ == self.feeds_spec()[id.0 as int].description@),
    {
        if id.0 == ARCHIVE_ROOT {
            Ok(None)
        } else if id.0 < self.feeds.len() as u64 {
            Ok(Some(self.feeds[id.0 as usize].description.clone()))
        } else {
            Err(ProviderError::NoSuchDirectory(id))
        }
    }

    /// The name of an issue.
    pub fn get_note_name(&self, id: NoteId) -> (r: Result<String, ProviderError>)
        requires
            self.wf(),
        ensures
            !entry_exists(self.entries_spec(), id.0) ==> r == Err::<String, ProviderError>(ProviderError::NoSuchNote(id)),
            entry_exists(self.entries_spec(), id.0) ==> {
                let e = self.entries_spec()[entry_index(self.entries_spec(), id.0)];
                r matches Ok(n) && n@ == issue_name(e.id, e.timestamp)
            },
    {
        match self.find_entry(id.0) {
            None => Err(ProviderError::NoSuchNote(id)),
            Some(i) => Ok(issue_name_text(self.entries[i].id, self.entries[i].timestamp)),
        }
    }

    /// The text of an issue, to a user who may see its newsletter.
    pub fn read_note(&self, uctx: ProviderUserContext, id: NoteId) -> (r: Result<Note, ProviderError>)
        requires
            self.wf(),
        ensures
            !entry_exists(self.entries_spec(), id.0) ==> r == Err::<Note, ProviderError>(ProviderError::NoSuchNote(id)),
            entry_exists(self.entries_spec(), id.0) ==> {
                let e = self.entries_spec()[entry_index(self.entries_spec(), id.0)];
                &&& feed_named(self.feeds_spec(), e.feed@) is None ==> (r matches Err(ProviderError::Corrupt { .. }))
                &&& (feed_named(self.feeds_spec(), e.feed@) matches Some(f) && !visible(self.feeds_spec()[f], uctx.permissions))
                    ==> r == Err::<Note, ProviderError>(ProviderError::PermissionDenied)
                &&& (feed_named(self.feeds_spec(), e.feed@) matches Some(f) && visible(self.feeds_spec()[f], uctx.permissions))
                    ==> (r matches Ok(n) && n.view() == e.content@)
            },
    {
        match self.find_entry(id.0) {
            None => Err(ProviderError::NoSuchNote(id)),
            Some(i) => match self.find_feed(self.entries[i].feed.as_str()) {
                None => Err(ProviderError::Corrupt { description: String::from_str("an issue of an unknown newsletter") }),
                Some(f) => {
                    if !self.is_visible(f, uctx) {
                        Err(ProviderError::PermissionDenied)
                    } else {
                        Ok(Note { text: FormattedText { raw_text: self.entries[i].content.clone() } })
                    }
                },
            },
        }
    }

    /// Stores a new issue of newsletter `feed`, and gives its id.
    pub fn store(&mut self, feed: &str, note: Note, timestamp: Timestamp) -> (r: Result<NoteId, ProviderError>)
        requires
            old(self).wf(),
            timestamp.wf(),
        ensures
            final(self).wf(),
            final(self).id_spec() == old(self).id_spec(),
            final(self).feeds_spec() == old(self).feeds_spec(),
            final(self).mounted_on_spec() == old(self).mounted_on_spec(),
            old(self).next_entry_spec() == u64::MAX ==> (r matches Err(ProviderError::StorageError { .. })) && *final(self) == *old(self),
            old(self).next_entry_spec() < u64::MAX ==> {
                &&& r == Ok::<NoteId, ProviderError>(NoteId(old(self).next_entry_spec()))
                &&& final(self).entries_spec().drop_last() == old(self).entries_spec()
                &&& final(self).entries_spec().len() == old(self).entries_spec().len() + 1
                &&& final(self).entries_spec().last().id == old(self).next_entry_spec()
                &&& final(self).entries_spec().last().feed@ == feed@
                &&& final(self).entries_spec().last().content@ == note.view()
                &&& final(self).entries_spec().last().timestamp == timestamp
            },
    {
        if self.next_entry_id == u64::MAX {
            return Err(ProviderError::StorageError { description: String::from_str("no issue ids are left") });
        }
        let id = self.next_entry_id;
        let ghost before = self.entries@;
        self.entries.push(ArchiveEntry { id, feed: String::from_str(feed), content: note.text.raw_text, timestamp });
        self.next_entry_id = id + 1;
        proof {
            let after = self.entries@;
            assert forall|i: int| 0 <= i < after.len() implies 0 < #[trigger] after[i].id < self.next_entry_id by {
                if i < before.len() {
                    assert(after[i] == before[i]);
                }
            }
            assert forall|i: int, j: int| 0 <= i < after.len() && 0 <= j < after.len() && i != j implies #[trigger] after[i].id != #[trigger] after[j].id by {
                if i < before.len() {
                    assert(after[i] == before[i]);
                }
                if j < before.len() {
                    assert(after[j] == before[j]);
                }
            }
            assert forall|i: int| 0 <= i < after.len() implies (#[trigger] after[i]).timestamp.wf() by {
                if i < before.len() {
                    assert(after[i] == before[i]);
                }
            }
        }
        Ok(NoteId(id))
    }
}

} // verus!

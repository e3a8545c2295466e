//! The items of the knowledge base, references to them, and the errors of
//! its providers.
use vstd::prelude::*;

use crate::ids::{DirectoryId, FullDirectoryId, FullNoteId, NoteId, ProviderId};
use crate::user::Permissions;

verus! {

/// Formatted text: its raw characters.
#[derive(Debug, Clone, PartialEq, Eq)]
pub struct FormattedText {
    pub raw_text: String,
}

/// The data of a note.
#[derive(Debug, Clone, PartialEq, Eq)]
pub struct Note {
    pub text: FormattedText,
}

impl Note {
    pub open spec fn view(&self) -> Seq<char> {
        self.text.raw_text@
    }

    /// A note with the given text.
    pub fn from_text(text: String) -> (r: Note)
        ensures
            r.view() == text@,
    {
        Note { text: FormattedText { raw_text: text } }
    }
}

/// A reference to a directory in a given provider.
#[derive(Debug, Clone, Copy, PartialEq, Eq, Structural)]
pub struct DirectoryRef {
    pub id: DirectoryId,
    pub provider_id: ProviderId,
}

/// A reference to a note in a given provider.
#[derive(Debug, Clone, Copy, PartialEq, Eq, Structural)]
pub struct NoteRef {
    pub id: NoteId,
    pub provider_id: ProviderId,
}

impl DirectoryRef {
    pub fn new(id: DirectoryId, provider_id: ProviderId) -> (r: Self)
        ensures
            r.id == id,
            r.provider_id == provider_id,
    {
        DirectoryRef { id, provider_id }
    }

    pub fn id(&self) -> (r: DirectoryId)
        ensures
            r == self.id,
    {
        self.id
    }

    pub fn provider_id(&self) -> (r: ProviderId)
        ensures
            r == self.provider_id,
    {
        self.provider_id
    }

    pub open spec fn full_spec(self) -> FullDirectoryId {
        FullDirectoryId { provider: self.provider_id, directory: self.id }
    }

    pub fn full(&self) -> (r: FullDirectoryId)
        ensures
            r == self.full_spec(),
    {
        FullDirectoryId { provider: self.provider_id, directory: self.id }
    }
}

impl NoteRef {
    pub fn new(id: NoteId, provider_id: ProviderId) -> (r: Self)
        ensures
            r.id == id,
            r.provider_id == provider_id,
    {
        NoteRef { id, provider_id }
    }

    pub fn id(&self) -> (r: NoteId)
        ensures
            r == self.id,
    {
        self.id
    }

    pub fn provider_id(&self) -> (r: ProviderId)
        ensures
            r == self.provider_id,
    {
        self.provider_id
    }

    pub open spec fn full_spec(self) -> FullNoteId {
        FullNoteId { provider: self.provider_id, note: self.id }
    }

    pub fn full(&self) -> (r: FullNoteId)
        ensures
            r == self.full_spec(),
    {
        FullNoteId { provider: self.provider_id, note: self.id }
    }
}

/// A reference to an item of a given provider.
#[derive(Debug, Clone, Copy, PartialEq, Eq, Structural)]
pub enum ItemRef {
    Directory(DirectoryRef),
    Note(NoteRef),
}

impl ItemRef {
    pub fn is_note(&self) -> (r: bool)
        ensures
            r == (self is Note),
    {
        match self {
            ItemRef::Note(_) => true,
            ItemRef::Directory(_) => false,
        }
    }
}

/// The items of a directory: each with its name.
#[derive(Debug)]
pub struct Directory {
    pub children: Vec<(String, ItemRef)>,
}

/// A listing as names and references.
pub open spec fn listing_view(children: Seq<(String, ItemRef)>) -> Seq<(Seq<char>, ItemRef)> {
    children.map_values(|c: (String, ItemRef)| (c.0@, c.1))
}

impl Directory {
    pub open spec fn view(&self) -> Seq<(Seq<char>, ItemRef)> {
        listing_view(self.children@)
    }
}

/// The permissions of the user on whose behalf a provider works.
#[derive(Debug, Clone, Copy, PartialEq, Eq, Structural, Hash)]
pub struct ProviderUserContext {
    pub permissions: Permissions,
}

/// Why an operation of a provider failed.
#[derive(Debug, Clone, PartialEq, Eq)]
pub enum ProviderError {
    /// The directory with the given id does not exist.
    NoSuchDirectory(DirectoryId),
    /// The note with the given id does not exist.
    NoSuchNote(NoteId),
    /// The operation would make a directory its own descendant.
    WouldCreateLoop,
    /// The provider does not support the operation.
    OperationNotSupported,
    /// The global root directory cannot be renamed.
    CannotRenameRoot,
    /// The global root directory cannot be moved.
    CannotMoveRoot,
    /// The global root directory cannot be deleted.
    CannotDeleteRoot,
    /// The target directory already holds an item of that kind and name.
    TargetNameAlreadyExists(String),
    /// No provider has the given id.
    NoSuchProvider(ProviderId),
    /// Items cannot be moved from one provider to another.
    CrossProviderMove,
    /// The storage could not do what was asked.
    StorageError { description: String },
    /// The storage holds data that breaks its own rules.
    Corrupt { description: String },
    /// The user may not see the item.
    PermissionDenied,
}


/// Whether entry `i` is the first entry of `s` that refers to `item`.
pub open spec fn first_entry_of(s: Seq<(Seq<char>, ItemRef)>, item: ItemRef, i: int) -> bool {
    0 <= i < s.len() && s[i].1 == item && forall|j: int| 0 <= j < i ==> s[j].1 != item
}

fn name_of_item(listing: &Directory, item: ItemRef) -> (r: Option<String>)
    ensures
        r matches Some(n) ==> exists|i: int| first_entry_of(listing.view(), item, i) && n@ == #[trigger] listing.view()[i].0,
        r is None ==> forall|i: int| 0 <= i < listing.view().len() ==> #[trigger] listing.view()[i].1 != item,
{
    let mut i: usize = 0;
    while i < listing.children.len()
        invariant
            i <= listing.children@.len(),
            forall|j: int| 0 <= j < i ==> #[trigger] listing.view()[j].1 != item,
        decreases listing.children@.len() - i,
    {
        proof {
            assert(listing.view()[i as int] == (listing.children@[i as int].0@, listing.children@[i as int].1));
        }
        if listing.children[i].1 == item {
            proof {
                assert(first_entry_of(listing.view(), item, i as int));
                assert(listing.view()[i as int].0 == listing.children@[i as int].0@);
            }
            return Some(listing.children[i].0.clone());
        }
        i = i + 1;
    }
    None
}

/// The name under which directory `id` of provider `pid` is listed in its
/// parent's listing: that of the first entry that refers to it.
pub fn name_in_listing(listing: &Directory, id: DirectoryId, pid: ProviderId) -> (r: Option<String>)
    ensures
        r matches Some(n) ==> exists|i: int| first_entry_of(listing.view(), ItemRef::Directory(DirectoryRef { id, provider_id: pid }), i)
            && n@ == #[trigger] listing.view()[i].0,
        r is None ==> forall|i: int| 0 <= i < listing.view().len() ==> #[trigger] listing.view()[i].1
            != ItemRef::Directory(DirectoryRef { id, provider_id: pid }),
{
    name_of_item(listing, ItemRef::Directory(DirectoryRef { id, provider_id: pid }))
}

/// The name under which note `id` of provider `pid` is listed in its
/// directory's listing: that of the first entry that refers to it.
pub fn note_name_in_listing(listing: &Directory, id: NoteId, pid: ProviderId) -> (r: Option<String>)
    ensures
        r matches Some(n) ==> exists|i: int| first_entry_of(listing.view(), ItemRef::Note(NoteRef { id, provider_id: pid }), i)
            && n@ == #[trigger] listing.view()[i].0,
        r is None ==> forall|i: int| 0 <= i < listing.view().len() ==> #[trigger] listing.view()[i].1
            != ItemRef::Note(NoteRef { id, provider_id: pid }),
{
    name_of_item(listing, ItemRef::Note(NoteRef { id, provider_id: pid }))
}

} // verus!

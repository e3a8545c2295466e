//! Commands on the knowledge base, their responses, and the context that
//! runs them: the tree, owned by whoever runs the commands.
use vstd::prelude::*;

use crate::archive::Timestamp;
use crate::ids::{DirectoryId, FullDirectoryId, FullNoteId, NoteId, ProviderId};
use crate::kb::{Directory as ItemListing, DirectoryRef, ItemRef, Note, NoteRef, ProviderError, ProviderUserContext};
use crate::tree::{
    Tree, tree_create_directory_post, tree_create_note_post, tree_delete_directory_post,
    tree_delete_note_post, tree_directory_name_post, tree_move_directory_post, tree_move_note_post,
    tree_note_name_post, tree_note_parent_post, tree_read_note_post, tree_rename_directory_post,
    tree_rename_note_post, tree_store_issue_post, tree_update_note_post,
};

verus! {

/// A directory listing split by kind: subdirectories and notes, each with
/// its name and tree-wide address.
#[derive(Debug)]
pub struct Directory {
    pub directories: Vec<(String, FullDirectoryId)>,
    pub notes: Vec<(String, FullNoteId)>,
}

/// The subdirectories of a listing, in order.
pub open spec fn directories_of(s: Seq<(Seq<char>, ItemRef)>) -> Seq<(Seq<char>, FullDirectoryId)>
    decreases s.len(),
{
    if s.len() == 0 {
        seq![]
    } else {
        let rest = directories_of(s.drop_last());
        match s.last().1 {
            ItemRef::Directory(d) => rest.push((s.last().0, d.full_spec())),
            ItemRef::Note(_) => rest,
        }
    }
}

/// The notes of a listing, in order.
pub open spec fn notes_of(s: Seq<(Seq<char>, ItemRef)>) -> Seq<(Seq<char>, FullNoteId)>
    decreases s.len(),
{
    if s.len() == 0 {
        seq![]
    } else {
        let rest = notes_of(s.drop_last());
        match s.last().1 {
            ItemRef::Note(n) => rest.push((s.last().0, n.full_spec())),
            ItemRef::Directory(_) => rest,
        }
    }
}

pub open spec fn named_view<T>(s: Seq<(String, T)>) -> Seq<(Seq<char>, T)> {
    s.map_values(|c: (String, T)| (c.0@, c.1))
}

impl Directory {
    pub open spec fn directories_view(&self) -> Seq<(Seq<char>, FullDirectoryId)> {
        named_view(self.directories@)
    }

    pub open spec fn notes_view(&self) -> Seq<(Seq<char>, FullNoteId)> {
        named_view(self.notes@)
    }

    /// Splits a listing into its subdirectories and its notes.
    pub fn split(listing: &ItemListing) -> (r: Directory)
        ensures
            r.directories_view() == directories_of(listing.view()),
            r.notes_view() == notes_of(listing.view()),
    {
        let mut directories: Vec<(String, FullDirectoryId)> = Vec::new();
        let mut notes: Vec<(String, FullNoteId)> = Vec::new();
        let mut i: usize = 0;
        while i < listing.children.len()
            invariant
                i <= listing.children@.len(),
                named_view(directories@) == directories_of(listing.view().take(i as int)),
                named_view(notes@) == notes_of(listing.view().take(i as int)),
            decreases listing.children@.len() - i,
        {
            let ghost v = listing.view();
            proof {
                assert(v.take(i + 1).drop_last() =~= v.take(i as int));
                assert(v.take(i + 1).last() == v[i as int]);
            }
            let (name, item) = &listing.children[i];
            match item {
                ItemRef::Directory(d) => {
                    let ghost before = directories@;
                    directories.push((name.clone(), d.full()));
                    proof {
                        assert(named_view(directories@) =~= named_view(before).push((name@, d.full_spec())));
                    }
                },
                ItemRef::Note(n) => {
                    let ghost before = notes@;
                    notes.push((name.clone(), n.full()));
                    proof {
                        assert(named_view(notes@) =~= named_view(before).push((name@, n.full_spec())));
                    }
                },
            }
            i = i + 1;
        }
        proof {
            assert(listing.view().take(listing.children@.len() as int) =~= listing.view());
        }
        Directory { directories, notes }
    }
}

/// A listing, or the error that came instead, as plain values.
pub open spec fn split_view(r: Result<Directory, ProviderError>) -> Result<(Seq<(Seq<char>, FullDirectoryId)>, Seq<(Seq<char>, FullNoteId)>), ProviderError> {
    match r {
        Ok(d) => Ok((d.directories_view(), d.notes_view())),
        Err(e) => Err(e),
    }
}

/// A listing split by kind, or the error that came instead.
pub open spec fn split_spec(r: Result<Seq<(Seq<char>, ItemRef)>, ProviderError>) -> Result<(Seq<(Seq<char>, FullDirectoryId)>, Seq<(Seq<char>, FullNoteId)>), ProviderError> {
    match r {
        Ok(s) => Ok((directories_of(s), notes_of(s))),
        Err(e) => Err(e),
    }
}

/// An operation on the knowledge base, with its arguments.
pub enum Command {
    RootDirectory,
    DirectoryParent { directory: FullDirectoryId },
    NoteParent { note: FullNoteId },
    DirectoryName { directory: FullDirectoryId },
    NoteName { note: FullNoteId },
    ReadDirectory { uctx: ProviderUserContext, directory: FullDirectoryId },
    CreateDirectory { destination: FullDirectoryId, name: String },
    RenameDirectory { directory: FullDirectoryId, new_name: String },
    MoveDirectory { directory: FullDirectoryId, destination: FullDirectoryId },
    DeleteDirectory { directory: FullDirectoryId },
    ReadNote { uctx: ProviderUserContext, note: FullNoteId },
    CreateNote { destination: FullDirectoryId, name: String, content: Note },
    RenameNote { note: FullNoteId, new_name: String },
    MoveNote { note: FullNoteId, destination: FullDirectoryId },
    DeleteNote { note: FullNoteId },
    UpdateNote { note_id: FullNoteId, content: Note },
    StoreIssue { archive: ProviderId, feed: String, content: Note, timestamp: Timestamp },
}

/// What a command gives back.
pub enum Response {
    Root((ProviderId, DirectoryId)),
    Parent(Result<Option<FullDirectoryId>, ProviderError>),
    NoteParent(Result<FullDirectoryId, ProviderError>),
    DirectoryName(Result<Option<String>, ProviderError>),
    NoteName(Result<String, ProviderError>),
    Listing(Result<Directory, ProviderError>),
    DirectoryCreated(Result<DirectoryRef, ProviderError>),
    NoteCreated(Result<NoteRef, ProviderError>),
    Note(Result<Note, ProviderError>),
    Done(Result<(), ProviderError>),
    IssueStored(Result<NoteId, ProviderError>),
}

/// Whether a command needs a well-formed argument beyond its types.
pub open spec fn command_ok(cmd: Command) -> bool {
    match cmd {
        Command::StoreIssue { timestamp, .. } => timestamp.wf(),
        _ => true,
    }
}

/// What running `cmd` on tree `old` answers, and leaves as tree `new`.
pub open spec fn execute_post(old: &Tree, new: &Tree, cmd: Command, resp: Response) -> bool {
    match cmd {
        Command::RootDirectory => resp == Response::Root((ProviderId(0), DirectoryId(0)))
            && new.providers_spec() == old.providers_spec(),
        Command::DirectoryParent { directory } => resp == Response::Parent(old.parent_spec(directory))
            && new.providers_spec() == old.providers_spec(),
        Command::NoteParent { note } => (resp matches Response::NoteParent(r) && tree_note_parent_post(old, note, r))
            && new.providers_spec() == old.providers_spec(),
        Command::DirectoryName { directory } => (resp matches Response::DirectoryName(r) && tree_directory_name_post(old, directory, r))
            && new.providers_spec() == old.providers_spec(),
        Command::NoteName { note } => (resp matches Response::NoteName(r) && tree_note_name_post(old, note, r))
            && new.providers_spec() == old.providers_spec(),
        Command::ReadDirectory { uctx, directory } => (resp matches Response::Listing(r)
            && split_view(r) == split_spec(old.read_spec(uctx, directory)))
            && new.providers_spec() == old.providers_spec(),
        Command::CreateDirectory { destination, name } => resp matches Response::DirectoryCreated(r)
            && tree_create_directory_post(old, new, destination, name@, r),
        Command::RenameDirectory { directory, new_name } => resp matches Response::Done(r)
            && tree_rename_directory_post(old, new, directory, new_name@, r),
        Command::MoveDirectory { directory, destination } => resp matches Response::Done(r)
            && tree_move_directory_post(old, new, directory, destination, r),
        Command::DeleteDirectory { directory } => resp matches Response::Done(r)
            && tree_delete_directory_post(old, new, directory, r),
        Command::ReadNote { uctx, note } => (resp matches Response::Note(r) && tree_read_note_post(old, uctx, note, r))
            && new.providers_spec() == old.providers_spec(),
        Command::CreateNote { destination, name, content } => resp matches Response::NoteCreated(r)
            && tree_create_note_post(old, new, destination, name@, content.view(), r),
        Command::RenameNote { note, new_name } => resp matches Response::Done(r)
            && tree_rename_note_post(old, new, note, new_name@, r),
        Command::MoveNote { note, destination } => resp matches Response::Done(r)
            && tree_move_note_post(old, new, note, destination, r),
        Command::DeleteNote { note } => resp matches Response::Done(r)
            && tree_delete_note_post(old, new, note, r),
        Command::UpdateNote { note_id, content } => resp matches Response::Done(r)
            && tree_update_note_post(old, new, note_id, content.view(), r),
        Command::StoreIssue { archive, feed, content, timestamp } => resp matches Response::IssueStored(r)
            && tree_store_issue_post(old, new, archive, feed@, content.view(), timestamp, r),
    }
}

/// What the commands run against: the tree, owned here alone.
pub struct Context {
    pub tree: Tree,
}

impl Context {
    pub fn new(tree: Tree) -> (r: Context)
        ensures
            r.tree == tree,
    {
        Context { tree }
    }

    /// Runs one command.
    pub fn execute(&mut self, cmd: Command) -> (resp: Response)
        requires
            old(self).tree.wf(),
            command_ok(cmd),
        ensures
            final(self).tree.wf(),
            execute_post(&old(self).tree, &final(self).tree, cmd, resp),
    {
        match cmd {
            Command::RootDirectory => Response::Root(self.tree.root_directory()),
            Command::DirectoryParent { directory } => Response::Parent(self.tree.directory_parent(directory)),
            Command::NoteParent { note } => Response::NoteParent(self.tree.note_parent(note)),
            Command::DirectoryName { directory } => Response::DirectoryName(self.tree.directory_name(directory)),
            Command::NoteName { note } => Response::NoteName(self.tree.note_name(note)),
            Command::ReadDirectory { uctx, directory } => {
                let r = self.tree.read_directory(uctx, directory);
                match r {
                    Ok(listing) => Response::Listing(Ok(Directory::split(&listing))),
                    Err(e) => Response::Listing(Err(e)),
                }
            },
            Command::CreateDirectory { destination, name } => Response::DirectoryCreated(
                self.tree.create_directory(destination, name.as_str()),
            ),
            Command::RenameDirectory { directory, new_name } => Response::Done(
                self.tree.rename_directory(directory, new_name.as_str()),
            ),
            Command::MoveDirectory { directory, destination } => Response::Done(
                self.tree.move_directory(directory, destination),
            ),
            Command::DeleteDirectory { directory } => Response::Done(self.tree.delete_directory(directory)),
            Command::ReadNote { uctx, note } => Response::Note(self.tree.read_note(uctx, note)),
            Command::CreateNote { destination, name, content } => Response::NoteCreated(
                self.tree.create_note(destination, name.as_str(), content),
            ),
            Command::RenameNote { note, new_name } => Response::Done(self.tree.rename_note(note, new_name.as_str())),
            Command::MoveNote { note, destination } => Response::Done(self.tree.move_note(note, destination)),
            Command::DeleteNote { note } => Response::Done(self.tree.delete_note(note)),
            Command::UpdateNote { note_id, content } => Response::Done(self.tree.update_note(note_id, content)),
            Command::StoreIssue { archive, feed, content, timestamp } => Response::IssueStored(
                self.tree.store_issue(archive, feed.as_str(), content, timestamp),
            ),
        }
    }
}

} // verus!

//! Where a user is in the knowledge base: the records of the dialog states
//! that point into it.
use vstd::prelude::*;

use crate::ids::{FullDirectoryId, FullNoteId};

verus! {

#[derive(Debug, Clone, Copy, PartialEq, Eq, Structural)]
pub struct KbNavigation {
    pub id: FullDirectoryId,
}

#[derive(Debug, Clone, Copy, PartialEq, Eq, Structural)]
pub struct KbNoteViewing {
    pub id: FullNoteId,
}

#[derive(Debug, Clone, Copy, PartialEq, Eq, Structural)]
pub struct KbNoteDeletionConfirmation {
    pub id: FullNoteId,
}

#[derive(Debug, Clone, Copy, PartialEq, Eq, Structural)]
pub struct KbNoteRenaming {
    pub id: FullNoteId,
}

#[derive(Debug, Clone, Copy, PartialEq, Eq, Structural)]
pub struct KbNoteCreation {
    pub destination: FullDirectoryId,
}

#[derive(Debug, Clone, PartialEq, Eq)]
pub struct KbNoteCreationNamed {
    pub destination: FullDirectoryId,
    pub name: String,
}

#[derive(Debug, Clone, Copy, PartialEq, Eq, Structural)]
pub struct KbDirectoryEditing {
    pub id: FullDirectoryId,
}

#[derive(Debug, Clone, Copy, PartialEq, Eq, Structural)]
pub struct KbNoteEditing {
    pub id: FullNoteId,
}

#[derive(Debug, Clone, Copy, PartialEq, Eq, Structural)]
pub struct KbNoteMovement {
    pub destination: FullDirectoryId,
    pub note: FullNoteId,
}

#[derive(Debug, Clone, Copy, PartialEq, Eq, Structural)]
pub struct KbDirectoryMovement {
    pub destination: FullDirectoryId,
    pub directory: FullDirectoryId,
}

#[derive(Debug, Clone, Copy, PartialEq, Eq, Structural)]
pub struct KbDirectoryCreation {
    pub destination: FullDirectoryId,
}

#[derive(Debug, Clone, Copy, PartialEq, Eq, Structural)]
pub struct KbDirectoryRenaming {
    pub id: FullDirectoryId,
}

#[derive(Debug, Clone, Copy, PartialEq, Eq, Structural)]
pub struct KbDirectoryDeletion {
    pub id: FullDirectoryId,
}

} // verus!

//! Files attached to messages.
use vstd::prelude::*;

verus! {

#[derive(Debug, Clone, PartialEq, Eq)]
pub struct File {
    pub id: String,
}

#[derive(Debug, Clone, PartialEq, Eq)]
pub struct Image {
    pub file: File,
}

#[derive(Debug, Clone, PartialEq, Eq)]
pub struct Video {
    pub file: File,
}

#[derive(Debug, Clone, PartialEq, Eq)]
pub struct Document {
    pub file: File,
}

#[derive(Debug, Clone, PartialEq, Eq)]
pub enum Attachment {
    Image(Image),
    Video(Video),
    Document(Document),
}

} // verus!

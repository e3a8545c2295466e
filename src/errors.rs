//! Errors of the dialog layer that the knowledge base reports to it.
use vstd::prelude::*;

verus! {

/// An action that is not valid where the user is.
#[derive(Debug, Clone, Copy, PartialEq, Eq, Structural)]
pub enum InvalidAction {
    CannotGoUp,
    InvalidState,
    UnexpectedMessage,
    UnexpectedMessageKind,
}

/// A message that cannot serve as the text asked for.
#[derive(Debug, Clone, Copy, PartialEq, Eq, Structural)]
pub enum MessageFormatError {
    NoText,
    HasAttachments,
    InvalidName,
}

} // verus!

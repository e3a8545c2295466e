//! Callback queries: the text `command` or `command@payload` that a button
//! carries, and the request it stands for.
use vstd::prelude::*;

use crate::feedback::{FeedbackTopic, topic_text};
use crate::ids::{FullDirectoryId, FullNoteId};
use crate::text::{decimal_of, decimal_text, find_char, first_index_of, parse_u64, parse_u64_spec, same_text};

verus! {

/// A request carried by a callback query.
#[derive(Debug, Clone, PartialEq, Eq)]
pub enum Query {
    OpenMainMenu,
    OpenKb,
    OpenNewsletterArchive,
    OpenCalendar,
    OpenFeedback,
    OpenFeedbackTopic { topic: FeedbackTopic },
    OpenNlSettings,
    KbGoUp,
    KbNavToDir { id: FullDirectoryId },
    KbNavToNote { id: FullNoteId },
    GoBack,
    KbEditNote { id: FullNoteId },
    KbRenameNote { id: FullNoteId },
    KbMoveNote { id: FullNoteId },
    KbDeleteNote { id: FullNoteId },
    KbPinNote { id: FullNoteId },
    KbUnpinNote { id: FullNoteId },
    KbConfirmNoteDeletion { id: FullNoteId },
    KbCancelNoteDeletion { id: FullNoteId },
    KbEditDir { id: FullDirectoryId },
    KbCreateNote { destination: FullDirectoryId },
    KbMoveNoteHere { destination: FullDirectoryId, note: FullNoteId },
    KbMoveDirectoryHere { destination: FullDirectoryId, directory: FullDirectoryId },
    KbMoveDirectory { id: FullDirectoryId },
    KbCreateDirectory { destination: FullDirectoryId },
    KbRenameDirectory { id: FullDirectoryId },
    KbDeleteDirectory { id: FullDirectoryId },
    KbPinDirectory { id: FullDirectoryId },
    KbUnpinDirectory { id: FullDirectoryId },
    KbConfirmDirectoryDeletion { id: FullDirectoryId },
    KbCancelDirectoryDeletion { id: FullDirectoryId },
    FormOption { index: usize },
    Subscribe { newsletter: String },
    Unsubscribe { newsletter: String },
    ManageSubscriptions,
}

/// Why a callback query could not be read.
#[derive(Debug, Clone, PartialEq, Eq)]
pub enum QueryParseError {
    InvalidSyntax,
    InvalidCommand { command: String },
    InvalidPayload { command: String, payload: Option<String> },
}

/// The command of a query, without its data.
#[derive(Debug, Clone, Copy, PartialEq, Eq, Structural)]
pub enum QueryKind {
    OpenMainMenu,
    OpenKb,
    OpenNewsletterArchive,
    OpenCalendar,
    OpenFeedback,
    OpenFeedbackTopic,
    OpenNlSettings,
    KbGoUp,
    KbNavToDir,
    KbNavToNote,
    GoBack,
    KbEditNote,
    KbRenameNote,
    KbMoveNote,
    KbDeleteNote,
    KbPinNote,
    KbUnpinNote,
    KbConfirmNoteDeletion,
    KbCancelNoteDeletion,
    KbEditDir,
    KbCreateNote,
    KbMoveNoteHere,
    KbMoveDirectoryHere,
    KbMoveDirectory,
    KbCreateDirectory,
    KbRenameDirectory,
    KbDeleteDirectory,
    KbPinDirectory,
    KbUnpinDirectory,
    KbConfirmDirectoryDeletion,
    KbCancelDirectoryDeletion,
    FormOption,
    Subscribe,
    Unsubscribe,
    ManageSubscriptions,
}

/// The command text of each kind.
pub open spec fn kind_text(k: QueryKind) -> Seq<char> {
    match k {
        QueryKind::OpenMainMenu => "open-main-menu"@,
        QueryKind::OpenKb => "open-kb"@,
        QueryKind::OpenNewsletterArchive => "open-nl-archive"@,
        QueryKind::OpenCalendar => "open-calendar"@,
        QueryKind::OpenFeedback => "open-feedback"@,
        QueryKind::OpenFeedbackTopic => "open-feedback-topic"@,
        QueryKind::OpenNlSettings => "open-nl-settings"@,
        QueryKind::KbGoUp => "kb-go-up"@,
        QueryKind::KbNavToDir => "kb-nav-to-dir"@,
        QueryKind::KbNavToNote => "kb-nav-to-note"@,
        QueryKind::GoBack => "kb-go-back"@,
        QueryKind::KbEditNote => "kb-edit-note"@,
        QueryKind::KbRenameNote => "kb-rename-note"@,
        QueryKind::KbMoveNote => "kb-move-note"@,
        QueryKind::KbDeleteNote => "kb-delete-note"@,
        QueryKind::KbPinNote => "kb-pin-note"@,
        QueryKind::KbUnpinNote => "kb-unpin-note"@,
        QueryKind::KbConfirmNoteDeletion => "kb-confirm-note-del"@,
        QueryKind::KbCancelNoteDeletion => "kb-cancel-note-del"@,
        QueryKind::KbEditDir => "kb-edit-dir"@,
        QueryKind::KbCreateNote => "kb-create-note"@,
        QueryKind::KbMoveNoteHere => "kb-move-note-here"@,
        QueryKind::KbMoveDirectoryHere => "kb-move-dir-here"@,
        QueryKind::KbMoveDirectory => "kb-move-dir"@,
        QueryKind::KbCreateDirectory => "kb-create-dir"@,
        QueryKind::KbRenameDirectory => "kb-rename-dir"@,
        QueryKind::KbDeleteDirectory => "kb-delete-dir"@,
        QueryKind::KbPinDirectory => "kb-pin-dir"@,
        QueryKind::KbUnpinDirectory => "kb-unpin-dir"@,
        QueryKind::KbConfirmDirectoryDeletion => "kb-confirm-dir-del"@,
        QueryKind::KbCancelDirectoryDeletion => "kb-cancel-dir-del"@,
        QueryKind::FormOption => "form-opt"@,
        QueryKind::Subscribe => "subscribe"@,
        QueryKind::Unsubscribe => "unsubscribe"@,
        QueryKind::ManageSubscriptions => "open-sub-settings"@,
    }
}

/// The kind that command text `c` names: the first in the table.
pub open spec fn kind_of(c: Seq<char>) -> Option<QueryKind> {
    if c == "open-main-menu"@ {
        Some(QueryKind::OpenMainMenu)
    }
    else if c == "open-kb"@ {
        Some(QueryKind::OpenKb)
    }
    else if c == "open-nl-archive"@ {
        Some(QueryKind::OpenNewsletterArchive)
    }
    else if c == "open-calendar"@ {
        Some(QueryKind::OpenCalendar)
    }
    else if c == "open-feedback"@ {
        Some(QueryKind::OpenFeedback)
    }
    else if c == "open-feedback-topic"@ {
        Some(QueryKind::OpenFeedbackTopic)
    }
    else if c == "open-nl-settings"@ {
        Some(QueryKind::OpenNlSettings)
    }
    else if c == "kb-go-up"@ {
        Some(QueryKind::KbGoUp)
    }
    else if c == "kb-nav-to-dir"@ {
        Some(QueryKind::KbNavToDir)
    }
    else if c == "kb-nav-to-note"@ {
        Some(QueryKind::KbNavToNote)
    }
    else if c == "kb-go-back"@ {
        Some(QueryKind::GoBack)
    }
    else if c == "kb-edit-note"@ {
        Some(QueryKind::KbEditNote)
    }
    else if c == "kb-rename-note"@ {
        Some(QueryKind::KbRenameNote)
    }
    else if c == "kb-move-note"@ {
        Some(QueryKind::KbMoveNote)
    }
    else if c == "kb-delete-note"@ {
        Some(QueryKind::KbDeleteNote)
    }
    else if c == "kb-pin-note"@ {
        Some(QueryKind::KbPinNote)
    }
    else if c == "kb-unpin-note"@ {
        Some(QueryKind::KbUnpinNote)
    }
    else if c == "kb-confirm-note-del"@ {
        Some(QueryKind::KbConfirmNoteDeletion)
    }
    else if c == "kb-cancel-note-del"@ {
        Some(QueryKind::KbCancelNoteDeletion)
    }
    else if c == "kb-edit-dir"@ {
        Some(QueryKind::KbEditDir)
    }
    else if c == "kb-create-note"@ {
        Some(QueryKind::KbCreateNote)
    }
    else if c == "kb-move-note-here"@ {
        Some(QueryKind::KbMoveNoteHere)
    }
    else if c == "kb-move-dir-here"@ {
        Some(QueryKind::KbMoveDirectoryHere)
    }
    else if c == "kb-move-dir"@ {
        Some(QueryKind::KbMoveDirectory)
    }
    else if c == "kb-create-dir"@ {
        Some(QueryKind::KbCreateDirectory)
    }
    else if c == "kb-rename-dir"@ {
        Some(QueryKind::KbRenameDirectory)
    }
    else if c == "kb-delete-dir"@ {
        Some(QueryKind::KbDeleteDirectory)
    }
    else if c == "kb-pin-dir"@ {
        Some(QueryKind::KbPinDirectory)
    }
    else if c == "kb-unpin-dir"@ {
        Some(QueryKind::KbUnpinDirectory)
    }
    else if c == "kb-confirm-dir-del"@ {
        Some(QueryKind::KbConfirmDirectoryDeletion)
    }
    else if c == "kb-cancel-dir-del"@ {
        Some(QueryKind::KbCancelDirectoryDeletion)
    }
    else if c == "form-opt"@ {
        Some(QueryKind::FormOption)
    }
    else if c == "subscribe"@ {
        Some(QueryKind::Subscribe)
    }
    else if c == "unsubscribe"@ {
        Some(QueryKind::Unsubscribe)
    }
    else if c == "open-sub-settings"@ {
        Some(QueryKind::ManageSubscriptions)
    }
    else {
        None
    }
}

/// The kind of a query.
pub open spec fn query_kind(q: Query) -> QueryKind {
    match q {
        Query::OpenMainMenu => QueryKind::OpenMainMenu,
        Query::OpenKb => QueryKind::OpenKb,
        Query::OpenNewsletterArchive => QueryKind::OpenNewsletterArchive,
        Query::OpenCalendar => QueryKind::OpenCalendar,
        Query::OpenFeedback => QueryKind::OpenFeedback,
        Query::OpenFeedbackTopic { .. } => QueryKind::OpenFeedbackTopic,
        Query::OpenNlSettings => QueryKind::OpenNlSettings,
        Query::KbGoUp => QueryKind::KbGoUp,
        Query::KbNavToDir { .. } => QueryKind::KbNavToDir,
        Query::KbNavToNote { .. } => QueryKind::KbNavToNote,
        Query::GoBack => QueryKind::GoBack,
        Query::KbEditNote { .. } => QueryKind::KbEditNote,
        Query::KbRenameNote { .. } => QueryKind::KbRenameNote,
        Query::KbMoveNote { .. } => QueryKind::KbMoveNote,
        Query::KbDeleteNote { .. } => QueryKind::KbDeleteNote,
        Query::KbPinNote { .. } => QueryKind::KbPinNote,
        Query::KbUnpinNote { .. } => QueryKind::KbUnpinNote,
        Query::KbConfirmNoteDeletion { .. } => QueryKind::KbConfirmNoteDeletion,
        Query::KbCancelNoteDeletion { .. } => QueryKind::KbCancelNoteDeletion,
        Query::KbEditDir { .. } => QueryKind::KbEditDir,
        Query::KbCreateNote { .. } => QueryKind::KbCreateNote,
        Query::KbMoveNoteHere { .. } => QueryKind::KbMoveNoteHere,
        Query::KbMoveDirectoryHere { .. } => QueryKind::KbMoveDirectoryHere,
        Query::KbMoveDirectory { .. } => QueryKind::KbMoveDirectory,
        Query::KbCreateDirectory { .. } => QueryKind::KbCreateDirectory,
        Query::KbRenameDirectory { .. } => QueryKind::KbRenameDirectory,
        Query::KbDeleteDirectory { .. } => QueryKind::KbDeleteDirectory,
        Query::KbPinDirectory { .. } => QueryKind::KbPinDirectory,
        Query::KbUnpinDirectory { .. } => QueryKind::KbUnpinDirectory,
        Query::KbConfirmDirectoryDeletion { .. } => QueryKind::KbConfirmDirectoryDeletion,
        Query::KbCancelDirectoryDeletion { .. } => QueryKind::KbCancelDirectoryDeletion,
        Query::FormOption { .. } => QueryKind::FormOption,
        Query::Subscribe { .. } => QueryKind::Subscribe,
        Query::Unsubscribe { .. } => QueryKind::Unsubscribe,
        Query::ManageSubscriptions => QueryKind::ManageSubscriptions,
    }
}

/// What reading `s` as a `usize` gives.
pub open spec fn parse_usize_spec(s: Seq<char>) -> Option<usize> {
    match parse_u64_spec(s) {
        Some(n) => if n <= usize::MAX {
            Some(n as usize)
        } else {
            None
        },
        None => None,
    }
}

/// The two halves of `s` around its first `,`.
pub open spec fn split_comma(s: Seq<char>) -> Option<(Seq<char>, Seq<char>)> {
    match first_index_of(s, ',') {
        Some(i) => Some((s.subrange(0, i), s.subrange(i + 1, s.len() as int))),
        None => None,
    }
}

/// Whether `q` is what a query of kind `k` with `payload` stands for.
pub open spec fn reads_as(k: QueryKind, payload: Option<Seq<char>>, q: Query) -> bool {
    match k {
        QueryKind::OpenMainMenu => payload is None && q == Query::OpenMainMenu,
        QueryKind::OpenKb => payload is None && q == Query::OpenKb,
        QueryKind::OpenNewsletterArchive => payload is None && q == Query::OpenNewsletterArchive,
        QueryKind::OpenCalendar => payload is None && q == Query::OpenCalendar,
        QueryKind::OpenFeedback => payload is None && q == Query::OpenFeedback,
        QueryKind::OpenFeedbackTopic => payload matches Some(p) && q matches Query::OpenFeedbackTopic { topic } && topic_text(topic) == p,
        QueryKind::OpenNlSettings => payload is None && q == Query::OpenNlSettings,
        QueryKind::KbGoUp => payload is None && q == Query::KbGoUp,
        QueryKind::KbNavToDir => payload matches Some(p) && FullDirectoryId::parse_spec(p) matches Some(x) && q == Query::KbNavToDir { id: x },
        QueryKind::KbNavToNote => payload matches Some(p) && FullNoteId::parse_spec(p) matches Some(x) && q == Query::KbNavToNote { id: x },
        QueryKind::GoBack => payload is None && q == Query::GoBack,
        QueryKind::KbEditNote => payload matches Some(p) && FullNoteId::parse_spec(p) matches Some(x) && q == Query::KbEditNote { id: x },
        QueryKind::KbRenameNote => payload matches Some(p) && FullNoteId::parse_spec(p) matches Some(x) && q == Query::KbRenameNote { id: x },
        QueryKind::KbMoveNote => payload matches Some(p) && FullNoteId::parse_spec(p) matches Some(x) && q == Query::KbMoveNote { id: x },
        QueryKind::KbDeleteNote => payload matches Some(p) && FullNoteId::parse_spec(p) matches Some(x) && q == Query::KbDeleteNote { id: x },
        QueryKind::KbPinNote => payload matches Some(p) && FullNoteId::parse_spec(p) matches Some(x) && q == Query::KbPinNote { id: x },
        QueryKind::KbUnpinNote => payload matches Some(p) && FullNoteId::parse_spec(p) matches Some(x) && q == Query::KbUnpinNote { id: x },
        QueryKind::KbConfirmNoteDeletion => payload matches Some(p) && FullNoteId::parse_spec(p) matches Some(x) && q == Query::KbConfirmNoteDeletion { id: x },
        QueryKind::KbCancelNoteDeletion => payload matches Some(p) && FullNoteId::parse_spec(p) matches Some(x) && q == Query::KbCancelNoteDeletion { id: x },
        QueryKind::KbEditDir => payload matches Some(p) && FullDirectoryId::parse_spec(p) matches Some(x) && q == Query::KbEditDir { id: x },
        QueryKind::KbCreateNote => payload matches Some(p) && FullDirectoryId::parse_spec(p) matches Some(x) && q == Query::KbCreateNote { destination: x },
        QueryKind::KbMoveNoteHere => payload matches Some(p) && split_comma(p) matches Some((a, b)) && FullDirectoryId::parse_spec(a) matches Some(x) && FullNoteId::parse_spec(b) matches Some(y) && q == Query::KbMoveNoteHere { destination: x, note: y },
        QueryKind::KbMoveDirectoryHere => payload matches Some(p) && split_comma(p) matches Some((a, b)) && FullDirectoryId::parse_spec(a) matches Some(x) && FullDirectoryId::parse_spec(b) matches Some(y) && q == Query::KbMoveDirectoryHere { destination: x, directory: y },
        QueryKind::KbMoveDirectory => payload matches Some(p) && FullDirectoryId::parse_spec(p) matches Some(x) && q == Query::KbMoveDirectory { id: x },
        QueryKind::KbCreateDirectory => payload matches Some(p) && FullDirectoryId::parse_spec(p) matches Some(x) && q == Query::KbCreateDirectory { destination: x },
        QueryKind::KbRenameDirectory => payload matches Some(p) && FullDirectoryId::parse_spec(p) matches Some(x) && q == Query::KbRenameDirectory { id: x },
        QueryKind::KbDeleteDirectory => payload matches Some(p) && FullDirectoryId::parse_spec(p) matches Some(x) && q == Query::KbDeleteDirectory { id: x },
        QueryKind::KbPinDirectory => payload matches Some(p) && FullDirectoryId::parse_spec(p) matches Some(x) && q == Query::KbPinDirectory { id: x },
        QueryKind::KbUnpinDirectory => payload matches Some(p) && FullDirectoryId::parse_spec(p) matches Some(x) && q == Query::KbUnpinDirectory { id: x },
        QueryKind::KbConfirmDirectoryDeletion => payload matches Some(p) && FullDirectoryId::parse_spec(p) matches Some(x) && q == Query::KbConfirmDirectoryDeletion { id: x },
        QueryKind::KbCancelDirectoryDeletion => payload matches Some(p) && FullDirectoryId::parse_spec(p) matches Some(x) && q == Query::KbCancelDirectoryDeletion { id: x },
        QueryKind::FormOption => payload matches Some(p) && parse_usize_spec(p) matches Some(n) && q == Query::FormOption { index: n },
        QueryKind::Subscribe => payload matches Some(p) && q matches Query::Subscribe { newsletter } && newsletter@ == p,
        QueryKind::Unsubscribe => payload matches Some(p) && q matches Query::Unsubscribe { newsletter } && newsletter@ == p,
        QueryKind::ManageSubscriptions => payload is None && q == Query::ManageSubscriptions,
    }
}

/// Whether a query of kind `k` with `payload` stands for some request.
pub open spec fn payload_fits(k: QueryKind, payload: Option<Seq<char>>) -> bool {
    match k {
        QueryKind::OpenMainMenu => payload is None,
        QueryKind::OpenKb => payload is None,
        QueryKind::OpenNewsletterArchive => payload is None,
        QueryKind::OpenCalendar => payload is None,
        QueryKind::OpenFeedback => payload is None,
        QueryKind::OpenFeedbackTopic => payload matches Some(p) && exists|t: FeedbackTopic| topic_text(t) == p,
        QueryKind::OpenNlSettings => payload is None,
        QueryKind::KbGoUp => payload is None,
        QueryKind::KbNavToDir => payload matches Some(p) && FullDirectoryId::parse_spec(p) is Some,
        QueryKind::KbNavToNote => payload matches Some(p) && FullNoteId::parse_spec(p) is Some,
        QueryKind::GoBack => payload is None,
        QueryKind::KbEditNote => payload matches Some(p) && FullNoteId::parse_spec(p) is Some,
        QueryKind::KbRenameNote => payload matches Some(p) && FullNoteId::parse_spec(p) is Some,
        QueryKind::KbMoveNote => payload matches Some(p) && FullNoteId::parse_spec(p) is Some,
        QueryKind::KbDeleteNote => payload matches Some(p) && FullNoteId::parse_spec(p) is Some,
        QueryKind::KbPinNote => payload matches Some(p) && FullNoteId::parse_spec(p) is Some,
        QueryKind::KbUnpinNote => payload matches Some(p) && FullNoteId::parse_spec(p) is Some,
        QueryKind::KbConfirmNoteDeletion => payload matches Some(p) && FullNoteId::parse_spec(p) is Some,
        QueryKind::KbCancelNoteDeletion => payload matches Some(p) && FullNoteId::parse_spec(p) is Some,
        QueryKind::KbEditDir => payload matches Some(p) && FullDirectoryId::parse_spec(p) is Some,
        QueryKind::KbCreateNote => payload matches Some(p) && FullDirectoryId::parse_spec(p) is Some,
        QueryKind::KbMoveNoteHere => payload matches Some(p) && split_comma(p) matches Some((a, b)) && FullDirectoryId::parse_spec(a) is Some && FullNoteId::parse_spec(b) is Some,
        QueryKind::KbMoveDirectoryHere => payload matches Some(p) && split_comma(p) matches Some((a, b)) && FullDirectoryId::parse_spec(a) is Some && FullDirectoryId::parse_spec(b) is Some,
        QueryKind::KbMoveDirectory => payload matches Some(p) && FullDirectoryId::parse_spec(p) is Some,
        QueryKind::KbCreateDirectory => payload matches Some(p) && FullDirectoryId::parse_spec(p) is Some,
        QueryKind::KbRenameDirectory => payload matches Some(p) && FullDirectoryId::parse_spec(p) is Some,
        QueryKind::KbDeleteDirectory => payload matches Some(p) && FullDirectoryId::parse_spec(p) is Some,
        QueryKind::KbPinDirectory => payload matches Some(p) && FullDirectoryId::parse_spec(p) is Some,
        QueryKind::KbUnpinDirectory => payload matches Some(p) && FullDirectoryId::parse_spec(p) is Some,
        QueryKind::KbConfirmDirectoryDeletion => payload matches Some(p) && FullDirectoryId::parse_spec(p) is Some,
        QueryKind::KbCancelDirectoryDeletion => payload matches Some(p) && FullDirectoryId::parse_spec(p) is Some,
        QueryKind::FormOption => payload matches Some(p) && parse_usize_spec(p) is Some,
        QueryKind::Subscribe => payload is Some,
        QueryKind::Unsubscribe => payload is Some,
        QueryKind::ManageSubscriptions => payload is None,
    }
}

/// The payload of a query, if it has one.
pub open spec fn payload_text(q: Query) -> Option<Seq<char>> {
    match q {
        Query::OpenMainMenu => None,
        Query::OpenKb => None,
        Query::OpenNewsletterArchive => None,
        Query::OpenCalendar => None,
        Query::OpenFeedback => None,
        Query::OpenFeedbackTopic { topic } => Some(topic_text(topic)),
        Query::OpenNlSettings => None,
        Query::KbGoUp => None,
        Query::KbNavToDir { id } => Some(id.text()),
        Query::KbNavToNote { id } => Some(id.text()),
        Query::GoBack => None,
        Query::KbEditNote { id } => Some(id.text()),
        Query::KbRenameNote { id } => Some(id.text()),
        Query::KbMoveNote { id } => Some(id.text()),
        Query::KbDeleteNote { id } => Some(id.text()),
        Query::KbPinNote { id } => Some(id.text()),
        Query::KbUnpinNote { id } => Some(id.text()),
        Query::KbConfirmNoteDeletion { id } => Some(id.text()),
        Query::KbCancelNoteDeletion { id } => Some(id.text()),
        Query::KbEditDir { id } => Some(id.text()),
        Query::KbCreateNote { destination } => Some(destination.text()),
        Query::KbMoveNoteHere { destination, note } => Some(destination.text() + seq![','] + note.text()),
        Query::KbMoveDirectoryHere { destination, directory } => Some(destination.text() + seq![','] + directory.text()),
        Query::KbMoveDirectory { id } => Some(id.text()),
        Query::KbCreateDirectory { destination } => Some(destination.text()),
        Query::KbRenameDirectory { id } => Some(id.text()),
        Query::KbDeleteDirectory { id } => Some(id.text()),
        Query::KbPinDirectory { id } => Some(id.text()),
        Query::KbUnpinDirectory { id } => Some(id.text()),
        Query::KbConfirmDirectoryDeletion { id } => Some(id.text()),
        Query::KbCancelDirectoryDeletion { id } => Some(id.text()),
        Query::FormOption { index } => Some(decimal_of(index as nat)),
        Query::Subscribe { newsletter } => Some(newsletter@),
        Query::Unsubscribe { newsletter } => Some(newsletter@),
        Query::ManageSubscriptions => None,
    }
}

/// The text of a query: its command, then `@` and its payload if it has one.
pub open spec fn query_text(q: Query) -> Seq<char> {
    match payload_text(q) {
        None => kind_text(query_kind(q)),
        Some(p) => kind_text(query_kind(q)) + seq!['@'] + p,
    }
}

/// Whether `c` may stand in a command: an ASCII letter or digit, `_` or `-`.
pub open spec fn is_command_char(c: char) -> bool {
    ('a' <= c && c <= 'z') || ('A' <= c && c <= 'Z') || ('0' <= c && c <= '9') || c == '_' || c == '-'
}

/// The command of a query text: what comes before its first `@`.
pub open spec fn command_part(s: Seq<char>) -> Seq<char> {
    match first_index_of(s, '@') {
        Some(i) => s.subrange(0, i),
        None => s,
    }
}

/// The payload of a query text: what comes after its first `@`, if any.
pub open spec fn payload_part(s: Seq<char>) -> Option<Seq<char>> {
    match first_index_of(s, '@') {
        Some(i) => Some(s.subrange(i + 1, s.len() as int)),
        None => None,
    }
}

pub open spec fn valid_command(c: Seq<char>) -> bool {
    c.len() > 0 && forall|j: int| 0 <= j < c.len() ==> is_command_char(#[trigger] c[j])
}

pub open spec fn no_line_break(t: Seq<char>) -> bool {
    forall|j: int| 0 <= j < t.len() ==> #[trigger] t[j] != '\n'
}

/// The parts of a query text: the command before the first `@`, and the
/// payload after it; `None` if the command is empty or holds another
/// character, or the payload holds a line break.
pub open spec fn query_parts(s: Seq<char>) -> Option<(Seq<char>, Option<Seq<char>>)> {
    if valid_command(command_part(s)) && (payload_part(s) matches Some(t) ==> no_line_break(t)) {
        Some((command_part(s), payload_part(s)))
    } else {
        None
    }
}

pub open spec fn opt_view(o: Option<String>) -> Option<Seq<char>> {
    match o {
        Some(s) => Some(s@),
        None => None,
    }
}

pub open spec fn opt_str_view(o: Option<&str>) -> Option<Seq<char>> {
    match o {
        Some(s) => Some(s@),
        None => None,
    }
}

/// What reading a command and its payload gives.
pub open spec fn parsed(command: Seq<char>, payload: Option<Seq<char>>, r: Result<Query, QueryParseError>) -> bool {
    match kind_of(command) {
        None => r matches Err(QueryParseError::InvalidCommand { command: c }) && c@ == command,
        Some(k) => if payload_fits(k, payload) {
            r matches Ok(q) && reads_as(k, payload, q)
        } else {
            r matches Err(QueryParseError::InvalidPayload { command: c, payload: p }) && c@ == command && opt_view(p) == payload
        },
    }
}

fn usize_of(s: &str) -> (r: Option<usize>)
    ensures
        r == parse_usize_spec(s@),
{
    match parse_u64(s) {
        Some(n) => if n <= usize::MAX as u64 {
            Some(n as usize)
        } else {
            None
        },
        None => None,
    }
}

fn split_at_comma(s: &str) -> (r: Option<(&str, &str)>)
    ensures
        r matches Some((a, b)) ==> split_comma(s@) == Some((a@, b@)),
        r is None ==> split_comma(s@) is None,
{
    match find_char(s, ',') {
        None => None,
        Some(i) => {
            let n = s.unicode_len();
            Some((s.substring_char(0, i), s.substring_char(i + 1, n)))
        },
    }
}

fn own(s: Option<&str>) -> (r: Option<String>)
    ensures
        opt_view(r) == opt_str_view(s),
{
    match s {
        Some(t) => Some(String::from_str(t)),
        None => None,
    }
}

fn invalid_payload(command: &str, payload: Option<&str>) -> (r: QueryParseError)
    ensures
        r matches QueryParseError::InvalidPayload { command: c, payload: p } && c@ == command@ && opt_view(p) == opt_str_view(payload),
{
    QueryParseError::InvalidPayload { command: String::from_str(command), payload: own(payload) }
}

fn kind_named(c: &str) -> (r: Option<QueryKind>)
    ensures
        r == kind_of(c@),
{
    if same_text(c, "open-main-menu") {
        Some(QueryKind::OpenMainMenu)
    } else if same_text(c, "open-kb") {
        Some(QueryKind::OpenKb)
    } else if same_text(c, "open-nl-archive") {
        Some(QueryKind::OpenNewsletterArchive)
    } else if same_text(c, "open-calendar") {
        Some(QueryKind::OpenCalendar)
    } else if same_text(c, "open-feedback") {
        Some(QueryKind::OpenFeedback)
    } else if same_text(c, "open-feedback-topic") {
        Some(QueryKind::OpenFeedbackTopic)
    } else if same_text(c, "open-nl-settings") {
        Some(QueryKind::OpenNlSettings)
    } else if same_text(c, "kb-go-up") {
        Some(QueryKind::KbGoUp)
    } else if same_text(c, "kb-nav-to-dir") {
        Some(QueryKind::KbNavToDir)
    } else if same_text(c, "kb-nav-to-note") {
        Some(QueryKind::KbNavToNote)
    } else if same_text(c, "kb-go-back") {
        Some(QueryKind::GoBack)
    } else if same_text(c, "kb-edit-note") {
        Some(QueryKind::KbEditNote)
    } else if same_text(c, "kb-rename-note") {
        Some(QueryKind::KbRenameNote)
    } else if same_text(c, "kb-move-note") {
        Some(QueryKind::KbMoveNote)
    } else if same_text(c, "kb-delete-note") {
        Some(QueryKind::KbDeleteNote)
    } else if same_text(c, "kb-pin-note") {
        Some(QueryKind::KbPinNote)
    } else if same_text(c, "kb-unpin-note") {
        Some(QueryKind::KbUnpinNote)
    } else if same_text(c, "kb-confirm-note-del") {
        Some(QueryKind::KbConfirmNoteDeletion)
    } else if same_text(c, "kb-cancel-note-del") {
        Some(QueryKind::KbCancelNoteDeletion)
    } else if same_text(c, "kb-edit-dir") {
        Some(QueryKind::KbEditDir)
    } else if same_text(c, "kb-create-note") {
        Some(QueryKind::KbCreateNote)
    } else if same_text(c, "kb-move-note-here") {
        Some(QueryKind::KbMoveNoteHere)
    } else if same_text(c, "kb-move-dir-here") {
        Some(QueryKind::KbMoveDirectoryHere)
    } else if same_text(c, "kb-move-dir") {
        Some(QueryKind::KbMoveDirectory)
    } else if same_text(c, "kb-create-dir") {
        Some(QueryKind::KbCreateDirectory)
    } else if same_text(c, "kb-rename-dir") {
        Some(QueryKind::KbRenameDirectory)
    } else if same_text(c, "kb-delete-dir") {
        Some(QueryKind::KbDeleteDirectory)
    } else if same_text(c, "kb-pin-dir") {
        Some(QueryKind::KbPinDirectory)
    } else if same_text(c, "kb-unpin-dir") {
        Some(QueryKind::KbUnpinDirectory)
    } else if same_text(c, "kb-confirm-dir-del") {
        Some(QueryKind::KbConfirmDirectoryDeletion)
    } else if same_text(c, "kb-cancel-dir-del") {
        Some(QueryKind::KbCancelDirectoryDeletion)
    } else if same_text(c, "form-opt") {
        Some(QueryKind::FormOption)
    } else if same_text(c, "subscribe") {
        Some(QueryKind::Subscribe)
    } else if same_text(c, "unsubscribe") {
        Some(QueryKind::Unsubscribe)
    } else if same_text(c, "open-sub-settings") {
        Some(QueryKind::ManageSubscriptions)
    } else {
        None
    }
}

impl Query {
    /// Reads a command and its payload.
    pub fn from_parts(command: &str, payload: Option<&str>) -> (r: Result<Query, QueryParseError>)
        ensures
            parsed(command@, opt_str_view(payload), r),
    {
        let k = match kind_named(command) {
            Some(k) => k,
            None => {
                return Err(QueryParseError::InvalidCommand { command: String::from_str(command) });
            },
        };
        match k {
            QueryKind::OpenMainMenu => if payload.is_none() {
                Ok(Query::OpenMainMenu)
            } else {
                Err(invalid_payload(command, payload))
            },
            QueryKind::OpenKb => if payload.is_none() {
                Ok(Query::OpenKb)
            } else {
                Err(invalid_payload(command, payload))
            },
            QueryKind::OpenNewsletterArchive => if payload.is_none() {
                Ok(Query::OpenNewsletterArchive)
            } else {
                Err(invalid_payload(command, payload))
            },
            QueryKind::OpenCalendar => if payload.is_none() {
                Ok(Query::OpenCalendar)
            } else {
                Err(invalid_payload(command, payload))
            },
            QueryKind::OpenFeedback => if payload.is_none() {
                Ok(Query::OpenFeedback)
            } else {
                Err(invalid_payload(command, payload))
            },
            QueryKind::OpenFeedbackTopic => match payload {
                Some(p) => match FeedbackTopic::parse(p) {
                    Ok(topic) => Ok(Query::OpenFeedbackTopic { topic }),
                    Err(_) => Err(invalid_payload(command, payload)),
                },
                None => Err(invalid_payload(command, payload)),
            },
            QueryKind::OpenNlSettings => if payload.is_none() {
                Ok(Query::OpenNlSettings)
            } else {
                Err(invalid_payload(command, payload))
            },
            QueryKind::KbGoUp => if payload.is_none() {
                Ok(Query::KbGoUp)
            } else {
                Err(invalid_payload(command, payload))
            },
            QueryKind::KbNavToDir => match payload {
                Some(p) => match FullDirectoryId::parse(p) {
                    Some(x) => Ok(Query::KbNavToDir { id: x }),
                    None => Err(invalid_payload(command, payload)),
                },
                None => Err(invalid_payload(command, payload)),
            },
            QueryKind::KbNavToNote => match payload {
                Some(p) => match FullNoteId::parse(p) {
                    Some(x) => Ok(Query::KbNavToNote { id: x }),
                    None => Err(invalid_payload(command, payload)),
                },
                None => Err(invalid_payload(command, payload)),
            },
            QueryKind::GoBack => if payload.is_none() {
                Ok(Query::GoBack)
            } else {
                Err(invalid_payload(command, payload))
            },
            QueryKind::KbEditNote => match payload {
                Some(p) => match FullNoteId::parse(p) {
                    Some(x) => Ok(Query::KbEditNote { id: x }),
                    None => Err(invalid_payload(command, payload)),
                },
                None => Err(invalid_payload(command, payload)),
            },
            QueryKind::KbRenameNote => match payload {
                Some(p) => match FullNoteId::parse(p) {
                    Some(x) => Ok(Query::KbRenameNote { id: x }),
                    None => Err(invalid_payload(command, payload)),
                },
                None => Err(invalid_payload(command, payload)),
            },
            QueryKind::KbMoveNote => match payload {
                Some(p) => match FullNoteId::parse(p) {
                    Some(x) => Ok(Query::KbMoveNote { id: x }),
                    None => Err(invalid_payload(command, payload)),
                },
                None => Err(invalid_payload(command, payload)),
            },
            QueryKind::KbDeleteNote => match payload {
                Some(p) => match FullNoteId::parse(p) {
                    Some(x) => Ok(Query::KbDeleteNote { id: x }),
                    None => Err(invalid_payload(command, payload)),
                },
                None => Err(invalid_payload(command, payload)),
            },
            QueryKind::KbPinNote => match payload {
                Some(p) => match FullNoteId::parse(p) {
                    Some(x) => Ok(Query::KbPinNote { id: x }),
                    None => Err(invalid_payload(command, payload)),
                },
                None => Err(invalid_payload(command, payload)),
            },
            QueryKind::KbUnpinNote => match payload {
                Some(p) => match FullNoteId::parse(p) {
                    Some(x) => Ok(Query::KbUnpinNote { id: x }),
                    None => Err(invalid_payload(command, payload)),
                },
                None => Err(invalid_payload(command, payload)),
            },
            QueryKind::KbConfirmNoteDeletion => match payload {
                Some(p) => match FullNoteId::parse(p) {
                    Some(x) => Ok(Query::KbConfirmNoteDeletion { id: x }),
                    None => Err(invalid_payload(command, payload)),
                },
                None => Err(invalid_payload(command, payload)),
            },
            QueryKind::KbCancelNoteDeletion => match payload {
                Some(p) => match FullNoteId::parse(p) {
                    Some(x) => Ok(Query::KbCancelNoteDeletion { id: x }),
                    None => Err(invalid_payload(command, payload)),
                },
                None => Err(invalid_payload(command, payload)),
            },
            QueryKind::KbEditDir => match payload {
                Some(p) => match FullDirectoryId::parse(p) {
                    Some(x) => Ok(Query::KbEditDir { id: x }),
                    None => Err(invalid_payload(command, payload)),
                },
                None => Err(invalid_payload(command, payload)),
            },
            QueryKind::KbCreateNote => match payload {
                Some(p) => match FullDirectoryId::parse(p) {
                    Some(x) => Ok(Query::KbCreateNote { destination: x }),
                    None => Err(invalid_payload(command, payload)),
                },
                None => Err(invalid_payload(command, payload)),
            },
            QueryKind::KbMoveNoteHere => match payload {
                Some(p) => match split_at_comma(p) {
                    Some((a, b)) => match (FullDirectoryId::parse(a), FullNoteId::parse(b)) {
                        (Some(x), Some(y)) => Ok(Query::KbMoveNoteHere { destination: x, note: y }),
                        _ => Err(invalid_payload(command, payload)),
                    },
                    None => Err(invalid_payload(command, payload)),
                },
                None => Err(invalid_payload(command, payload)),
            },
            QueryKind::KbMoveDirectoryHere => match payload {
                Some(p) => match split_at_comma(p) {
                    Some((a, b)) => match (FullDirectoryId::parse(a), FullDirectoryId::parse(b)) {
                        (Some(x), Some(y)) => Ok(Query::KbMoveDirectoryHere { destination: x, directory: y }),
                        _ => Err(invalid_payload(command, payload)),
                    },
                    None => Err(invalid_payload(command, payload)),
                },
                None => Err(invalid_payload(command, payload)),
            },
            QueryKind::KbMoveDirectory => match payload {
                Some(p) => match FullDirectoryId::parse(p) {
                    Some(x) => Ok(Query::KbMoveDirectory { id: x }),
                    None => Err(invalid_payload(command, payload)),
                },
                None => Err(invalid_payload(command, payload)),
            },
            QueryKind::KbCreateDirectory => match payload {
                Some(p) => match FullDirectoryId::parse(p) {
                    Some(x) => Ok(Query::KbCreateDirectory { destination: x }),
                    None => Err(invalid_payload(command, payload)),
                },
                None => Err(invalid_payload(command, payload)),
            },
            QueryKind::KbRenameDirectory => match payload {
                Some(p) => match FullDirectoryId::parse(p) {
                    Some(x) => Ok(Query::KbRenameDirectory { id: x }),
                    None => Err(invalid_payload(command, payload)),
                },
                None => Err(invalid_payload(command, payload)),
            },
            QueryKind::KbDeleteDirectory => match payload {
                Some(p) => match FullDirectoryId::parse(p) {
                    Some(x) => Ok(Query::KbDeleteDirectory { id: x }),
                    None => Err(invalid_payload(command, payload)),
                },
                None => Err(invalid_payload(command, payload)),
            },
            QueryKind::KbPinDirectory => match payload {
                Some(p) => match FullDirectoryId::parse(p) {
                    Some(x) => Ok(Query::KbPinDirectory { id: x }),
                    None => Err(invalid_payload(command, payload)),
                },
                None => Err(invalid_payload(command, payload)),
            },
            QueryKind::KbUnpinDirectory => match payload {
                Some(p) => match FullDirectoryId::parse(p) {
                    Some(x) => Ok(Query::KbUnpinDirectory { id: x }),
                    None => Err(invalid_payload(command, payload)),
                },
                None => Err(invalid_payload(command, payload)),
            },
            QueryKind::KbConfirmDirectoryDeletion => match payload {
                Some(p) => match FullDirectoryId::parse(p) {
                    Some(x) => Ok(Query::KbConfirmDirectoryDeletion { id: x }),
                    None => Err(invalid_payload(command, payload)),
                },
                None => Err(invalid_payload(command, payload)),
            },
            QueryKind::KbCancelDirectoryDeletion => match payload {
                Some(p) => match FullDirectoryId::parse(p) {
                    Some(x) => Ok(Query::KbCancelDirectoryDeletion { id: x }),
                    None => Err(invalid_payload(command, payload)),
                },
                None => Err(invalid_payload(command, payload)),
            },
            QueryKind::FormOption => match payload {
                Some(p) => match usize_of(p) {
                    Some(n) => Ok(Query::FormOption { index: n }),
                    None => Err(invalid_payload(command, payload)),
                },
                None => Err(invalid_payload(command, payload)),
            },
            QueryKind::Subscribe => match payload {
                Some(p) => Ok(Query::Subscribe { newsletter: String::from_str(p) }),
                None => Err(invalid_payload(command, payload)),
            },
            QueryKind::Unsubscribe => match payload {
                Some(p) => Ok(Query::Unsubscribe { newsletter: String::from_str(p) }),
                None => Err(invalid_payload(command, payload)),
            },
            QueryKind::ManageSubscriptions => if payload.is_none() {
                Ok(Query::ManageSubscriptions)
            } else {
                Err(invalid_payload(command, payload))
            },
        }
    }

    /// The text of this query.
    pub fn to_string(&self) -> (r: String)
        ensures
            r@ == query_text(*self),
    {
        let (command, payload): (&str, Option<String>) = match self {
            Query::OpenMainMenu => ("open-main-menu", None),
            Query::OpenKb => ("open-kb", None),
            Query::OpenNewsletterArchive => ("open-nl-archive", None),
            Query::OpenCalendar => ("open-calendar", None),
            Query::OpenFeedback => ("open-feedback", None),
            Query::OpenFeedbackTopic { topic } => ("open-feedback-topic", Some(topic.to_string())),
            Query::OpenNlSettings => ("open-nl-settings", None),
            Query::KbGoUp => ("kb-go-up", None),
            Query::KbNavToDir { id } => ("kb-nav-to-dir", Some(id.to_string())),
            Query::KbNavToNote { id } => ("kb-nav-to-note", Some(id.to_string())),
            Query::GoBack => ("kb-go-back", None),
            Query::KbEditNote { id } => ("kb-edit-note", Some(id.to_string())),
            Query::KbRenameNote { id } => ("kb-rename-note", Some(id.to_string())),
            Query::KbMoveNote { id } => ("kb-move-note", Some(id.to_string())),
            Query::KbDeleteNote { id } => ("kb-delete-note", Some(id.to_string())),
            Query::KbPinNote { id } => ("kb-pin-note", Some(id.to_string())),
            Query::KbUnpinNote { id } => ("kb-unpin-note", Some(id.to_string())),
            Query::KbConfirmNoteDeletion { id } => ("kb-confirm-note-del", Some(id.to_string())),
            Query::KbCancelNoteDeletion { id } => ("kb-cancel-note-del", Some(id.to_string())),
            Query::KbEditDir { id } => ("kb-edit-dir", Some(id.to_string())),
            Query::KbCreateNote { destination } => ("kb-create-note", Some(destination.to_string())),
            Query::KbMoveNoteHere { destination, note } => ("kb-move-note-here", Some(pair_text(destination.to_string(), note.to_string()))),
            Query::KbMoveDirectoryHere { destination, directory } => ("kb-move-dir-here", Some(pair_text(destination.to_string(), directory.to_string()))),
            Query::KbMoveDirectory { id } => ("kb-move-dir", Some(id.to_string())),
            Query::KbCreateDirectory { destination } => ("kb-create-dir", Some(destination.to_string())),
            Query::KbRenameDirectory { id } => ("kb-rename-dir", Some(id.to_string())),
            Query::KbDeleteDirectory { id } => ("kb-delete-dir", Some(id.to_string())),
            Query::KbPinDirectory { id } => ("kb-pin-dir", Some(id.to_string())),
            Query::KbUnpinDirectory { id } => ("kb-unpin-dir", Some(id.to_string())),
            Query::KbConfirmDirectoryDeletion { id } => ("kb-confirm-dir-del", Some(id.to_string())),
            Query::KbCancelDirectoryDeletion { id } => ("kb-cancel-dir-del", Some(id.to_string())),
            Query::FormOption { index } => ("form-opt", Some(decimal_text(*index as u64))),
            Query::Subscribe { newsletter } => ("subscribe", Some(newsletter.clone())),
            Query::Unsubscribe { newsletter } => ("unsubscribe", Some(newsletter.clone())),
            Query::ManageSubscriptions => ("open-sub-settings", None),
        };
        proof {
            reveal_strlit("@");
        }
        let mut s = String::from_str(command);
        match payload {
            None => {},
            Some(p) => {
                s.append("@");
                s.append(p.as_str());
            },
        }
        proof {
            assert(s@ =~= query_text(*self));
        }
        s
    }
}

fn pair_text(a: String, b: String) -> (r: String)
    ensures
        r@ == a@ + seq![','] + b@,
{
    let mut s = a;
    s.append(",");
    s.append(b.as_str());
    proof {
        reveal_strlit(",");
        assert(s@ =~= a@ + seq![','] + b@);
    }
    s
}


fn is_command_text(s: &str) -> (r: bool)
    ensures
        r == valid_command(s@),
{
    let n = s.unicode_len();
    if n == 0 {
        return false;
    }
    let mut i: usize = 0;
    while i < n
        invariant
            n == s@.len(),
            i <= n,
            forall|j: int| 0 <= j < i ==> is_command_char(#[trigger] s@[j]),
        decreases n - i,
    {
        let c = s.get_char(i);
        if !(('a' <= c && c <= 'z') || ('A' <= c && c <= 'Z') || ('0' <= c && c <= '9') || c == '_' || c == '-') {
            return false;
        }
        i = i + 1;
    }
    true
}

fn has_line_break(s: &str) -> (r: bool)
    ensures
        r == !no_line_break(s@),
{
    find_char(s, '\n').is_some()
}

/// Reads the text of a callback query.
pub fn parse_callback_query(query: &str) -> (r: Result<Query, QueryParseError>)
    ensures
        query_parts(query@) is None ==> r == Err::<Query, QueryParseError>(QueryParseError::InvalidSyntax),
        query_parts(query@) matches Some((c, p)) ==> parsed(c, p, r),
{
    let n = query.unicode_len();
    let (command, payload) = match find_char(query, '@') {
        Some(i) => (query.substring_char(0, i), Some(query.substring_char(i + 1, n))),
        None => (query, None),
    };
    proof {
        assert(command_part(query@) == command@);
        assert(payload_part(query@) == opt_str_view(payload));
    }
    if !is_command_text(command) {
        return Err(QueryParseError::InvalidSyntax);
    }
    if let Some(p) = payload {
        if has_line_break(p) {
            return Err(QueryParseError::InvalidSyntax);
        }
    }
    Query::from_parts(command, payload)
}


/// The text of a payload made of an address holds no `@` and no line break.
proof fn lemma_pair_text_plain(a: u64, b: u64)
    ensures
        forall|j: int| 0 <= j < crate::ids::pair_text(a, b).len() ==> #[trigger] crate::ids::pair_text(a, b)[j] != '@'
            && crate::ids::pair_text(a, b)[j] != '\n',
{
    crate::text::lemma_decimal_of_has_no(a as nat, '@');
    crate::text::lemma_decimal_of_has_no(b as nat, '@');
    crate::text::lemma_decimal_of_has_no(a as nat, '\n');
    crate::text::lemma_decimal_of_has_no(b as nat, '\n');
    let t = crate::ids::pair_text(a, b);
    let l = decimal_of(a as nat);
    assert forall|j: int| 0 <= j < t.len() implies #[trigger] t[j] != '@' && t[j] != '\n' by {
        if j < l.len() {
            assert(t[j] == l[j]);
        } else if j > l.len() {
            assert(t[j] == decimal_of(b as nat)[j - l.len() - 1]);
        }
    }
}

/// A command followed by `@` and a payload splits back into the two.
proof fn lemma_split_command(c: Seq<char>, p: Seq<char>)
    requires
        valid_command(c),
        no_line_break(p),
    ensures
        query_parts(c + seq!['@'] + p) == Some((c, Some(p))),
{
    let s = c + seq!['@'] + p;
    assert forall|j: int| 0 <= j < c.len() implies s[j] != '@' by {
        assert(s[j] == c[j]);
        assert(is_command_char(c[j]));
    }
    crate::text::lemma_first_index_of(s, '@', c.len() as int);
    assert(s.subrange(0, c.len() as int) =~= c);
    assert(s.subrange(c.len() as int + 1, s.len() as int) =~= p);
}

/// Reading the text of a query that navigates to a directory gives that query
/// back: `r` is what `parse_callback_query` returns on that text.
pub proof fn lemma_nav_to_dir_round_trip(id: FullDirectoryId, r: Result<Query, QueryParseError>)
    requires
        query_parts(query_text(Query::KbNavToDir { id })) matches Some((c, p)) ==> parsed(c, p, r),
    ensures
        r == Ok::<Query, QueryParseError>(Query::KbNavToDir { id }),
{
    reveal_strlit("kb-nav-to-dir");
    reveal_strlit("open-main-menu");
    reveal_strlit("open-kb");
    reveal_strlit("open-nl-archive");
    reveal_strlit("open-calendar");
    reveal_strlit("open-feedback");
    reveal_strlit("open-feedback-topic");
    reveal_strlit("open-nl-settings");
    reveal_strlit("kb-go-up");
    let c = "kb-nav-to-dir"@;
    let p = id.text();
    lemma_pair_text_plain(id.provider.0, id.directory.0);
    assert(valid_command(c));
    lemma_split_command(c, p);
    crate::ids::lemma_directory_id_round_trip(id);
    assert(c[0] == 'k' && c.len() == 13);
    assert(kind_of(c) == Some(QueryKind::KbNavToDir));
}

/// Reading the text of a query that navigates to a note gives that query
/// back: `r` is what `parse_callback_query` returns on that text.
pub proof fn lemma_nav_to_note_round_trip(id: FullNoteId, r: Result<Query, QueryParseError>)
    requires
        query_parts(query_text(Query::KbNavToNote { id })) matches Some((c, p)) ==> parsed(c, p, r),
    ensures
        r == Ok::<Query, QueryParseError>(Query::KbNavToNote { id }),
{
    reveal_strlit("kb-nav-to-note");
    reveal_strlit("kb-nav-to-dir");
    reveal_strlit("open-main-menu");
    reveal_strlit("open-kb");
    reveal_strlit("open-nl-archive");
    reveal_strlit("open-calendar");
    reveal_strlit("open-feedback");
    reveal_strlit("open-feedback-topic");
    reveal_strlit("open-nl-settings");
    reveal_strlit("kb-go-up");
    let c = "kb-nav-to-note"@;
    let p = id.text();
    lemma_pair_text_plain(id.provider.0, id.note.0);
    assert(valid_command(c));
    lemma_split_command(c, p);
    crate::ids::lemma_note_id_round_trip(id);
    assert(c[7] == 't' && c.len() == 14);
    assert(kind_of(c) == Some(QueryKind::KbNavToNote));
}

} // verus!

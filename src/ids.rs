//! Identifiers of providers, directories and notes, and their text form.
use vstd::prelude::*;

use crate::text::{
    decimal_of, decimal_text, find_char, first_index_of, lemma_decimal_of, lemma_decimal_of_has_no,
    lemma_first_index_of, lemma_parse_decimal, parse_u64, parse_u64_spec,
};

verus! {

/// The identifier of a directory, local to one provider.
#[derive(Debug, Clone, Copy, PartialEq, Eq, Structural, Hash, PartialOrd, Ord)]
pub struct DirectoryId(pub u64);

/// The identifier of a note, local to one provider.
#[derive(Debug, Clone, Copy, PartialEq, Eq, Structural, Hash, PartialOrd, Ord)]
pub struct NoteId(pub u64);

/// The identifier of a provider in a tree.
#[derive(Debug, Clone, Copy, PartialEq, Eq, Structural, Hash, PartialOrd, Ord)]
pub struct ProviderId(pub u64);

impl DirectoryId {
    pub fn raw(self) -> (r: u64)
        ensures
            r == self.0,
    {
        self.0
    }
}

impl NoteId {
    pub fn raw(self) -> (r: u64)
        ensures
            r == self.0,
    {
        self.0
    }
}

impl ProviderId {
    pub fn raw(self) -> (r: u64)
        ensures
            r == self.0,
    {
        self.0
    }
}

impl From<u64> for DirectoryId {
    fn from(raw: u64) -> (r: Self)
        ensures
            r.0 == raw,
    {
        DirectoryId(raw)
    }
}

impl vstd::std_specs::convert::FromSpecImpl<u64> for DirectoryId {
    open spec fn obeys_from_spec() -> bool {
        true
    }

    open spec fn from_spec(raw: u64) -> Self {
        DirectoryId(raw)
    }
}

impl From<u64> for NoteId {
    fn from(raw: u64) -> (r: Self)
        ensures
            r.0 == raw,
    {
        NoteId(raw)
    }
}

impl vstd::std_specs::convert::FromSpecImpl<u64> for NoteId {
    open spec fn obeys_from_spec() -> bool {
        true
    }

    open spec fn from_spec(raw: u64) -> Self {
        NoteId(raw)
    }
}

impl From<u64> for ProviderId {
    fn from(raw: u64) -> (r: Self)
        ensures
            r.0 == raw,
    {
        ProviderId(raw)
    }
}

impl vstd::std_specs::convert::FromSpecImpl<u64> for ProviderId {
    open spec fn obeys_from_spec() -> bool {
        true
    }

    open spec fn from_spec(raw: u64) -> Self {
        ProviderId(raw)
    }
}

/// The tree-wide address of a directory.
#[derive(Debug, Clone, Copy, PartialEq, Eq, Structural, Hash)]
pub struct FullDirectoryId {
    pub provider: ProviderId,
    pub directory: DirectoryId,
}

/// The tree-wide address of a note.
#[derive(Debug, Clone, Copy, PartialEq, Eq, Structural, Hash)]
pub struct FullNoteId {
    pub provider: ProviderId,
    pub note: NoteId,
}

/// The tree-wide address of a directory or a note.
#[derive(Debug, Clone, Copy, PartialEq, Eq, Structural, Hash)]
pub enum FullItemId {
    Directory(FullDirectoryId),
    Note(FullNoteId),
}

/// The text `"provider:local"` of a pair of numbers.
pub open spec fn pair_text(a: u64, b: u64) -> Seq<char> {
    decimal_of(a as nat) + seq![':'] + decimal_of(b as nat)
}

/// What reading `"provider:local"` gives: the text up to the first `:` and
/// the text after it, each read as a `u64`.
pub open spec fn parse_pair_spec(s: Seq<char>) -> Option<(u64, u64)> {
    match first_index_of(s, ':') {
        Some(i) => match (
            parse_u64_spec(s.subrange(0, i)),
            parse_u64_spec(s.subrange(i + 1, s.len() as int)),
        ) {
            (Some(a), Some(b)) => Some((a, b)),
            _ => None,
        },
        None => None,
    }
}

/// Reading back the text of a pair gives the pair.
pub proof fn lemma_pair_round_trip(a: u64, b: u64)
    ensures
        parse_pair_spec(pair_text(a, b)) == Some((a, b)),
{
    let l = decimal_of(a as nat);
    let r = decimal_of(b as nat);
    let s = pair_text(a, b);
    lemma_decimal_of(a as nat);
    lemma_decimal_of_has_no(a as nat, ':');
    assert forall|j: int| 0 <= j < l.len() implies s[j] != ':' by {
        assert(s[j] == l[j]);
    }
    assert(s[l.len() as int] == ':');
    lemma_first_index_of(s, ':', l.len() as int);
    assert(s.subrange(0, l.len() as int) =~= l);
    assert(s.subrange(l.len() as int + 1, s.len() as int) =~= r);
    lemma_parse_decimal(a);
    lemma_parse_decimal(b);
}

fn pair_to_text(a: u64, b: u64) -> (r: String)
    ensures
        r@ == pair_text(a, b),
{
    let mut s = decimal_text(a);
    let colon = ":";
    proof {
        reveal_strlit(":");
    }
    s.append(colon);
    let t = decimal_text(b);
    s.append(t.as_str());
    proof {
        assert(s@ =~= pair_text(a, b));
    }
    s
}

fn parse_pair(s: &str) -> (r: Option<(u64, u64)>)
    ensures
        r == parse_pair_spec(s@),
{
    match find_char(s, ':') {
        None => None,
        Some(i) => {
            let n = s.unicode_len();
            let left = s.substring_char(0, i);
            let right = s.substring_char(i + 1, n);
            match (parse_u64(left), parse_u64(right)) {
                (Some(a), Some(b)) => Some((a, b)),
                _ => None,
            }
        },
    }
}

impl FullDirectoryId {
    /// The text `"provider:directory"`.
    pub open spec fn text(self) -> Seq<char> {
        pair_text(self.provider.0, self.directory.0)
    }

    /// Reads the text `"provider:directory"`.
    pub open spec fn parse_spec(s: Seq<char>) -> Option<FullDirectoryId> {
        match parse_pair_spec(s) {
            Some((a, b)) => Some(FullDirectoryId { provider: ProviderId(a), directory: DirectoryId(b) }),
            None => None,
        }
    }

    pub fn to_string(&self) -> (r: String)
        ensures
            r@ == self.text(),
    {
        pair_to_text(self.provider.0, self.directory.0)
    }

    pub fn parse(s: &str) -> (r: Option<FullDirectoryId>)
        ensures
            r == Self::parse_spec(s@),
    {
        match parse_pair(s) {
            Some((a, b)) => Some(FullDirectoryId { provider: ProviderId(a), directory: DirectoryId(b) }),
            None => None,
        }
    }
}

impl FullNoteId {
    /// The text `"provider:note"`.
    pub open spec fn text(self) -> Seq<char> {
        pair_text(self.provider.0, self.note.0)
    }

    /// Reads the text `"provider:note"`.
    pub open spec fn parse_spec(s: Seq<char>) -> Option<FullNoteId> {
        match parse_pair_spec(s) {
            Some((a, b)) => Some(FullNoteId { provider: ProviderId(a), note: NoteId(b) }),
            None => None,
        }
    }

    pub fn to_string(&self) -> (r: String)
        ensures
            r@ == self.text(),
    {
        pair_to_text(self.provider.0, self.note.0)
    }

    pub fn parse(s: &str) -> (r: Option<FullNoteId>)
        ensures
            r == Self::parse_spec(s@),
    {
        match parse_pair(s) {
            Some((a, b)) => Some(FullNoteId { provider: ProviderId(a), note: NoteId(b) }),
            None => None,
        }
    }
}

/// Reading back the text of a directory address gives the address.
pub proof fn lemma_directory_id_round_trip(x: FullDirectoryId)
    ensures
        FullDirectoryId::parse_spec(x.text()) == Some(x),
{
    lemma_pair_round_trip(x.provider.0, x.directory.0);
}

/// Reading back the text of a note address gives the address.
pub proof fn lemma_note_id_round_trip(x: FullNoteId)
    ensures
        FullNoteId::parse_spec(x.text()) == Some(x),
{
    lemma_pair_round_trip(x.provider.0, x.note.0);
}

} // verus!

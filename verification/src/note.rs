//! A note: its name, the metadata that its front-matter block gives, and its
//! body with the links rewritten.

use vstd::prelude::*;
use crate::header::{entry_view, header_view, Header, HeaderValue, HeaderValueView, HeaderView};
use crate::links::{normalize_links, normalized};

verus! {

/// Why a file gave no note.
#[derive(Debug, Clone, Copy, PartialEq, Eq, Structural)]
pub enum NoteError {
    /// The file could not be read as text.
    Io,
    /// The file has no name.
    MissingName,
    /// The file does not open with a front-matter block.
    MissingHeader,
    /// The front-matter block lacks an entry that a note must have, or gives
    /// one a value of the wrong kind.
    Deserialization,
}

/// The kind of a note, written `main` or `source` in a front-matter block.
#[derive(Debug, Clone, Copy, PartialEq, Eq, Structural)]
pub enum ZettelType {
    Main,
    Source,
}

/// The kind that `word` names, if it names one.
pub open spec fn kind_named(word: Seq<char>) -> Option<ZettelType> {
    if word == seq!['m', 'a', 'i', 'n'] {
        Some(ZettelType::Main)
    } else if word == seq!['s', 'o', 'u', 'r', 'c', 'e'] {
        Some(ZettelType::Source)
    } else {
        None
    }
}

impl ZettelType {
    /// Reads a kind as a front-matter block spells it: `main` or `source`,
    /// in lower case and with nothing around it.
    pub fn parse(word: &str) -> (kind: Option<ZettelType>)
        ensures
            kind == kind_named(word@),
    {
        proof {
            reveal_strlit("main");
            reveal_strlit("source");
        }
        let word = word.to_owned();
        let main = "main".to_owned();
        let source = "source".to_owned();
        assert(main@ =~= seq!['m', 'a', 'i', 'n']);
        assert(source@ =~= seq!['s', 'o', 'u', 'r', 'c', 'e']);
        if word == main {
            Some(ZettelType::Main)
        } else if word == source {
            Some(ZettelType::Source)
        } else {
            None
        }
    }
}

/// What a note's front-matter block says of it.
#[derive(Debug, PartialEq, Eq)]
pub struct NoteMetadata {
    /// Where the note's matter comes from; `None` for a note of one's own.
    pub source: Option<String>,
    /// A free word that files the note.
    pub scope: String,
    /// The kind of the note.
    pub kind: ZettelType,
    /// When the note was made, as the block has it.
    pub created: String,
    /// When the note was last changed, as the block has it.
    pub modified: String,
}

/// A [`NoteMetadata`] with its texts as sequences of characters.
pub struct NoteMetadataView {
    pub source: Option<Seq<char>>,
    pub scope: Seq<char>,
    pub kind: ZettelType,
    pub created: Seq<char>,
    pub modified: Seq<char>,
}

impl View for NoteMetadata {
    type V = NoteMetadataView;

    open spec fn view(&self) -> NoteMetadataView {
        NoteMetadataView {
            source: match self.source {
                Some(source) => Some(source@),
                None => None,
            },
            scope: self.scope@,
            kind: self.kind,
            created: self.created@,
            modified: self.modified@,
        }
    }
}

/// The text of an entry that must be there and be a string.
pub open spec fn required_text(value: Option<HeaderValueView>) -> Option<Seq<char>> {
    match value {
        Some(HeaderValueView::Text(text)) => Some(text),
        _ => None,
    }
}

/// The text of an entry that may be left out or left empty, and must be a
/// string otherwise: `Some(None)` where there is none, `None` where the value
/// is of another kind.
pub open spec fn optional_text(value: Option<HeaderValueView>) -> Option<Option<Seq<char>>> {
    match value {
        None => Some(None),
        Some(HeaderValueView::Null) => Some(None),
        Some(HeaderValueView::Text(text)) => Some(Some(text)),
        _ => None,
    }
}

/// The metadata that a header gives: `scope`, `type`, `created` and `modified`
/// must be strings, `type` one that names a kind, and `source` a string where
/// it has a value at all.
pub open spec fn metadata_of(header: HeaderView) -> Option<NoteMetadataView> {
    match (
        optional_text(header.source),
        required_text(header.scope),
        required_text(header.kind),
        required_text(header.created),
        required_text(header.modified),
    ) {
        (Some(source), Some(scope), Some(word), Some(created), Some(modified)) => match kind_named(
            word,
        ) {
            Some(kind) => Some(NoteMetadataView { source, scope, kind, created, modified }),
            None => None,
        },
        _ => None,
    }
}

/// The view of metadata that may be missing.
pub open spec fn metadata_view(metadata: Option<NoteMetadata>) -> Option<NoteMetadataView> {
    match metadata {
        Some(metadata) => Some(metadata@),
        None => None,
    }
}

/// The string that an entry must hold.
fn take_required(value: Option<HeaderValue>) -> (text: Option<String>)
    ensures
        match text {
            Some(text) => required_text(entry_view(value)) == Some(text@),
            None => required_text(entry_view(value)) is None,
        },
{
    match value {
        Some(HeaderValue::Text(text)) => Some(text),
        _ => None,
    }
}

/// The string that an entry may hold.
fn take_optional(value: Option<HeaderValue>) -> (text: Option<Option<String>>)
    ensures
        match text {
            Some(Some(text)) => optional_text(entry_view(value)) == Some(
                Some(text@),
            ),
            Some(None) => optional_text(entry_view(value)) == Some(
                None::<Seq<char>>,
            ),
            None => optional_text(entry_view(value)) is None,
        },
{
    match value {
        None => Some(None),
        Some(HeaderValue::Null) => Some(None),
        Some(HeaderValue::Text(text)) => Some(Some(text)),
        _ => None,
    }
}

impl NoteMetadata {
    /// Makes a note's metadata from the entries of its front-matter block.
    /// `None` where a required entry is missing, where an entry is not a
    /// string, or where `type` names no kind.
    pub fn from_header(header: Header) -> (metadata: Option<NoteMetadata>)
        ensures
            metadata_view(metadata) == metadata_of(header@),
    {
        let Header { source, scope, kind, created, modified } = header;
        let source = take_optional(source);
        let scope = take_required(scope);
        let word = take_required(kind);
        let created = take_required(created);
        let modified = take_required(modified);
        match (source, scope, word, created, modified) {
            (Some(source), Some(scope), Some(word), Some(created), Some(modified)) => {
                match ZettelType::parse(word.as_str()) {
                    Some(kind) => Some(NoteMetadata { source, scope, kind, created, modified }),
                    None => None,
                }
            },
            _ => None,
        }
    }
}

/// One note of the vault.
#[derive(Debug, PartialEq, Eq)]
pub struct Note {
    /// The name of the file that holds the note.
    pub name: String,
    /// What the front-matter block says of the note.
    pub metadata: NoteMetadata,
    /// The text after the front-matter block, with its links rewritten.
    pub body: String,
}

/// A [`Note`] with its texts as sequences of characters.
pub struct NoteView {
    pub name: Seq<char>,
    pub metadata: NoteMetadataView,
    pub body: Seq<char>,
}

impl View for Note {
    type V = NoteView;

    open spec fn view(&self) -> NoteView {
        NoteView { name: self.name@, metadata: self.metadata@, body: self.body@ }
    }
}

impl Note {
    /// The note has a name. Every note that this library makes has one.
    pub open spec fn well_formed(&self) -> bool {
        self.name@.len() > 0
    }
}

/// The view of what reading a note gave.
pub open spec fn outcome_view(outcome: Result<Note, NoteError>) -> Result<NoteView, NoteError> {
    match outcome {
        Ok(note) => Ok(note@),
        Err(error) => Err(error),
    }
}

/// The note that a name, a header and a body make: none without a name, none
/// without a header, none where the header does not give the metadata, and
/// else the note with the body's links rewritten.
pub open spec fn note_of(name: Seq<char>, header: Option<HeaderView>, body: Seq<char>) -> Result<
    NoteView,
    NoteError,
> {
    if name.len() == 0 {
        Err(NoteError::MissingName)
    } else {
        match header {
            None => Err(NoteError::MissingHeader),
            Some(header) => match metadata_of(header) {
                None => Err(NoteError::Deserialization),
                Some(metadata) => Ok(NoteView { name, metadata, body: normalized(body) }),
            },
        }
    }
}

/// Makes a note from the name of its file and the two parts of its text.
pub fn assemble_note(name: &str, header: Option<Header>, body: &str) -> (outcome: Result<
    Note,
    NoteError,
>)
    ensures
        outcome_view(outcome) == note_of(name@, header_view(header), body@),
        outcome matches Ok(note) ==> note.well_formed(),
{
    if name.is_empty() {
        return Err(NoteError::MissingName);
    }
    let header = match header {
        Some(header) => header,
        None => {
            return Err(NoteError::MissingHeader);
        },
    };
    match NoteMetadata::from_header(header) {
        Some(metadata) => Ok(
            Note { name: name.to_owned(), metadata, body: normalize_links(body) },
        ),
        None => Err(NoteError::Deserialization),
    }
}

} // verus!

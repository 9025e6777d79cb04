//! A vault: the files of one directory, and the notes among them.

use vstd::prelude::*;
use crate::header::{entry, front_matter, header_in, split_note, HeaderValueView};
use crate::note::{assemble_note, kind_named, note_of, outcome_view, Note, NoteError, NoteView};

verus! {

/// One file of the vault, as it was found.
#[derive(Debug, PartialEq, Eq)]
pub struct VaultFile {
    /// The last component of the file's path; empty where the path has none.
    pub name: String,
    /// The file's text; `None` where the file could not be read as text.
    pub contents: Option<String>,
}

/// A [`VaultFile`] with its texts as sequences of characters.
pub struct VaultFileView {
    pub name: Seq<char>,
    pub contents: Option<Seq<char>>,
}

impl View for VaultFile {
    type V = VaultFileView;

    open spec fn view(&self) -> VaultFileView {
        VaultFileView {
            name: self.name@,
            contents: match self.contents {
                Some(text) => Some(text@),
                None => None,
            },
        }
    }
}

/// What reading `file` gives: no note from a file that could not be read, and
/// else the note that the file's name makes with the two parts of its text.
pub open spec fn read_outcome(file: VaultFileView) -> Result<NoteView, NoteError> {
    match file.contents {
        None => Err(NoteError::Io),
        Some(text) => note_of(file.name, header_in(front_matter(text)), front_matter(text).body),
    }
}

/// Reads one file of the vault as a note.
pub fn read_note(file: &VaultFile) -> (outcome: Result<Note, NoteError>)
    ensures
        outcome_view(outcome) == read_outcome(file@),
        outcome matches Ok(note) ==> note.well_formed(),
{
    match &file.contents {
        None => Err(NoteError::Io),
        Some(text) => {
            let (header, body) = split_note(text.as_str());
            assemble_note(file.name.as_str(), header, body.as_str())
        },
    }
}

/// The notes among `files`, in the order of their files.
pub open spec fn notes_among(files: Seq<VaultFileView>) -> Seq<NoteView>
    decreases files.len(),
{
    if files.len() == 0 {
        Seq::empty()
    } else {
        let before = notes_among(files.drop_last());
        match read_outcome(files.last()) {
            Ok(note) => before.push(note),
            Err(_) => before,
        }
    }
}

/// The views of `files`, in order.
pub open spec fn files_view(files: Seq<VaultFile>) -> Seq<VaultFileView> {
    Seq::new(files.len(), |i: int| files[i]@)
}

/// The views of `notes`, in order.
pub open spec fn notes_view(notes: Seq<Note>) -> Seq<NoteView> {
    Seq::new(notes.len(), |i: int| notes[i]@)
}

/// Reads every file of the vault and keeps the notes, in the order of their
/// files. A file that gives no note is passed over.
pub fn read_vault(files: &Vec<VaultFile>) -> (notes: Vec<Note>)
    ensures
        notes_view(notes@) == notes_among(files_view(files@)),
        notes.len() <= files.len(),
        forall|i: int| 0 <= i < notes.len() ==> notes[i].well_formed(),
{
    let mut notes: Vec<Note> = Vec::new();
    let mut i: usize = 0;
    while i < files.len()
        invariant
            i <= files.len(),
            notes.len() <= i,
            forall|j: int| 0 <= j < notes.len() ==> notes[j].well_formed(),
            notes_view(notes@) == notes_among(files_view(files@).take(i as int)),
        decreases files.len() - i,
    {
        let ghost before = notes_view(notes@);
        assert(files_view(files@).take(i + 1).drop_last() =~= files_view(files@).take(i as int));
        match read_note(&files[i]) {
            Ok(note) => {
                notes.push(note);
                assert(notes_view(notes@) =~= before.push(note@));
            },
            Err(_) => {},
        }
        i += 1;
    }
    assert(files_view(files@).take(i as int) =~= files_view(files@));
    notes
}

/// `i` is the place of the first note that is named `name`.
pub open spec fn is_first_named(notes: Seq<Note>, name: Seq<char>, i: int) -> bool {
    &&& 0 <= i < notes.len()
    &&& notes[i].name@ == name
    &&& forall|j: int| 0 <= j < i ==> notes[j].name@ != name
}

/// The first note that is named `name`, if there is one.
pub fn find_note<'a>(notes: &'a Vec<Note>, name: &str) -> (found: Option<&'a Note>)
    ensures
        match found {
            Some(note) => exists|i: int| is_first_named(notes@, name@, i) && notes[i] == *note,
            None => forall|i: int| 0 <= i < notes.len() ==> notes[i].name@ != name@,
        },
{
    let wanted = name.to_owned();
    let mut i: usize = 0;
    while i < notes.len()
        invariant
            i <= notes.len(),
            wanted@ == name@,
            forall|j: int| 0 <= j < i ==> notes[j].name@ != name@,
        decreases notes.len() - i,
    {
        if notes[i].name == wanted {
            assert(is_first_named(notes@, name@, i as int));
            return Some(&notes[i]);
        }
        i += 1;
    }
    None
}

/// Reading the same text again gives the same metadata and the same body: a
/// note's name is all that it has from elsewhere. With a name on both files,
/// either both give a note or neither does, and for the same reason.
pub proof fn lemma_same_text_same_metadata(first: VaultFileView, second: VaultFileView)
    requires
        first.contents == second.contents,
    ensures
        match (read_outcome(first), read_outcome(second)) {
            (Ok(a), Ok(b)) => a.metadata == b.metadata && a.body == b.body,
            _ => true,
        },
        first.name.len() > 0 && second.name.len() > 0 ==> match (
            read_outcome(first),
            read_outcome(second),
        ) {
            (Ok(_), Ok(_)) => true,
            (Err(e), Err(f)) => e == f,
            _ => false,
        },
{
}

/// A file whose text does not open with a front-matter block gives no note.
pub proof fn lemma_no_header_no_note(file: VaultFileView, text: Seq<char>)
    requires
        file.contents == Some(text),
        front_matter(text).header is None,
    ensures
        read_outcome(file) is Err,
        file.name.len() > 0 ==> read_outcome(file) == Err::<NoteView, NoteError>(
            NoteError::MissingHeader,
        ),
{
}

/// A file whose front-matter block gives `type` a word that names no kind
/// gives no note.
pub proof fn lemma_unknown_kind_no_note(
    file: VaultFileView,
    text: Seq<char>,
    entries: crate::header::Entries,
    word: Seq<char>,
)
    requires
        file.contents == Some(text),
        front_matter(text).header == Some(entries),
        entry(entries, "type"@) == Some(HeaderValueView::Text(word)),
        kind_named(word) is None,
    ensures
        read_outcome(file) is Err,
        file.name.len() > 0 ==> read_outcome(file) == Err::<NoteView, NoteError>(
            NoteError::Deserialization,
        ),
{
}

/// The notes of two runs of files, one after the other, are the notes of the
/// first run and then those of the second.
pub proof fn lemma_notes_among_both(first: Seq<VaultFileView>, second: Seq<VaultFileView>)
    ensures
        notes_among(first + second) == notes_among(first) + notes_among(second),
    decreases second.len(),
{
    if second.len() == 0 {
        assert(first + second =~= first);
        assert(notes_among(first) + notes_among(second) =~= notes_among(first));
    } else {
        lemma_notes_among_both(first, second.drop_last());
        assert((first + second).drop_last() =~= first + second.drop_last());
        assert((first + second).last() == second.last());
        match read_outcome(second.last()) {
            Ok(note) => {
                assert(notes_among(first + second) =~= notes_among(first) + notes_among(second));
            },
            Err(_) => {},
        }
    }
}

/// A file that gives no note leaves no trace: the vault has the notes that it
/// would have without that file, wherever the file stands.
pub proof fn lemma_failed_file_is_passed_over(
    before: Seq<VaultFileView>,
    file: VaultFileView,
    after: Seq<VaultFileView>,
)
    requires
        read_outcome(file) is Err,
    ensures
        notes_among(before.push(file) + after) == notes_among(before + after),
{
    lemma_notes_among_both(before.push(file), after);
    lemma_notes_among_both(before, after);
    assert(before.push(file).drop_last() =~= before);
}

} // verus!
